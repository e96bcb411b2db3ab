use nixhist::commands::{
    build_delete_command, build_restore_command, completed_command_result, delete_generations,
    get_delete_command_preview, restore_generation, CommandPlan,
};
use nixhist::types::ProfileType;

#[test]
fn test_build_delete_command() {
    let path = "/nix/var/nix/profiles/system";
    let cmd = build_delete_command(path, &vec![140, 141], ProfileType::System, false);
    assert!(cmd.contains("sudo"));
    assert!(cmd.contains("--delete-generations"));
    assert!(cmd.contains("140"));
    assert!(cmd.contains("141"));
}

#[test]
fn test_dry_run_restore() {
    let path = "/nix/var/nix/profiles/system";
    let plan = restore_generation(path, 140, ProfileType::System, None, true);
    match plan {
        CommandPlan::Done(result) => {
            assert!(result.success);
            assert!(result.message.contains("Dry run"));
        }
        CommandPlan::Execute { .. } => panic!("a dry run must not execute anything"),
    }
}

#[test]
fn test_dry_run_delete() {
    let path = "/nix/var/nix/profiles/system";
    let plan = delete_generations(path, &vec![140, 141], ProfileType::System, false, true);
    match plan {
        CommandPlan::Done(result) => {
            assert!(result.success);
            assert!(result.message.contains("Dry run"));
        }
        CommandPlan::Execute { .. } => panic!("a dry run must not execute anything"),
    }
}

#[test]
fn test_delete_command_exact() {
    let cmd = build_delete_command("/nix/var/nix/profiles/system", &vec![7, 8], ProfileType::System, false);
    assert_eq!(
        cmd,
        "sudo nix-env --delete-generations 7 8 --profile /nix/var/nix/profiles/system"
    );
}

#[test]
fn test_restore_command_exact() {
    let cmd = build_restore_command("/nix/var/nix/profiles/system", 42, ProfileType::System, None);
    assert_eq!(
        cmd,
        "sudo /nix/var/nix/profiles/system-42-link/bin/switch-to-configuration switch"
    );
}

#[test]
fn test_restore_command_home_manager_fallback() {
    let cmd = build_restore_command("/p/home-manager", 3, ProfileType::HomeManager, None);
    assert_eq!(cmd, "nix-env --switch-generation 3 --profile /p/home-manager");
}

#[test]
fn test_restore_command_home_manager_standalone() {
    let link = String::from("/home/u/.local/state/home-manager/profiles/home-manager-3-link");
    let cmd = build_restore_command("/p", 3, ProfileType::HomeManager, Some(&link));
    assert_eq!(
        cmd,
        "/home/u/.local/state/home-manager/profiles/home-manager-3-link/activate"
    );
}

#[test]
fn test_delete_preview_matches_command() {
    let ids = vec![1, 2, 3];
    let preview = get_delete_command_preview("/a/b", &ids, ProfileType::HomeManager, true);
    let built = build_delete_command("/a/b", &ids, ProfileType::HomeManager, true);
    assert_eq!(preview, built);
    assert_eq!(preview, "home-manager remove-generations 1 2 3");
}

#[test]
fn test_delete_empty_set_fails_without_execution() {
    let plan = delete_generations("/p", &vec![], ProfileType::System, false, false);
    match plan {
        CommandPlan::Done(result) => {
            assert!(!result.success);
            assert_eq!(result.message, "No generations specified for deletion");
        }
        CommandPlan::Execute { .. } => panic!("an empty target set must not execute anything"),
    }
}

#[test]
fn test_completed_command_result_messages() {
    let ok = completed_command_result(
        String::from("cmd"),
        "delete 2 generation(s)",
        true,
        "",
        "",
        Some(0),
    );
    assert!(ok.success);
    assert_eq!(ok.message, "Successfully delete 2 generation(s)");

    let err = completed_command_result(
        String::from("cmd"),
        "delete 2 generation(s)",
        false,
        "",
        "  boom  \n",
        Some(1),
    );
    assert!(!err.success);
    assert_eq!(err.message, "Failed to delete 2 generation(s): boom");

    let silent = completed_command_result(String::from("cmd"), "x", false, "", "", Some(-3));
    assert_eq!(silent.message, "Failed to x: Command failed with exit code: Some(-3)");
}
