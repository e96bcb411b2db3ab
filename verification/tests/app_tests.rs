use nixhist::app::{Action, App, AppState, Key, PopupState, UndoAction};
use nixhist::commands::CommandResult;
use nixhist::config::Config;
use nixhist::detect::SystemInfo;
use nixhist::types::{Package, ProfileType, Tab, Timestamp};
use nixhist::types::Generation;

fn gen(id: u32, current: bool, pinned: bool) -> Generation {
    Generation {
        id,
        date: Timestamp { year: 2024, month: 1, day: 1, hour: 0, minute: 0, second: 0 },
        is_current: current,
        nixos_version: None,
        kernel_version: None,
        package_count: 0,
        closure_size: 0,
        store_path: String::new(),
        is_pinned: pinned,
        in_bootloader: false,
    }
}

fn info() -> SystemInfo {
    SystemInfo {
        hostname: "host".into(),
        username: "user".into(),
        uses_flakes: false,
        system_profile: "/nix/var/nix/profiles/system".into(),
        home_manager: None,
    }
}

fn app_with(gens: Vec<Generation>, dry_run: bool) -> App {
    let mut config = Config::default();
    for g in &gens {
        if g.is_pinned {
            config.toggle_system_pin(g.id);
        }
    }
    App::new(info(), config, dry_run, false, gens, None)
}

fn pkg(name: &str) -> Package {
    Package { name: name.into(), version: "1".into(), size: 0 }
}

#[test]
fn cursor_stays_in_bounds_under_any_motions() {
    let mut app = app_with(vec![gen(3, true, false), gen(2, false, false), gen(1, false, false)], false);
    let keys = ['j', 'j', 'j', 'j', 'k', 'G', 'j', 'k', 'k', 'k', 'g', 'k', 'G', 'j'];
    for k in keys {
        app.handle_key(Key::Char(k), 0);
        assert!(app.overview_system_selected < 3);
    }
    app.handle_key(Key::Char('4'), 0);
    for k in keys {
        app.handle_key(Key::Char(k), 0);
        assert!(app.manage_cursor < 3);
    }
}

#[test]
fn empty_list_keeps_cursor_at_zero() {
    let mut app = app_with(vec![], false);
    for k in ['j', 'G', 'k', 'g', 'j'] {
        app.handle_key(Key::Char(k), 0);
        assert_eq!(app.overview_system_selected, 0);
    }
}

#[test]
fn filter_with_no_matches_is_empty_and_cursor_zero() {
    let mut app = app_with(vec![gen(1, true, false)], false);
    app.handle_key(Key::Char('2'), 0);
    app.packages_loaded(vec![pkg("firefox"), pkg("neovim"), pkg("git")]);
    app.handle_key(Key::Char('j'), 0);
    assert_eq!(app.packages_selected, 1);
    app.handle_key(Key::Char('/'), 0);
    app.handle_key(Key::Char('z'), 0);
    app.handle_key(Key::Char('z'), 0);
    assert_eq!(app.packages_filter, "zz");
    assert_eq!(app.packages_selected, 0);
    assert_eq!(app.filtered_packages_count(), 0);
    assert!(app.filtered_packages().is_empty());
    // motions over the empty visible list stay at 0
    app.handle_key(Key::Char('G'), 0);
    assert_eq!(app.packages_selected, 0);
    assert!(!app.should_quit);
}

#[test]
fn filter_matches_case_insensitively() {
    let mut app = app_with(vec![gen(1, true, false)], false);
    app.handle_key(Key::Char('2'), 0);
    app.packages_loaded(vec![pkg("Firefox"), pkg("neovim")]);
    app.handle_key(Key::Char('/'), 0);
    // "FIRE" matches "Firefox" only after both are folded to lower case
    for c in ['F', 'I', 'R', 'E'] {
        app.handle_key(Key::Char(c), 0);
    }
    let visible = app.filtered_packages();
    assert_eq!(visible.len(), 1);
    assert_eq!(visible[0].name, "Firefox");
    app.handle_key(Key::Esc, 0);
    assert_eq!(app.filtered_packages_count(), 2);
}

#[test]
fn dry_run_delete_reports_success_and_executes_nothing() {
    let mut app = app_with(vec![gen(3, true, false), gen(2, false, false)], true);
    let ids_before: Vec<u32> = app.system_generations.iter().map(|g| g.id).collect();
    app.handle_key(Key::Char('4'), 0);
    app.handle_key(Key::Char('j'), 0);
    app.handle_key(Key::Char('d'), 0);
    assert_eq!(app.state(), AppState::ConfirmAction);
    let action = app.handle_key(Key::Char('y'), 0);
    assert!(matches!(action, Action::Refresh));
    let flash = app.flash_message.as_ref().unwrap();
    assert!(flash.message.contains("Dry run"));
    assert!(!flash.is_error);
    assert_eq!(app.state(), AppState::Normal);
    let ids_after: Vec<u32> = app.system_generations.iter().map(|g| g.id).collect();
    assert_eq!(ids_before, ids_after);
    assert!(app.pending_undo.is_none());
}

#[test]
fn dry_run_restore_reports_success() {
    let mut app = app_with(vec![gen(3, true, false), gen(2, false, false)], true);
    app.handle_key(Key::Char('4'), 0);
    app.handle_key(Key::Char('j'), 0);
    app.handle_key(Key::Char('r'), 0);
    assert_eq!(app.state(), AppState::ConfirmAction);
    let action = app.handle_key(Key::Char('y'), 0);
    assert!(matches!(action, Action::Refresh));
    assert!(app.flash_message.as_ref().unwrap().message.contains("Dry run"));
}

#[test]
fn delete_undo_window_holds_exact_ids_and_closes_at_zero() {
    let mut app = app_with(
        vec![gen(9, true, false), gen(8, false, false), gen(7, false, false)],
        false,
    );
    app.handle_key(Key::Char('4'), 0);
    // select generations 8 and 7
    app.handle_key(Key::Char('j'), 0);
    app.handle_key(Key::Char(' '), 0);
    app.handle_key(Key::Char('j'), 0);
    app.handle_key(Key::Char(' '), 0);
    app.handle_key(Key::Char('d'), 0);
    assert_eq!(app.state(), AppState::ConfirmAction);
    let action = app.handle_key(Key::Char('y'), 100);
    let command = match action {
        Action::Execute { command, .. } => command,
        other => panic!("expected an execution, got {:?}", other),
    };
    assert!(command.contains("--delete-generations"));
    assert_eq!(app.state(), AppState::Loading);
    let result = CommandResult {
        success: true,
        message: "Successfully delete 2 generation(s)".into(),
        command,
    };
    let after = app.command_finished(result, 100);
    assert!(matches!(after, Action::Refresh));
    assert_eq!(app.state(), AppState::UndoCountdown);
    let undo = app.pending_undo.as_ref().unwrap();
    assert_eq!(undo.started_at, 100);
    let UndoAction::Delete { profile, generation_ids } = &undo.action;
    assert_eq!(*profile, ProfileType::System);
    let mut ids = generation_ids.clone();
    ids.sort();
    assert_eq!(ids, vec![7, 8]);
    assert!(app.manage_selected.is_empty());
    // the countdown is recomputed from wall time
    app.update_undo_timer(104);
    match &app.popup {
        PopupState::Undo { seconds_remaining, .. } => assert_eq!(*seconds_remaining, 6),
        other => panic!("expected the undo window, got {:?}", other),
    }
    // at zero the window closes silently and no further undo is possible
    app.update_undo_timer(110);
    assert!(app.pending_undo.is_none());
    assert_eq!(app.state(), AppState::Normal);
    let before = app.system_generations.len();
    app.handle_key(Key::Char('u'), 111);
    assert_eq!(app.system_generations.len(), before);
    assert!(app.pending_undo.is_none());
}

#[test]
fn undo_during_window_closes_and_reports_irreversible() {
    let mut app = app_with(vec![gen(2, true, false), gen(1, false, false)], false);
    app.handle_key(Key::Char('4'), 0);
    app.handle_key(Key::Char('j'), 0);
    app.handle_key(Key::Char('d'), 0);
    let action = app.handle_key(Key::Char('y'), 0);
    let command = match action {
        Action::Execute { command, .. } => command,
        other => panic!("expected an execution, got {:?}", other),
    };
    app.command_finished(
        CommandResult { success: true, message: "ok".into(), command },
        0,
    );
    assert_eq!(app.state(), AppState::UndoCountdown);
    app.handle_key(Key::Char('u'), 1);
    assert_eq!(app.state(), AppState::Normal);
    assert!(app.pending_undo.is_none());
    let flash = app.flash_message.as_ref().unwrap();
    assert!(flash.is_error);
    assert!(flash.message.contains("Cannot undo"));
}

#[test]
fn current_generation_is_never_a_target() {
    let mut app = app_with(vec![gen(5, true, false), gen(4, false, false)], false);
    app.handle_key(Key::Char('4'), 0);
    // the cursor starts on the current generation
    app.handle_key(Key::Char('r'), 0);
    assert_eq!(app.state(), AppState::Normal);
    assert!(app.pending_action.is_none());
    assert!(app.flash_message.as_ref().unwrap().is_error);
    app.handle_key(Key::Char('d'), 3);
    assert_eq!(app.state(), AppState::Normal);
    assert!(app.pending_action.is_none());
    // space refuses to select the current generation
    app.handle_key(Key::Char(' '), 6);
    assert!(app.manage_selected.is_empty());
}

#[test]
fn pinned_selected_ids_are_never_submitted() {
    let mut app = app_with(
        vec![gen(9, true, false), gen(8, false, true), gen(7, false, false)],
        false,
    );
    app.handle_key(Key::Char('4'), 0);
    // the toggle key accepts the pinned generation into the selection
    app.handle_key(Key::Char('j'), 0);
    app.handle_key(Key::Char(' '), 0);
    assert!(app.manage_selected.contains(&8));
    app.handle_key(Key::Char('j'), 0);
    app.handle_key(Key::Char(' '), 0);
    // but submission drops it: only the unprotected id is fixed
    app.handle_key(Key::Char('d'), 0);
    assert_eq!(app.state(), AppState::ConfirmAction);
    let pending = app.pending_action.as_ref().unwrap();
    assert_eq!(pending.ids, vec![7]);
    assert!(!pending.command.contains('8'));
}

#[test]
fn delete_with_only_protected_ids_selected_does_nothing() {
    let mut app = app_with(vec![gen(9, true, false), gen(8, false, true)], false);
    app.handle_key(Key::Char('4'), 0);
    app.handle_key(Key::Char('j'), 0);
    app.handle_key(Key::Char(' '), 0);
    let action = app.handle_key(Key::Char('d'), 0);
    assert!(matches!(action, Action::Idle));
    assert_eq!(app.state(), AppState::Normal);
    assert!(app.pending_action.is_none());
}

#[test]
fn pinned_generation_is_never_a_single_delete_target() {
    let mut app = app_with(vec![gen(5, true, false), gen(4, false, true)], false);
    app.handle_key(Key::Char('4'), 0);
    app.handle_key(Key::Char('j'), 0);
    app.handle_key(Key::Char('d'), 0);
    assert_eq!(app.state(), AppState::Normal);
    assert!(app.pending_action.is_none());
    let flash = app.flash_message.as_ref().unwrap();
    assert!(flash.message.contains("pinned"));
    // but a pinned generation may be restored
    app.handle_key(Key::Char('r'), 3);
    assert_eq!(app.state(), AppState::ConfirmAction);
}

#[test]
fn select_all_excludes_current_and_pinned() {
    let mut app = app_with(
        vec![gen(9, true, false), gen(8, false, true), gen(7, false, false), gen(6, false, false)],
        false,
    );
    app.handle_key(Key::Char('4'), 0);
    app.handle_key(Key::Char('a'), 0);
    let mut ids = app.manage_selected.clone();
    ids.sort();
    assert_eq!(ids, vec![6, 7]);
    app.handle_key(Key::Char('c'), 0);
    assert!(app.manage_selected.is_empty());
}

#[test]
fn confirm_cancel_has_no_side_effect() {
    let mut app = app_with(vec![gen(2, true, false), gen(1, false, false)], false);
    app.handle_key(Key::Char('4'), 0);
    app.handle_key(Key::Char('j'), 0);
    app.handle_key(Key::Char('d'), 0);
    assert_eq!(app.state(), AppState::ConfirmAction);
    let action = app.handle_key(Key::Char('n'), 0);
    assert!(matches!(action, Action::Idle));
    assert_eq!(app.state(), AppState::Normal);
    assert!(app.pending_action.is_none());
    assert!(app.pending_undo.is_none());
}

#[test]
fn failed_execution_raises_blocking_error() {
    let mut app = app_with(vec![gen(2, true, false), gen(1, false, false)], false);
    app.handle_key(Key::Char('4'), 0);
    app.handle_key(Key::Char('j'), 0);
    app.handle_key(Key::Char('d'), 0);
    let action = app.handle_key(Key::Char('y'), 0);
    let command = match action {
        Action::Execute { command, .. } => command,
        other => panic!("expected an execution, got {:?}", other),
    };
    app.command_finished(
        CommandResult { success: false, message: "permission denied".into(), command },
        0,
    );
    assert_eq!(app.state(), AppState::ShowError);
    // only explicit acknowledgement dismisses it
    app.handle_key(Key::Char('x'), 1);
    assert_eq!(app.state(), AppState::ShowError);
    app.handle_key(Key::Char('o'), 2);
    assert_eq!(app.state(), AppState::Normal);
}

#[test]
fn refresh_reclamps_cursors_and_reapplies_pins() {
    let mut app = app_with(
        vec![gen(4, true, false), gen(3, false, false), gen(2, false, false), gen(1, false, false)],
        false,
    );
    app.handle_key(Key::Char('4'), 0);
    app.handle_key(Key::Char('j'), 0);
    app.handle_key(Key::Char('j'), 0);
    app.handle_key(Key::Char('j'), 0);
    assert_eq!(app.manage_cursor, 3);
    app.config.toggle_system_pin(2);
    app.refresh_done(vec![gen(4, true, false), gen(2, false, false)], None);
    assert_eq!(app.manage_cursor, 1);
    assert_eq!(app.system_generations.len(), 2);
    assert!(app.system_generations[1].is_pinned);
}

#[test]
fn loading_discards_all_input() {
    let mut app = app_with(vec![gen(2, true, false), gen(1, false, false)], false);
    app.handle_key(Key::Char('4'), 0);
    app.handle_key(Key::Char('j'), 0);
    app.handle_key(Key::Char('d'), 0);
    app.handle_key(Key::Char('y'), 0);
    assert_eq!(app.state(), AppState::Loading);
    let action = app.handle_key(Key::Char('q'), 1);
    assert!(matches!(action, Action::Idle));
    assert!(!app.should_quit);
    assert_eq!(app.state(), AppState::Loading);
}

#[test]
fn quit_and_tab_switching() {
    let mut app = app_with(vec![gen(1, true, false)], false);
    app.handle_key(Key::Char('3'), 0);
    assert_eq!(app.active_tab, Tab::Diff);
    app.handle_key(Key::Char('5'), 0);
    assert_eq!(app.active_tab, Tab::Settings);
    app.handle_key(Key::Char('q'), 0);
    assert!(app.should_quit);
}

#[test]
fn diff_selection_requests_comparison_when_both_ends_set() {
    let mut app = app_with(vec![gen(2, true, false), gen(1, false, false)], false);
    app.handle_key(Key::Char('3'), 0);
    let first = app.handle_key(Key::Enter, 0);
    assert!(matches!(first, Action::Idle));
    app.handle_key(Key::Tab, 0);
    app.handle_key(Key::Char('j'), 0);
    let second = app.handle_key(Key::Enter, 0);
    match second {
        Action::ComputeDiff { from_path, to_path } => {
            assert_eq!(from_path, "/nix/var/nix/profiles/system-2-link");
            assert_eq!(to_path, "/nix/var/nix/profiles/system-1-link");
        }
        other => panic!("expected a diff request, got {:?}", other),
    }
    let from = vec![Package { name: "bar".into(), version: "2.0".into(), size: 0 }];
    let to = vec![Package { name: "baz".into(), version: "1.0".into(), size: 0 }];
    app.diff_packages_loaded(from, to);
    let diff = app.current_diff.as_ref().unwrap();
    assert_eq!(diff.added[0].name, "baz");
    assert_eq!(diff.removed[0].name, "bar");
}

#[test]
fn settings_toggle_requests_save() {
    let mut app = app_with(vec![gen(1, true, false)], false);
    app.handle_key(Key::Char('5'), 0);
    let action = app.handle_key(Key::Enter, 0);
    assert!(matches!(action, Action::SaveConfig { report: true }));
    assert_eq!(app.config.theme, nixhist::config::ThemeName::Nord);
    app.save_config_done(true, String::new(), 0);
    assert_eq!(app.flash_message.as_ref().unwrap().message, "Settings saved");
}

#[test]
fn pin_toggle_updates_list_and_requests_save() {
    let mut app = app_with(vec![gen(2, true, false), gen(1, false, false)], false);
    app.handle_key(Key::Char('4'), 0);
    app.handle_key(Key::Char('j'), 0);
    let action = app.handle_key(Key::Char('p'), 0);
    assert!(matches!(action, Action::SaveConfig { report: false }));
    assert!(app.system_generations[1].is_pinned);
    assert!(app.config.is_system_pinned(1));
    assert_eq!(app.flash_message.as_ref().unwrap().message, "Pin status updated");
}

#[test]
fn flash_expires_after_three_time_units() {
    let mut app = app_with(vec![gen(2, true, false)], false);
    app.handle_key(Key::Char('4'), 0);
    app.handle_key(Key::Char('r'), 10);
    assert!(app.flash_message.is_some());
    app.handle_key(Key::Char('k'), 12);
    assert!(app.flash_message.is_some());
    app.handle_key(Key::Char('k'), 13);
    assert!(app.flash_message.is_none());
}

#[test]
fn overview_enter_requests_package_load() {
    let mut app = app_with(vec![gen(2, true, false), gen(1, false, false)], false);
    let action = app.handle_key(Key::Enter, 0);
    match action {
        Action::LoadPackages { profile, gen_path, gen_id } => {
            assert_eq!(profile, ProfileType::System);
            assert_eq!(gen_id, 2);
            assert_eq!(gen_path, "/nix/var/nix/profiles/system-2-link");
        }
        other => panic!("expected a load request, got {:?}", other),
    }
    assert_eq!(app.active_tab, Tab::Packages);
    app.packages_loaded(vec![pkg("firefox")]);
    assert_eq!(app.packages_list.len(), 1);
    assert_eq!(app.packages_selected, 0);
}
