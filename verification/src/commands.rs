//! Building and planning the restore and delete commands.
//!
//! The library never runs a command itself: it builds the exact command
//! line, decides whether anything must run at all (dry runs and empty
//! target sets complete immediately), and turns a finished execution's
//! outputs into the result shown to the user.  The same construction is
//! used for the confirmation preview and for execution, so the preview
//! can never mislead.

use vstd::prelude::*;

use crate::strutil::{push_chars, push_dec_u64, spec_dec, string_from_chars};
use crate::types::ProfileType;

verus! {

/// Result of a command execution.
#[derive(Debug, Clone)]
pub struct CommandResult {
    pub success: bool,
    pub message: String,
    pub command: String,
}

/// What a requested operation requires: either it is already complete
/// (dry run, or nothing to do), or the given command must be executed.
#[derive(Debug, Clone)]
pub enum CommandPlan {
    Done(CommandResult),
    Execute { command: String, description: String },
}

/// Position of the last `'/'` in `p`, or -1.
pub open spec fn last_slash(p: Seq<char>) -> int
    decreases p.len(),
{
    if p.len() == 0 {
        -1
    } else if p.last() == '/' {
        p.len() - 1
    } else {
        last_slash(p.drop_last())
    }
}

/// The parent directory of a path without trailing slash, if it has one.
pub open spec fn spec_parent(p: Seq<char>) -> Option<Seq<char>> {
    let ls = last_slash(p);
    if ls < 0 {
        None
    } else if ls == 0 && p.len() == 1 {
        None
    } else if ls == 0 {
        Some(seq!['/'])
    } else {
        Some(p.subrange(0, ls))
    }
}

/// A path joined with a file name.
pub open spec fn spec_join(parent: Seq<char>, name: Seq<char>) -> Seq<char> {
    if parent.len() == 0 {
        name
    } else if parent.last() == '/' {
        parent + name
    } else {
        parent + seq!['/'] + name
    }
}

/// The parent directory, or the fallback when the path has none.
pub open spec fn spec_parent_or(p: Seq<char>, fallback: Seq<char>) -> Seq<char> {
    match spec_parent(p) {
        Some(d) => d,
        None => fallback,
    }
}

/// The parent directory of the path, if it has one.
pub fn parent_dir(p: &str) -> (r: Option<Vec<char>>)
    ensures
        match r {
            Some(d) => spec_parent(p@) == Some(d@),
            None => spec_parent(p@) is None,
        },
{
    let v = crate::strutil::chars_of(p);
    let mut i: usize = v.len();
    proof {
        assert(p@.subrange(0, p@.len() as int) =~= p@);
    }
    while i > 0
        invariant
            i <= v@.len(),
            v@ == p@,
            last_slash(p@) == last_slash(p@.subrange(0, i as int)),
            forall|j: int| i <= j < p@.len() ==> p@[j] != '/',
        decreases i,
    {
        let ghost t = p@.subrange(0, i as int);
        proof {
            assert(t.last() == p@[i - 1]);
            assert(t.drop_last() =~= p@.subrange(0, i - 1));
        }
        if v[i - 1] == '/' {
            proof {
                assert(last_slash(p@) == i - 1);
            }
            if i == 1 {
                if v.len() == 1 {
                    return None;
                }
                let mut d: Vec<char> = Vec::new();
                d.push('/');
                proof {
                    assert(d@ =~= seq!['/']);
                }
                return Some(d);
            }
            let d = crate::strutil::subvec(&v, 0, i - 1);
            return Some(d);
        }
        i -= 1;
    }
    proof {
        assert(p@.subrange(0, 0) =~= Seq::<char>::empty());
    }
    None
}

/// Append `spec_join(parent, name)` given the two parts.
pub(crate) fn push_join(out: &mut Vec<char>, parent: &Vec<char>, name: &Vec<char>)
    ensures
        final(out)@ == old(out)@ + spec_join(parent@, name@),
{
    let mut i: usize = 0;
    while i < parent.len()
        invariant
            i <= parent@.len(),
            out@ == old(out)@ + parent@.subrange(0, i as int),
        decreases parent@.len() - i,
    {
        out.push(parent[i]);
        i += 1;
        proof {
            assert(out@ =~= old(out)@ + parent@.subrange(0, i as int));
        }
    }
    proof {
        assert(parent@.subrange(0, parent@.len() as int) =~= parent@);
    }
    if parent.len() > 0 && parent[parent.len() - 1] != '/' {
        out.push('/');
    }
    let mut i: usize = 0;
    let ghost mid = out@;
    while i < name.len()
        invariant
            i <= name@.len(),
            out@ == mid + name@.subrange(0, i as int),
        decreases name@.len() - i,
    {
        out.push(name[i]);
        i += 1;
        proof {
            assert(out@ =~= mid + name@.subrange(0, i as int));
        }
    }
    proof {
        assert(name@.subrange(0, name@.len() as int) =~= name@);
        assert(out@ =~= old(out)@ + spec_join(parent@, name@));
    }
}

/// The restore command for a generation.  For the system profile it
/// switches to the generation's own configuration; for the user profile
/// it runs the standalone activation script when the caller found one
/// (`hm_link` names that generation link), else falls back to switching
/// the profile's generation.
pub open spec fn spec_restore_command(
    profile_path: Seq<char>,
    id: int,
    profile: ProfileType,
    hm_link: Option<Seq<char>>,
) -> Seq<char> {
    match profile {
        ProfileType::System => "sudo "@ + spec_join(
            spec_parent_or(profile_path, "/nix/var/nix/profiles"@),
            "system-"@ + spec_dec(id) + "-link"@,
        ) + "/bin/switch-to-configuration switch"@,
        ProfileType::HomeManager => match hm_link {
            Some(l) => l + "/activate"@,
            None => "nix-env --switch-generation "@ + spec_dec(id) + " --profile "@ + profile_path,
        },
    }
}

/// Build the restore command string.
pub fn build_restore_command(
    profile_path: &str,
    generation_id: u32,
    profile_type: ProfileType,
    hm_link: Option<&String>,
) -> (r: String)
    ensures
        r@ == spec_restore_command(
            profile_path@,
            generation_id as int,
            profile_type,
            match hm_link {
                Some(l) => Some(l@),
                None => None,
            },
        ),
{
    let mut v: Vec<char> = Vec::new();
    match profile_type {
        ProfileType::System => {
            push_chars(&mut v, "sudo ");
            let parent: Vec<char> = match parent_dir(profile_path) {
                Some(d) => d,
                None => crate::strutil::chars_of("/nix/var/nix/profiles"),
            };
            let mut name: Vec<char> = Vec::new();
            push_chars(&mut name, "system-");
            push_dec_u64(&mut name, generation_id as u64);
            push_chars(&mut name, "-link");
            push_join(&mut v, &parent, &name);
            push_chars(&mut v, "/bin/switch-to-configuration switch");
            proof {
                assert(v@ =~= spec_restore_command(
                    profile_path@,
                    generation_id as int,
                    profile_type,
                    match hm_link {
                        Some(l) => Some(l@),
                        None => None::<Seq<char>>,
                    },
                ));
            }
        },
        ProfileType::HomeManager => {
            match hm_link {
                Some(l) => {
                    push_chars(&mut v, l.as_str());
                    push_chars(&mut v, "/activate");
                },
                None => {
                    push_chars(&mut v, "nix-env --switch-generation ");
                    push_dec_u64(&mut v, generation_id as u64);
                    push_chars(&mut v, " --profile ");
                    push_chars(&mut v, profile_path);
                },
            }
            proof {
                assert(v@ =~= spec_restore_command(
                    profile_path@,
                    generation_id as int,
                    profile_type,
                    match hm_link {
                        Some(l) => Some(l@),
                        None => None::<Seq<char>>,
                    },
                ));
            }
        },
    }
    string_from_chars(&v)
}

/// The generation ids separated by single spaces.
pub open spec fn spec_ids_joined(ids: Seq<u32>) -> Seq<char>
    decreases ids.len(),
{
    if ids.len() == 0 {
        Seq::empty()
    } else if ids.len() == 1 {
        spec_dec(ids[0] as int)
    } else {
        spec_ids_joined(ids.drop_last()) + seq![' '] + spec_dec(ids.last() as int)
    }
}

fn push_ids(out: &mut Vec<char>, ids: &Vec<u32>)
    ensures
        final(out)@ == old(out)@ + spec_ids_joined(ids@),
{
    let mut i: usize = 0;
    while i < ids.len()
        invariant
            i <= ids@.len(),
            out@ == old(out)@ + spec_ids_joined(ids@.subrange(0, i as int)),
        decreases ids@.len() - i,
    {
        let ghost pre = ids@.subrange(0, i as int);
        if i > 0 {
            out.push(' ');
        }
        push_dec_u64(out, ids[i] as u64);
        i += 1;
        proof {
            let post = ids@.subrange(0, i as int);
            assert(post.drop_last() =~= pre);
            assert(post.last() == ids@[i - 1]);
            if i == 1 {
                assert(out@ =~= old(out)@ + spec_ids_joined(post));
            } else {
                assert(out@ =~= old(out)@ + spec_ids_joined(post));
            }
        }
    }
    proof {
        assert(ids@.subrange(0, ids@.len() as int) =~= ids@);
    }
}

/// The delete command for a set of generations.  The system profile
/// needs elevation; the user profile uses the dedicated tool when the
/// caller found it on the path (`home_manager_cmd`).
pub open spec fn spec_delete_command(
    profile_path: Seq<char>,
    ids: Seq<u32>,
    profile: ProfileType,
    home_manager_cmd: bool,
) -> Seq<char> {
    match profile {
        ProfileType::System => "sudo nix-env --delete-generations "@ + spec_ids_joined(ids)
            + " --profile "@ + profile_path,
        ProfileType::HomeManager => if home_manager_cmd {
            "home-manager remove-generations "@ + spec_ids_joined(ids)
        } else {
            "nix-env --delete-generations "@ + spec_ids_joined(ids) + " --profile "@ + profile_path
        },
    }
}

/// Build the delete command string.
pub fn build_delete_command(
    profile_path: &str,
    generation_ids: &Vec<u32>,
    profile_type: ProfileType,
    home_manager_cmd: bool,
) -> (r: String)
    ensures
        r@ == spec_delete_command(profile_path@, generation_ids@, profile_type, home_manager_cmd),
{
    let mut v: Vec<char> = Vec::new();
    match profile_type {
        ProfileType::System => {
            push_chars(&mut v, "sudo nix-env --delete-generations ");
            push_ids(&mut v, generation_ids);
            push_chars(&mut v, " --profile ");
            push_chars(&mut v, profile_path);
        },
        ProfileType::HomeManager => {
            if home_manager_cmd {
                push_chars(&mut v, "home-manager remove-generations ");
                push_ids(&mut v, generation_ids);
            } else {
                push_chars(&mut v, "nix-env --delete-generations ");
                push_ids(&mut v, generation_ids);
                push_chars(&mut v, " --profile ");
                push_chars(&mut v, profile_path);
            }
        },
    }
    proof {
        assert(v@ =~= spec_delete_command(
            profile_path@,
            generation_ids@,
            profile_type,
            home_manager_cmd,
        ));
    }
    string_from_chars(&v)
}

/// The command shown in the restore confirmation popup; the same
/// construction used at execution time.
pub fn get_restore_command_preview(
    profile_path: &str,
    generation_id: u32,
    profile_type: ProfileType,
    hm_link: Option<&String>,
) -> (r: String)
    ensures
        r@ == spec_restore_command(
            profile_path@,
            generation_id as int,
            profile_type,
            match hm_link {
                Some(l) => Some(l@),
                None => None,
            },
        ),
{
    build_restore_command(profile_path, generation_id, profile_type, hm_link)
}

/// The command shown in the delete confirmation popup; the same
/// construction used at execution time.
pub fn get_delete_command_preview(
    profile_path: &str,
    generation_ids: &Vec<u32>,
    profile_type: ProfileType,
    home_manager_cmd: bool,
) -> (r: String)
    ensures
        r@ == spec_delete_command(profile_path@, generation_ids@, profile_type, home_manager_cmd),
{
    build_delete_command(profile_path, generation_ids, profile_type, home_manager_cmd)
}

/// The dry-run message for a restore.
pub open spec fn spec_restore_dry_message(id: int) -> Seq<char> {
    "Dry run: Would execute restore to generation "@ + spec_dec(id)
}

/// The description under which a restore's outcome is reported.
pub open spec fn spec_restore_description(id: int) -> Seq<char> {
    "restore generation "@ + spec_dec(id)
}

/// Plan a restore of one generation.  A dry run never asks for any
/// execution: it completes at once, successfully, with a message that
/// says what would have run.
pub fn restore_generation(
    profile_path: &str,
    generation_id: u32,
    profile_type: ProfileType,
    hm_link: Option<&String>,
    dry_run: bool,
) -> (r: CommandPlan)
    ensures
        ({
            let cmd = spec_restore_command(
                profile_path@,
                generation_id as int,
                profile_type,
                match hm_link {
                    Some(l) => Some(l@),
                    None => None,
                },
            );
            if dry_run {
                r matches CommandPlan::Done(res) && res.success && res.message@
                    == spec_restore_dry_message(generation_id as int) && res.command@ == cmd
            } else {
                r matches CommandPlan::Execute { command, description } && command@ == cmd
                    && description@ == spec_restore_description(generation_id as int)
            }
        }),
{
    let command = build_restore_command(profile_path, generation_id, profile_type, hm_link);
    let mut d: Vec<char> = Vec::new();
    if dry_run {
        push_chars(&mut d, "Dry run: Would execute restore to generation ");
        push_dec_u64(&mut d, generation_id as u64);
        CommandPlan::Done(
            CommandResult { success: true, message: string_from_chars(&d), command },
        )
    } else {
        push_chars(&mut d, "restore generation ");
        push_dec_u64(&mut d, generation_id as u64);
        CommandPlan::Execute { command, description: string_from_chars(&d) }
    }
}

/// The dry-run message for a delete.
pub open spec fn spec_delete_dry_message(n: int) -> Seq<char> {
    "Dry run: Would delete "@ + spec_dec(n) + " generation(s)"@
}

/// The description under which a delete's outcome is reported.
pub open spec fn spec_delete_description(n: int) -> Seq<char> {
    "delete "@ + spec_dec(n) + " generation(s)"@
}

/// Plan a delete of a set of generations.  An empty target set fails at
/// once without any execution; a dry run completes at once,
/// successfully, with a message that says what would have run.
pub fn delete_generations(
    profile_path: &str,
    generation_ids: &Vec<u32>,
    profile_type: ProfileType,
    home_manager_cmd: bool,
    dry_run: bool,
) -> (r: CommandPlan)
    ensures
        ({
            let cmd = spec_delete_command(
                profile_path@,
                generation_ids@,
                profile_type,
                home_manager_cmd,
            );
            let n = generation_ids@.len() as int;
            if generation_ids@.len() == 0 {
                r matches CommandPlan::Done(res) && !res.success && res.message@
                    == "No generations specified for deletion"@ && res.command@ == Seq::<
                    char,
                >::empty()
            } else if dry_run {
                r matches CommandPlan::Done(res) && res.success && res.message@
                    == spec_delete_dry_message(n) && res.command@ == cmd
            } else {
                r matches CommandPlan::Execute { command, description } && command@ == cmd
                    && description@ == spec_delete_description(n)
            }
        }),
{
    if generation_ids.len() == 0 {
        let empty: Vec<char> = Vec::new();
        return CommandPlan::Done(
            CommandResult {
                success: false,
                message: crate::strutil::string_from_chars(
                    &crate::strutil::chars_of("No generations specified for deletion"),
                ),
                command: string_from_chars(&empty),
            },
        );
    }
    let command = build_delete_command(profile_path, generation_ids, profile_type, home_manager_cmd);
    let mut d: Vec<char> = Vec::new();
    if dry_run {
        push_chars(&mut d, "Dry run: Would delete ");
        push_dec_u64(&mut d, generation_ids.len() as u64);
        push_chars(&mut d, " generation(s)");
        CommandPlan::Done(
            CommandResult { success: true, message: string_from_chars(&d), command },
        )
    } else {
        push_chars(&mut d, "delete ");
        push_dec_u64(&mut d, generation_ids.len() as u64);
        push_chars(&mut d, " generation(s)");
        CommandPlan::Execute { command, description: string_from_chars(&d) }
    }
}

/// The decimal rendering of a possibly negative exit code.
pub open spec fn spec_i32_dec(n: int) -> Seq<char> {
    if n >= 0 {
        spec_dec(n)
    } else {
        seq!['-'] + spec_dec(-n)
    }
}

/// The fallback failure text when a command produced no output at all.
pub open spec fn spec_exit_code_message(code: Option<i32>) -> Seq<char> {
    match code {
        Some(c) => "Command failed with exit code: Some("@ + spec_i32_dec(c as int) + ")"@,
        None => "Command failed with exit code: None"@,
    }
}

/// The message reported for a finished execution: success names the
/// action done; failure quotes the command's error output, its regular
/// output when the error stream was silent, or the exit code when both
/// were.
pub open spec fn spec_completed_message(
    description: Seq<char>,
    exit_success: bool,
    stdout_trimmed: Seq<char>,
    stderr_trimmed: Seq<char>,
    code: Option<i32>,
) -> Seq<char> {
    if exit_success {
        "Successfully "@ + description
    } else {
        "Failed to "@ + description + ": "@ + (if stderr_trimmed.len() > 0 {
            stderr_trimmed
        } else if stdout_trimmed.len() > 0 {
            stdout_trimmed
        } else {
            spec_exit_code_message(code)
        })
    }
}

/// Turn a finished execution into the result shown to the user.  Takes
/// the command's outputs as plain values; succeeds exactly when the
/// process did.
pub fn completed_command_result(
    command: String,
    description: &str,
    exit_success: bool,
    stdout: &str,
    stderr: &str,
    exit_code: Option<i32>,
) -> (r: CommandResult)
    ensures
        r.success == exit_success,
        r.command == command,
        r.message@ == spec_completed_message(
            description@,
            exit_success,
            crate::strutil::spec_trim(stdout@),
            crate::strutil::spec_trim(stderr@),
            exit_code,
        ),
{
    let mut m: Vec<char> = Vec::new();
    if exit_success {
        push_chars(&mut m, "Successfully ");
        push_chars(&mut m, description);
    } else {
        push_chars(&mut m, "Failed to ");
        push_chars(&mut m, description);
        push_chars(&mut m, ": ");
        let err = crate::strutil::trim(&crate::strutil::chars_of(stderr));
        if err.len() > 0 {
            let ghost pre = m@;
            let mut i: usize = 0;
            while i < err.len()
                invariant
                    i <= err@.len(),
                    m@ == pre + err@.subrange(0, i as int),
                decreases err@.len() - i,
            {
                m.push(err[i]);
                i += 1;
                proof {
                    assert(m@ =~= pre + err@.subrange(0, i as int));
                }
            }
            proof {
                assert(err@.subrange(0, err@.len() as int) =~= err@);
            }
        } else {
            let out = crate::strutil::trim(&crate::strutil::chars_of(stdout));
            if out.len() > 0 {
                let ghost pre = m@;
                let mut i: usize = 0;
                while i < out.len()
                    invariant
                        i <= out@.len(),
                        m@ == pre + out@.subrange(0, i as int),
                    decreases out@.len() - i,
                {
                    m.push(out[i]);
                    i += 1;
                    proof {
                        assert(m@ =~= pre + out@.subrange(0, i as int));
                    }
                }
                proof {
                    assert(out@.subrange(0, out@.len() as int) =~= out@);
                }
            } else {
                match exit_code {
                    Some(c) => {
                        push_chars(&mut m, "Command failed with exit code: Some(");
                        if c >= 0 {
                            push_dec_u64(&mut m, c as u64);
                        } else {
                            m.push('-');
                            let mag: u64 = (-(c as i64)) as u64;
                            push_dec_u64(&mut m, mag);
                        }
                        push_chars(&mut m, ")");
                    },
                    None => {
                        push_chars(&mut m, "Command failed with exit code: None");
                    },
                }
            }
        }
    }
    proof {
        assert(m@ =~= spec_completed_message(
            description@,
            exit_success,
            crate::strutil::spec_trim(stdout@),
            crate::strutil::spec_trim(stderr@),
            exit_code,
        ));
    }
    CommandResult { success: exit_success, message: string_from_chars(&m), command }
}

} // verus!
