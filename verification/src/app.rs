//! The application controller: one state machine over all five tabs,
//! the overlay popups, and the destructive-action workflow.
//!
//! The controller consumes one event at a time — a key press, a clock
//! reading, or the outcome of work done outside — mutates its state,
//! and answers with the single [`Action`] the driver must perform next.
//! It never touches the terminal, the file system or a child process
//! itself.

use vstd::prelude::*;

use crate::commands::{get_delete_command_preview, get_restore_command_preview, CommandResult};
use crate::config::Config;
use crate::detect::SystemInfo;
use crate::generations::GenerationSource;
use crate::idset::{contains_id, insert_id, toggle_id, unique_ids};
use crate::nav::{cursor_bottom, cursor_down, cursor_ok, cursor_top, cursor_up, nav_step, NavOp};
use crate::strutil::{is_substring, lower_of, lowercase};
use crate::types::{Generation, GenerationDiff, Package, ProfileType, Tab};

verus! {

/// A key press, reduced to what the controller reads.
#[derive(Debug, Clone, Copy, PartialEq, Eq, Structural)]
pub enum Key {
    Char(char),
    Up,
    Down,
    Tab,
    Enter,
    Backspace,
    Esc,
}

/// The single active overlay.
#[derive(Debug, Clone)]
pub enum PopupState {
    Closed,
    Confirm { title: String, message: String, command: String },
    Error { title: String, message: String },
    Undo { message: String, seconds_remaining: u8 },
    Loading { message: String },
}

/// A transient feedback line, cleared a few seconds after it was set.
#[derive(Debug, Clone)]
pub struct FlashMessage {
    pub message: String,
    pub is_error: bool,
    pub at: u64,
}

/// An action that survived confirmation and can be undone — in name:
/// the delete is not reversible, the undo window is a grace period.
#[derive(Debug, Clone)]
pub enum UndoAction {
    Delete { profile: ProfileType, generation_ids: Vec<u32> },
}

/// The undo window for the last destructive action.
#[derive(Debug, Clone)]
pub struct PendingUndo {
    pub action: UndoAction,
    pub started_at: u64,
}

/// Which operation a confirmation popup guards.
#[derive(Debug, Clone, Copy, PartialEq, Eq, Structural)]
pub enum PendingKind {
    Restore,
    Delete,
}

/// The operation fixed when its confirmation popup opened: kind,
/// profile and target ids are frozen here and never re-read from the
/// cursor at execution time.
#[derive(Debug, Clone)]
pub struct PendingAction {
    pub kind: PendingKind,
    pub profile: ProfileType,
    pub ids: Vec<u32>,
    pub command: String,
    pub description: String,
}

/// The coarse application state, derived from popup, tab and filter.
#[derive(Debug, Clone, Copy, PartialEq, Eq, Structural)]
pub enum AppState {
    Normal,
    FilterInput,
    DropdownOpen,
    ConfirmAction,
    ShowError,
    UndoCountdown,
    Loading,
}

/// What the driver must do after an event was handled.
#[derive(Debug, Clone)]
pub enum Action {
    /// Nothing; render and poll again.
    Idle,
    /// Read the package list of a generation and hand it back through
    /// [`App::packages_loaded`].
    LoadPackages { profile: ProfileType, gen_path: String, gen_id: u32 },
    /// Read two generations' package lists and hand them back through
    /// [`App::diff_packages_loaded`].
    ComputeDiff { from_path: String, to_path: String },
    /// Run the command and hand its outcome back through
    /// [`App::command_finished`] (or [`App::command_failed_to_run`]
    /// when it could not be started).
    Execute { command: String, description: String },
    /// Re-list both profiles' generations and hand them back through
    /// [`App::refresh_done`].
    Refresh,
    /// Write the settings document; when `report` is set, hand the
    /// outcome back through [`App::save_config_done`], else treat a
    /// failure as fatal.
    SaveConfig { report: bool },
}

/// How many rows the settings tab offers.
pub const SETTINGS_COUNT: usize = 7;

/// A package name passes a filter when the filter is empty or occurs,
/// case-insensitively, inside the name.
pub open spec fn spec_matches_filter(name: Seq<char>, filter: Seq<char>) -> bool {
    filter.len() == 0 || is_substring(lower_of(name), lower_of(filter))
}

/// The packages that pass the filter, in order.
pub open spec fn spec_filtered(pkgs: Seq<Package>, filter: Seq<char>) -> Seq<Package>
    decreases pkgs.len(),
{
    if pkgs.len() == 0 {
        Seq::empty()
    } else {
        let rest = spec_filtered(pkgs.drop_last(), filter);
        if spec_matches_filter(pkgs.last().name@, filter) {
            rest.push(pkgs.last())
        } else {
            rest
        }
    }
}

/// How many packages pass the filter.
pub open spec fn spec_filtered_count(pkgs: Seq<Package>, filter: Seq<char>) -> int {
    spec_filtered(pkgs, filter).len() as int
}

/// A generation with its pin flag replaced.
pub open spec fn spec_with_pin(g: Generation, p: bool) -> Generation {
    Generation { is_pinned: p, ..g }
}

/// The pin flags of `gens` replaced by membership in `pins`.
pub open spec fn spec_pins_applied(gens: Seq<Generation>, pins: Seq<u32>) -> Seq<Generation> {
    gens.map_values(|g: Generation| spec_with_pin(g, pins.contains(g.id)))
}

/// Replace every generation's pin flag by its membership in `pins`.
pub fn apply_pins(gens: &mut Vec<Generation>, pins: &Vec<u32>)
    ensures
        final(gens)@ == spec_pins_applied(old(gens)@, pins@),
{
    let mut i: usize = 0;
    while i < gens.len()
        invariant
            i <= gens@.len(),
            gens@.len() == old(gens)@.len(),
            forall|j: int|
                0 <= j < i ==> gens@[j] == spec_with_pin(
                    old(gens)@[j],
                    pins@.contains(old(gens)@[j].id),
                ),
            forall|j: int| i <= j < gens@.len() ==> gens@[j] == old(gens)@[j],
        decreases gens@.len() - i,
    {
        let pinned = contains_id(pins, gens[i].id);
        let g = gens.remove(i);
        gens.insert(
            i,
            Generation {
                id: g.id,
                date: g.date,
                is_current: g.is_current,
                nixos_version: g.nixos_version,
                kernel_version: g.kernel_version,
                package_count: g.package_count,
                closure_size: g.closure_size,
                store_path: g.store_path,
                is_pinned: pinned,
                in_bootloader: g.in_bootloader,
            },
        );
        i += 1;
    }
    proof {
        assert(gens@ =~= spec_pins_applied(old(gens)@, pins@));
    }
}

/// Main application state.
pub struct App {
    pub should_quit: bool,
    pub active_tab: Tab,
    pub config: Config,
    pub system_info: SystemInfo,
    pub dry_run: bool,
    pub home_manager_cmd: bool,

    pub system_generations: Vec<Generation>,
    pub system_source: GenerationSource,

    pub home_manager_generations: Option<Vec<Generation>>,
    pub home_manager_source: Option<GenerationSource>,

    pub overview_focus: usize,
    pub overview_system_selected: usize,
    pub overview_hm_selected: usize,

    pub packages_list: Vec<Package>,
    pub packages_gen_id: Option<u32>,
    pub packages_profile: ProfileType,
    pub packages_selected: usize,
    pub packages_filter: String,
    pub packages_filter_active: bool,

    pub diff_focus: usize,
    pub diff_from_cursor: usize,
    pub diff_to_cursor: usize,
    pub diff_from_gen: Option<u32>,
    pub diff_to_gen: Option<u32>,
    pub diff_scroll: usize,
    pub current_diff: Option<GenerationDiff>,

    pub manage_profile: ProfileType,
    pub manage_cursor: usize,
    pub manage_selected: Vec<u32>,

    pub settings_selected: usize,

    pub popup: PopupState,
    pub pending_action: Option<PendingAction>,
    pub flash_message: Option<FlashMessage>,
    pub pending_undo: Option<PendingUndo>,
}

impl App {
    /// The generation list of the user profile, as far as it exists.
    pub open spec fn spec_hm_gens(self) -> Seq<Generation> {
        match self.home_manager_generations {
            Some(g) => g@,
            None => Seq::empty(),
        }
    }

    /// The list the manage tab operates on: the active profile's, with
    /// the system list standing in when the user profile is absent.
    pub open spec fn spec_manage_gens(self) -> Seq<Generation> {
        if self.manage_profile == ProfileType::HomeManager {
            match self.home_manager_generations {
                Some(g) => g@,
                None => self.system_generations@,
            }
        } else {
            self.system_generations@
        }
    }

    /// How many packages the packages tab currently shows.
    pub open spec fn spec_visible_count(self) -> int {
        spec_filtered_count(self.packages_list@, self.packages_filter@)
    }

    /// The standing invariant: every cursor sits inside its live
    /// collection (at 0 when it is empty), both focus axes are binary,
    /// the selection and pin sets hold no duplicates, and a
    /// confirmation or loading overlay always carries the operation it
    /// guards.
    pub open spec fn wf(self) -> bool {
        &&& cursor_ok(self.overview_system_selected as int, self.system_generations@.len() as int)
        &&& cursor_ok(self.overview_hm_selected as int, self.spec_hm_gens().len() as int)
        &&& self.overview_focus < 2
        &&& self.diff_focus < 2
        &&& cursor_ok(self.diff_from_cursor as int, self.system_generations@.len() as int)
        &&& cursor_ok(self.diff_to_cursor as int, self.system_generations@.len() as int)
        &&& cursor_ok(self.manage_cursor as int, self.spec_manage_gens().len() as int)
        &&& cursor_ok(self.packages_selected as int, self.spec_visible_count())
        &&& self.settings_selected < SETTINGS_COUNT
        &&& unique_ids(self.manage_selected@)
        &&& self.config.wf()
        &&& ((self.popup is Confirm || self.popup is Loading) <==> self.pending_action is Some)
        &&& (self.pending_action matches Some(p) ==> p.ids@.len() >= 1 && (p.kind
            == PendingKind::Restore ==> p.ids@.len() == 1))
        &&& (self.pending_undo is Some ==> self.popup is Undo)
    }

    /// The coarse state, derived from popup, tab and filter text.
    pub open spec fn spec_state(self) -> AppState {
        match self.popup {
            PopupState::Closed => if self.active_tab == Tab::Packages
                && self.packages_filter@.len() > 0 {
                AppState::FilterInput
            } else {
                AppState::Normal
            },
            PopupState::Confirm { .. } => AppState::ConfirmAction,
            PopupState::Error { .. } => AppState::ShowError,
            PopupState::Undo { .. } => AppState::UndoCountdown,
            PopupState::Loading { .. } => AppState::Loading,
        }
    }

    /// Get the current coarse application state.
    pub fn state(&self) -> (r: AppState)
        ensures
            r == self.spec_state(),
    {
        match &self.popup {
            PopupState::Closed => {
                if matches!(self.active_tab, Tab::Packages) && self.packages_filter.as_str().unicode_len() > 0 {
                    AppState::FilterInput
                } else {
                    AppState::Normal
                }
            },
            PopupState::Confirm { .. } => AppState::ConfirmAction,
            PopupState::Error { .. } => AppState::ShowError,
            PopupState::Undo { .. } => AppState::UndoCountdown,
            PopupState::Loading { .. } => AppState::Loading,
        }
    }

    /// Check if the side-by-side layout should be used at this width.
    pub fn should_use_side_by_side(&self, terminal_width: u16) -> (r: bool)
        ensures
            r == match self.config.layout {
                crate::config::LayoutMode::SideBySide => true,
                crate::config::LayoutMode::TabsOnly => false,
                crate::config::LayoutMode::Auto => terminal_width >= 100,
            },
    {
        match self.config.layout {
            crate::config::LayoutMode::SideBySide => true,
            crate::config::LayoutMode::TabsOnly => false,
            crate::config::LayoutMode::Auto => terminal_width >= 100,
        }
    }

    /// Create the controller from what startup gathered: the detected
    /// host, the loaded settings, and both profiles' generation lists.
    /// Pin flags are reconciled with the settings document here.
    pub fn new(
        system_info: SystemInfo,
        config: Config,
        dry_run: bool,
        home_manager_cmd: bool,
        system_generations: Vec<Generation>,
        home_manager_generations: Option<Vec<Generation>>,
    ) -> (r: Self)
        requires
            config.wf(),
        ensures
            r.wf(),
            !r.should_quit,
            r.active_tab == Tab::Overview,
            r.dry_run == dry_run,
            r.home_manager_cmd == home_manager_cmd,
            r.config == config,
            r.system_generations@ == spec_pins_applied(system_generations@, config.pinned.system@),
            (match home_manager_generations {
                Some(g) => (match system_info.home_manager {
                    Some(_) => r.home_manager_generations matches Some(h) && h@
                        == spec_pins_applied(g@, config.pinned.home_manager@),
                    None => r.home_manager_generations is None,
                }),
                None => r.home_manager_generations is None,
            }),
            r.popup is Closed,
            r.pending_action is None,
            r.pending_undo is None,
            r.flash_message is None,
            r.manage_selected@ == Seq::<u32>::empty(),
            r.packages_filter@ == Seq::<char>::empty(),
            r.system_source.profile_type == ProfileType::System,
            r.system_source.profile_path@ == system_info.system_profile@,
            (r.home_manager_source matches Some(src)) == (r.home_manager_generations is Some),
            r.home_manager_source matches Some(src) ==> src.profile_type
                == ProfileType::HomeManager && (system_info.home_manager matches Some(info)
                && src.profile_path@ == info.profile_path@),
            r.overview_focus == 0,
            r.overview_system_selected == 0,
            r.overview_hm_selected == 0,
            r.packages_list@ == Seq::<Package>::empty(),
            r.packages_gen_id is None,
            r.packages_profile == ProfileType::System,
            r.packages_selected == 0,
            !r.packages_filter_active,
            r.diff_focus == 0,
            r.diff_from_cursor == 0,
            r.diff_to_cursor == 0,
            r.diff_from_gen is None,
            r.diff_to_gen is None,
            r.diff_scroll == 0,
            r.current_diff is None,
            r.manage_profile == ProfileType::System,
            r.manage_cursor == 0,
            r.settings_selected == 0,
    {
        let mut system_generations = system_generations;
        apply_pins(&mut system_generations, &config.pinned.system);

        let system_source = GenerationSource {
            profile_type: ProfileType::System,
            profile_path: system_info.system_profile.clone(),
        };

        let (home_manager_source, home_manager_generations): (
            Option<GenerationSource>,
            Option<Vec<Generation>>,
        ) = match (&system_info.home_manager, home_manager_generations) {
            (Some(hm_info), Some(gens)) => {
                let mut gens = gens;
                apply_pins(&mut gens, &config.pinned.home_manager);
                (
                    Some(
                        GenerationSource {
                            profile_type: ProfileType::HomeManager,
                            profile_path: hm_info.profile_path.clone(),
                        },
                    ),
                    Some(gens),
                )
            },
            _ => (None, None),
        };

        App {
            should_quit: false,
            active_tab: Tab::Overview,
            config,
            system_info,
            dry_run,
            home_manager_cmd,

            system_generations,
            system_source,

            home_manager_generations,
            home_manager_source,

            overview_focus: 0,
            overview_system_selected: 0,
            overview_hm_selected: 0,

            packages_list: Vec::new(),
            packages_gen_id: None,
            packages_profile: ProfileType::System,
            packages_selected: 0,
            packages_filter: String::new(),
            packages_filter_active: false,

            diff_focus: 0,
            diff_from_cursor: 0,
            diff_to_cursor: 0,
            diff_from_gen: None,
            diff_to_gen: None,
            diff_scroll: 0,
            current_diff: None,

            manage_profile: ProfileType::System,
            manage_cursor: 0,
            manage_selected: Vec::new(),

            settings_selected: 0,

            popup: PopupState::Closed,
            pending_action: None,
            flash_message: None,
            pending_undo: None,
        }
    }

    /// Count the packages that pass the current filter.
    pub fn filtered_packages_count(&self) -> (r: usize)
        ensures
            r as int == self.spec_visible_count(),
    {
        let flt = lowercase(self.packages_filter.as_str());
        let flt_chars = crate::strutil::chars_of(flt.as_str());
        let filter_empty = self.packages_filter.as_str().unicode_len() == 0;
        let mut count: usize = 0;
        let mut i: usize = 0;
        while i < self.packages_list.len()
            invariant
                i <= self.packages_list@.len(),
                flt_chars@ == lower_of(self.packages_filter@),
                filter_empty == (self.packages_filter@.len() == 0),
                count as int == spec_filtered_count(
                    self.packages_list@.subrange(0, i as int),
                    self.packages_filter@,
                ),
                count <= i,
            decreases self.packages_list@.len() - i,
        {
            let ghost pre = self.packages_list@.subrange(0, i as int);
            let matched = if filter_empty {
                true
            } else {
                let name = lowercase(self.packages_list[i].name.as_str());
                let name_chars = crate::strutil::chars_of(name.as_str());
                crate::strutil::contains_sub(&name_chars, &flt_chars)
            };
            if matched {
                count += 1;
            }
            i += 1;
            proof {
                let post = self.packages_list@.subrange(0, i as int);
                assert(post.drop_last() =~= pre);
                assert(post.last() == self.packages_list@[i - 1]);
                assert(matched == spec_matches_filter(
                    self.packages_list@[i - 1].name@,
                    self.packages_filter@,
                ));
            }
        }
        proof {
            assert(self.packages_list@.subrange(0, self.packages_list@.len() as int)
                =~= self.packages_list@);
        }
        count
    }

    /// The packages that pass the current filter, in order — exactly
    /// the rows the packages tab shows.
    pub fn filtered_packages(&self) -> (r: Vec<Package>)
        ensures
            r@ == spec_filtered(self.packages_list@, self.packages_filter@),
    {
        let flt = lowercase(self.packages_filter.as_str());
        let flt_chars = crate::strutil::chars_of(flt.as_str());
        let filter_empty = self.packages_filter.as_str().unicode_len() == 0;
        let mut out: Vec<Package> = Vec::new();
        let mut i: usize = 0;
        while i < self.packages_list.len()
            invariant
                i <= self.packages_list@.len(),
                flt_chars@ == lower_of(self.packages_filter@),
                filter_empty == (self.packages_filter@.len() == 0),
                out@ == spec_filtered(
                    self.packages_list@.subrange(0, i as int),
                    self.packages_filter@,
                ),
            decreases self.packages_list@.len() - i,
        {
            let ghost pre = self.packages_list@.subrange(0, i as int);
            let matched = if filter_empty {
                true
            } else {
                let name = lowercase(self.packages_list[i].name.as_str());
                let name_chars = crate::strutil::chars_of(name.as_str());
                crate::strutil::contains_sub(&name_chars, &flt_chars)
            };
            if matched {
                let p = &self.packages_list[i];
                out.push(
                    Package { name: p.name.clone(), version: p.version.clone(), size: p.size },
                );
            }
            i += 1;
            proof {
                let post = self.packages_list@.subrange(0, i as int);
                assert(post.drop_last() =~= pre);
                assert(post.last() == self.packages_list@[i - 1]);
                assert(matched == spec_matches_filter(
                    self.packages_list@[i - 1].name@,
                    self.packages_filter@,
                ));
            }
        }
        proof {
            assert(self.packages_list@.subrange(0, self.packages_list@.len() as int)
                =~= self.packages_list@);
        }
        out
    }

    /// Show an error popup.
    fn show_error(&mut self, title: String, message: String)
        ensures
            *final(self) == (App {
                popup: PopupState::Error { title, message },
                pending_action: None,
                ..*old(self)
            }),
    {
        self.popup = PopupState::Error { title, message };
        self.pending_action = None;
    }

    /// Show a flash message.
    fn show_flash(&mut self, message: String, is_error: bool, now: u64)
        ensures
            *final(self) == (App {
                flash_message: Some(FlashMessage { message, is_error, at: now }),
                ..*old(self)
            }),
    {
        self.flash_message = Some(FlashMessage { message, is_error, at: now });
    }

    /// The profile path the given profile's operations use: the user
    /// profile's own source when it exists, else the system one.
    pub open spec fn spec_source_path(self, profile: ProfileType) -> Seq<char> {
        if profile == ProfileType::HomeManager {
            match self.home_manager_source {
                Some(src) => src.profile_path@,
                None => self.system_source.profile_path@,
            }
        } else {
            self.system_source.profile_path@
        }
    }

    fn source_path(&self, profile: ProfileType) -> (r: &String)
        ensures
            r@ == self.spec_source_path(profile),
    {
        match profile {
            ProfileType::System => &self.system_source.profile_path,
            ProfileType::HomeManager => match &self.home_manager_source {
                Some(src) => &src.profile_path,
                None => &self.system_source.profile_path,
            },
        }
    }

    /// Handle keys in the Overview tab.
    fn handle_overview_key(&mut self, key: Key) -> (r: Action)
        requires
            old(self).wf(),
        ensures
            final(self).wf(),
            spec_overview_step(*old(self), *final(self), r, key),
    {
        let has_hm = self.home_manager_generations.is_some();
        match key {
            Key::Char('j') | Key::Down => {
                if self.overview_focus == 0 {
                    self.overview_system_selected = cursor_down(
                        self.overview_system_selected,
                        self.system_generations.len(),
                    );
                } else {
                    match &self.home_manager_generations {
                        Some(hm) => {
                            self.overview_hm_selected = cursor_down(
                                self.overview_hm_selected,
                                hm.len(),
                            );
                        },
                        None => {},
                    }
                }
                Action::Idle
            },
            Key::Char('k') | Key::Up => {
                if self.overview_focus == 0 {
                    self.overview_system_selected = cursor_up(self.overview_system_selected);
                } else {
                    self.overview_hm_selected = cursor_up(self.overview_hm_selected);
                }
                Action::Idle
            },
            Key::Char('g') => {
                if self.overview_focus == 0 {
                    self.overview_system_selected = cursor_top();
                } else {
                    self.overview_hm_selected = cursor_top();
                }
                Action::Idle
            },
            Key::Char('G') => {
                if self.overview_focus == 0 {
                    self.overview_system_selected = cursor_bottom(self.system_generations.len());
                } else {
                    match &self.home_manager_generations {
                        Some(hm) => {
                            self.overview_hm_selected = cursor_bottom(hm.len());
                        },
                        None => {},
                    }
                }
                Action::Idle
            },
            Key::Tab => {
                if has_hm {
                    self.overview_focus = (self.overview_focus + 1) % 2;
                }
                Action::Idle
            },
            Key::Enter => {
                let target: Option<(u32, ProfileType)> = if self.overview_focus == 0 {
                    if self.overview_system_selected < self.system_generations.len() {
                        Some(
                            (
                                self.system_generations[self.overview_system_selected].id,
                                ProfileType::System,
                            ),
                        )
                    } else {
                        None
                    }
                } else {
                    match &self.home_manager_generations {
                        Some(hm) => {
                            if self.overview_hm_selected < hm.len() {
                                Some((hm[self.overview_hm_selected].id, ProfileType::HomeManager))
                            } else {
                                None
                            }
                        },
                        None => None,
                    }
                };
                match target {
                    Some((gen_id, profile)) => self.load_packages_start(gen_id, profile),
                    None => Action::Idle,
                }
            },
            _ => Action::Idle,
        }
    }

    /// Switch to the Packages tab for one generation: clear the shown
    /// list and the filter, and ask the driver to load the packages.
    fn load_packages_start(&mut self, gen_id: u32, profile: ProfileType) -> (r: Action)
        requires
            old(self).wf(),
        ensures
            final(self).wf(),
            spec_enter_packages(*old(self), *final(self), r, gen_id, profile),
    {
        let gen_path = load_path(self.source_path(profile).as_str(), gen_id, profile);
        self.packages_list = Vec::new();
        self.packages_gen_id = Some(gen_id);
        self.packages_profile = profile;
        self.packages_selected = 0;
        self.packages_filter = String::new();
        self.packages_filter_active = false;
        self.active_tab = Tab::Packages;
        Action::LoadPackages { profile, gen_path, gen_id }
    }

    /// Handle keys in the Packages tab.
    fn handle_packages_key(&mut self, key: Key) -> (r: Action)
        requires
            old(self).wf(),
        ensures
            final(self).wf(),
            spec_packages_step(*old(self), *final(self), r, key),
    {
        match key {
            Key::Char('/') => {
                self.packages_filter = String::new();
                self.packages_filter_active = true;
                self.packages_selected = 0;
                Action::Idle
            },
            Key::Char(c) if self.packages_filter_active => {
                crate::strutil::push_char(&mut self.packages_filter, c);
                self.packages_selected = 0;
                Action::Idle
            },
            Key::Backspace => {
                let mut chars = crate::strutil::chars_of(self.packages_filter.as_str());
                if chars.len() > 0 {
                    chars.pop();
                }
                self.packages_filter = crate::strutil::string_from_chars(&chars);
                self.packages_selected = 0;
                Action::Idle
            },
            Key::Esc => {
                self.packages_filter = String::new();
                self.packages_filter_active = false;
                self.packages_selected = 0;
                Action::Idle
            },
            Key::Char('j') | Key::Down => {
                let count = self.filtered_packages_count();
                self.packages_selected = cursor_down(self.packages_selected, count);
                Action::Idle
            },
            Key::Char('k') | Key::Up => {
                self.packages_selected = cursor_up(self.packages_selected);
                Action::Idle
            },
            Key::Char('g') => {
                self.packages_selected = cursor_top();
                Action::Idle
            },
            Key::Char('G') => {
                let count = self.filtered_packages_count();
                self.packages_selected = cursor_bottom(count);
                Action::Idle
            },
            _ => Action::Idle,
        }
    }

    /// Handle keys in the Diff tab.
    fn handle_diff_key(&mut self, key: Key) -> (r: Action)
        requires
            old(self).wf(),
        ensures
            final(self).wf(),
            spec_diff_step(*old(self), *final(self), r, key),
    {
        match key {
            Key::Tab => {
                self.diff_focus = (self.diff_focus + 1) % 2;
                Action::Idle
            },
            Key::Char('j') | Key::Down => {
                if self.diff_focus == 0 {
                    self.diff_from_cursor = cursor_down(
                        self.diff_from_cursor,
                        self.system_generations.len(),
                    );
                } else {
                    self.diff_to_cursor = cursor_down(
                        self.diff_to_cursor,
                        self.system_generations.len(),
                    );
                }
                Action::Idle
            },
            Key::Char('k') | Key::Up => {
                if self.diff_focus == 0 {
                    self.diff_from_cursor = cursor_up(self.diff_from_cursor);
                } else {
                    self.diff_to_cursor = cursor_up(self.diff_to_cursor);
                }
                Action::Idle
            },
            Key::Char('g') => {
                if self.diff_focus == 0 {
                    self.diff_from_cursor = cursor_top();
                } else {
                    self.diff_to_cursor = cursor_top();
                }
                Action::Idle
            },
            Key::Char('G') => {
                let max = cursor_bottom(self.system_generations.len());
                if self.diff_focus == 0 {
                    self.diff_from_cursor = max;
                } else {
                    self.diff_to_cursor = max;
                }
                Action::Idle
            },
            Key::Enter => {
                let cur = if self.diff_focus == 0 {
                    self.diff_from_cursor
                } else {
                    self.diff_to_cursor
                };
                if cur < self.system_generations.len() {
                    let id = self.system_generations[cur].id;
                    if self.diff_focus == 0 {
                        self.diff_from_gen = Some(id);
                    } else {
                        self.diff_to_gen = Some(id);
                    }
                    match (&self.diff_from_gen, &self.diff_to_gen) {
                        (Some(f), Some(to)) => {
                            let from_path = load_path(
                                self.system_source.profile_path.as_str(),
                                *f,
                                ProfileType::System,
                            );
                            let to_path = load_path(
                                self.system_source.profile_path.as_str(),
                                *to,
                                ProfileType::System,
                            );
                            Action::ComputeDiff { from_path, to_path }
                        },
                        _ => Action::Idle,
                    }
                } else {
                    Action::Idle
                }
            },
            Key::Char('c') | Key::Char('C') => {
                self.diff_from_gen = None;
                self.diff_to_gen = None;
                self.current_diff = None;
                self.diff_scroll = 0;
                Action::Idle
            },
            _ => Action::Idle,
        }
    }

    /// Handle keys in the Settings tab.
    #[verifier::rlimit(60)]
    fn handle_settings_key(&mut self, key: Key) -> (r: Action)
        requires
            old(self).wf(),
        ensures
            final(self).wf(),
            spec_settings_step(*old(self), *final(self), r, key),
    {
        match key {
            Key::Char('j') | Key::Down => {
                self.settings_selected = cursor_down(self.settings_selected, SETTINGS_COUNT);
                Action::Idle
            },
            Key::Char('k') | Key::Up => {
                self.settings_selected = cursor_up(self.settings_selected);
                Action::Idle
            },
            Key::Enter => {
                if self.settings_selected == 0 {
                    self.config.theme = self.config.theme.next();
                } else if self.settings_selected == 1 {
                    self.config.layout = self.config.layout.next();
                } else if self.settings_selected == 2 {
                    self.config.display.show_nixos_version = !self.config.display.show_nixos_version;
                } else if self.settings_selected == 3 {
                    self.config.display.show_kernel_version = !self.config.display.show_kernel_version;
                } else if self.settings_selected == 4 {
                    self.config.display.show_package_count = !self.config.display.show_package_count;
                } else if self.settings_selected == 5 {
                    self.config.display.show_size = !self.config.display.show_size;
                } else {
                    self.config.display.show_boot_entry = !self.config.display.show_boot_entry;
                }
                Action::SaveConfig { report: true }
            },
            _ => Action::Idle,
        }
    }

    /// How many rows the manage tab shows.
    fn manage_len(&self) -> (r: usize)
        ensures
            r == self.spec_manage_gens().len(),
    {
        match self.manage_profile {
            ProfileType::HomeManager => match &self.home_manager_generations {
                Some(g) => g.len(),
                None => self.system_generations.len(),
            },
            ProfileType::System => self.system_generations.len(),
        }
    }

    /// The id and protection flags of the manage row at `i`, if any.
    fn manage_gen_at(&self, i: usize) -> (r: Option<(u32, bool, bool)>)
        ensures
            r == (if (i as int) < self.spec_manage_gens().len() {
                let g = self.spec_manage_gens()[i as int];
                Some((g.id, g.is_current, g.is_pinned))
            } else {
                None::<(u32, bool, bool)>
            }),
    {
        let gens: &Vec<Generation> = match self.manage_profile {
            ProfileType::HomeManager => match &self.home_manager_generations {
                Some(g) => g,
                None => &self.system_generations,
            },
            ProfileType::System => &self.system_generations,
        };
        if i < gens.len() {
            Some((gens[i].id, gens[i].is_current, gens[i].is_pinned))
        } else {
            None
        }
    }

    /// A copy of the manage row at `i`, if any.
    fn manage_gen_clone(&self, i: usize) -> (r: Option<Generation>)
        ensures
            r == (if (i as int) < self.spec_manage_gens().len() {
                Some(self.spec_manage_gens()[i as int])
            } else {
                None::<Generation>
            }),
    {
        let gens: &Vec<Generation> = match self.manage_profile {
            ProfileType::HomeManager => match &self.home_manager_generations {
                Some(g) => g,
                None => &self.system_generations,
            },
            ProfileType::System => &self.system_generations,
        };
        if i < gens.len() {
            Some(clone_generation(&gens[i]))
        } else {
            None
        }
    }

    /// Does some generation of the manage list carry this id while
    /// being current or pinned?
    fn id_protected(&self, id: u32) -> (r: bool)
        ensures
            r == (id_is_current(self.spec_manage_gens(), id) || id_is_pinned(
                self.spec_manage_gens(),
                id,
            )),
    {
        let gens: &Vec<Generation> = match self.manage_profile {
            ProfileType::HomeManager => match &self.home_manager_generations {
                Some(g) => g,
                None => &self.system_generations,
            },
            ProfileType::System => &self.system_generations,
        };
        let mut i: usize = 0;
        while i < gens.len()
            invariant
                gens@ == self.spec_manage_gens(),
                i <= gens@.len(),
                forall|j: int|
                    0 <= j < i ==> !(gens@[j].id == id && (gens@[j].is_current
                        || gens@[j].is_pinned)),
            decreases gens@.len() - i,
        {
            if gens[i].id == id && (gens[i].is_current || gens[i].is_pinned) {
                return true;
            }
            i += 1;
        }
        proof {
            if id_is_current(self.spec_manage_gens(), id) {
                let k = choose|k: int|
                    0 <= k < gens@.len() && gens@[k].id == id && gens@[k].is_current;
                assert(false);
            }
            if id_is_pinned(self.spec_manage_gens(), id) {
                let k = choose|k: int|
                    0 <= k < gens@.len() && gens@[k].id == id && gens@[k].is_pinned;
                assert(false);
            }
        }
        false
    }

    /// Flip the pin on the generation, in the settings document and in
    /// the active profile's displayed list.
    fn toggle_pin(&mut self, gen_id: u32, now: u64) -> (r: Action)
        requires
            old(self).wf(),
        ensures
            final(self).wf(),
            r matches Action::SaveConfig { report } && !report,
            spec_pin_toggled(*old(self), *final(self), gen_id, now),
    {
        match self.manage_profile {
            ProfileType::System => {
                self.config.toggle_system_pin(gen_id);
                let pinned = self.config.is_system_pinned(gen_id);
                set_pin_of(&mut self.system_generations, gen_id, pinned);
            },
            ProfileType::HomeManager => {
                self.config.toggle_home_manager_pin(gen_id);
                let pinned = self.config.is_home_manager_pinned(gen_id);
                match self.home_manager_generations.take() {
                    Some(mut gens) => {
                        set_pin_of(&mut gens, gen_id, pinned);
                        self.home_manager_generations = Some(gens);
                    },
                    None => {},
                }
            },
        }
        self.show_flash(
            crate::strutil::string_from_chars(&crate::strutil::chars_of("Pin status updated")),
            false,
            now,
        );
        Action::SaveConfig { report: false }
    }

    /// Open the restore confirmation for the generation under the
    /// manage cursor.  The current generation can never be targeted:
    /// asking for it (or asking with an empty list) only flashes a
    /// validation error.
    pub fn prompt_restore(&mut self, now: u64) -> (r: Action)
        requires
            old(self).wf(),
            old(self).popup is Closed,
        ensures
            final(self).wf(),
            r is Idle,
            final(self).pending_action matches Some(p) ==> (spec_restore_target(*old(self))
                matches Some(id) && p.ids@ == seq![id]),
            spec_restore_prompted(*old(self), *final(self), now),
    {
        let gen = match self.manage_gen_clone(self.manage_cursor) {
            Some(g) => {
                if g.is_current {
                    None
                } else {
                    Some(g)
                }
            },
            None => None,
        };
        match gen {
            Some(g) => {
                let profile = self.manage_profile;
                let hm_link = self.hm_restore_link(g.id);
                let command = get_restore_command_preview(
                    self.source_path(profile).as_str(),
                    g.id,
                    profile,
                    hm_link.as_ref(),
                );
                let message = build_restore_message(profile, &g);
                let mut ids: Vec<u32> = Vec::new();
                ids.push(g.id);
                let mut descr: Vec<char> = Vec::new();
                crate::strutil::push_chars(&mut descr, "restore generation ");
                crate::strutil::push_dec_u64(&mut descr, g.id as u64);
                self.pending_action = Some(
                    PendingAction {
                        kind: PendingKind::Restore,
                        profile,
                        ids,
                        command: command.clone(),
                        description: crate::strutil::string_from_chars(&descr),
                    },
                );
                self.popup = PopupState::Confirm {
                    title: crate::strutil::string_from_chars(
                        &crate::strutil::chars_of("Confirm Restore"),
                    ),
                    message,
                    command,
                };
                Action::Idle
            },
            None => {
                self.show_flash(
                    crate::strutil::string_from_chars(
                        &crate::strutil::chars_of("Cannot restore current generation"),
                    ),
                    true,
                    now,
                );
                Action::Idle
            },
        }
    }

    /// The standalone activation link for a user-profile generation,
    /// when the detected installation is a standalone one.
    fn hm_restore_link(&self, id: u32) -> (r: Option<String>)
        ensures
            r matches Some(l) ==> spec_hm_restore_link(*self, id as int) == Some(l@),
            r is None ==> spec_hm_restore_link(*self, id as int) is None,
    {
        match &self.system_info.home_manager {
            Some(info) => {
                if info.is_standalone {
                    let parent = crate::strutil::chars_of(info.profile_path.as_str());
                    let mut name: Vec<char> = Vec::new();
                    crate::strutil::push_chars(&mut name, "home-manager-");
                    crate::strutil::push_dec_u64(&mut name, id as u64);
                    crate::strutil::push_chars(&mut name, "-link");
                    let mut v: Vec<char> = Vec::new();
                    crate::commands::push_join(&mut v, &parent, &name);
                    Some(crate::strutil::string_from_chars(&v))
                } else {
                    None
                }
            },
            None => None,
        }
    }

    /// Open the delete confirmation.  A non-empty multi-select set
    /// overrides the cursor, but any selected id a current or pinned
    /// generation carries is dropped before the target set is fixed, so
    /// the protections hold whatever the selection holds; when nothing
    /// eligible remains, nothing happens.  A single target under the
    /// cursor is refused, with a flash, when it is current or pinned.
    pub fn prompt_delete(&mut self, now: u64) -> (r: Action)
        requires
            old(self).wf(),
            old(self).popup is Closed,
        ensures
            final(self).wf(),
            r is Idle,
            final(self).pending_action matches Some(p) ==> spec_delete_targets(*old(self))
                == Some(p.ids@),
            spec_delete_prompted(*old(self), *final(self), now),
    {
        let ids: Vec<u32> = if self.manage_selected.len() == 0 {
            match self.manage_gen_at(self.manage_cursor) {
                Some((id, is_current, is_pinned)) => {
                    if !is_current && !is_pinned {
                        let mut v: Vec<u32> = Vec::new();
                        v.push(id);
                        v
                    } else if is_current {
                        self.show_flash(
                            crate::strutil::string_from_chars(
                                &crate::strutil::chars_of("Cannot delete current generation"),
                            ),
                            true,
                            now,
                        );
                        return Action::Idle;
                    } else {
                        self.show_flash(
                            crate::strutil::string_from_chars(
                                &crate::strutil::chars_of(
                                    "Cannot delete pinned generation (unpin first)",
                                ),
                            ),
                            true,
                            now,
                        );
                        return Action::Idle;
                    }
                },
                None => {
                    return Action::Idle;
                },
            }
        } else {
            let mut elig: Vec<u32> = Vec::new();
            let mut i: usize = 0;
            proof {
                assert(old(self).manage_selected@.subrange(0, 0) =~= Seq::<u32>::empty());
            }
            while i < self.manage_selected.len()
                invariant
                    *self == *old(self),
                    i <= self.manage_selected@.len(),
                    elig@ == spec_eligible_ids(
                        self.spec_manage_gens(),
                        self.manage_selected@.subrange(0, i as int),
                    ),
                decreases self.manage_selected@.len() - i,
            {
                let ghost pre = self.manage_selected@.subrange(0, i as int);
                let id = self.manage_selected[i];
                if !self.id_protected(id) {
                    elig.push(id);
                }
                i += 1;
                proof {
                    let post = self.manage_selected@.subrange(0, i as int);
                    assert(post.drop_last() =~= pre);
                    assert(post.last() == self.manage_selected@[i - 1]);
                    assert(elig@ =~= spec_eligible_ids(self.spec_manage_gens(), post));
                }
            }
            proof {
                assert(self.manage_selected@.subrange(0, self.manage_selected@.len() as int)
                    =~= self.manage_selected@);
            }
            if elig.len() == 0 {
                return Action::Idle;
            }
            elig
        };
        let profile = self.manage_profile;
        let command = get_delete_command_preview(
            self.source_path(profile).as_str(),
            &ids,
            profile,
            self.home_manager_cmd,
        );
        let message = build_delete_message(&ids);
        let mut descr: Vec<char> = Vec::new();
        crate::strutil::push_chars(&mut descr, "delete ");
        crate::strutil::push_dec_u64(&mut descr, ids.len() as u64);
        crate::strutil::push_chars(&mut descr, " generation(s)");
        self.pending_action = Some(
            PendingAction {
                kind: PendingKind::Delete,
                profile,
                ids,
                command: command.clone(),
                description: crate::strutil::string_from_chars(&descr),
            },
        );
        self.popup = PopupState::Confirm {
            title: crate::strutil::string_from_chars(&crate::strutil::chars_of("Confirm Delete")),
            message,
            command,
        };
        Action::Idle
    }
}

/// The message shown in the undo window after a delete.
pub open spec fn spec_deleted_message(n: int) -> Seq<char> {
    "Deleted "@ + crate::strutil::spec_dec(n) + " generation(s)"@
}

/// What confirming a fixed operation does.  A dry run completes at
/// once: success is flashed, the registry is left untouched, a refresh
/// is requested, and no command is ever handed out.  A real run opens
/// the loading overlay and hands out exactly the previewed command.
pub open spec fn spec_executed(s: App, t: App, r: Action, now: u64) -> bool {
    match s.pending_action {
        Some(p) => if s.dry_run {
            &&& t == (App {
                popup: t.popup,
                pending_action: None,
                flash_message: t.flash_message,
                manage_selected: t.manage_selected,
                ..s
            })
            &&& t.popup is Closed
            &&& r is Refresh
            &&& (match p.kind {
                PendingKind::Restore => (t.flash_message matches Some(f) && f.message@
                    == crate::commands::spec_restore_dry_message(p.ids@[0] as int) && !f.is_error
                    && f.at == now) && t.manage_selected@ == s.manage_selected@,
                PendingKind::Delete => (t.flash_message matches Some(f) && f.message@
                    == crate::commands::spec_delete_dry_message(p.ids@.len() as int) && !f.is_error
                    && f.at == now) && t.manage_selected@.len() == 0,
            })
        } else {
            &&& t == (App { popup: t.popup, ..s })
            &&& (t.popup matches PopupState::Loading { message } && message@ == "Executing..."@)
            &&& (r matches Action::Execute { command, description } && command@ == p.command@
                && description@ == p.description@)
        },
        None => true,
    }
}

impl App {
    /// Handle keys in the Manage tab.
    pub fn handle_manage_key(&mut self, key: Key, now: u64) -> (r: Action)
        requires
            old(self).wf(),
            old(self).popup is Closed,
        ensures
            final(self).wf(),
            spec_manage_step(*old(self), *final(self), r, key, now),
    {
        match key {
            Key::Tab => {
                if self.home_manager_generations.is_some() {
                    self.manage_profile = match self.manage_profile {
                        ProfileType::System => ProfileType::HomeManager,
                        ProfileType::HomeManager => ProfileType::System,
                    };
                    self.manage_cursor = 0;
                    self.manage_selected = Vec::new();
                }
                Action::Idle
            },
            Key::Char('j') | Key::Down => {
                let len = self.manage_len();
                self.manage_cursor = cursor_down(self.manage_cursor, len);
                Action::Idle
            },
            Key::Char('k') | Key::Up => {
                self.manage_cursor = cursor_up(self.manage_cursor);
                Action::Idle
            },
            Key::Char(' ') => {
                match self.manage_gen_at(self.manage_cursor) {
                    Some((id, is_current, _)) => {
                        if !is_current {
                            toggle_id(&mut self.manage_selected, id);
                        }
                    },
                    None => {},
                }
                Action::Idle
            },
            Key::Char('a') | Key::Char('A') => {
                let len = self.manage_len();
                let mut i: usize = 0;
                while i < len
                    invariant
                        old(self).wf(),
                        len == self.spec_manage_gens().len(),
                        i <= len,
                        *self == (App { manage_selected: self.manage_selected, ..*old(self) }),
                        unique_ids(self.manage_selected@),
                        forall|j: int|
                            0 <= j < i && !self.spec_manage_gens()[j].is_current
                                && !self.spec_manage_gens()[j].is_pinned
                                ==> self.manage_selected@.contains(self.spec_manage_gens()[j].id),
                        forall|y: u32|
                            self.manage_selected@.contains(y) ==> old(
                                self,
                            ).manage_selected@.contains(y) || exists|j: int|
                                0 <= j < i && self.spec_manage_gens()[j].id == y
                                    && !self.spec_manage_gens()[j].is_current
                                    && !self.spec_manage_gens()[j].is_pinned,
                        forall|y: u32|
                            old(self).manage_selected@.contains(y)
                                ==> self.manage_selected@.contains(y),
                    decreases len - i,
                {
                    match self.manage_gen_at(i) {
                        Some((id, is_current, is_pinned)) => {
                            if !is_current && !is_pinned {
                                insert_id(&mut self.manage_selected, id);
                            }
                        },
                        None => {},
                    }
                    i += 1;
                }
                Action::Idle
            },
            Key::Char('c') | Key::Char('C') => {
                self.manage_selected = Vec::new();
                Action::Idle
            },
            Key::Char('p') | Key::Char('P') => {
                match self.manage_gen_at(self.manage_cursor) {
                    Some((id, _, _)) => self.toggle_pin(id, now),
                    None => Action::Idle,
                }
            },
            Key::Char('r') | Key::Char('R') => self.prompt_restore(now),
            Key::Char('d') | Key::Char('D') => self.prompt_delete(now),
            _ => Action::Idle,
        }
    }

    /// Resolve the confirmation popup: an affirmative key executes the
    /// fixed operation, a negative or cancel key closes the popup with
    /// no side effect.
    pub fn handle_confirm_key(&mut self, key: Key, now: u64) -> (r: Action)
        requires
            old(self).wf(),
            old(self).spec_state() == AppState::ConfirmAction,
        ensures
            final(self).wf(),
            spec_confirm_step(*old(self), *final(self), r, key, now),
    {
        match key {
            Key::Char('y') | Key::Char('Y') => self.execute_pending(now),
            Key::Char('n') | Key::Char('N') | Key::Esc => {
                self.popup = PopupState::Closed;
                self.pending_action = None;
                Action::Idle
            },
            _ => Action::Idle,
        }
    }

    /// Execute the operation fixed at confirmation time.
    fn execute_pending(&mut self, now: u64) -> (r: Action)
        requires
            old(self).wf(),
            old(self).popup is Confirm,
        ensures
            final(self).wf(),
            spec_executed(*old(self), *final(self), r, now),
    {
        let (kind, first_id, id_count, command, description): (PendingKind, u32, usize, String, String) =
            match &self.pending_action {
            Some(p) => (
                p.kind,
                p.ids[0],
                p.ids.len(),
                p.command.clone(),
                p.description.clone(),
            ),
            None => {
                proof {
                    assert(false);
                }
                return Action::Idle;
            },
        };
        if self.dry_run {
            self.popup = PopupState::Closed;
            self.pending_action = None;
            let mut m: Vec<char> = Vec::new();
            match kind {
                PendingKind::Restore => {
                    crate::strutil::push_chars(&mut m, "Dry run: Would execute restore to generation ");
                    crate::strutil::push_dec_u64(&mut m, first_id as u64);
                },
                PendingKind::Delete => {
                    crate::strutil::push_chars(&mut m, "Dry run: Would delete ");
                    crate::strutil::push_dec_u64(&mut m, id_count as u64);
                    crate::strutil::push_chars(&mut m, " generation(s)");
                    self.manage_selected = Vec::new();
                },
            }
            self.show_flash(crate::strutil::string_from_chars(&m), false, now);
            Action::Refresh
        } else {
            self.popup = PopupState::Loading {
                message: crate::strutil::string_from_chars(
                    &crate::strutil::chars_of("Executing..."),
                ),
            };
            Action::Execute { command, description }
        }
    }

    /// Take the outcome of an executed command: success closes the
    /// workflow (for a delete, through the undo window) and asks for a
    /// refresh; failure raises a blocking error popup.
    pub fn command_finished(&mut self, result: CommandResult, now: u64) -> (r: Action)
        requires
            old(self).wf(),
            old(self).popup is Loading,
        ensures
            final(self).wf(),
            ({
                let s = *old(self);
                let t = *final(self);
                match s.pending_action {
                    Some(p) => if result.success {
                        if p.kind == PendingKind::Delete {
                            &&& t == (App {
                                popup: t.popup,
                                pending_action: None,
                                flash_message: t.flash_message,
                                manage_selected: t.manage_selected,
                                pending_undo: t.pending_undo,
                                ..s
                            })
                            &&& t.manage_selected@.len() == 0
                            &&& (t.pending_undo matches Some(pu) && pu.started_at == now
                                && (pu.action matches UndoAction::Delete {
                                profile,
                                generation_ids,
                            } && profile == p.profile && generation_ids@ == p.ids@))
                            &&& (t.popup matches PopupState::Undo { message, seconds_remaining }
                                && message@ == spec_deleted_message(p.ids@.len() as int)
                                && seconds_remaining == 10)
                            &&& (t.flash_message matches Some(f) && f.message@ == result.message@
                                && !f.is_error && f.at == now)
                            &&& r is Refresh
                        } else {
                            &&& t == (App {
                                popup: t.popup,
                                pending_action: None,
                                flash_message: t.flash_message,
                                ..s
                            })
                            &&& t.popup is Closed
                            &&& (t.flash_message matches Some(f) && f.message@ == result.message@
                                && !f.is_error && f.at == now)
                            &&& r is Refresh
                        }
                    } else {
                        &&& t == (App {
                            popup: t.popup,
                            pending_action: None,
                            manage_selected: t.manage_selected,
                            ..s
                        })
                        &&& (t.popup matches PopupState::Error { title, message } && title@
                            == "Command Failed"@ && message@ == result.message@)
                        &&& (if p.kind == PendingKind::Delete {
                            t.manage_selected@.len() == 0
                        } else {
                            t.manage_selected@ == s.manage_selected@
                        })
                        &&& r is Idle
                    },
                    None => true,
                }
            }),
    {
        let (kind, profile, ids): (PendingKind, ProfileType, Vec<u32>) =
            match &self.pending_action {
            Some(p) => (p.kind, p.profile, clone_ids(&p.ids)),
            None => {
                proof {
                    assert(false);
                }
                return Action::Idle;
            },
        };
        if result.success {
            self.pending_action = None;
            match kind {
                PendingKind::Delete => {
                    let n = ids.len();
                    self.pending_undo = Some(
                        PendingUndo {
                            action: UndoAction::Delete { profile, generation_ids: ids },
                            started_at: now,
                        },
                    );
                    let mut m: Vec<char> = Vec::new();
                    crate::strutil::push_chars(&mut m, "Deleted ");
                    crate::strutil::push_dec_u64(&mut m, n as u64);
                    crate::strutil::push_chars(&mut m, " generation(s)");
                    self.popup = PopupState::Undo {
                        message: crate::strutil::string_from_chars(&m),
                        seconds_remaining: 10,
                    };
                    self.manage_selected = Vec::new();
                },
                PendingKind::Restore => {
                    self.popup = PopupState::Closed;
                },
            }
            self.show_flash(result.message, false, now);
            Action::Refresh
        } else {
            self.show_error(
                crate::strutil::string_from_chars(&crate::strutil::chars_of("Command Failed")),
                result.message,
            );
            match kind {
                PendingKind::Delete => {
                    self.manage_selected = Vec::new();
                },
                PendingKind::Restore => {},
            }
            Action::Idle
        }
    }

    /// Take the failure to even start an executed command: a blocking
    /// error popup, with the selection left as it was.
    pub fn command_failed_to_run(&mut self, error: String) -> (r: Action)
        requires
            old(self).wf(),
            old(self).popup is Loading,
        ensures
            final(self).wf(),
            r is Idle,
            ({
                let s = *old(self);
                let t = *final(self);
                &&& t == (App { popup: t.popup, pending_action: None, ..s })
                &&& (t.popup matches PopupState::Error { title, message } && title@ == "Error"@
                    && message@ == error@)
            }),
    {
        self.show_error(
            crate::strutil::string_from_chars(&crate::strutil::chars_of("Error")),
            error,
        );
        Action::Idle
    }

    /// Resolve the error popup by explicit acknowledgement.
    pub fn handle_error_key(&mut self, key: Key) -> (r: Action)
        requires
            old(self).wf(),
            old(self).spec_state() == AppState::ShowError,
        ensures
            final(self).wf(),
            spec_error_step(*old(self), *final(self), r, key),
    {
        match key {
            Key::Char('o') | Key::Enter | Key::Esc => {
                self.popup = PopupState::Closed;
                Action::Idle
            },
            _ => Action::Idle,
        }
    }

    /// Resolve the undo window.  Asking to undo closes it and reports
    /// that the delete cannot actually be reversed; dismissing it
    /// silently confirms the delete.
    pub fn handle_undo_key(&mut self, key: Key, now: u64) -> (r: Action)
        requires
            old(self).wf(),
            old(self).spec_state() == AppState::UndoCountdown,
        ensures
            final(self).wf(),
            spec_undo_step(*old(self), *final(self), r, key, now),
    {
        match key {
            Key::Char('u') | Key::Char('U') => {
                self.pending_undo = None;
                self.popup = PopupState::Closed;
                self.show_flash(
                    crate::strutil::string_from_chars(
                        &crate::strutil::chars_of("Cannot undo delete - generation is gone"),
                    ),
                    true,
                    now,
                );
                Action::Idle
            },
            Key::Esc => {
                self.pending_undo = None;
                self.popup = PopupState::Closed;
                Action::Idle
            },
            _ => Action::Idle,
        }
    }

    /// Recompute the undo countdown from elapsed wall time.  At zero
    /// the window closes silently — the delete stands confirmed and no
    /// further undo is possible.
    pub fn update_undo_timer(&mut self, now: u64)
        requires
            old(self).wf(),
        ensures
            final(self).wf(),
            ({
                let s = *old(self);
                let t = *final(self);
                match s.pending_undo {
                    Some(pu) => {
                        let elapsed: int = if now >= pu.started_at {
                            now - pu.started_at
                        } else {
                            0
                        };
                        if elapsed >= 10 {
                            &&& t == (App {
                                pending_undo: None,
                                popup: t.popup,
                                flash_message: t.flash_message,
                                ..s
                            })
                            &&& t.popup is Closed
                            &&& (t.flash_message matches Some(f) && f.message@
                                == "Action confirmed"@ && !f.is_error && f.at == now)
                        } else {
                            match s.popup {
                                PopupState::Undo { message, seconds_remaining } => {
                                    &&& t == (App { popup: t.popup, ..s })
                                    &&& (t.popup matches PopupState::Undo {
                                        message: m2,
                                        seconds_remaining: r2,
                                    } && m2@ == message@ && r2 == 10 - elapsed)
                                },
                                _ => t == s,
                            }
                        }
                    },
                    None => t == s,
                }
            }),
    {
        let started_at: u64 = match &self.pending_undo {
            Some(pu) => pu.started_at,
            None => {
                return ;
            },
        };
        let elapsed: u64 = if now >= started_at {
            now - started_at
        } else {
            0
        };
        if elapsed >= 10 {
            self.pending_undo = None;
            self.popup = PopupState::Closed;
            self.show_flash(
                crate::strutil::string_from_chars(&crate::strutil::chars_of("Action confirmed")),
                false,
                now,
            );
        } else {
            let remaining: u8 = (10 - elapsed) as u8;
            match &self.popup {
                PopupState::Undo { message, .. } => {
                    let m = message.clone();
                    self.popup = PopupState::Undo { message: m, seconds_remaining: remaining };
                },
                _ => {},
            }
        }
    }

    /// Install freshly listed generations: pin flags are re-applied
    /// from the settings document, and every cursor bound to a
    /// generation list is re-clamped to the new length.
    pub fn refresh_done(
        &mut self,
        system_generations: Vec<Generation>,
        home_manager_generations: Option<Vec<Generation>>,
    )
        requires
            old(self).wf(),
        ensures
            final(self).wf(),
            ({
                let s = *old(self);
                let t = *final(self);
                &&& t == (App {
                    system_generations: t.system_generations,
                    home_manager_generations: t.home_manager_generations,
                    overview_system_selected: t.overview_system_selected,
                    overview_hm_selected: t.overview_hm_selected,
                    diff_from_cursor: t.diff_from_cursor,
                    diff_to_cursor: t.diff_to_cursor,
                    manage_cursor: t.manage_cursor,
                    ..s
                })
                &&& t.system_generations@ == spec_pins_applied(
                    system_generations@,
                    s.config.pinned.system@,
                )
                &&& (match (s.home_manager_source, home_manager_generations) {
                    (Some(_), Some(g)) => t.home_manager_generations matches Some(h) && h@
                        == spec_pins_applied(g@, s.config.pinned.home_manager@),
                    _ => t.home_manager_generations == s.home_manager_generations,
                })
                &&& t.overview_system_selected == crate::nav::spec_clamp(
                    s.overview_system_selected as int,
                    t.system_generations@.len() as int,
                )
                &&& t.diff_from_cursor == crate::nav::spec_clamp(
                    s.diff_from_cursor as int,
                    t.system_generations@.len() as int,
                )
                &&& t.diff_to_cursor == crate::nav::spec_clamp(
                    s.diff_to_cursor as int,
                    t.system_generations@.len() as int,
                )
                &&& t.overview_hm_selected == crate::nav::spec_clamp(
                    s.overview_hm_selected as int,
                    t.spec_hm_gens().len() as int,
                )
                &&& t.manage_cursor == crate::nav::spec_clamp(
                    s.manage_cursor as int,
                    t.spec_manage_gens().len() as int,
                )
            }),
    {
        let mut sys = system_generations;
        apply_pins(&mut sys, &self.config.pinned.system);
        self.system_generations = sys;
        if self.home_manager_source.is_some() {
            match home_manager_generations {
                Some(mut g) => {
                    apply_pins(&mut g, &self.config.pinned.home_manager);
                    self.home_manager_generations = Some(g);
                },
                None => {},
            }
        }
        self.overview_system_selected = crate::nav::clamp_cursor(
            self.overview_system_selected,
            self.system_generations.len(),
        );
        self.diff_from_cursor = crate::nav::clamp_cursor(
            self.diff_from_cursor,
            self.system_generations.len(),
        );
        self.diff_to_cursor = crate::nav::clamp_cursor(
            self.diff_to_cursor,
            self.system_generations.len(),
        );
        let hm_len: usize = match &self.home_manager_generations {
            Some(g) => g.len(),
            None => 0,
        };
        self.overview_hm_selected = crate::nav::clamp_cursor(self.overview_hm_selected, hm_len);
        let mlen = self.manage_len();
        self.manage_cursor = crate::nav::clamp_cursor(self.manage_cursor, mlen);
    }

    /// Install a loaded package list; the cursor starts at the top.
    pub fn packages_loaded(&mut self, packages: Vec<Package>)
        requires
            old(self).wf(),
        ensures
            final(self).wf(),
            ({
                let s = *old(self);
                let t = *final(self);
                &&& t == (App {
                    packages_list: t.packages_list,
                    packages_selected: 0,
                    ..s
                })
                &&& t.packages_list@ == packages@
            }),
    {
        self.packages_list = packages;
        self.packages_selected = 0;
    }

    /// Install the two package lists of a requested comparison: the
    /// diff is computed here, and the diff view rewinds to its top.
    pub fn diff_packages_loaded(&mut self, from_packages: Vec<Package>, to_packages: Vec<Package>)
        requires
            old(self).wf(),
        ensures
            final(self).wf(),
            ({
                let s = *old(self);
                let t = *final(self);
                &&& t == (App {
                    current_diff: t.current_diff,
                    diff_scroll: 0,
                    ..s
                })
                &&& (t.current_diff matches Some(d) && d.added@ == crate::types::spec_added(
                    from_packages@,
                    to_packages@,
                ) && d.removed@ == crate::types::spec_removed(from_packages@, to_packages@)
                    && d.updated@ == crate::types::spec_updates(from_packages@, to_packages@))
            }),
    {
        let diff = GenerationDiff::calculate(from_packages.as_slice(), to_packages.as_slice());
        self.current_diff = Some(diff);
        self.diff_scroll = 0;
    }

    /// Take the outcome of writing the settings document.
    pub fn save_config_done(&mut self, ok: bool, error: String, now: u64)
        requires
            old(self).wf(),
            old(self).popup is Closed,
        ensures
            final(self).wf(),
            ({
                let s = *old(self);
                let t = *final(self);
                if ok {
                    &&& t == (App { flash_message: t.flash_message, ..s })
                    &&& (t.flash_message matches Some(f) && f.message@ == "Settings saved"@
                        && !f.is_error && f.at == now)
                } else {
                    &&& t == (App { popup: t.popup, pending_action: None, ..s })
                    &&& (t.popup matches PopupState::Error { title, message } && title@
                        == "Save Failed"@ && message@ == error@)
                }
            }),
    {
        if ok {
            self.show_flash(
                crate::strutil::string_from_chars(&crate::strutil::chars_of("Settings saved")),
                false,
                now,
            );
        } else {
            self.show_error(
                crate::strutil::string_from_chars(&crate::strutil::chars_of("Save Failed")),
                error,
            );
        }
    }

    /// Handle a key outside any overlay: quit and tab switching first,
    /// then the active tab's own bindings.
    fn handle_normal_key(&mut self, key: Key, now: u64) -> (r: Action)
        requires
            old(self).wf(),
            old(self).popup is Closed,
        ensures
            final(self).wf(),
            spec_normal_step(*old(self), *final(self), r, key, now),
    {
        match key {
            Key::Char('q') => {
                self.should_quit = true;
                return Action::Idle;
            },
            Key::Char('1') => {
                self.active_tab = Tab::Overview;
            },
            Key::Char('2') => {
                self.active_tab = Tab::Packages;
            },
            Key::Char('3') => {
                self.active_tab = Tab::Diff;
            },
            Key::Char('4') => {
                self.active_tab = Tab::Manage;
            },
            Key::Char('5') => {
                self.active_tab = Tab::Settings;
            },
            _ => {},
        }
        match self.active_tab {
            Tab::Overview => self.handle_overview_key(key),
            Tab::Packages => self.handle_packages_key(key),
            Tab::Diff => self.handle_diff_key(key),
            Tab::Manage => self.handle_manage_key(key, now),
            Tab::Settings => self.handle_settings_key(key),
        }
    }

    /// Handle one key event at the given clock reading.  An expired
    /// flash message is cleared first; an active overlay takes
    /// precedence over tab handling; while loading, all input is
    /// discarded.
    pub fn handle_key(&mut self, key: Key, now: u64) -> (r: Action)
        requires
            old(self).wf(),
        ensures
            final(self).wf(),
            ({
                let s = *old(self);
                let t = *final(self);
                let s2 = spec_flash_expired(s, now);
                match s2.spec_state() {
                    AppState::Loading => t == s2 && r is Idle,
                    AppState::ConfirmAction => spec_confirm_step(s2, t, r, key, now),
                    AppState::ShowError => spec_error_step(s2, t, r, key),
                    AppState::UndoCountdown => spec_undo_step(s2, t, r, key, now),
                    _ => spec_normal_step(s2, t, r, key, now),
                }
            }),
    {
        match &self.flash_message {
            Some(f) => {
                if now >= f.at && now - f.at >= 3 {
                    self.flash_message = None;
                }
            },
            None => {},
        }
        match self.state() {
            AppState::ConfirmAction => self.handle_confirm_key(key, now),
            AppState::ShowError => self.handle_error_key(key),
            AppState::UndoCountdown => self.handle_undo_key(key, now),
            AppState::Loading => Action::Idle,
            AppState::Normal | AppState::FilterInput | AppState::DropdownOpen => self
                .handle_normal_key(key, now),
        }
    }
}

/// The restore target the workflow would fix for this state: the
/// generation under the manage cursor, unless it is current or absent.
pub open spec fn spec_restore_target(s: App) -> Option<u32> {
    let gens = s.spec_manage_gens();
    if (s.manage_cursor as int) < gens.len() && !gens[s.manage_cursor as int].is_current {
        Some(gens[s.manage_cursor as int].id)
    } else {
        None
    }
}

/// The multi-select ids that may actually be deleted: the selection in
/// order, without any id some current or pinned generation carries.
pub open spec fn spec_eligible_ids(gens: Seq<Generation>, sel: Seq<u32>) -> Seq<u32>
    decreases sel.len(),
{
    if sel.len() == 0 {
        Seq::empty()
    } else {
        let rest = spec_eligible_ids(gens, sel.drop_last());
        let id = sel.last();
        if !id_is_current(gens, id) && !id_is_pinned(gens, id) {
            rest.push(id)
        } else {
            rest
        }
    }
}

/// Every eligible id came from the selection and names no current or
/// pinned generation; distinct selections stay distinct.
pub proof fn lemma_eligible_ids(gens: Seq<Generation>, sel: Seq<u32>)
    ensures
        forall|j: int|
            0 <= j < spec_eligible_ids(gens, sel).len() ==> {
                let id = #[trigger] spec_eligible_ids(gens, sel)[j];
                sel.contains(id) && !id_is_current(gens, id) && !id_is_pinned(gens, id)
            },
        unique_ids(sel) ==> unique_ids(spec_eligible_ids(gens, sel)),
    decreases sel.len(),
{
    if sel.len() > 0 {
        lemma_eligible_ids(gens, sel.drop_last());
        let rest = spec_eligible_ids(gens, sel.drop_last());
        let e = spec_eligible_ids(gens, sel);
        assert(forall|j: int|
            0 <= j < sel.drop_last().len() && #[trigger] sel.drop_last()[j] == sel[j]
                ==> sel.contains(sel[j]));
        assert forall|j: int| 0 <= j < e.len() implies {
            let id = #[trigger] e[j];
            sel.contains(id) && !id_is_current(gens, id) && !id_is_pinned(gens, id)
        } by {
            if j < rest.len() {
                assert(e[j] == rest[j]);
                assert(sel.drop_last().contains(rest[j]));
                let k = choose|k: int| 0 <= k < sel.drop_last().len() && sel.drop_last()[k] == rest[j];
                assert(sel[k] == rest[j]);
            } else {
                assert(e[j] == sel.last());
                assert(sel[sel.len() - 1] == sel.last());
            }
        }
        if unique_ids(sel) {
            assert(unique_ids(sel.drop_last()));
            if e.len() > rest.len() {
                assert(!rest.contains(sel.last())) by {
                    if rest.contains(sel.last()) {
                        let k = choose|k: int| 0 <= k < rest.len() && rest[k] == sel.last();
                        assert(sel.drop_last().contains(rest[k]));
                        let m = choose|m: int|
                            0 <= m < sel.drop_last().len() && sel.drop_last()[m] == rest[k];
                        assert(sel[m] == sel[sel.len() - 1]);
                    }
                }
                assert(unique_ids(e)) by {
                    assert(forall|a: int, b: int|
                        0 <= a < b < e.len() && b < rest.len() ==> e[a] != e[b]);
                    assert(forall|a: int|
                        0 <= a < rest.len() ==> #[trigger] e[a] == rest[a] && rest.contains(
                            rest[a],
                        ));
                }
            }
        }
    }
}

/// The delete target set the workflow would fix for this state: the
/// eligible part of the multi-select set when any of it is eligible,
/// else the generation under the manage cursor unless it is current,
/// pinned or absent.
pub open spec fn spec_delete_targets(s: App) -> Option<Seq<u32>> {
    let gens = s.spec_manage_gens();
    if s.manage_selected@.len() == 0 {
        if (s.manage_cursor as int) < gens.len() {
            let g = gens[s.manage_cursor as int];
            if !g.is_current && !g.is_pinned {
                Some(seq![g.id])
            } else {
                None
            }
        } else {
            None
        }
    } else {
        let elig = spec_eligible_ids(gens, s.manage_selected@);
        if elig.len() == 0 {
            None
        } else {
            Some(elig)
        }
    }
}

/// The current generation is never a restore target: whenever the
/// workflow fixes a restore target at all, no generation carrying that
/// id is the profile's current one.
pub proof fn lemma_restore_target_excludes_current(s: App)
    requires
        s.wf(),
        unique_gen_ids(s.spec_manage_gens()),
    ensures
        match spec_restore_target(s) {
            Some(id) => !id_is_current(s.spec_manage_gens(), id),
            None => true,
        },
{
    let gens = s.spec_manage_gens();
    match spec_restore_target(s) {
        Some(id) => {
            let c = s.manage_cursor as int;
            if id_is_current(gens, id) {
                let i = choose|i: int| 0 <= i < gens.len() && gens[i].id == id && gens[i].is_current;
                assert(i != c);
                assert(gens[i].id == gens[c].id);
                assert(false);
            }
        },
        None => {},
    }
}

/// The current generation is never a member of a delete target set,
/// whatever the multi-select set holds: the single-target path refuses
/// it outright, and submission drops every selected id a current
/// generation carries.
pub proof fn lemma_delete_targets_exclude_current(s: App)
    requires
        s.wf(),
        unique_gen_ids(s.spec_manage_gens()),
    ensures
        match spec_delete_targets(s) {
            Some(ids) => forall|j: int|
                0 <= j < ids.len() ==> !id_is_current(s.spec_manage_gens(), ids[j]),
            None => true,
        },
{
    let gens = s.spec_manage_gens();
    match spec_delete_targets(s) {
        Some(ids) => {
            if s.manage_selected@.len() == 0 {
                let c = s.manage_cursor as int;
                assert forall|j: int| 0 <= j < ids.len() implies !id_is_current(gens, ids[j]) by {
                    assert(ids[j] == gens[c].id);
                    if id_is_current(gens, ids[j]) {
                        let i = choose|i: int|
                            0 <= i < gens.len() && gens[i].id == ids[j] && gens[i].is_current;
                        assert(i != c);
                        assert(gens[i].id == gens[c].id);
                        assert(false);
                    }
                }
            } else {
                lemma_eligible_ids(gens, s.manage_selected@);
            }
        },
        None => {},
    }
}

/// A pinned generation is never a member of a delete target set,
/// whatever the multi-select set holds: until it is unpinned, the
/// single-target path refuses it outright, select-all never picks it
/// up, and submission drops every selected id a pinned generation
/// carries.
pub proof fn lemma_delete_targets_exclude_pinned(s: App)
    requires
        s.wf(),
        unique_gen_ids(s.spec_manage_gens()),
    ensures
        match spec_delete_targets(s) {
            Some(ids) => forall|j: int|
                0 <= j < ids.len() ==> !id_is_pinned(s.spec_manage_gens(), ids[j]),
            None => true,
        },
{
    let gens = s.spec_manage_gens();
    match spec_delete_targets(s) {
        Some(ids) => {
            if s.manage_selected@.len() == 0 {
                let c = s.manage_cursor as int;
                assert forall|j: int| 0 <= j < ids.len() implies !id_is_pinned(gens, ids[j]) by {
                    assert(ids[j] == gens[c].id);
                    if id_is_pinned(gens, ids[j]) {
                        let i = choose|i: int|
                            0 <= i < gens.len() && gens[i].id == ids[j] && gens[i].is_pinned;
                        assert(i != c);
                        assert(gens[i].id == gens[c].id);
                        assert(false);
                    }
                }
            } else {
                lemma_eligible_ids(gens, s.manage_selected@);
            }
        },
        None => {},
    }
}

/// One key handled on the Overview tab.
pub open spec fn spec_overview_step(s: App, t: App, r: Action, key: Key) -> bool {
            let sys_len = s.system_generations@.len() as int;
            let hm_len = s.spec_hm_gens().len() as int;
            if key == Key::Char('j') || key == Key::Down {
                (r is Idle) && (if s.overview_focus == 0 {
                    t == (App {
                        overview_system_selected: nav_step(
                            s.overview_system_selected as int,
                            sys_len,
                            NavOp::Down,
                        ) as usize,
                        ..s
                    })
                } else if s.home_manager_generations is Some {
                    t == (App {
                        overview_hm_selected: nav_step(
                            s.overview_hm_selected as int,
                            hm_len,
                            NavOp::Down,
                        ) as usize,
                        ..s
                    })
                } else {
                    t == s
                })
            } else if key == Key::Char('k') || key == Key::Up {
                (r is Idle) && (if s.overview_focus == 0 {
                    t == (App {
                        overview_system_selected: nav_step(
                            s.overview_system_selected as int,
                            sys_len,
                            NavOp::Up,
                        ) as usize,
                        ..s
                    })
                } else {
                    t == (App {
                        overview_hm_selected: nav_step(
                            s.overview_hm_selected as int,
                            hm_len,
                            NavOp::Up,
                        ) as usize,
                        ..s
                    })
                })
            } else if key == Key::Char('g') {
                (r is Idle) && (if s.overview_focus == 0 {
                    t == (App { overview_system_selected: 0, ..s })
                } else {
                    t == (App { overview_hm_selected: 0, ..s })
                })
            } else if key == Key::Char('G') {
                (r is Idle) && (if s.overview_focus == 0 {
                    t == (App {
                        overview_system_selected: nav_step(0, sys_len, NavOp::Bottom) as usize,
                        ..s
                    })
                } else if s.home_manager_generations is Some {
                    t == (App {
                        overview_hm_selected: nav_step(0, hm_len, NavOp::Bottom) as usize,
                        ..s
                    })
                } else {
                    t == s
                })
            } else if key == Key::Tab {
                (r is Idle) && (if s.home_manager_generations is Some {
                    t == (App {
                        overview_focus: ((s.overview_focus + 1) as int % 2) as usize,
                        ..s
                    })
                } else {
                    t == s
                })
            } else if key == Key::Enter {
                if s.overview_focus == 0 {
                    if (s.overview_system_selected as int) < sys_len {
                        spec_enter_packages(
                            s,
                            t,
                            r,
                            s.system_generations@[s.overview_system_selected as int].id,
                            ProfileType::System,
                        )
                    } else {
                        t == s && r is Idle
                    }
                } else {
                    if (s.overview_hm_selected as int) < hm_len
                        && s.home_manager_generations is Some {
                        spec_enter_packages(
                            s,
                            t,
                            r,
                            s.spec_hm_gens()[s.overview_hm_selected as int].id,
                            ProfileType::HomeManager,
                        )
                    } else {
                        t == s && r is Idle
                    }
                }
            } else {
                t == s && r is Idle
            }
}


/// One key handled on the Packages tab: filter editing always rewinds
/// the cursor, and motions clamp to the filtered count.
pub open spec fn spec_packages_step(s: App, t: App, r: Action, key: Key) -> bool {
    (r is Idle) && ({
                let count = s.spec_visible_count();
                if key == Key::Char('/') {
                    t == (App {
                        packages_filter: t.packages_filter,
                        packages_filter_active: true,
                        packages_selected: 0,
                        ..s
                    }) && t.packages_filter@.len() == 0
                } else if key is Char && s.packages_filter_active {
                    match key {
                        Key::Char(c) => t == (App {
                            packages_filter: t.packages_filter,
                            packages_selected: 0,
                            ..s
                        }) && t.packages_filter@ == s.packages_filter@ + seq![c],
                        _ => false,
                    }
                } else if key == Key::Backspace {
                    t == (App {
                        packages_filter: t.packages_filter,
                        packages_selected: 0,
                        ..s
                    }) && t.packages_filter@ == (if s.packages_filter@.len() > 0 {
                        s.packages_filter@.drop_last()
                    } else {
                        s.packages_filter@
                    })
                } else if key == Key::Esc {
                    t == (App {
                        packages_filter: t.packages_filter,
                        packages_filter_active: false,
                        packages_selected: 0,
                        ..s
                    }) && t.packages_filter@.len() == 0
                } else if key == Key::Char('j') || key == Key::Down {
                    t == (App {
                        packages_selected: nav_step(
                            s.packages_selected as int,
                            count,
                            NavOp::Down,
                        ) as usize,
                        ..s
                    })
                } else if key == Key::Char('k') || key == Key::Up {
                    t == (App {
                        packages_selected: nav_step(s.packages_selected as int, count, NavOp::Up) as usize,
                        ..s
                    })
                } else if key == Key::Char('g') {
                    t == (App { packages_selected: 0, ..s })
                } else if key == Key::Char('G') {
                    t == (App {
                        packages_selected: nav_step(0, count, NavOp::Bottom) as usize,
                        ..s
                    })
                } else {
                    t == s
                }
    })
}


/// One key handled on the Diff tab.
pub open spec fn spec_diff_step(s: App, t: App, r: Action, key: Key) -> bool {
            let sys_len = s.system_generations@.len() as int;
            if key == Key::Tab {
                (r is Idle) && t == (App {
                    diff_focus: ((s.diff_focus + 1) as int % 2) as usize,
                    ..s
                })
            } else if key == Key::Char('j') || key == Key::Down {
                (r is Idle) && (if s.diff_focus == 0 {
                    t == (App {
                        diff_from_cursor: nav_step(
                            s.diff_from_cursor as int,
                            sys_len,
                            NavOp::Down,
                        ) as usize,
                        ..s
                    })
                } else {
                    t == (App {
                        diff_to_cursor: nav_step(
                            s.diff_to_cursor as int,
                            sys_len,
                            NavOp::Down,
                        ) as usize,
                        ..s
                    })
                })
            } else if key == Key::Char('k') || key == Key::Up {
                (r is Idle) && (if s.diff_focus == 0 {
                    t == (App {
                        diff_from_cursor: nav_step(
                            s.diff_from_cursor as int,
                            sys_len,
                            NavOp::Up,
                        ) as usize,
                        ..s
                    })
                } else {
                    t == (App {
                        diff_to_cursor: nav_step(s.diff_to_cursor as int, sys_len, NavOp::Up) as usize,
                        ..s
                    })
                })
            } else if key == Key::Char('g') {
                (r is Idle) && (if s.diff_focus == 0 {
                    t == (App { diff_from_cursor: 0, ..s })
                } else {
                    t == (App { diff_to_cursor: 0, ..s })
                })
            } else if key == Key::Char('G') {
                (r is Idle) && (if s.diff_focus == 0 {
                    t == (App {
                        diff_from_cursor: nav_step(0, sys_len, NavOp::Bottom) as usize,
                        ..s
                    })
                } else {
                    t == (App {
                        diff_to_cursor: nav_step(0, sys_len, NavOp::Bottom) as usize,
                        ..s
                    })
                })
            } else if key == Key::Enter {
                ({
                    let cur = if s.diff_focus == 0 {
                        s.diff_from_cursor
                    } else {
                        s.diff_to_cursor
                    };
                    if (cur as int) < sys_len {
                        let id = s.system_generations@[cur as int].id;
                        &&& t == (App {
                            diff_from_gen: t.diff_from_gen,
                            diff_to_gen: t.diff_to_gen,
                            ..s
                        })
                        &&& (if s.diff_focus == 0 {
                            t.diff_from_gen == Some(id) && t.diff_to_gen == s.diff_to_gen
                        } else {
                            t.diff_to_gen == Some(id) && t.diff_from_gen == s.diff_from_gen
                        })
                        &&& (match (t.diff_from_gen, t.diff_to_gen) {
                            (Some(f), Some(to)) => r matches Action::ComputeDiff {
                                from_path,
                                to_path,
                            } && from_path@ == spec_load_path(
                                s.system_source.profile_path@,
                                f as int,
                                ProfileType::System,
                            ) && to_path@ == spec_load_path(
                                s.system_source.profile_path@,
                                to as int,
                                ProfileType::System,
                            ),
                            _ => r is Idle,
                        })
                    } else {
                        t == s && r is Idle
                    }
                })
            } else if key == Key::Char('c') || key == Key::Char('C') {
                (r is Idle) && t == (App {
                    diff_from_gen: None,
                    diff_to_gen: None,
                    current_diff: None,
                    diff_scroll: 0,
                    ..s
                })
            } else {
                t == s && r is Idle
            }
}


/// One key handled on the Settings tab: confirming a row flips it and
/// asks for a save.
pub open spec fn spec_settings_step(s: App, t: App, r: Action, key: Key) -> bool {
            if key == Key::Char('j') || key == Key::Down {
                (r is Idle) && t == (App {
                    settings_selected: nav_step(
                        s.settings_selected as int,
                        SETTINGS_COUNT as int,
                        NavOp::Down,
                    ) as usize,
                    ..s
                })
            } else if key == Key::Char('k') || key == Key::Up {
                (r is Idle) && t == (App {
                    settings_selected: nav_step(
                        s.settings_selected as int,
                        SETTINGS_COUNT as int,
                        NavOp::Up,
                    ) as usize,
                    ..s
                })
            } else if key == Key::Enter {
                (r matches Action::SaveConfig { report } && report) && t == (App {
                    config: t.config,
                    ..s
                }) && t.config == spec_settings_toggled(s.config, s.settings_selected as int)
            } else {
                t == s && r is Idle
            }
}


/// One key handled on the Manage tab: navigation and selection, the
/// pin flip, and the two destructive-action prompts.
pub open spec fn spec_manage_step(s: App, t: App, r: Action, key: Key, now: u64) -> bool {
            let gens = s.spec_manage_gens();
            let len = gens.len() as int;
            if key == Key::Tab {
                (r is Idle) && (if s.home_manager_generations is Some {
                    t == (App {
                        manage_profile: (if s.manage_profile == ProfileType::System {
                            ProfileType::HomeManager
                        } else {
                            ProfileType::System
                        }),
                        manage_cursor: 0,
                        manage_selected: t.manage_selected,
                        ..s
                    }) && t.manage_selected@.len() == 0
                } else {
                    t == s
                })
            } else if key == Key::Char('j') || key == Key::Down {
                (r is Idle) && t == (App {
                    manage_cursor: nav_step(s.manage_cursor as int, len, NavOp::Down) as usize,
                    ..s
                })
            } else if key == Key::Char('k') || key == Key::Up {
                (r is Idle) && t == (App {
                    manage_cursor: nav_step(s.manage_cursor as int, len, NavOp::Up) as usize,
                    ..s
                })
            } else if key == Key::Char(' ') {
                (r is Idle) && (if (s.manage_cursor as int) < len && !gens[s.manage_cursor as int].is_current {
                    let id = gens[s.manage_cursor as int].id;
                    &&& t == (App { manage_selected: t.manage_selected, ..s })
                    &&& unique_ids(t.manage_selected@)
                    &&& t.manage_selected@.contains(id) == !s.manage_selected@.contains(id)
                    &&& (forall|y: u32|
                        y != id ==> t.manage_selected@.contains(y)
                            == s.manage_selected@.contains(y))
                } else {
                    t == s
                })
            } else if key == Key::Char('a') || key == Key::Char('A') {
                &&& r is Idle
                &&& t == (App { manage_selected: t.manage_selected, ..s })
                &&& unique_ids(t.manage_selected@)
                &&& (forall|j: int|
                    0 <= j < len && !gens[j].is_current && !gens[j].is_pinned
                        ==> t.manage_selected@.contains(gens[j].id))
                &&& (forall|y: u32|
                    t.manage_selected@.contains(y) ==> s.manage_selected@.contains(y) || exists|j: int|
                        0 <= j < len && gens[j].id == y && !gens[j].is_current
                            && !gens[j].is_pinned)
                &&& (forall|y: u32|
                    s.manage_selected@.contains(y) ==> t.manage_selected@.contains(y))
            } else if key == Key::Char('c') || key == Key::Char('C') {
                (r is Idle) && t == (App { manage_selected: t.manage_selected, ..s })
                    && t.manage_selected@.len() == 0
            } else if key == Key::Char('p') || key == Key::Char('P') {
                if (s.manage_cursor as int) < len {
                    (r matches Action::SaveConfig { report } && !report) && spec_pin_toggled(
                        s,
                        t,
                        gens[s.manage_cursor as int].id,
                        now,
                    )
                } else {
                    t == s && r is Idle
                }
            } else if key == Key::Char('r') || key == Key::Char('R') {
                (r is Idle) && spec_restore_prompted(s, t, now)
            } else if key == Key::Char('d') || key == Key::Char('D') {
                (r is Idle) && spec_delete_prompted(s, t, now)
            } else {
                t == s && r is Idle
            }
}


/// One key resolving the confirmation popup.
pub open spec fn spec_confirm_step(s: App, t: App, r: Action, key: Key, now: u64) -> bool {
            if key == Key::Char('y') || key == Key::Char('Y') {
                spec_executed(s, t, r, now)
            } else if key == Key::Char('n') || key == Key::Char('N') || key == Key::Esc {
                (r is Idle) && t == (App {
                    popup: t.popup,
                    pending_action: None,
                    ..s
                }) && t.popup is Closed
            } else {
                t == s && r is Idle
            }
}


/// One key resolving the error popup: only explicit acknowledgement
/// dismisses it.
pub open spec fn spec_error_step(s: App, t: App, r: Action, key: Key) -> bool {
    (r is Idle) && ({
                if key == Key::Char('o') || key == Key::Enter || key == Key::Esc {
                    t == (App { popup: t.popup, ..s }) && t.popup is Closed
                } else {
                    t == s
                }
    })
}


/// One key resolving the undo window.
pub open spec fn spec_undo_step(s: App, t: App, r: Action, key: Key, now: u64) -> bool {
    (r is Idle) && ({
                if key == Key::Char('u') || key == Key::Char('U') {
                    &&& t == (App {
                        popup: t.popup,
                        pending_undo: None,
                        flash_message: t.flash_message,
                        ..s
                    })
                    &&& t.popup is Closed
                    &&& (t.flash_message matches Some(f) && f.message@
                        == "Cannot undo delete - generation is gone"@ && f.is_error && f.at == now)
                } else if key == Key::Esc {
                    t == (App { popup: t.popup, pending_undo: None, ..s }) && t.popup is Closed
                } else {
                    t == s
                }
    })
}


/// A pin flip on the given generation: the settings document and the
/// active profile's displayed list agree afterwards, and a flash
/// reports it.
pub open spec fn spec_pin_toggled(s: App, t: App, gen_id: u32, now: u64) -> bool {
            &&& t == (App {
                config: t.config,
                system_generations: t.system_generations,
                home_manager_generations: t.home_manager_generations,
                flash_message: t.flash_message,
                ..s
            })
            &&& (t.flash_message matches Some(f) && f.message@ == "Pin status updated"@
                && !f.is_error && f.at == now)
            &&& (if s.manage_profile == ProfileType::System {
                &&& t.config.pinned.system@.contains(gen_id) == !s.config.pinned.system@.contains(gen_id)
                &&& (forall|y: u32|
                    y != gen_id ==> t.config.pinned.system@.contains(y)
                        == s.config.pinned.system@.contains(y))
                &&& t.config.pinned.home_manager == s.config.pinned.home_manager
                &&& t.config.theme == s.config.theme && t.config.layout == s.config.layout
                    && t.config.display == s.config.display
                &&& t.home_manager_generations == s.home_manager_generations
                &&& ({
                    let idx = spec_idx_of_gen(s.system_generations@, gen_id);
                    if idx >= 0 {
                        t.system_generations@ == s.system_generations@.update(
                            idx,
                            spec_with_pin(
                                s.system_generations@[idx],
                                t.config.pinned.system@.contains(gen_id),
                            ),
                        )
                    } else {
                        t.system_generations@ == s.system_generations@
                    }
                })
            } else {
                &&& t.config.pinned.home_manager@.contains(gen_id)
                    == !s.config.pinned.home_manager@.contains(gen_id)
                &&& (forall|y: u32|
                    y != gen_id ==> t.config.pinned.home_manager@.contains(y)
                        == s.config.pinned.home_manager@.contains(y))
                &&& t.config.pinned.system == s.config.pinned.system
                &&& t.config.theme == s.config.theme && t.config.layout == s.config.layout
                    && t.config.display == s.config.display
                &&& t.system_generations == s.system_generations
                &&& (match s.home_manager_generations {
                    Some(hm) => {
                        let idx = spec_idx_of_gen(hm@, gen_id);
                        if idx >= 0 {
                            t.home_manager_generations matches Some(h2) && h2@ == hm@.update(
                                idx,
                                spec_with_pin(
                                    hm@[idx],
                                    t.config.pinned.home_manager@.contains(gen_id),
                                ),
                            )
                        } else {
                            t.home_manager_generations matches Some(h2) && h2@ == hm@
                        }
                    },
                    None => t.home_manager_generations is None,
                })
            })
}


/// A restore prompt: the confirmation opens with the cursor's
/// generation fixed, or a validation flash refuses a current or absent
/// target.
pub open spec fn spec_restore_prompted(s: App, t: App, now: u64) -> bool {
            let gens = s.spec_manage_gens();
            if (s.manage_cursor as int) < gens.len() && !gens[s.manage_cursor as int].is_current {
                let g = gens[s.manage_cursor as int];
                let cmd = spec_restore_cmd_of(s, s.manage_profile, g.id);
                &&& t == (App { popup: t.popup, pending_action: t.pending_action, ..s })
                &&& spec_confirm_open(
                    t,
                    PendingKind::Restore,
                    s.manage_profile,
                    seq![g.id],
                    "Confirm Restore"@,
                    spec_restore_message(s.manage_profile, g),
                    cmd,
                    crate::commands::spec_restore_description(g.id as int),
                )
            } else {
                &&& t == (App { flash_message: t.flash_message, ..s })
                &&& (t.flash_message matches Some(f) && f.message@
                    == "Cannot restore current generation"@ && f.is_error && f.at == now)
            }
}


/// A delete prompt: the confirmation opens with the fixed target set
/// (the eligible part of the selection, or the cursor's unprotected
/// generation), or a validation flash or no-op refuses everything
/// else.
pub open spec fn spec_delete_prompted(s: App, t: App, now: u64) -> bool {
            let gens = s.spec_manage_gens();
            if s.manage_selected@.len() == 0 {
                if (s.manage_cursor as int) < gens.len() {
                    let g = gens[s.manage_cursor as int];
                    if !g.is_current && !g.is_pinned {
                        let cmd = spec_delete_cmd_of(s, s.manage_profile, seq![g.id]);
                        &&& t == (App {
                            popup: t.popup,
                            pending_action: t.pending_action,
                            ..s
                        })
                        &&& spec_confirm_open(
                            t,
                            PendingKind::Delete,
                            s.manage_profile,
                            seq![g.id],
                            "Confirm Delete"@,
                            spec_delete_message(seq![g.id]),
                            cmd,
                            crate::commands::spec_delete_description(1),
                        )
                    } else if g.is_current {
                        &&& t == (App { flash_message: t.flash_message, ..s })
                        &&& (t.flash_message matches Some(f) && f.message@
                            == "Cannot delete current generation"@ && f.is_error && f.at
                            == now)
                    } else {
                        &&& t == (App { flash_message: t.flash_message, ..s })
                        &&& (t.flash_message matches Some(f) && f.message@
                            == "Cannot delete pinned generation (unpin first)"@ && f.is_error
                            && f.at == now)
                    }
                } else {
                    t == s
                }
            } else {
                let ids = spec_eligible_ids(gens, s.manage_selected@);
                if ids.len() == 0 {
                    t == s
                } else {
                    let cmd = spec_delete_cmd_of(s, s.manage_profile, ids);
                    &&& t == (App { popup: t.popup, pending_action: t.pending_action, ..s })
                    &&& spec_confirm_open(
                        t,
                        PendingKind::Delete,
                        s.manage_profile,
                        ids,
                        "Confirm Delete"@,
                        spec_delete_message(ids),
                        cmd,
                        crate::commands::spec_delete_description(ids.len() as int),
                    )
                }
            }
}

/// The tab a digit key selects; any other key keeps the current one.
pub open spec fn spec_tab_for_key(key: Key, cur: Tab) -> Tab {
    if key == Key::Char('1') {
        Tab::Overview
    } else if key == Key::Char('2') {
        Tab::Packages
    } else if key == Key::Char('3') {
        Tab::Diff
    } else if key == Key::Char('4') {
        Tab::Manage
    } else if key == Key::Char('5') {
        Tab::Settings
    } else {
        cur
    }
}

/// One key handled outside any overlay: quit ends the session at once;
/// otherwise a digit key first switches the tab, and the same key then
/// goes to the active tab's own handler.
pub open spec fn spec_normal_step(s: App, t: App, r: Action, key: Key, now: u64) -> bool {
    if key == Key::Char('q') {
        t == (App { should_quit: true, ..s }) && r is Idle
    } else {
        let s1 = App { active_tab: spec_tab_for_key(key, s.active_tab), ..s };
        match s1.active_tab {
            Tab::Overview => spec_overview_step(s1, t, r, key),
            Tab::Packages => spec_packages_step(s1, t, r, key),
            Tab::Diff => spec_diff_step(s1, t, r, key),
            Tab::Manage => spec_manage_step(s1, t, r, key, now),
            Tab::Settings => spec_settings_step(s1, t, r, key),
        }
    }
}

/// The state after clearing a flash message that has outlived its
/// three time units.
pub open spec fn spec_flash_expired(s: App, now: u64) -> App {
    match s.flash_message {
        Some(f) => if now >= f.at && now - f.at >= 3 {
            App { flash_message: None, ..s }
        } else {
            s
        },
        None => s,
    }
}

/// Copy one generation record.
fn clone_generation(g: &Generation) -> (r: Generation)
    ensures
        r == *g,
{
    Generation {
        id: g.id,
        date: g.date,
        is_current: g.is_current,
        nixos_version: match &g.nixos_version {
            Some(v) => Some(v.clone()),
            None => None,
        },
        kernel_version: match &g.kernel_version {
            Some(v) => Some(v.clone()),
            None => None,
        },
        package_count: g.package_count,
        closure_size: g.closure_size,
        store_path: g.store_path.clone(),
        is_pinned: g.is_pinned,
        in_bootloader: g.in_bootloader,
    }
}

/// Copy an id list.
fn clone_ids(v: &Vec<u32>) -> (r: Vec<u32>)
    ensures
        r@ == v@,
{
    let mut r: Vec<u32> = Vec::new();
    let mut i: usize = 0;
    while i < v.len()
        invariant
            i <= v@.len(),
            r@ == v@.subrange(0, i as int),
        decreases v@.len() - i,
    {
        r.push(v[i]);
        i += 1;
        proof {
            assert(r@ =~= v@.subrange(0, i as int));
        }
    }
    proof {
        assert(v@.subrange(0, v@.len() as int) =~= v@);
    }
    r
}

/// Set the pin flag on the first generation with this id, if present.
fn set_pin_of(gens: &mut Vec<Generation>, gen_id: u32, pinned: bool)
    ensures
        final(gens)@.len() == old(gens)@.len(),
        ({
            let idx = spec_idx_of_gen(old(gens)@, gen_id);
            if idx >= 0 {
                final(gens)@ == old(gens)@.update(idx, spec_with_pin(old(gens)@[idx], pinned))
            } else {
                final(gens)@ == old(gens)@
            }
        }),
{
    let mut i: usize = 0;
    while i < gens.len()
        invariant
            i <= gens@.len(),
            gens@ == old(gens)@,
            forall|j: int| 0 <= j < i ==> gens@[j].id != gen_id,
        decreases gens@.len() - i,
    {
        if gens[i].id == gen_id {
            let g = gens.remove(i);
            gens.insert(
                i,
                Generation {
                    id: g.id,
                    date: g.date,
                    is_current: g.is_current,
                    nixos_version: g.nixos_version,
                    kernel_version: g.kernel_version,
                    package_count: g.package_count,
                    closure_size: g.closure_size,
                    store_path: g.store_path,
                    is_pinned: pinned,
                    in_bootloader: g.in_bootloader,
                },
            );
            proof {
                lemma_idx_of_gen_at(old(gens)@, gen_id, i as int);
                assert(gens@ =~= old(gens)@.update(
                    i as int,
                    spec_with_pin(old(gens)@[i as int], pinned),
                ));
            }
            return;
        }
        i += 1;
    }
    proof {
        lemma_idx_of_gen_none(gens@, gen_id);
    }
}

proof fn lemma_idx_of_gen_at(gens: Seq<Generation>, id: u32, i: int)
    requires
        0 <= i < gens.len(),
        gens[i].id == id,
        forall|j: int| 0 <= j < i ==> gens[j].id != id,
    ensures
        spec_idx_of_gen(gens, id) == i,
    decreases i,
{
    if i > 0 {
        assert(forall|j: int| 0 <= j < i - 1 ==> gens.skip(1)[j].id != id);
        lemma_idx_of_gen_at(gens.skip(1), id, i - 1);
    }
}

proof fn lemma_idx_of_gen_none(gens: Seq<Generation>, id: u32)
    requires
        forall|j: int| 0 <= j < gens.len() ==> gens[j].id != id,
    ensures
        spec_idx_of_gen(gens, id) < 0,
    decreases gens.len(),
{
    if gens.len() > 0 {
        assert(forall|j: int| 0 <= j < gens.skip(1).len() ==> gens.skip(1)[j].id != id);
        lemma_idx_of_gen_none(gens.skip(1), id);
    }
}

/// Build the restore confirmation message.
fn build_restore_message(profile: ProfileType, g: &Generation) -> (r: String)
    ensures
        r@ == spec_restore_message(profile, *g),
{
    let mut v: Vec<char> = Vec::new();
    crate::strutil::push_chars(&mut v, "Restore ");
    crate::strutil::push_chars(&mut v, profile.as_str());
    crate::strutil::push_chars(&mut v, " generation #");
    crate::strutil::push_dec_u64(&mut v, g.id as u64);
    crate::strutil::push_chars(&mut v, "?\n\nDate: ");
    let date = g.date.formatted();
    crate::strutil::push_chars(&mut v, date.as_str());
    crate::strutil::push_chars(&mut v, "\nVersion: ");
    match &g.nixos_version {
        Some(ver) => crate::strutil::push_chars(&mut v, ver.as_str()),
        None => crate::strutil::push_chars(&mut v, "Unknown"),
    }
    proof {
        assert(v@ =~= spec_restore_message(profile, *g));
    }
    crate::strutil::string_from_chars(&v)
}

/// Build the delete confirmation message.
fn build_delete_message(ids: &Vec<u32>) -> (r: String)
    ensures
        r@ == spec_delete_message(ids@),
{
    let mut v: Vec<char> = Vec::new();
    crate::strutil::push_chars(&mut v, "Delete ");
    crate::strutil::push_dec_u64(&mut v, ids.len() as u64);
    crate::strutil::push_chars(&mut v, " generation(s)?\n\nIDs: [");
    let mut i: usize = 0;
    while i < ids.len()
        invariant
            i <= ids@.len(),
            v@ == "Delete "@ + crate::strutil::spec_dec(ids@.len() as int)
                + " generation(s)?\n\nIDs: ["@ + spec_ids_debug_inner(ids@.subrange(0, i as int)),
        decreases ids@.len() - i,
    {
        let ghost pre = ids@.subrange(0, i as int);
        if i > 0 {
            crate::strutil::push_chars(&mut v, ", ");
        }
        crate::strutil::push_dec_u64(&mut v, ids[i] as u64);
        i += 1;
        proof {
            let post = ids@.subrange(0, i as int);
            assert(post.drop_last() =~= pre);
            assert(post.last() == ids@[i - 1]);
            assert(v@ =~= "Delete "@ + crate::strutil::spec_dec(ids@.len() as int)
                + " generation(s)?\n\nIDs: ["@ + spec_ids_debug_inner(post));
        }
    }
    crate::strutil::push_chars(&mut v, "]\n\n\u{26a0} This cannot be undone!");
    proof {
        assert(ids@.subrange(0, ids@.len() as int) =~= ids@);
        assert(v@ =~= spec_delete_message(ids@));
    }
    crate::strutil::string_from_chars(&v)
}

/// The position of the first generation with this id, or -1.
pub open spec fn spec_idx_of_gen(gens: Seq<Generation>, id: u32) -> int
    decreases gens.len(),
{
    if gens.len() == 0 {
        -1
    } else if gens[0].id == id {
        0
    } else {
        let r = spec_idx_of_gen(gens.skip(1), id);
        if r < 0 {
            -1
        } else {
            r + 1
        }
    }
}

/// Some generation of `gens` with this id is the current one.
pub open spec fn id_is_current(gens: Seq<Generation>, id: u32) -> bool {
    exists|i: int| 0 <= i < gens.len() && gens[i].id == id && gens[i].is_current
}

/// Some generation of `gens` with this id is pinned.
pub open spec fn id_is_pinned(gens: Seq<Generation>, id: u32) -> bool {
    exists|i: int| 0 <= i < gens.len() && gens[i].id == id && gens[i].is_pinned
}

/// No two generations of `gens` share an id.
pub open spec fn unique_gen_ids(gens: Seq<Generation>) -> bool {
    forall|i: int, j: int| 0 <= i < j < gens.len() ==> gens[i].id != gens[j].id
}

/// The confirmation message of a restore.
pub open spec fn spec_restore_message(profile: ProfileType, g: Generation) -> Seq<char> {
    "Restore "@ + profile.spec_str() + " generation #"@ + crate::strutil::spec_dec(g.id as int)
        + "?\n\nDate: "@ + g.date.spec_formatted() + "\nVersion: "@ + (match g.nixos_version {
        Some(v) => v@,
        None => "Unknown"@,
    })
}

/// The ids of a delete target set, rendered as a bracketed list.
pub open spec fn spec_ids_debug_inner(ids: Seq<u32>) -> Seq<char>
    decreases ids.len(),
{
    if ids.len() == 0 {
        Seq::empty()
    } else if ids.len() == 1 {
        crate::strutil::spec_dec(ids[0] as int)
    } else {
        spec_ids_debug_inner(ids.drop_last()) + ", "@ + crate::strutil::spec_dec(
            ids.last() as int,
        )
    }
}

/// The confirmation message of a delete.
pub open spec fn spec_delete_message(ids: Seq<u32>) -> Seq<char> {
    "Delete "@ + crate::strutil::spec_dec(ids.len() as int) + " generation(s)?\n\nIDs: ["@
        + spec_ids_debug_inner(ids) + "]\n\n\u{26a0} This cannot be undone!"@
}

/// The standalone activation link used when restoring a user-profile
/// generation, as far as the detected installation offers one.
pub open spec fn spec_hm_restore_link(s: App, id: int) -> Option<Seq<char>> {
    match s.system_info.home_manager {
        Some(info) => if info.is_standalone {
            Some(
                crate::commands::spec_join(
                    info.profile_path@,
                    "home-manager-"@ + crate::strutil::spec_dec(id) + "-link"@,
                ),
            )
        } else {
            None
        },
        None => None,
    }
}

/// A restore prompt or execution for this state and target: the command
/// previewed and run.
pub open spec fn spec_restore_cmd_of(s: App, profile: ProfileType, id: u32) -> Seq<char> {
    crate::commands::spec_restore_command(
        s.spec_source_path(profile),
        id as int,
        profile,
        spec_hm_restore_link(s, id as int),
    )
}

/// A delete prompt or execution for this state and target set: the
/// command previewed and run.
pub open spec fn spec_delete_cmd_of(s: App, profile: ProfileType, ids: Seq<u32>) -> Seq<char> {
    crate::commands::spec_delete_command(
        s.spec_source_path(profile),
        ids,
        profile,
        s.home_manager_cmd,
    )
}

/// A confirmation popup is open and the matching operation is fixed.
pub open spec fn spec_confirm_open(
    t: App,
    kind: PendingKind,
    profile: ProfileType,
    ids: Seq<u32>,
    title: Seq<char>,
    message: Seq<char>,
    cmd: Seq<char>,
    description: Seq<char>,
) -> bool {
    &&& (t.popup matches PopupState::Confirm { title: ti, message: m, command: c } && ti@ == title
        && m@ == message && c@ == cmd)
    &&& (t.pending_action matches Some(p) && p.kind == kind && p.profile == profile && p.ids@
        == ids && p.command@ == cmd && p.description@ == description)
}

/// What one confirmation of a settings row does to the document.
pub open spec fn spec_settings_toggled(c: Config, idx: int) -> Config {
    if idx == 0 {
        Config { theme: c.theme.spec_next(), ..c }
    } else if idx == 1 {
        Config { layout: c.layout.spec_next(), ..c }
    } else if idx == 2 {
        Config {
            display: crate::config::DisplayOptions {
                show_nixos_version: !c.display.show_nixos_version,
                ..c.display
            },
            ..c
        }
    } else if idx == 3 {
        Config {
            display: crate::config::DisplayOptions {
                show_kernel_version: !c.display.show_kernel_version,
                ..c.display
            },
            ..c
        }
    } else if idx == 4 {
        Config {
            display: crate::config::DisplayOptions {
                show_package_count: !c.display.show_package_count,
                ..c.display
            },
            ..c
        }
    } else if idx == 5 {
        Config {
            display: crate::config::DisplayOptions { show_size: !c.display.show_size, ..c.display },
            ..c
        }
    } else {
        Config {
            display: crate::config::DisplayOptions {
                show_boot_entry: !c.display.show_boot_entry,
                ..c.display
            },
            ..c
        }
    }
}

/// What entering a generation from the overview leaves behind: the
/// Packages tab active and empty, its metadata pointing at the chosen
/// generation, and a load request for the driver.
pub open spec fn spec_enter_packages(s: App, t: App, r: Action, id: u32, profile: ProfileType) -> bool {
    &&& t == (App {
        active_tab: Tab::Packages,
        packages_list: t.packages_list,
        packages_gen_id: Some(id),
        packages_profile: profile,
        packages_selected: 0,
        packages_filter: t.packages_filter,
        packages_filter_active: false,
        ..s
    })
    &&& t.packages_list@.len() == 0
    &&& t.packages_filter@.len() == 0
    &&& (r matches Action::LoadPackages { profile: p, gen_path, gen_id } && p == profile && gen_id
        == id && gen_path@ == spec_load_path(s.spec_source_path(profile), id as int, profile))
}

/// The generation link path used when loading a generation's packages:
/// beside the profile link, with the profile path itself standing in
/// when it has no parent.
pub open spec fn spec_load_path(profile_path: Seq<char>, id: int, profile: ProfileType) -> Seq<char> {
    crate::commands::spec_join(
        crate::commands::spec_parent_or(profile_path, profile_path),
        crate::generations::spec_generation_file_name(id, profile),
    )
}

/// Build the generation link path used when loading packages.
fn load_path(profile_path: &str, id: u32, profile: ProfileType) -> (r: String)
    ensures
        r@ == spec_load_path(profile_path@, id as int, profile),
{
    let parent: Vec<char> = match crate::commands::parent_dir(profile_path) {
        Some(d) => d,
        None => crate::strutil::chars_of(profile_path),
    };
    let mut name: Vec<char> = Vec::new();
    crate::generations::push_generation_file_name(&mut name, id, profile);
    let mut v: Vec<char> = Vec::new();
    crate::commands::push_join(&mut v, &parent, &name);
    crate::strutil::string_from_chars(&v)
}

} // verus!
