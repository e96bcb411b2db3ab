//! Persisted settings: theme, layout, display toggles and pinned
//! generations.
//!
//! Reading and writing the settings file is the caller's business; the
//! library holds the document as plain values and keeps the pin sets
//! free of duplicates.

use vstd::prelude::*;

use crate::idset::{contains_id, toggle_id, unique_ids};

verus! {

/// Available theme names.
#[derive(Debug, Clone, Copy, PartialEq, Eq, Structural)]
pub enum ThemeName {
    Gruvbox,
    Nord,
    Transparent,
}

impl ThemeName {
    /// All themes, in cycling order.
    pub fn all() -> (r: Vec<ThemeName>)
        ensures
            r@ == seq![ThemeName::Gruvbox, ThemeName::Nord, ThemeName::Transparent],
    {
        let mut v: Vec<ThemeName> = Vec::new();
        v.push(ThemeName::Gruvbox);
        v.push(ThemeName::Nord);
        v.push(ThemeName::Transparent);
        proof {
            assert(v@ =~= seq![ThemeName::Gruvbox, ThemeName::Nord, ThemeName::Transparent]);
        }
        v
    }

    /// The display name of the theme.
    pub open spec fn spec_str(self) -> Seq<char> {
        match self {
            ThemeName::Gruvbox => "Gruvbox"@,
            ThemeName::Nord => "Nord"@,
            ThemeName::Transparent => "Transparent"@,
        }
    }

    /// The display name of the theme.
    pub fn as_str(&self) -> (r: &'static str)
        ensures
            r@ == self.spec_str(),
    {
        match self {
            ThemeName::Gruvbox => "Gruvbox",
            ThemeName::Nord => "Nord",
            ThemeName::Transparent => "Transparent",
        }
    }

    /// The next theme in cycling order.
    pub open spec fn spec_next(self) -> ThemeName {
        match self {
            ThemeName::Gruvbox => ThemeName::Nord,
            ThemeName::Nord => ThemeName::Transparent,
            ThemeName::Transparent => ThemeName::Gruvbox,
        }
    }

    /// The next theme in cycling order.
    pub fn next(&self) -> (r: Self)
        ensures
            r == self.spec_next(),
    {
        match self {
            ThemeName::Gruvbox => ThemeName::Nord,
            ThemeName::Nord => ThemeName::Transparent,
            ThemeName::Transparent => ThemeName::Gruvbox,
        }
    }
}

impl Default for ThemeName {
    /// The default theme.
    fn default() -> (r: Self)
        ensures
            r == ThemeName::Gruvbox,
    {
        ThemeName::Gruvbox
    }
}

/// Layout mode for the dashboard.
#[derive(Debug, Clone, Copy, PartialEq, Eq, Structural)]
pub enum LayoutMode {
    Auto,
    SideBySide,
    TabsOnly,
}

impl LayoutMode {
    /// The display name of the layout mode.
    pub open spec fn spec_str(self) -> Seq<char> {
        match self {
            LayoutMode::Auto => "Auto (responsive)"@,
            LayoutMode::SideBySide => "Side-by-side"@,
            LayoutMode::TabsOnly => "Tabs only"@,
        }
    }

    /// The display name of the layout mode.
    pub fn as_str(&self) -> (r: &'static str)
        ensures
            r@ == self.spec_str(),
    {
        match self {
            LayoutMode::Auto => "Auto (responsive)",
            LayoutMode::SideBySide => "Side-by-side",
            LayoutMode::TabsOnly => "Tabs only",
        }
    }

    /// The next layout mode in cycling order.
    pub open spec fn spec_next(self) -> LayoutMode {
        match self {
            LayoutMode::Auto => LayoutMode::SideBySide,
            LayoutMode::SideBySide => LayoutMode::TabsOnly,
            LayoutMode::TabsOnly => LayoutMode::Auto,
        }
    }

    /// The next layout mode in cycling order.
    pub fn next(&self) -> (r: Self)
        ensures
            r == self.spec_next(),
    {
        match self {
            LayoutMode::Auto => LayoutMode::SideBySide,
            LayoutMode::SideBySide => LayoutMode::TabsOnly,
            LayoutMode::TabsOnly => LayoutMode::Auto,
        }
    }
}

impl Default for LayoutMode {
    /// The default layout mode.
    fn default() -> (r: Self)
        ensures
            r == LayoutMode::Auto,
    {
        LayoutMode::Auto
    }
}

/// Which generation details the overview shows.
#[derive(Debug, Clone)]
pub struct DisplayOptions {
    pub show_nixos_version: bool,
    pub show_kernel_version: bool,
    pub show_package_count: bool,
    pub show_size: bool,
    pub show_store_path: bool,
    pub show_boot_entry: bool,
}

impl Default for DisplayOptions {
    /// The default display toggles: everything but the store path.
    fn default() -> (r: Self)
        ensures
            r.show_nixos_version && r.show_kernel_version && r.show_package_count && r.show_size
                && !r.show_store_path && r.show_boot_entry,
    {
        DisplayOptions {
            show_nixos_version: true,
            show_kernel_version: true,
            show_package_count: true,
            show_size: true,
            show_store_path: false,
            show_boot_entry: true,
        }
    }
}

/// Pinned generations, protected from deletion, one id set per profile.
#[derive(Debug, Clone)]
pub struct PinnedGenerations {
    pub system: Vec<u32>,
    pub home_manager: Vec<u32>,
}

impl PinnedGenerations {
    /// Neither pin set holds an id twice.
    pub open spec fn wf(self) -> bool {
        unique_ids(self.system@) && unique_ids(self.home_manager@)
    }
}

impl Default for PinnedGenerations {
    /// Empty pin sets.
    fn default() -> (r: Self)
        ensures
            r.system@ == Seq::<u32>::empty(),
            r.home_manager@ == Seq::<u32>::empty(),
            r.wf(),
    {
        PinnedGenerations { system: Vec::new(), home_manager: Vec::new() }
    }
}

/// The whole settings document.
#[derive(Debug, Clone)]
pub struct Config {
    pub theme: ThemeName,
    pub layout: LayoutMode,
    pub display: DisplayOptions,
    pub pinned: PinnedGenerations,
}

impl Config {
    /// The pin sets hold no duplicates.
    pub open spec fn wf(self) -> bool {
        self.pinned.wf()
    }

    /// Check if a system generation is pinned.
    pub fn is_system_pinned(&self, gen_id: u32) -> (r: bool)
        ensures
            r == self.pinned.system@.contains(gen_id),
    {
        contains_id(&self.pinned.system, gen_id)
    }

    /// Check if a user-profile generation is pinned.
    pub fn is_home_manager_pinned(&self, gen_id: u32) -> (r: bool)
        ensures
            r == self.pinned.home_manager@.contains(gen_id),
    {
        contains_id(&self.pinned.home_manager, gen_id)
    }

    /// Flip the pin on a system generation.
    pub fn toggle_system_pin(&mut self, gen_id: u32)
        requires
            old(self).wf(),
        ensures
            final(self).wf(),
            final(self).pinned.system@.contains(gen_id) == !old(self).pinned.system@.contains(
                gen_id,
            ),
            forall|y: u32|
                y != gen_id ==> final(self).pinned.system@.contains(y) == old(
                    self,
                ).pinned.system@.contains(y),
            final(self).pinned.home_manager == old(self).pinned.home_manager,
            final(self).theme == old(self).theme,
            final(self).layout == old(self).layout,
            final(self).display == old(self).display,
    {
        toggle_id(&mut self.pinned.system, gen_id);
    }

    /// Flip the pin on a user-profile generation.
    pub fn toggle_home_manager_pin(&mut self, gen_id: u32)
        requires
            old(self).wf(),
        ensures
            final(self).wf(),
            final(self).pinned.home_manager@.contains(gen_id) == !old(
                self,
            ).pinned.home_manager@.contains(gen_id),
            forall|y: u32|
                y != gen_id ==> final(self).pinned.home_manager@.contains(y) == old(
                    self,
                ).pinned.home_manager@.contains(y),
            final(self).pinned.system == old(self).pinned.system,
            final(self).theme == old(self).theme,
            final(self).layout == old(self).layout,
            final(self).display == old(self).display,
    {
        toggle_id(&mut self.pinned.home_manager, gen_id);
    }
}

impl Default for Config {
    /// The default settings document.
    fn default() -> (r: Self)
        ensures
            r.theme == ThemeName::Gruvbox,
            r.layout == LayoutMode::Auto,
            r.display.show_nixos_version,
            r.pinned.system@ == Seq::<u32>::empty(),
            r.pinned.home_manager@ == Seq::<u32>::empty(),
            r.wf(),
    {
        Config {
            theme: ThemeName::Gruvbox,
            layout: LayoutMode::Auto,
            display: DisplayOptions::default(),
            pinned: PinnedGenerations::default(),
        }
    }
}

} // verus!
