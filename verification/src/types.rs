//! Shared data types: generations, packages, and the diff engine.

use vstd::prelude::*;

use crate::strutil::{
    chars_of, contains_sub, has_prefix, is_substring, push_chars, push_dec_u64, push_two_digits,
    spec_dec, spec_two_digits, starts_with, string_from_chars,
};

verus! {

/// A wall-clock date and time, kept as plain fields.
#[derive(Debug, Clone, Copy, PartialEq, Eq, Structural)]
pub struct Timestamp {
    pub year: u32,
    pub month: u32,
    pub day: u32,
    pub hour: u32,
    pub minute: u32,
    pub second: u32,
}

/// Days of a month, honouring leap years.
pub open spec fn days_in_month(year: int, month: int) -> int {
    if month == 2 {
        if year % 4 == 0 && (year % 100 != 0 || year % 400 == 0) {
            29
        } else {
            28
        }
    } else if month == 4 || month == 6 || month == 9 || month == 11 {
        30
    } else {
        31
    }
}

impl Timestamp {
    /// A calendar-valid date and time.
    pub open spec fn valid(self) -> bool {
        1 <= self.month <= 12 && 1 <= self.day <= days_in_month(
            self.year as int,
            self.month as int,
        ) && self.hour < 24 && self.minute < 60 && self.second < 60
    }

    /// The display rendering: `DD.MM.YY HH:MM`.
    pub open spec fn spec_formatted(self) -> Seq<char> {
        spec_two_digits(self.day as int % 100) + seq!['.'] + spec_two_digits(
            self.month as int % 100,
        ) + seq!['.'] + spec_two_digits(self.year as int % 100) + seq![' '] + spec_two_digits(
            self.hour as int % 100,
        ) + seq![':'] + spec_two_digits(self.minute as int % 100)
    }

    /// Format the date for display.
    pub fn formatted(&self) -> (r: String)
        ensures
            r@ == self.spec_formatted(),
    {
        let mut v: Vec<char> = Vec::new();
        push_two_digits(&mut v, (self.day % 100) as u64);
        v.push('.');
        push_two_digits(&mut v, (self.month % 100) as u64);
        v.push('.');
        push_two_digits(&mut v, (self.year % 100) as u64);
        v.push(' ');
        push_two_digits(&mut v, (self.hour % 100) as u64);
        v.push(':');
        push_two_digits(&mut v, (self.minute % 100) as u64);
        proof {
            assert(v@ =~= self.spec_formatted());
        }
        string_from_chars(&v)
    }
}

/// One generation of a profile.
#[derive(Debug, Clone)]
pub struct Generation {
    pub id: u32,
    pub date: Timestamp,
    pub is_current: bool,
    pub nixos_version: Option<String>,
    pub kernel_version: Option<String>,
    pub package_count: usize,
    pub closure_size: u64,
    pub store_path: String,
    pub is_pinned: bool,
    pub in_bootloader: bool,
}

impl Generation {
    /// Format the date for display.
    pub fn formatted_date(&self) -> (r: String)
        ensures
            r@ == self.date.spec_formatted(),
    {
        self.date.formatted()
    }

    /// Format the closure size for display.
    pub fn formatted_size(&self) -> (r: String)
        ensures
            r@ == spec_format_bytes(self.closure_size as int),
    {
        format_bytes(self.closure_size)
    }
}

/// A package of one generation.
#[derive(Debug, Clone, PartialEq, Eq, Hash)]
pub struct Package {
    pub name: String,
    pub version: String,
    pub size: u64,
}

impl Package {
    /// Format the size for display.
    pub fn formatted_size(&self) -> (r: String)
        ensures
            r@ == spec_format_bytes(self.size as int),
    {
        format_bytes(self.size)
    }
}

/// One package present on both sides with differing versions.
#[derive(Debug, Clone)]
pub struct PackageUpdate {
    pub name: String,
    pub old_version: String,
    pub new_version: String,
    pub is_kernel: bool,
    pub is_security: bool,
}

/// Some package in `s` carries this name.
pub open spec fn has_pkg_name(s: Seq<Package>, n: Seq<char>) -> bool {
    exists|i: int| 0 <= i < s.len() && s[i].name@ == n
}

/// The first package in `s` carrying this name, if any.
pub open spec fn spec_find_name(s: Seq<Package>, n: Seq<char>) -> Option<Package>
    decreases s.len(),
{
    if s.len() == 0 {
        None
    } else if s[0].name@ == n {
        Some(s[0])
    } else {
        spec_find_name(s.skip(1), n)
    }
}

/// The packages of `from`, in order, whose name is absent from `other`.
pub open spec fn spec_only_in(from: Seq<Package>, other: Seq<Package>) -> Seq<Package>
    decreases from.len(),
{
    if from.len() == 0 {
        Seq::empty()
    } else {
        let rest = spec_only_in(from.drop_last(), other);
        if !has_pkg_name(other, from.last().name@) {
            rest.push(from.last())
        } else {
            rest
        }
    }
}

/// The names the update classifier flags as security-critical.
pub open spec fn spec_is_security(n: Seq<char>) -> bool {
    is_substring(n, "openssl"@) || is_substring(n, "openssh"@) || is_substring(n, "gnupg"@)
        || is_substring(n, "gpg"@) || is_substring(n, "sudo"@) || is_substring(n, "polkit"@)
        || is_substring(n, "pam"@) || is_substring(n, "shadow"@) || is_substring(n, "nss"@)
        || is_substring(n, "ca-certificates"@) || is_substring(n, "curl"@) || is_substring(
        n,
        "wget"@,
    )
}

/// The update entry recorded when `new_pkg` replaces `old_pkg`.
pub open spec fn spec_mk_update(old_pkg: Package, new_pkg: Package) -> PackageUpdate {
    PackageUpdate {
        name: new_pkg.name,
        old_version: old_pkg.version,
        new_version: new_pkg.version,
        is_kernel: has_prefix(new_pkg.name@, "linux-"@),
        is_security: spec_is_security(new_pkg.name@),
    }
}

/// The updates of a diff: packages of the new side whose name also
/// appears on the old side with a different version, in new-side order.
pub open spec fn spec_updates(
    old_side: Seq<Package>,
    new_side: Seq<Package>,
) -> Seq<PackageUpdate>
    decreases new_side.len(),
{
    if new_side.len() == 0 {
        Seq::empty()
    } else {
        let rest = spec_updates(old_side, new_side.drop_last());
        let p = new_side.last();
        match spec_find_name(old_side, p.name@) {
            Some(q) => if q.version@ != p.version@ {
                rest.push(spec_mk_update(q, p))
            } else {
                rest
            },
            None => rest,
        }
    }
}

/// The `added` list of a diff from `old_side` to `new_side`.
pub open spec fn spec_added(old_side: Seq<Package>, new_side: Seq<Package>) -> Seq<Package> {
    spec_only_in(new_side, old_side)
}

/// The `removed` list of a diff from `old_side` to `new_side`.
pub open spec fn spec_removed(old_side: Seq<Package>, new_side: Seq<Package>) -> Seq<Package> {
    spec_only_in(old_side, new_side)
}

/// Result of comparing two generations' package collections.
#[derive(Debug, Clone, Default)]
pub struct GenerationDiff {
    pub added: Vec<Package>,
    pub removed: Vec<Package>,
    pub updated: Vec<PackageUpdate>,
}

/// Is some package of `s` named `n`?
fn has_name(s: &[Package], n: &String) -> (r: bool)
    ensures
        r == has_pkg_name(s@, n@),
{
    let mut i: usize = 0;
    while i < s.len()
        invariant
            i <= s@.len(),
            forall|j: int| 0 <= j < i ==> s@[j].name@ != n@,
        decreases s@.len() - i,
    {
        if s[i].name.eq(n) {
            return true;
        }
        i += 1;
    }
    false
}

proof fn lemma_find_name_at(s: Seq<Package>, n: Seq<char>, i: int)
    requires
        0 <= i < s.len(),
        s[i].name@ == n,
        forall|j: int| 0 <= j < i ==> s[j].name@ != n,
    ensures
        spec_find_name(s, n) == Some(s[i]),
    decreases i,
{
    if i > 0 {
        assert(forall|j: int| 0 <= j < i - 1 ==> s.skip(1)[j].name@ != n);
        lemma_find_name_at(s.skip(1), n, i - 1);
    }
}

proof fn lemma_find_name_none(s: Seq<Package>, n: Seq<char>)
    requires
        !has_pkg_name(s, n),
    ensures
        spec_find_name(s, n) is None,
    decreases s.len(),
{
    if s.len() > 0 {
        assert(!has_pkg_name(s.skip(1), n)) by {
            if has_pkg_name(s.skip(1), n) {
                let i = choose|i: int| 0 <= i < s.skip(1).len() && s.skip(1)[i].name@ == n;
                assert(s[i + 1].name@ == n);
            }
        }
        lemma_find_name_none(s.skip(1), n);
    }
}

/// The first package of `s` named `n`, if any.
fn find_name<'a>(s: &'a [Package], n: &String) -> (r: Option<&'a Package>)
    ensures
        match r {
            Some(p) => spec_find_name(s@, n@) == Some(*p),
            None => spec_find_name(s@, n@) is None,
        },
{
    let mut i: usize = 0;
    while i < s.len()
        invariant
            i <= s@.len(),
            forall|j: int| 0 <= j < i ==> s@[j].name@ != n@,
        decreases s@.len() - i,
    {
        if s[i].name.eq(n) {
            proof {
                lemma_find_name_at(s@, n@, i as int);
            }
            return Some(&s[i]);
        }
        i += 1;
    }
    proof {
        lemma_find_name_none(s@, n@);
    }
    None
}

/// Is the package name flagged as security-critical?
pub fn is_security_package(name: &str) -> (r: bool)
    ensures
        r == spec_is_security(name@),
{
    let n = chars_of(name);
    contains_sub(&n, &chars_of("openssl")) || contains_sub(&n, &chars_of("openssh"))
        || contains_sub(&n, &chars_of("gnupg")) || contains_sub(&n, &chars_of("gpg"))
        || contains_sub(&n, &chars_of("sudo")) || contains_sub(&n, &chars_of("polkit"))
        || contains_sub(&n, &chars_of("pam")) || contains_sub(&n, &chars_of("shadow"))
        || contains_sub(&n, &chars_of("nss")) || contains_sub(&n, &chars_of("ca-certificates"))
        || contains_sub(&n, &chars_of("curl")) || contains_sub(&n, &chars_of("wget"))
}

impl GenerationDiff {
    /// Calculate the diff between two package collections: `added` holds
    /// the new-side packages whose name is absent from the old side,
    /// `removed` the old-side packages whose name is absent from the new
    /// side, and `updated` the packages present on both sides by name
    /// with differing versions.
    pub fn calculate(old_packages: &[Package], new_packages: &[Package]) -> (r: Self)
        ensures
            r.added@ == spec_added(old_packages@, new_packages@),
            r.removed@ == spec_removed(old_packages@, new_packages@),
            r.updated@ == spec_updates(old_packages@, new_packages@),
    {
        let mut added: Vec<Package> = Vec::new();
        let mut i: usize = 0;
        while i < new_packages.len()
            invariant
                i <= new_packages@.len(),
                added@ == spec_only_in(new_packages@.subrange(0, i as int), old_packages@),
            decreases new_packages@.len() - i,
        {
            let ghost pre = new_packages@.subrange(0, i as int);
            if !has_name(old_packages, &new_packages[i].name) {
                let p = &new_packages[i];
                added.push(Package { name: p.name.clone(), version: p.version.clone(), size: p.size });
            }
            i += 1;
            proof {
                let post = new_packages@.subrange(0, i as int);
                assert(post.drop_last() =~= pre);
                assert(post.last() == new_packages@[i - 1]);
                assert(added@ == spec_only_in(post, old_packages@));
            }
        }
        let mut removed: Vec<Package> = Vec::new();
        let mut i: usize = 0;
        while i < old_packages.len()
            invariant
                i <= old_packages@.len(),
                removed@ == spec_only_in(old_packages@.subrange(0, i as int), new_packages@),
            decreases old_packages@.len() - i,
        {
            let ghost pre = old_packages@.subrange(0, i as int);
            if !has_name(new_packages, &old_packages[i].name) {
                let p = &old_packages[i];
                removed.push(Package { name: p.name.clone(), version: p.version.clone(), size: p.size });
            }
            i += 1;
            proof {
                let post = old_packages@.subrange(0, i as int);
                assert(post.drop_last() =~= pre);
                assert(post.last() == old_packages@[i - 1]);
                assert(removed@ == spec_only_in(post, new_packages@));
            }
        }
        let mut updated: Vec<PackageUpdate> = Vec::new();
        let mut i: usize = 0;
        while i < new_packages.len()
            invariant
                i <= new_packages@.len(),
                updated@ == spec_updates(old_packages@, new_packages@.subrange(0, i as int)),
            decreases new_packages@.len() - i,
        {
            let ghost pre = new_packages@.subrange(0, i as int);
            let new_pkg = &new_packages[i];
            match find_name(old_packages, &new_pkg.name) {
                Some(old_pkg) => {
                    if !old_pkg.version.eq(&new_pkg.version) {
                        let is_kernel = starts_with_str(&new_pkg.name, "linux-");
                        let is_security = is_security_package(new_pkg.name.as_str());
                        updated.push(
                            PackageUpdate {
                                name: new_pkg.name.clone(),
                                old_version: old_pkg.version.clone(),
                                new_version: new_pkg.version.clone(),
                                is_kernel,
                                is_security,
                            },
                        );
                    }
                },
                None => {},
            }
            i += 1;
            proof {
                let post = new_packages@.subrange(0, i as int);
                assert(post.drop_last() =~= pre);
                assert(post.last() == new_packages@[i - 1]);
                assert(updated@ == spec_updates(old_packages@, post));
            }
        }
        proof {
            assert(new_packages@.subrange(0, new_packages@.len() as int) =~= new_packages@);
            assert(old_packages@.subrange(0, old_packages@.len() as int) =~= old_packages@);
        }
        GenerationDiff { added, removed, updated }
    }

    /// Summary line: counts of added, removed and updated packages.
    pub fn summary(&self) -> (r: String)
        ensures
            r@ == spec_summary(self.added@.len() as int, self.removed@.len() as int, self.updated@.len() as int),
    {
        let mut v: Vec<char> = Vec::new();
        v.push('+');
        push_dec_u64(&mut v, self.added.len() as u64);
        push_chars(&mut v, " added \u{b7} -");
        push_dec_u64(&mut v, self.removed.len() as u64);
        push_chars(&mut v, " removed \u{b7} ~");
        push_dec_u64(&mut v, self.updated.len() as u64);
        push_chars(&mut v, " updated");
        proof {
            assert(v@ =~= spec_summary(self.added@.len() as int, self.removed@.len() as int, self.updated@.len() as int));
        }
        string_from_chars(&v)
    }
}

/// The summary rendering for the three counts.
pub open spec fn spec_summary(a: int, r: int, u: int) -> Seq<char> {
    seq!['+'] + spec_dec(a) + " added \u{b7} -"@ + spec_dec(r) + " removed \u{b7} ~"@ + spec_dec(u)
        + " updated"@
}

/// Does the string start with the pattern?
fn starts_with_str(s: &String, p: &str) -> (r: bool)
    ensures
        r == has_prefix(s@, p@),
{
    let v = chars_of(s.as_str());
    starts_with(&v, p)
}

pub const KB: u64 = 1024;

pub const MB: u64 = KB * 1024;

pub const GB: u64 = MB * 1024;

/// The whole part shown when `b` is rendered in unit `d`, after
/// rounding the first fraction digit half-up.
pub open spec fn spec_unit_whole(b: int, d: int) -> int {
    if ((b % d) * 10 + d / 2) / d == 10 {
        b / d + 1
    } else {
        b / d
    }
}

/// The single fraction digit shown when `b` is rendered in unit `d`.
pub open spec fn spec_unit_frac(b: int, d: int) -> int {
    if ((b % d) * 10 + d / 2) / d == 10 {
        0
    } else {
        ((b % d) * 10 + d / 2) / d
    }
}

/// The human-readable rendering of a byte count: whole bytes below a
/// kibibyte, otherwise one-decimal KB/MB/GB with half-up rounding.
pub open spec fn spec_format_bytes(b: int) -> Seq<char> {
    if b >= GB {
        spec_dec(spec_unit_whole(b, GB as int)) + seq!['.'] + spec_dec(spec_unit_frac(b, GB as int))
            + " GB"@
    } else if b >= MB {
        spec_dec(spec_unit_whole(b, MB as int)) + seq!['.'] + spec_dec(spec_unit_frac(b, MB as int))
            + " MB"@
    } else if b >= KB {
        spec_dec(spec_unit_whole(b, KB as int)) + seq!['.'] + spec_dec(spec_unit_frac(b, KB as int))
            + " KB"@
    } else {
        spec_dec(b) + " B"@
    }
}

fn push_unit(v: &mut Vec<char>, b: u64, d: u64, suffix: &str)
    requires
        1024 <= d <= GB,
        b >= d,
    ensures
        final(v)@ == old(v)@ + spec_dec(spec_unit_whole(b as int, d as int)) + seq!['.']
            + spec_dec(spec_unit_frac(b as int, d as int)) + suffix@,
{
    let mut whole = b / d;
    let mut frac = ((b % d) * 10 + d / 2) / d;
    proof {
        assert((b % d) * 10 + d / 2 < d * 10 + d) by (nonlinear_arith)
            requires b % d < d, d >= 1;
        assert(((b as int % d as int) * 10 + d as int / 2) / d as int <= 10) by (nonlinear_arith)
            requires (b as int % d as int) * 10 + d as int / 2 < d as int * 10 + d as int, d >= 1024;
        assert(b as int / d as int <= b as int / 1024) by (nonlinear_arith)
            requires 1024 <= d as int, 0 <= b as int;
    }
    if frac == 10 {
        whole = whole + 1;
        frac = 0;
    }
    push_dec_u64(v, whole);
    v.push('.');
    push_dec_u64(v, frac);
    push_chars(v, suffix);
}

/// Format a byte count for display.
pub fn format_bytes(bytes: u64) -> (r: String)
    ensures
        r@ == spec_format_bytes(bytes as int),
{
    let mut v: Vec<char> = Vec::new();
    if bytes >= GB {
        push_unit(&mut v, bytes, GB, " GB");
    } else if bytes >= MB {
        push_unit(&mut v, bytes, MB, " MB");
    } else if bytes >= KB {
        push_unit(&mut v, bytes, KB, " KB");
    } else {
        push_dec_u64(&mut v, bytes);
        push_chars(&mut v, " B");
    }
    proof {
        assert(v@ =~= spec_format_bytes(bytes as int));
    }
    string_from_chars(&v)
}

/// Profile type: the system profile or the user-level one.
#[derive(Debug, Clone, Copy, PartialEq, Eq, Structural)]
pub enum ProfileType {
    System,
    HomeManager,
}

impl ProfileType {
    /// The display name of the profile.
    pub fn as_str(&self) -> (r: &'static str)
        ensures
            r@ == self.spec_str(),
    {
        match self {
            ProfileType::System => "System",
            ProfileType::HomeManager => "Home-Manager",
        }
    }

    /// The display name of the profile.
    pub open spec fn spec_str(self) -> Seq<char> {
        match self {
            ProfileType::System => "System"@,
            ProfileType::HomeManager => "Home-Manager"@,
        }
    }
}

/// The five tabs of the dashboard.
#[derive(Debug, Clone, Copy, PartialEq, Eq, Structural, Default)]
pub enum Tab {
    #[default]
    Overview,
    Packages,
    Diff,
    Manage,
    Settings,
}

impl Tab {
    /// All tabs, in display order.
    pub fn all() -> (r: Vec<Tab>)
        ensures
            r@ == seq![Tab::Overview, Tab::Packages, Tab::Diff, Tab::Manage, Tab::Settings],
    {
        let mut v: Vec<Tab> = Vec::new();
        v.push(Tab::Overview);
        v.push(Tab::Packages);
        v.push(Tab::Diff);
        v.push(Tab::Manage);
        v.push(Tab::Settings);
        proof {
            assert(v@ =~= seq![Tab::Overview, Tab::Packages, Tab::Diff, Tab::Manage, Tab::Settings]);
        }
        v
    }

    /// The position of the tab in display order.
    pub open spec fn spec_index(self) -> int {
        match self {
            Tab::Overview => 0,
            Tab::Packages => 1,
            Tab::Diff => 2,
            Tab::Manage => 3,
            Tab::Settings => 4,
        }
    }

    /// The position of the tab in display order.
    pub fn index(&self) -> (r: usize)
        ensures
            r == self.spec_index(),
    {
        match self {
            Tab::Overview => 0,
            Tab::Packages => 1,
            Tab::Diff => 2,
            Tab::Manage => 3,
            Tab::Settings => 4,
        }
    }

    /// The tab at a display position; out-of-range positions give the
    /// first tab.
    pub fn from_index(idx: usize) -> (r: Self)
        ensures
            r == Tab::spec_from_index(idx as int),
    {
        match idx {
            0 => Tab::Overview,
            1 => Tab::Packages,
            2 => Tab::Diff,
            3 => Tab::Manage,
            4 => Tab::Settings,
            _ => Tab::Overview,
        }
    }

    /// The tab at a display position.
    pub open spec fn spec_from_index(idx: int) -> Tab {
        if idx == 1 {
            Tab::Packages
        } else if idx == 2 {
            Tab::Diff
        } else if idx == 3 {
            Tab::Manage
        } else if idx == 4 {
            Tab::Settings
        } else {
            Tab::Overview
        }
    }

    /// The display label of the tab.
    pub open spec fn spec_label(self) -> Seq<char> {
        match self {
            Tab::Overview => "Overview"@,
            Tab::Packages => "Packages"@,
            Tab::Diff => "Diff"@,
            Tab::Manage => "Manage"@,
            Tab::Settings => "Settings"@,
        }
    }

    /// The display label of the tab.
    pub fn label(&self) -> (r: &'static str)
        ensures
            r@ == self.spec_label(),
    {
        match self {
            Tab::Overview => "Overview",
            Tab::Packages => "Packages",
            Tab::Diff => "Diff",
            Tab::Manage => "Manage",
            Tab::Settings => "Settings",
        }
    }
}

/// No two packages of `s` share a name.
pub open spec fn unique_names(s: Seq<Package>) -> bool {
    forall|i: int, j: int| 0 <= i < j < s.len() ==> s[i].name@ != s[j].name@
}

/// Some update entry of `us` carries this name.
pub open spec fn upd_has_name(us: Seq<PackageUpdate>, n: Seq<char>) -> bool {
    exists|i: int| 0 <= i < us.len() && us[i].name@ == n
}

/// The version recorded for the first package of `s` named `n`
/// (empty when no package carries the name).
pub open spec fn version_at(s: Seq<Package>, n: Seq<char>) -> Seq<char> {
    match spec_find_name(s, n) {
        Some(p) => p.version@,
        None => Seq::empty(),
    }
}

proof fn lemma_has_name_push(s: Seq<Package>, x: Package, n: Seq<char>)
    ensures
        has_pkg_name(s.push(x), n) <==> (has_pkg_name(s, n) || x.name@ == n),
{
    if has_pkg_name(s, n) {
        let i = choose|i: int| 0 <= i < s.len() && s[i].name@ == n;
        assert(s.push(x)[i].name@ == n);
    }
    if x.name@ == n {
        assert(s.push(x)[s.len() as int].name@ == n);
    }
    if has_pkg_name(s.push(x), n) {
        let i = choose|i: int| 0 <= i < s.push(x).len() && s.push(x)[i].name@ == n;
        if i < s.len() {
            assert(s[i].name@ == n);
        }
    }
}

proof fn lemma_upd_has_name_push(us: Seq<PackageUpdate>, x: PackageUpdate, n: Seq<char>)
    ensures
        upd_has_name(us.push(x), n) <==> (upd_has_name(us, n) || x.name@ == n),
{
    if upd_has_name(us, n) {
        let i = choose|i: int| 0 <= i < us.len() && us[i].name@ == n;
        assert(us.push(x)[i].name@ == n);
    }
    if x.name@ == n {
        assert(us.push(x)[us.len() as int].name@ == n);
    }
    if upd_has_name(us.push(x), n) {
        let i = choose|i: int| 0 <= i < us.push(x).len() && us.push(x)[i].name@ == n;
        if i < us.len() {
            assert(us[i].name@ == n);
        }
    }
}

proof fn lemma_find_some_iff_has(s: Seq<Package>, n: Seq<char>)
    ensures
        spec_find_name(s, n) is Some <==> has_pkg_name(s, n),
        spec_find_name(s, n) matches Some(p) ==> has_pkg_name(s, n) && exists|i: int|
            0 <= i < s.len() && s[i] == p && s[i].name@ == n,
    decreases s.len(),
{
    if s.len() > 0 {
        if s[0].name@ == n {
        } else {
            lemma_find_some_iff_has(s.skip(1), n);
            if has_pkg_name(s.skip(1), n) {
                let i = choose|i: int| 0 <= i < s.skip(1).len() && s.skip(1)[i].name@ == n;
                assert(s[i + 1].name@ == n);
            }
            if has_pkg_name(s, n) {
                let i = choose|i: int| 0 <= i < s.len() && s[i].name@ == n;
                assert(i > 0);
                assert(s.skip(1)[i - 1].name@ == n);
            }
            match spec_find_name(s.skip(1), n) {
                Some(p) => {
                    let i = choose|i: int|
                        0 <= i < s.skip(1).len() && s.skip(1)[i] == p && s.skip(1)[i].name@ == n;
                    assert(s[i + 1] == p && s[i + 1].name@ == n);
                },
                None => {},
            }
        }
    }
}

proof fn lemma_find_push(d: Seq<Package>, x: Package, n: Seq<char>)
    ensures
        spec_find_name(d.push(x), n) == (if has_pkg_name(d, n) {
            spec_find_name(d, n)
        } else if x.name@ == n {
            Some(x)
        } else {
            None::<Package>
        }),
    decreases d.len(),
{
    lemma_find_some_iff_has(d, n);
    if d.len() == 0 {
        assert(d.push(x)[0] == x);
        assert(d.push(x).len() == 1);
        if x.name@ != n {
            assert(spec_find_name(d.push(x), n) == spec_find_name(d.push(x).skip(1), n));
            assert(d.push(x).skip(1) =~= Seq::<Package>::empty());
        }
    } else {
        assert(d.push(x)[0] == d[0]);
        if d[0].name@ == n {
        } else {
            assert(d.push(x).skip(1) =~= d.skip(1).push(x));
            lemma_find_push(d.skip(1), x, n);
            lemma_find_some_iff_has(d.skip(1), n);
            if has_pkg_name(d, n) {
                let i = choose|i: int| 0 <= i < d.len() && d[i].name@ == n;
                assert(i > 0);
                assert(d.skip(1)[i - 1].name@ == n);
            }
            if has_pkg_name(d.skip(1), n) {
                let i = choose|i: int| 0 <= i < d.skip(1).len() && d.skip(1)[i].name@ == n;
                assert(d[i + 1].name@ == n);
            }
        }
    }
}

proof fn lemma_only_in_has(a: Seq<Package>, b: Seq<Package>, n: Seq<char>)
    ensures
        has_pkg_name(spec_only_in(a, b), n) <==> (has_pkg_name(a, n) && !has_pkg_name(b, n)),
    decreases a.len(),
{
    if a.len() == 0 {
    } else {
        let d = a.drop_last();
        let x = a.last();
        lemma_only_in_has(d, b, n);
        assert(a =~= d.push(x));
        lemma_has_name_push(d, x, n);
        if !has_pkg_name(b, x.name@) {
            lemma_has_name_push(spec_only_in(d, b), x, n);
        }
    }
}

proof fn lemma_updates_has(o: Seq<Package>, ns: Seq<Package>, nm: Seq<char>)
    requires
        unique_names(ns),
    ensures
        upd_has_name(spec_updates(o, ns), nm) <==> (has_pkg_name(ns, nm) && has_pkg_name(o, nm)
            && version_at(o, nm) != version_at(ns, nm)),
    decreases ns.len(),
{
    lemma_find_some_iff_has(o, nm);
    if ns.len() == 0 {
    } else {
        let d = ns.drop_last();
        let p = ns.last();
        assert(unique_names(d)) by {
            assert(forall|i: int, j: int| 0 <= i < j < d.len() ==> d[i].name@ != d[j].name@);
        }
        lemma_updates_has(o, d, nm);
        assert(ns =~= d.push(p));
        lemma_has_name_push(d, p, nm);
        lemma_find_push(d, p, nm);
        lemma_find_some_iff_has(d, nm);
        let rest = spec_updates(o, d);
        if p.name@ == nm {
            assert(!has_pkg_name(d, nm)) by {
                if has_pkg_name(d, nm) {
                    let i = choose|i: int| 0 <= i < d.len() && d[i].name@ == nm;
                    assert(ns[i].name@ == ns[ns.len() - 1].name@);
                }
            }
            assert(!upd_has_name(rest, nm));
            assert(version_at(ns, nm) == p.version@);
            match spec_find_name(o, nm) {
                Some(q) => {
                    if q.version@ != p.version@ {
                        lemma_upd_has_name_push(rest, spec_mk_update(q, p), nm);
                        assert(version_at(o, nm) == q.version@);
                    } else {
                        assert(spec_updates(o, ns) == rest);
                    }
                },
                None => {
                    assert(spec_updates(o, ns) == rest);
                },
            }
        } else {
            assert(version_at(ns, nm) == version_at(d, nm));
            match spec_find_name(o, p.name@) {
                Some(q) => {
                    if q.version@ != p.version@ {
                        lemma_upd_has_name_push(rest, spec_mk_update(q, p), nm);
                    } else {
                        assert(spec_updates(o, ns) == rest);
                    }
                },
                None => {
                    assert(spec_updates(o, ns) == rest);
                },
            }
        }
    }
}

/// Every package name present in either collection appears in exactly
/// one of the diff's `added`, `removed` and `updated` lists, or in none
/// of them; it appears in none if and only if a package of that name
/// stands on both sides with the same version.
pub proof fn lemma_diff_partition(old_side: Seq<Package>, new_side: Seq<Package>, n: Seq<char>)
    requires
        unique_names(old_side),
        unique_names(new_side),
        has_pkg_name(old_side, n) || has_pkg_name(new_side, n),
    ensures
        ({
            let in_added = has_pkg_name(spec_added(old_side, new_side), n);
            let in_removed = has_pkg_name(spec_removed(old_side, new_side), n);
            let in_updated = upd_has_name(spec_updates(old_side, new_side), n);
            &&& (in_added ==> !in_removed && !in_updated)
            &&& (in_removed ==> !in_added && !in_updated)
            &&& (in_updated ==> !in_added && !in_removed)
            &&& ((!in_added && !in_removed && !in_updated) <==> (has_pkg_name(old_side, n)
                && has_pkg_name(new_side, n) && version_at(old_side, n) == version_at(
                new_side,
                n,
            )))
        }),
{
    lemma_only_in_has(new_side, old_side, n);
    lemma_only_in_has(old_side, new_side, n);
    lemma_updates_has(old_side, new_side, n);
}

/// Diff is symmetric under the added/removed relabeling: for any two
/// collections, what diffing `a` to `b` reports as added is exactly what
/// diffing `b` to `a` reports as removed, and vice versa.
pub proof fn lemma_diff_swap(a: Seq<Package>, b: Seq<Package>)
    ensures
        spec_added(a, b) == spec_removed(b, a),
        spec_removed(a, b) == spec_added(b, a),
{
}

} // verus!
