//! Package extraction: the pure side.
//!
//! A generation's packages are discovered outside the library — by a
//! store query, or by following the links of its binaries — and arrive
//! here as plain text: a JSON report, link targets, or a manifest.
//! Everything after that point is parsed and collected here.

use vstd::prelude::*;

use crate::generations::spec_file_name;
use crate::strutil::{
    chars_of, ends_with, has_prefix, has_suffix, is_dec_digit, lines_of, spec_lines, spec_trim,
    starts_with, string_from_chars, subvec, trim, views,
};
use crate::types::Package;
use vstd::string::StrSliceExecFns;

verus! {

/// The split position between name and version inside a store file
/// name: scanning down from `i`, the first `'-'` followed by a digit.
pub open spec fn find_split_from(nv: Seq<char>, i: int) -> int
    decreases i,
{
    if i < 1 || i >= nv.len() {
        -1
    } else if nv[i - 1] == '-' && is_dec_digit(nv[i]) {
        i - 1
    } else {
        find_split_from(nv, i - 1)
    }
}

/// Position of the first `'-'` in `s`, or -1.
pub open spec fn first_dash(s: Seq<char>) -> int
    decreases s.len(),
{
    if s.len() == 0 {
        -1
    } else if s[0] == '-' {
        0
    } else {
        let r = first_dash(s.skip(1));
        if r < 0 {
            -1
        } else {
            r + 1
        }
    }
}

/// The name and version read from a store path: the file name without
/// its hash prefix — everything through the first dash — split at the
/// last dash that a digit follows; without such a dash, the whole rest
/// is the name.  Too-short file names carry no hash and are rejected.
pub open spec fn spec_parse_store_path(path: Seq<char>) -> Option<(Seq<char>, Seq<char>)> {
    let f = spec_file_name(path);
    let fd = first_dash(f);
    if f.len() <= 33 || fd < 0 {
        None
    } else {
        let nv = f.skip(fd + 1);
        let pos = find_split_from(nv, nv.len() - 1);
        if pos >= 0 {
            Some((nv.subrange(0, pos), nv.subrange(pos + 1, nv.len() as int)))
        } else {
            Some((nv, Seq::empty()))
        }
    }
}

/// Parse a store path into a package name and version.
#[verifier::loop_isolation(false)]
pub fn parse_store_path(path: &str) -> (r: Option<(String, String)>)
    ensures
        match r {
            Some(p) => spec_parse_store_path(path@) == Some((p.0@, p.1@)),
            None => spec_parse_store_path(path@) is None,
        },
{
    let v = chars_of(path);
    let f: Vec<char> = crate::generations::file_name_of(&v);
    let mut fd: usize = 0;
    proof {
        assert(f@.skip(0) =~= f@);
    }
    while fd < f.len() && f[fd] != '-'
        invariant
            fd <= f@.len(),
            first_dash(f@) == (if first_dash(f@.skip(fd as int)) < 0 {
                -1
            } else {
                first_dash(f@.skip(fd as int)) + fd
            }),
        decreases f@.len() - fd,
    {
        proof {
            assert(f@.skip(fd as int)[0] == f@[fd as int]);
            assert(f@.skip(fd as int).skip(1) =~= f@.skip(fd + 1));
        }
        fd += 1;
    }
    proof {
        if fd < f@.len() {
            assert(f@.skip(fd as int)[0] == f@[fd as int]);
            assert(first_dash(f@) == fd);
        } else {
            assert(f@.skip(fd as int) =~= Seq::<char>::empty());
            assert(first_dash(f@) < 0);
        }
    }
    if f.len() <= 33 || fd >= f.len() {
        return None;
    }
    let nv = subvec(&f, fd + 1, f.len());
    proof {
        assert(nv@ =~= f@.skip(fd + 1));
    }
    if nv.len() == 0 {
        let empty: Vec<char> = Vec::new();
        proof {
            assert(empty@ =~= Seq::<char>::empty());
            assert(nv@ =~= Seq::<char>::empty());
        }
        return Some((string_from_chars(&nv), string_from_chars(&empty)));
    }
    let mut i: usize = nv.len() - 1;
    while i >= 1
        invariant
            i < nv@.len(),
            find_split_from(nv@, nv@.len() - 1) == find_split_from(nv@, i as int),
        decreases i,
    {
        let c = nv[i - 1];
        let dv = nv[i] as u32;
        if c == '-' && 48 <= dv && dv <= 57 {
            proof {
                assert(find_split_from(nv@, i as int) == i - 1);
            }
            let name = subvec(&nv, 0, i - 1);
            let version = subvec(&nv, i, nv.len());
            return Some((string_from_chars(&name), string_from_chars(&version)));
        }
        i -= 1;
    }
    let name = subvec(&nv, 0, nv.len());
    let empty: Vec<char> = Vec::new();
    proof {
        assert(name@ =~= nv@);
        assert(empty@ =~= Seq::<char>::empty());
    }
    Some((string_from_chars(&name), string_from_chars(&empty)))
}

/// The naming rules for packages the browser hides: build-time and
/// internal artifacts, by prefix, suffix or whole name.
pub open spec fn spec_should_skip(n: Seq<char>) -> bool {
    ||| has_prefix(n, "bootstrap-"@)
    ||| has_prefix(n, "hook-"@)
    ||| has_prefix(n, "wrap-"@)
    ||| has_prefix(n, "setup-"@)
    ||| has_prefix(n, "stdenv-"@)
    ||| has_prefix(n, "builder-"@)
    ||| has_prefix(n, "source-"@)
    ||| has_prefix(n, "raw-"@)
    ||| has_prefix(n, "manifest"@)
    ||| has_prefix(n, "env-manifest"@)
    ||| has_prefix(n, "nix-support"@)
    ||| has_suffix(n, "-info"@)
    ||| has_suffix(n, "-man"@)
    ||| has_suffix(n, "-doc"@)
    ||| has_suffix(n, "-dev"@)
    ||| has_suffix(n, "-debug"@)
    ||| has_suffix(n, ".drv"@)
    ||| has_prefix(n, "source"@)
    ||| has_prefix(n, "builder"@)
    ||| has_prefix(n, "hook"@)
    ||| has_prefix(n, "wrapper"@)
    ||| has_prefix(n, "nixos-system-"@)
}

/// Check if a package should be hidden from the browser.
pub fn should_skip_package(name: &str) -> (r: bool)
    ensures
        r == spec_should_skip(name@),
{
    let v = chars_of(name);
    starts_with(&v, "bootstrap-") || starts_with(&v, "hook-") || starts_with(&v, "wrap-")
        || starts_with(&v, "setup-") || starts_with(&v, "stdenv-") || starts_with(&v, "builder-")
        || starts_with(&v, "source-") || starts_with(&v, "raw-") || starts_with(&v, "manifest")
        || starts_with(&v, "env-manifest") || starts_with(&v, "nix-support") || ends_with(
        &v,
        "-info",
    ) || ends_with(&v, "-man") || ends_with(&v, "-doc") || ends_with(&v, "-dev") || ends_with(
        &v,
        "-debug",
    ) || ends_with(&v, ".drv") || starts_with(&v, "source") || starts_with(&v, "builder")
        || starts_with(&v, "hook") || starts_with(&v, "wrapper") || starts_with(
        &v,
        "nixos-system-",
    )
}

/// A package reduced to plain values: name, version, size.
pub open spec fn pkg_view(p: Package) -> (Seq<char>, Seq<char>, u64) {
    (p.name@, p.version@, p.size)
}

/// A package list reduced to plain values.
pub open spec fn pkg_views(s: Seq<Package>) -> Seq<(Seq<char>, Seq<char>, u64)> {
    s.map_values(|p: Package| pkg_view(p))
}

/// The position of the first entry with this name, or -1.
pub open spec fn idx_of_model(s: Seq<(Seq<char>, Seq<char>, u64)>, n: Seq<char>) -> int
    decreases s.len(),
{
    if s.len() == 0 {
        -1
    } else if s[0].0 == n {
        0
    } else {
        let r = idx_of_model(s.skip(1), n);
        if r < 0 {
            -1
        } else {
            r + 1
        }
    }
}

/// How one discovered package joins the collection: a new name is
/// appended; a name already present keeps whichever entry is larger.
pub open spec fn spec_add_package(
    acc: Seq<(Seq<char>, Seq<char>, u64)>,
    name: Seq<char>,
    version: Seq<char>,
    size: u64,
) -> Seq<(Seq<char>, Seq<char>, u64)> {
    let i = idx_of_model(acc, name);
    if i < 0 {
        acc.push((name, version, size))
    } else if acc[i].2 < size {
        acc.update(i, (name, version, size))
    } else {
        acc
    }
}

/// The packages collected from store paths and their sizes: paths that
/// parse to a non-hidden package, deduplicated by name keeping the
/// larger entry.
pub open spec fn spec_packages_from_pairs(pairs: Seq<(Seq<char>, u64)>) -> Seq<
    (Seq<char>, Seq<char>, u64),
>
    decreases pairs.len(),
{
    if pairs.len() == 0 {
        Seq::empty()
    } else {
        let acc = spec_packages_from_pairs(pairs.drop_last());
        let pr = pairs.last();
        match spec_parse_store_path(pr.0) {
            Some(nv) => if spec_should_skip(nv.0) {
                acc
            } else {
                spec_add_package(acc, nv.0, nv.1, pr.1)
            },
            None => acc,
        }
    }
}

proof fn lemma_idx_of_model_at(s: Seq<(Seq<char>, Seq<char>, u64)>, n: Seq<char>, i: int)
    requires
        0 <= i < s.len(),
        s[i].0 == n,
        forall|j: int| 0 <= j < i ==> s[j].0 != n,
    ensures
        idx_of_model(s, n) == i,
    decreases i,
{
    if i > 0 {
        assert(forall|j: int| 0 <= j < i - 1 ==> s.skip(1)[j].0 != n);
        lemma_idx_of_model_at(s.skip(1), n, i - 1);
    }
}

proof fn lemma_idx_of_model_none(s: Seq<(Seq<char>, Seq<char>, u64)>, n: Seq<char>)
    requires
        forall|j: int| 0 <= j < s.len() ==> s[j].0 != n,
    ensures
        idx_of_model(s, n) < 0,
    decreases s.len(),
{
    if s.len() > 0 {
        assert(forall|j: int| 0 <= j < s.skip(1).len() ==> s.skip(1)[j].0 != n);
        lemma_idx_of_model_none(s.skip(1), n);
    }
}

/// Add one discovered package to the collection, as
/// [`spec_add_package`] describes.
#[verifier::loop_isolation(false)]
fn add_package(acc: &mut Vec<Package>, name: String, version: String, size: u64)
    ensures
        pkg_views(final(acc)@) == spec_add_package(pkg_views(old(acc)@), name@, version@, size),
{
    let ghost model = pkg_views(acc@);
    let mut i: usize = 0;
    while i < acc.len()
        invariant
            i <= acc@.len(),
            model == pkg_views(acc@),
            forall|j: int| 0 <= j < i ==> acc@[j].name@ != name@,
        decreases acc@.len() - i,
    {
        proof {
            assert(model[i as int] == pkg_view(acc@[i as int]));
        }
        if acc[i].name.eq(&name) {
            proof {
                assert(forall|j: int| 0 <= j < i ==> model[j].0 != name@);
                lemma_idx_of_model_at(model, name@, i as int);
            }
            proof {
                assert(model[i as int] == pkg_view(acc@[i as int]));
            }
            if acc[i].size < size {
                let ghost pre = acc@;
                acc.remove(i);
                acc.insert(i, Package { name, version, size });
                proof {
                    let newmodel = model.update(i as int, (name@, version@, size));
                    assert(spec_add_package(model, name@, version@, size) == newmodel);
                    assert(acc@ =~= pre.update(
                        i as int,
                        Package { name: acc@[i as int].name, version: acc@[i as int].version, size },
                    ));
                    assert(pkg_views(acc@) =~~= newmodel) by {
                        assert(acc@.len() == pre.len());
                        assert forall|j: int|
                            0 <= j < acc@.len() implies pkg_views(acc@)[j] == newmodel[j] by {
                            assert(pkg_views(acc@)[j] == pkg_view(acc@[j]));
                            if j != i {
                                assert(acc@[j] == pre[j]);
                                assert(model[j] == pkg_view(pre[j]));
                            }
                        }
                    }
                }
            } else {
                proof {
                    assert(pkg_views(acc@) =~~= spec_add_package(model, name@, version@, size));
                }
            }
            return ;
        }
        proof {
            assert(model[i as int].0 == acc@[i as int].name@);
        }
        i += 1;
    }
    proof {
        assert(forall|j: int| 0 <= j < model.len() ==> #[trigger] model[j].0 == acc@[j].name@);
        lemma_idx_of_model_none(model, name@);
    }
    acc.push(Package { name, version, size });
    proof {
        assert(pkg_views(acc@) =~~= spec_add_package(model, name@, version@, size)) by {
            assert(forall|j: int|
                0 <= j < acc@.len() ==> pkg_views(acc@)[j] == pkg_view(acc@[j]));
        }
    }
}

/// Collect packages from store paths and sizes, as
/// [`spec_packages_from_pairs`] describes.
pub fn packages_from_pairs(pairs: &Vec<(String, u64)>) -> (r: Vec<Package>)
    ensures
        pkg_views(r@) == spec_packages_from_pairs(pair_views(pairs@)),
{
    let mut acc: Vec<Package> = Vec::new();
    let mut i: usize = 0;
    proof {
        assert(pair_views(pairs@).subrange(0, 0) =~= Seq::<(Seq<char>, u64)>::empty());
        assert(pkg_views(acc@) =~~= spec_packages_from_pairs(
            pair_views(pairs@).subrange(0, 0),
        ));
    }
    while i < pairs.len()
        invariant
            i <= pairs@.len(),
            pkg_views(acc@) == spec_packages_from_pairs(
                pair_views(pairs@).subrange(0, i as int),
            ),
        decreases pairs@.len() - i,
    {
        let ghost pre = pair_views(pairs@).subrange(0, i as int);
        proof {
            assert(pair_views(pairs@)[i as int] == (pairs@[i as int].0@, pairs@[i as int].1));
        }
        match parse_store_path(pairs[i].0.as_str()) {
            Some((name, version)) => {
                if !should_skip_package(name.as_str()) {
                    add_package(&mut acc, name, version, pairs[i].1);
                }
            },
            None => {},
        }
        i += 1;
        proof {
            let post = pair_views(pairs@).subrange(0, i as int);
            assert(post.drop_last() =~= pre);
            assert(post.last() == pair_views(pairs@)[i - 1]);
            assert(pkg_views(acc@) =~~= spec_packages_from_pairs(post));
        }
    }
    proof {
        assert(pair_views(pairs@).subrange(0, pairs@.len() as int) =~= pair_views(pairs@));
    }
    acc
}

/// Path-and-size pairs reduced to plain values.
pub open spec fn pair_views(s: Seq<(String, u64)>) -> Seq<(Seq<char>, u64)> {
    s.map_values(|p: (String, u64)| (p.0@, p.1))
}

/// What the store query's JSON report holds: each store path with its
/// recorded size, in key order.  A result of the text alone.
pub uninterp spec fn json_store_sizes(s: Seq<char>) -> Option<Seq<(Seq<char>, u64)>>;

/// Relies on `serde_json::from_str` and `serde_json::Map` iteration:
/// the object's store paths with their `narSize` fields (0 when
/// absent), in key order; the result depends on the text alone.
#[verifier::external_body]
fn store_sizes(json: &str) -> (r: Option<Vec<(String, u64)>>)
    ensures
        match r {
            Some(v) => json_store_sizes(json@) == Some(pair_views(v@)),
            None => json_store_sizes(json@) is None,
        },
{
    let value: serde_json::Value = serde_json::from_str(json).ok()?;
    let obj = value.as_object()?;
    Some(
        obj.iter().map(
            |(k, v)| (k.clone(), v.get("narSize").and_then(|s| s.as_u64()).unwrap_or(0)),
        ).collect(),
    )
}

/// Parse the store query's JSON report into the package collection:
/// every reported path that names a non-hidden package, deduplicated by
/// name keeping the larger entry, ordered ascending by lower-cased
/// name.
pub fn parse_path_info_json(json: &str) -> (r: Option<Vec<Package>>)
    ensures
        match json_store_sizes(json@) {
            Some(pairs) => r matches Some(v) && pkg_views(v@).to_multiset()
                == spec_packages_from_pairs(pairs).to_multiset() && sorted_by_lower_name(v@)
                && unique_pkg_names(v@),
            None => r is None,
        },
{
    match store_sizes(json) {
        Some(pairs) => {
            let collected = packages_from_pairs(&pairs);
            proof {
                lemma_pairs_unique_names(pair_views(pairs@));
                assert forall|i: int, j: int|
                    0 <= i < j < collected@.len() implies collected@[i].name@
                    != collected@[j].name@ by {
                    assert(pkg_views(collected@)[i] == pkg_view(collected@[i]));
                    assert(pkg_views(collected@)[j] == pkg_view(collected@[j]));
                    assert(pkg_views(collected@)[i].0 != pkg_views(collected@)[j].0);
                }
            }
            let ghost unsorted = collected@;
            let sorted = sort_packages_by_name(collected);
            proof {
                lemma_unique_names_transfer(unsorted, sorted@);
            }
            Some(sorted)
        },
        None => None,
    }
}

/// The packages found by following binary links: each target that
/// parses, under the first version seen for its name, with no size.
pub open spec fn spec_packages_from_targets(targets: Seq<Seq<char>>) -> Seq<
    (Seq<char>, Seq<char>, u64),
>
    decreases targets.len(),
{
    if targets.len() == 0 {
        Seq::empty()
    } else {
        let acc = spec_packages_from_targets(targets.drop_last());
        match spec_parse_store_path(targets.last()) {
            Some(nv) => if idx_of_model(acc, nv.0) < 0 {
                acc.push((nv.0, nv.1, 0u64))
            } else {
                acc
            },
            None => acc,
        }
    }
}

/// Collect packages from binary link targets — those
/// [`spec_packages_from_targets`] describes, ordered ascending by
/// lower-cased name.
pub fn packages_from_link_targets(targets: &Vec<String>) -> (r: Vec<Package>)
    ensures
        pkg_views(r@).to_multiset() == spec_packages_from_targets(
            str_views(targets@),
        ).to_multiset(),
        sorted_by_lower_name(r@),
        unique_pkg_names(r@),
{
    let mut acc: Vec<Package> = Vec::new();
    let mut i: usize = 0;
    proof {
        assert(str_views(targets@).subrange(0, 0) =~= Seq::<Seq<char>>::empty());
        assert(pkg_views(acc@) =~~= spec_packages_from_targets(
            str_views(targets@).subrange(0, 0),
        ));
    }
    while i < targets.len()
        invariant
            i <= targets@.len(),
            pkg_views(acc@) == spec_packages_from_targets(
                str_views(targets@).subrange(0, i as int),
            ),
        decreases targets@.len() - i,
    {
        let ghost pre = str_views(targets@).subrange(0, i as int);
        proof {
            assert(str_views(targets@)[i as int] == targets@[i as int]@);
        }
        match parse_store_path(targets[i].as_str()) {
            Some((name, version)) => {
                let ghost model = pkg_views(acc@);
                let mut seen = false;
                let mut j: usize = 0;
                while j < acc.len()
                    invariant
                        j <= acc@.len(),
                        model == pkg_views(acc@),
                        seen == exists|k: int| 0 <= k < j && acc@[k].name@ == name@,
                    decreases acc@.len() - j,
                {
                    if acc[j].name.eq(&name) {
                        seen = true;
                        proof {
                            assert(acc@[j as int].name@ == name@);
                        }
                    }
                    j += 1;
                }
                proof {
                    assert(forall|k: int|
                        0 <= k < model.len() ==> #[trigger] model[k].0 == acc@[k].name@);
                    if seen {
                        let k = choose|k: int| 0 <= k < acc@.len() && acc@[k].name@ == name@;
                        assert(model[k].0 == name@);
                        assert(idx_of_model(model, name@) >= 0) by {
                            if idx_of_model(model, name@) < 0 {
                                lemma_idx_of_model_some(model, name@, k);
                            }
                        }
                    } else {
                        lemma_idx_of_model_none(model, name@);
                    }
                }
                if !seen {
                    acc.push(Package { name, version, size: 0 });
                    proof {
                        assert(pkg_views(acc@) =~~= pkg_views(acc@.drop_last()).push(
                            pkg_view(acc@.last()),
                        )) by {
                            assert(forall|k: int|
                                0 <= k < acc@.len() ==> pkg_views(acc@)[k] == pkg_view(acc@[k]));
                            assert(forall|k: int|
                                0 <= k < acc@.len() - 1 ==> pkg_views(acc@.drop_last())[k]
                                    == pkg_view(acc@.drop_last()[k]));
                        }
                    }
                }
            },
            None => {},
        }
        i += 1;
        proof {
            let post = str_views(targets@).subrange(0, i as int);
            assert(post.drop_last() =~= pre);
            assert(post.last() == str_views(targets@)[i - 1]);
            assert(pkg_views(acc@) =~~= spec_packages_from_targets(post));
        }
    }
    proof {
        assert(str_views(targets@).subrange(0, targets@.len() as int) =~= str_views(targets@));
        lemma_targets_unique_names(str_views(targets@));
        assert forall|i: int, j: int|
            0 <= i < j < acc@.len() implies acc@[i].name@ != acc@[j].name@ by {
            assert(pkg_views(acc@)[i] == pkg_view(acc@[i]));
            assert(pkg_views(acc@)[j] == pkg_view(acc@[j]));
            assert(pkg_views(acc@)[i].0 != pkg_views(acc@)[j].0);
        }
    }
    let ghost collected = acc@;
    let sorted = sort_packages_by_name(acc);
    proof {
        lemma_unique_names_transfer(collected, sorted@);
    }
    sorted
}

/// `s` with every leading repetition of `p` removed.
pub open spec fn strip_prefix_rep(s: Seq<char>, p: Seq<char>) -> Seq<char>
    decreases s.len(),
{
    if p.len() > 0 && has_prefix(s, p) {
        strip_prefix_rep(s.skip(p.len() as int), p)
    } else {
        s
    }
}

/// `s` with every trailing repetition of `p` removed.
pub open spec fn strip_suffix_rep(s: Seq<char>, p: Seq<char>) -> Seq<char>
    decreases s.len(),
{
    if p.len() > 0 && has_suffix(s, p) {
        strip_suffix_rep(s.subrange(0, s.len() - p.len()), p)
    } else {
        s
    }
}

fn strip_prefix_rep_of(v: Vec<char>, p: &str) -> (r: Vec<char>)
    requires
        p@.len() > 0,
    ensures
        r@ == strip_prefix_rep(v@, p@),
{
    let mut cur = v;
    while starts_with(&cur, p)
        invariant
            p@.len() > 0,
            strip_prefix_rep(v@, p@) == strip_prefix_rep(cur@, p@),
        decreases cur@.len(),
    {
        let plen = p.unicode_len();
        let next = subvec(&cur, plen, cur.len());
        proof {
            assert(next@ =~= cur@.skip(p@.len() as int));
        }
        cur = next;
    }
    cur
}

fn strip_suffix_rep_of(v: Vec<char>, p: &str) -> (r: Vec<char>)
    requires
        p@.len() > 0,
    ensures
        r@ == strip_suffix_rep(v@, p@),
{
    let mut cur = v;
    while ends_with(&cur, p)
        invariant
            p@.len() > 0,
            strip_suffix_rep(v@, p@) == strip_suffix_rep(cur@, p@),
        decreases cur@.len(),
    {
        let plen = p.unicode_len();
        let next = subvec(&cur, 0, cur.len() - plen);
        cur = next;
    }
    cur
}

/// The manifest collection never repeats a name.
pub proof fn lemma_manifest_unique_names(lines: Seq<Seq<char>>)
    ensures
        unique_model_names(spec_parse_manifest(lines)),
    decreases lines.len(),
{
    if lines.len() > 0 {
        lemma_manifest_unique_names(lines.drop_last());
        let acc = spec_parse_manifest(lines.drop_last());
        match spec_manifest_entry(lines.last()) {
            Some(nv) => {
                if idx_of_model(acc, nv.0) < 0 {
                    lemma_idx_neg_no_name(acc, nv.0);
                    let r = acc.push((nv.0, nv.1, 0u64));
                    assert(forall|j: int| 0 <= j < acc.len() ==> #[trigger] r[j] == acc[j]);
                    assert(r[acc.len() as int].0 == nv.0);
                }
            },
            None => {},
        }
    }
}

/// What one manifest line contributes: the package read from a `name =
/// "..."` binding, unless its name is hidden or too short to parse.
pub open spec fn spec_manifest_entry(line: Seq<char>) -> Option<(Seq<char>, Seq<char>)> {
    let t = spec_trim(line);
    if has_prefix(t, "name = \""@) {
        let nm = strip_suffix_rep(strip_prefix_rep(t, "name = \""@), "\";"@);
        if spec_should_skip(nm) {
            None
        } else {
            spec_parse_store_path("/nix/store/xxxxxxxx-"@ + nm)
        }
    } else {
        None
    }
}

/// The packages named by a manifest, without sizes, under the first
/// version seen for each name: the name is the collection's unique key.
pub open spec fn spec_parse_manifest(lines: Seq<Seq<char>>) -> Seq<(Seq<char>, Seq<char>, u64)>
    decreases lines.len(),
{
    if lines.len() == 0 {
        Seq::empty()
    } else {
        let acc = spec_parse_manifest(lines.drop_last());
        match spec_manifest_entry(lines.last()) {
            Some(nv) => if idx_of_model(acc, nv.0) < 0 {
                acc.push((nv.0, nv.1, 0u64))
            } else {
                acc
            },
            None => acc,
        }
    }
}

/// Parse a profile manifest, as [`spec_parse_manifest`] describes.
pub fn parse_manifest(content: &str) -> (r: Vec<Package>)
    ensures
        pkg_views(r@).to_multiset() == spec_parse_manifest(spec_lines(content@)).to_multiset(),
        sorted_by_lower_name(r@),
        unique_pkg_names(r@),
{
    let chars = chars_of(content);
    let lines = lines_of(&chars);
    let ghost lviews = views(lines@);
    let mut acc: Vec<Package> = Vec::new();
    let mut i: usize = 0;
    proof {
        assert(lviews.subrange(0, 0) =~= Seq::<Seq<char>>::empty());
        assert(pkg_views(acc@) =~~= spec_parse_manifest(lviews.subrange(0, 0)));
    }
    while i < lines.len()
        invariant
            i <= lines@.len(),
            lviews == views(lines@),
            lviews == spec_lines(chars@),
            pkg_views(acc@) == spec_parse_manifest(lviews.subrange(0, i as int)),
        decreases lines@.len() - i,
    {
        let ghost pre = lviews.subrange(0, i as int);
        proof {
            assert(lines@[i as int]@ == lviews[i as int]);
            assert(lviews.subrange(0, i + 1).drop_last() =~= pre);
            assert(lviews.subrange(0, i + 1).last() == lviews[i as int]);
        }
        let t = trim(&lines[i]);
        if starts_with(&t, "name = \"") {
            proof {
                reveal_strlit("name = \"");
                reveal_strlit("\";");
            }
            let stripped = strip_suffix_rep_of(strip_prefix_rep_of(t, "name = \""), "\";");
            if !should_skip_package(
                crate::strutil::string_from_chars(&stripped).as_str(),
            ) {
                let mut fake: Vec<char> = Vec::new();
                crate::strutil::push_chars(&mut fake, "/nix/store/xxxxxxxx-");
                let mut k: usize = 0;
                let ghost base = fake@;
                while k < stripped.len()
                    invariant
                        k <= stripped@.len(),
                        fake@ == base + stripped@.subrange(0, k as int),
                    decreases stripped@.len() - k,
                {
                    fake.push(stripped[k]);
                    k += 1;
                    proof {
                        assert(fake@ =~= base + stripped@.subrange(0, k as int));
                    }
                }
                proof {
                    assert(stripped@.subrange(0, stripped@.len() as int) =~= stripped@);
                    assert(fake@ =~= "/nix/store/xxxxxxxx-"@ + stripped@);
                }
                match parse_store_path(crate::strutil::string_from_chars(&fake).as_str()) {
                    Some((name, version)) => {
                        let ghost model = pkg_views(acc@);
                        let mut seen = false;
                        let mut q: usize = 0;
                        while q < acc.len()
                            invariant
                                q <= acc@.len(),
                                model == pkg_views(acc@),
                                seen == exists|k: int|
                                    0 <= k < q && acc@[k].name@ == name@,
                            decreases acc@.len() - q,
                        {
                            if acc[q].name.eq(&name) {
                                seen = true;
                                proof {
                                    assert(acc@[q as int].name@ == name@);
                                }
                            }
                            q += 1;
                        }
                        proof {
                            assert(forall|k: int|
                                0 <= k < model.len() ==> #[trigger] model[k].0
                                    == acc@[k].name@);
                            if seen {
                                let k = choose|k: int|
                                    0 <= k < acc@.len() && acc@[k].name@ == name@;
                                assert(model[k].0 == name@);
                                assert(idx_of_model(model, name@) >= 0) by {
                                    if idx_of_model(model, name@) < 0 {
                                        lemma_idx_of_model_some(model, name@, k);
                                    }
                                }
                            } else {
                                lemma_idx_of_model_none(model, name@);
                            }
                        }
                        if !seen {
                            acc.push(Package { name, version, size: 0 });
                            proof {
                                assert(pkg_views(acc@) =~~= pkg_views(acc@.drop_last()).push(
                                    pkg_view(acc@.last()),
                                )) by {
                                    assert(forall|q: int|
                                        0 <= q < acc@.len() ==> pkg_views(acc@)[q] == pkg_view(
                                            acc@[q],
                                        ));
                                    assert(forall|q: int|
                                        0 <= q < acc@.len() - 1 ==> pkg_views(
                                            acc@.drop_last(),
                                        )[q] == pkg_view(acc@.drop_last()[q]));
                                }
                            }
                        }
                    },
                    None => {},
                }
            }
        }
        i += 1;
        proof {
            assert(pkg_views(acc@) =~~= spec_parse_manifest(lviews.subrange(0, i as int)));
        }
    }
    proof {
        assert(lviews.subrange(0, lviews.len() as int) =~= lviews);
        lemma_manifest_unique_names(spec_lines(content@));
        assert forall|a: int, b: int|
            0 <= a < b < acc@.len() implies acc@[a].name@ != acc@[b].name@ by {
            assert(pkg_views(acc@)[a] == pkg_view(acc@[a]));
            assert(pkg_views(acc@)[b] == pkg_view(acc@[b]));
            assert(pkg_views(acc@)[a].0 != pkg_views(acc@)[b].0);
        }
    }
    let ghost collected = acc@;
    let sorted = sort_packages_by_name(acc);
    proof {
        lemma_unique_names_transfer(collected, sorted@);
    }
    sorted
}

proof fn lemma_idx_of_model_some(s: Seq<(Seq<char>, Seq<char>, u64)>, n: Seq<char>, k: int)
    requires
        0 <= k < s.len(),
        s[k].0 == n,
    ensures
        idx_of_model(s, n) >= 0,
    decreases k,
{
    if s[0].0 != n {
        assert(s.skip(1)[k - 1].0 == n);
        lemma_idx_of_model_some(s.skip(1), n, k - 1);
    }
}

/// String lists reduced to plain values.
pub open spec fn str_views(s: Seq<String>) -> Seq<Seq<char>> {
    s.map_values(|x: String| x@)
}

/// No two packages of `s` share a name.
pub open spec fn unique_pkg_names(s: Seq<Package>) -> bool {
    forall|i: int, j: int| 0 <= i < j < s.len() ==> s[i].name@ != s[j].name@
}

/// No two entries of `s` share a name.
pub open spec fn unique_model_names(s: Seq<(Seq<char>, Seq<char>, u64)>) -> bool {
    forall|i: int, j: int| 0 <= i < j < s.len() ==> s[i].0 != s[j].0
}

/// The packages ascend by their lower-cased name.
pub open spec fn sorted_by_lower_name(s: Seq<Package>) -> bool {
    forall|i: int, j: int|
        0 <= i < j < s.len() ==> crate::strutil::lex_le(
            crate::strutil::lower_of(s[i].name@),
            crate::strutil::lower_of(s[j].name@),
        )
}

proof fn lemma_idx_neg_no_name(s: Seq<(Seq<char>, Seq<char>, u64)>, n: Seq<char>)
    requires
        idx_of_model(s, n) < 0,
    ensures
        forall|j: int| 0 <= j < s.len() ==> s[j].0 != n,
    decreases s.len(),
{
    if s.len() > 0 {
        assert(s[0].0 != n);
        lemma_idx_neg_no_name(s.skip(1), n);
        assert forall|j: int| 0 <= j < s.len() implies s[j].0 != n by {
            if j > 0 {
                assert(s.skip(1)[j - 1] == s[j]);
            }
        }
    }
}

proof fn lemma_add_package_unique(
    acc: Seq<(Seq<char>, Seq<char>, u64)>,
    name: Seq<char>,
    version: Seq<char>,
    size: u64,
)
    requires
        unique_model_names(acc),
    ensures
        unique_model_names(spec_add_package(acc, name, version, size)),
{
    let i = idx_of_model(acc, name);
    let r = spec_add_package(acc, name, version, size);
    if i < 0 {
        lemma_idx_neg_no_name(acc, name);
        assert(forall|j: int| 0 <= j < acc.len() ==> #[trigger] r[j] == acc[j]);
        assert(r[acc.len() as int].0 == name);
    } else if acc[i].2 < size {
        lemma_idx_of_model_some_bounds(acc, name);
        assert(forall|a: int, b: int| 0 <= a < b < r.len() ==> r[a].0 != r[b].0) by {
            assert(forall|j: int| 0 <= j < r.len() && j != i ==> #[trigger] r[j] == acc[j]);
            assert(r[i].0 == acc[i].0);
        }
    }
}

proof fn lemma_idx_of_model_some_bounds(s: Seq<(Seq<char>, Seq<char>, u64)>, n: Seq<char>)
    requires
        idx_of_model(s, n) >= 0,
    ensures
        idx_of_model(s, n) < s.len(),
        s[idx_of_model(s, n)].0 == n,
    decreases s.len(),
{
    if s.len() > 0 && s[0].0 != n {
        lemma_idx_of_model_some_bounds(s.skip(1), n);
        assert(s.skip(1)[idx_of_model(s.skip(1), n)] == s[idx_of_model(s, n)]);
    }
}

/// The store-report collection never repeats a name.
pub proof fn lemma_pairs_unique_names(pairs: Seq<(Seq<char>, u64)>)
    ensures
        unique_model_names(spec_packages_from_pairs(pairs)),
    decreases pairs.len(),
{
    if pairs.len() > 0 {
        lemma_pairs_unique_names(pairs.drop_last());
        let acc = spec_packages_from_pairs(pairs.drop_last());
        let pr = pairs.last();
        match spec_parse_store_path(pr.0) {
            Some(nv) => {
                if !spec_should_skip(nv.0) {
                    lemma_add_package_unique(acc, nv.0, nv.1, pr.1);
                }
            },
            None => {},
        }
    }
}

/// The link-target collection never repeats a name.
pub proof fn lemma_targets_unique_names(targets: Seq<Seq<char>>)
    ensures
        unique_model_names(spec_packages_from_targets(targets)),
    decreases targets.len(),
{
    if targets.len() > 0 {
        lemma_targets_unique_names(targets.drop_last());
        let acc = spec_packages_from_targets(targets.drop_last());
        match spec_parse_store_path(targets.last()) {
            Some(nv) => {
                if idx_of_model(acc, nv.0) < 0 {
                    lemma_idx_neg_no_name(acc, nv.0);
                    let r = acc.push((nv.0, nv.1, 0u64));
                    assert(forall|j: int| 0 <= j < acc.len() ==> #[trigger] r[j] == acc[j]);
                    assert(r[acc.len() as int].0 == nv.0);
                }
            },
            None => {},
        }
    }
}

/// Names unique in one sequence stay unique in any rearrangement of it.
proof fn lemma_unique_names_transfer(a: Seq<Package>, b: Seq<Package>)
    requires
        a.to_multiset() == b.to_multiset(),
        unique_pkg_names(a),
    ensures
        unique_pkg_names(b),
{
    broadcast use vstd::multiset::group_multiset_axioms;

    a.to_multiset_ensures();
    b.to_multiset_ensures();
    assert(a.no_duplicates()) by {
        assert(forall|i: int, j: int|
            0 <= i < j < a.len() ==> a[i].name@ != a[j].name@ && a[i] != a[j]);
    }
    a.lemma_multiset_has_no_duplicates();
    b.lemma_multiset_has_no_duplicates_conv();
    assert forall|i: int, j: int| 0 <= i < j < b.len() implies b[i].name@ != b[j].name@ by {
        if b[i].name@ == b[j].name@ {
            assert(b[i] != b[j]);
            assert(b.contains(b[i]) && b.contains(b[j]));
            assert(b.to_multiset().count(b[i]) > 0);
            assert(b.to_multiset().count(b[j]) > 0);
            assert(a.to_multiset().count(b[i]) > 0);
            assert(a.to_multiset().count(b[j]) > 0);
            assert(a.contains(b[i]) && a.contains(b[j]));
            let ia = choose|k: int| 0 <= k < a.len() && a[k] == b[i];
            let ib = choose|k: int| 0 <= k < a.len() && a[k] == b[j];
            assert(ia != ib);
            assert(false);
        }
    }
}

/// Order packages ascending by lower-cased name.  The result holds
/// exactly the given records.
pub fn sort_packages_by_name(pkgs: Vec<Package>) -> (r: Vec<Package>)
    ensures
        r@.to_multiset() == pkgs@.to_multiset(),
        pkg_views(r@).to_multiset() == pkg_views(pkgs@).to_multiset(),
        r@.len() == pkgs@.len(),
        sorted_by_lower_name(r@),
{
    broadcast use vstd::seq_lib::group_to_multiset_ensures;

    let mut keys: Vec<Vec<char>> = Vec::new();
    let mut i: usize = 0;
    while i < pkgs.len()
        invariant
            i <= pkgs@.len(),
            keys@.len() == i,
            forall|j: int|
                0 <= j < i ==> #[trigger] keys@[j]@ == crate::strutil::lower_of(pkgs@[j].name@),
        decreases pkgs@.len() - i,
    {
        let low = crate::strutil::lowercase(pkgs[i].name.as_str());
        keys.push(chars_of(low.as_str()));
        i += 1;
    }
    let mut work = pkgs;
    let mut out: Vec<Package> = Vec::new();
    proof {
        assert(out@.to_multiset().add(work@.to_multiset()) =~= pkgs@.to_multiset());
        assert(pkg_views(out@).to_multiset().add(pkg_views(work@).to_multiset())
            =~= pkg_views(pkgs@).to_multiset());
    }
    while work.len() > 0
        invariant
            keys@.len() == work@.len(),
            forall|j: int|
                0 <= j < work@.len() ==> #[trigger] keys@[j]@ == crate::strutil::lower_of(
                    work@[j].name@,
                ),
            out@.to_multiset().add(work@.to_multiset()) == pkgs@.to_multiset(),
            pkg_views(out@).to_multiset().add(pkg_views(work@).to_multiset()) == pkg_views(
                pkgs@,
            ).to_multiset(),
            out@.len() + work@.len() == pkgs@.len(),
            sorted_by_lower_name(out@),
            forall|a: int, b: int|
                0 <= a < out@.len() && 0 <= b < work@.len() ==> crate::strutil::lex_le(
                    crate::strutil::lower_of(out@[a].name@),
                    crate::strutil::lower_of(work@[b].name@),
                ),
        decreases work@.len(),
    {
        let mut m: usize = 0;
        let mut j: usize = 1;
        proof {
            crate::strutil::lemma_lex_total(keys@[0]@, keys@[0]@);
        }
        while j < work.len()
            invariant
                keys@.len() == work@.len(),
                forall|k: int|
                    0 <= k < work@.len() ==> #[trigger] keys@[k]@ == crate::strutil::lower_of(
                        work@[k].name@,
                    ),
                m < work@.len(),
                j <= work@.len(),
                forall|k: int|
                    0 <= k < j ==> crate::strutil::lex_le(keys@[m as int]@, #[trigger] keys@[k]@),
            decreases work@.len() - j,
        {
            if !crate::strutil::lex_le_chars(&keys[m], &keys[j]) {
                proof {
                    crate::strutil::lemma_lex_total(keys@[m as int]@, keys@[j as int]@);
                    assert forall|k: int|
                        0 <= k < j implies crate::strutil::lex_le(
                        keys@[j as int]@,
                        #[trigger] keys@[k]@,
                    ) by {
                        crate::strutil::lemma_lex_trans(
                            keys@[j as int]@,
                            keys@[m as int]@,
                            keys@[k]@,
                        );
                    }
                }
                m = j;
            }
            proof {
                if crate::strutil::lex_le(keys@[m as int]@, keys@[j as int]@) {
                } else {
                    crate::strutil::lemma_lex_total(keys@[m as int]@, keys@[j as int]@);
                }
            }
            j += 1;
        }
        let ghost pre_work = work@;
        let ghost pre_out = out@;
        let ghost pre_keys = keys@;
        let x = work.remove(m);
        keys.remove(m);
        out.push(x);
        proof {
            assert(forall|k: int|
                0 <= k < keys@.len() ==> #[trigger] keys@[k] == pre_keys[
                (if k < m { k } else { k + 1 })]);
            pre_work.to_multiset_ensures();
            pre_out.to_multiset_ensures();
            pkg_views(pre_work).to_multiset_ensures();
            pkg_views(pre_out).to_multiset_ensures();
            assert(work@ == pre_work.remove(m as int));
            assert(pre_work.remove(m as int).to_multiset() =~= pre_work.to_multiset().remove(
                pre_work[m as int],
            ));
            assert(out@ == pre_out.push(x));
            assert(pre_out.push(x).to_multiset() =~= pre_out.to_multiset().insert(x));
            assert(pre_work.to_multiset().count(x) > 0) by {
                assert(pre_work.contains(x)) by {
                    assert(pre_work[m as int] == x);
                }
            }
            assert(out@.to_multiset().add(work@.to_multiset()) =~= pkgs@.to_multiset());
            assert(pkg_views(work@) =~= pkg_views(pre_work).remove(m as int)) by {
                assert(forall|k: int|
                    0 <= k < work@.len() ==> #[trigger] pkg_views(work@)[k] == pkg_view(
                        work@[k],
                    ));
                assert(forall|k: int|
                    0 <= k < pre_work.len() ==> #[trigger] pkg_views(pre_work)[k] == pkg_view(
                        pre_work[k],
                    ));
                assert(forall|k: int|
                    0 <= k < work@.len() ==> work@[k] == pre_work[
                    (if k < m { k } else { k + 1 })]);
            }
            assert(pkg_views(pre_work).remove(m as int).to_multiset() =~= pkg_views(
                pre_work,
            ).to_multiset().remove(pkg_views(pre_work)[m as int]));
            assert(pkg_views(out@) =~= pkg_views(pre_out).push(pkg_view(x))) by {
                assert(forall|k: int|
                    0 <= k < out@.len() ==> #[trigger] pkg_views(out@)[k] == pkg_view(out@[k]));
                assert(forall|k: int|
                    0 <= k < pre_out.len() ==> #[trigger] pkg_views(pre_out)[k] == pkg_view(
                        pre_out[k],
                    ));
            }
            assert(pkg_views(pre_out).push(pkg_view(x)).to_multiset() =~= pkg_views(
                pre_out,
            ).to_multiset().insert(pkg_view(x)));
            assert(pkg_views(pre_work).to_multiset().count(pkg_view(x)) > 0) by {
                assert(pkg_views(pre_work).contains(pkg_view(x))) by {
                    assert(pkg_views(pre_work)[m as int] == pkg_view(x));
                }
            }
            assert(pkg_views(out@).to_multiset().add(pkg_views(work@).to_multiset())
                =~= pkg_views(pkgs@).to_multiset());
            assert(forall|k: int|
                0 <= k < work@.len() ==> #[trigger] work@[k] == pre_work[
                (if k < m { k } else { k + 1 })]);
            assert(sorted_by_lower_name(out@)) by {
                assert(forall|a: int| 0 <= a < pre_out.len() ==> out@[a] == pre_out[a]);
                assert(out@[out@.len() - 1] == x);
            }
            assert forall|a: int, b: int|
                0 <= a < out@.len() && 0 <= b < work@.len() implies crate::strutil::lex_le(
                crate::strutil::lower_of(out@[a].name@),
                crate::strutil::lower_of(work@[b].name@),
            ) by {
                let kk: int = if b < m { b } else { b + 1 };
                assert(work@[b] == pre_work[kk]);
                if a < out@.len() - 1 {
                } else {
                    assert(out@[a] == pre_work[m as int]);
                    assert(crate::strutil::lex_le(pre_keys[m as int]@, pre_keys[kk]@));
                    assert(pre_keys[m as int]@ == crate::strutil::lower_of(
                        pre_work[m as int].name@,
                    ));
                    assert(pre_keys[kk]@ == crate::strutil::lower_of(pre_work[kk].name@));
                }
            }
        }
    }
    proof {
        assert(work@.to_multiset().len() == 0);
        assert(out@.to_multiset() =~= pkgs@.to_multiset());
        assert(pkg_views(work@) =~= Seq::<(Seq<char>, Seq<char>, u64)>::empty());
        assert(pkg_views(work@).to_multiset().len() == 0);
        assert(pkg_views(out@).to_multiset() =~= pkg_views(pkgs@).to_multiset());
    }
    out
}

} // verus!
