//! Listing generations: the pure side.
//!
//! The host is asked for its generation list outside the library; what
//! arrives here is plain text and link targets, which the functions of
//! this module parse, and plain records, which they order.

use vstd::prelude::*;

use crate::strutil::{
    all_digits, chars_of, dec_value, is_dec_digit, lines_of, parse_u32, spec_lines,
    spec_parse_u32, spec_tokens, spec_trim, subvec, tokens_of, trim, views,
};
use crate::types::{days_in_month, Generation, ProfileType, Timestamp};
use vstd::string::StrSliceExecFns;

verus! {

/// Source of generations: which profile, and where its links live.
#[derive(Debug, Clone)]
pub struct GenerationSource {
    pub profile_type: ProfileType,
    pub profile_path: String,
}

/// The file name of a generation link: profile prefix, id, `-link`.
pub open spec fn spec_generation_file_name(id: int, profile: ProfileType) -> Seq<char> {
    (match profile {
        ProfileType::System => "system-"@,
        ProfileType::HomeManager => "home-manager-"@,
    }) + crate::strutil::spec_dec(id) + "-link"@
}

/// Append the generation link file name.
pub(crate) fn push_generation_file_name(out: &mut Vec<char>, id: u32, profile: ProfileType)
    ensures
        final(out)@ == old(out)@ + spec_generation_file_name(id as int, profile),
{
    match profile {
        ProfileType::System => crate::strutil::push_chars(out, "system-"),
        ProfileType::HomeManager => crate::strutil::push_chars(out, "home-manager-"),
    }
    crate::strutil::push_dec_u64(out, id as u64);
    crate::strutil::push_chars(out, "-link");
}

/// The link path of a generation: beside the profile link, falling back
/// to the root directory for a parentless profile path.
pub open spec fn spec_generation_path(
    profile_path: Seq<char>,
    id: int,
    profile: ProfileType,
) -> Seq<char> {
    crate::commands::spec_join(
        crate::commands::spec_parent_or(profile_path, "/"@),
        spec_generation_file_name(id, profile),
    )
}

/// Get the path to a specific generation's link.
pub fn get_generation_path(profile_path: &str, id: u32, profile_type: ProfileType) -> (r: String)
    ensures
        r@ == spec_generation_path(profile_path@, id as int, profile_type),
{
    let parent: Vec<char> = match crate::commands::parent_dir(profile_path) {
        Some(d) => d,
        None => crate::strutil::chars_of("/"),
    };
    let mut name: Vec<char> = Vec::new();
    push_generation_file_name(&mut name, id, profile_type);
    let mut v: Vec<char> = Vec::new();
    crate::commands::push_join(&mut v, &parent, &name);
    crate::strutil::string_from_chars(&v)
}

/// The shape of a listed timestamp: `YYYY-MM-DD HH:MM:SS`.
pub open spec fn spec_datetime_shape(s: Seq<char>) -> bool {
    &&& s.len() == 19
    &&& is_dec_digit(s[0]) && is_dec_digit(s[1]) && is_dec_digit(s[2]) && is_dec_digit(s[3])
    &&& s[4] == '-'
    &&& is_dec_digit(s[5]) && is_dec_digit(s[6])
    &&& s[7] == '-'
    &&& is_dec_digit(s[8]) && is_dec_digit(s[9])
    &&& s[10] == ' '
    &&& is_dec_digit(s[11]) && is_dec_digit(s[12])
    &&& s[13] == ':'
    &&& is_dec_digit(s[14]) && is_dec_digit(s[15])
    &&& s[16] == ':'
    &&& is_dec_digit(s[17]) && is_dec_digit(s[18])
}

/// The timestamp a listed line carries: fixed shape, calendar-valid.
pub open spec fn spec_parse_datetime(s: Seq<char>) -> Option<Timestamp> {
    if spec_datetime_shape(s) {
        let ts = Timestamp {
            year: dec_value(s.subrange(0, 4)) as u32,
            month: dec_value(s.subrange(5, 7)) as u32,
            day: dec_value(s.subrange(8, 10)) as u32,
            hour: dec_value(s.subrange(11, 13)) as u32,
            minute: dec_value(s.subrange(14, 16)) as u32,
            second: dec_value(s.subrange(17, 19)) as u32,
        };
        if ts.valid() {
            Some(ts)
        } else {
            None
        }
    } else {
        None
    }
}

fn dig(c: char) -> (r: bool)
    ensures
        r == is_dec_digit(c),
{
    let cv = c as u32;
    48 <= cv && cv <= 57
}

spec fn pow10_small(k: int) -> int
    decreases k,
{
    if k <= 0 {
        1
    } else {
        10 * pow10_small(k - 1)
    }
}

proof fn lemma_dec_value_bound(s: Seq<char>)
    requires
        all_digits(s),
    ensures
        0 <= dec_value(s) < pow10_small(s.len() as int),
    decreases s.len(),
{
    if s.len() > 0 {
        assert(all_digits(s.drop_last()));
        lemma_dec_value_bound(s.drop_last());
    }
}

/// The value of up to four digit characters at `[from, to)`.
fn field_value(v: &Vec<char>, from: usize, to: usize) -> (r: u32)
    requires
        from <= to <= v@.len(),
        to - from <= 4,
        all_digits(v@.subrange(from as int, to as int)),
    ensures
        r == dec_value(v@.subrange(from as int, to as int)),
{
    let mut r: u32 = 0;
    let mut i: usize = from;
    while i < to
        invariant
            from <= i <= to <= v@.len(),
            to - from <= 4,
            all_digits(v@.subrange(from as int, to as int)),
            r == dec_value(v@.subrange(from as int, i as int)),
            r < 10000,
        decreases to - i,
    {
        let ghost pre = v@.subrange(from as int, i as int);
        proof {
            assert(forall|j: int| 0 <= j < pre.len() ==> pre[j] == v@.subrange(
                from as int,
                to as int,
            )[j]);
            assert(all_digits(pre));
            lemma_dec_value_bound(pre);
            assert(pre.len() <= 3);
            assert(pow10_small(0) == 1);
            assert(pow10_small(1) == 10);
            assert(pow10_small(2) == 100);
            assert(pow10_small(3) == 1000);
        }
        let c = v[i];
        let cv = c as u32;
        proof {
            assert(v@.subrange(from as int, to as int)[i - from] == v@[i as int]);
            assert(is_dec_digit(v@[i as int]));
        }
        r = r * 10 + (cv - 48);
        i += 1;
        proof {
            let post = v@.subrange(from as int, i as int);
            assert(post.drop_last() =~= pre);
            assert(post.last() == v@[i - 1]);
        }
    }
    r
}

/// Parse a listed timestamp.
pub fn parse_datetime(v: &Vec<char>) -> (r: Option<Timestamp>)
    ensures
        r == spec_parse_datetime(v@),
{
    if v.len() != 19 {
        return None;
    }
    let shape = dig(v[0]) && dig(v[1]) && dig(v[2]) && dig(v[3]) && v[4] == '-' && dig(v[5]) && dig(
        v[6],
    ) && v[7] == '-' && dig(v[8]) && dig(v[9]) && v[10] == ' ' && dig(v[11]) && dig(v[12]) && v[13]
        == ':' && dig(v[14]) && dig(v[15]) && v[16] == ':' && dig(v[17]) && dig(v[18]);
    if !shape {
        return None;
    }
    proof {
        assert(spec_datetime_shape(v@));
        assert(all_digits(v@.subrange(0, 4))) by {
            assert(forall|j: int| 0 <= j < 4 ==> #[trigger] v@.subrange(0, 4)[j] == v@[j]);
        }
        assert(all_digits(v@.subrange(5, 7))) by {
            assert(forall|j: int| 0 <= j < 2 ==> #[trigger] v@.subrange(5, 7)[j] == v@[j + 5]);
        }
        assert(all_digits(v@.subrange(8, 10))) by {
            assert(forall|j: int| 0 <= j < 2 ==> #[trigger] v@.subrange(8, 10)[j] == v@[j + 8]);
        }
        assert(all_digits(v@.subrange(11, 13))) by {
            assert(forall|j: int| 0 <= j < 2 ==> #[trigger] v@.subrange(11, 13)[j] == v@[j + 11]);
        }
        assert(all_digits(v@.subrange(14, 16))) by {
            assert(forall|j: int| 0 <= j < 2 ==> #[trigger] v@.subrange(14, 16)[j] == v@[j + 14]);
        }
        assert(all_digits(v@.subrange(17, 19))) by {
            assert(forall|j: int| 0 <= j < 2 ==> #[trigger] v@.subrange(17, 19)[j] == v@[j + 17]);
        }
    }
    let year = field_value(v, 0, 4);
    let month = field_value(v, 5, 7);
    let day = field_value(v, 8, 10);
    let hour = field_value(v, 11, 13);
    let minute = field_value(v, 14, 16);
    let second = field_value(v, 17, 19);
    let ts = Timestamp { year, month, day, hour, minute, second };
    let dim = days_in_month_of(year, month);
    if 1 <= month && month <= 12 && 1 <= day && day <= dim && hour < 24 && minute < 60 && second
        < 60 {
        Some(ts)
    } else {
        None
    }
}

/// Days of a month, honouring leap years.
pub fn days_in_month_of(year: u32, month: u32) -> (r: u32)
    ensures
        r == days_in_month(year as int, month as int),
{
    if month == 2 {
        if year % 4 == 0 && (year % 100 != 0 || year % 400 == 0) {
            29
        } else {
            28
        }
    } else if month == 4 || month == 6 || month == 9 || month == 11 {
        30
    } else {
        31
    }
}

/// What one listed line contributes: `None` when the whole listing is
/// malformed, `Some(None)` for a line that is skipped (blank, or too
/// few columns), `Some(Some(entry))` for a generation.
pub open spec fn spec_line_entry(line: Seq<char>) -> Option<Option<(u32, Timestamp)>> {
    let t = spec_trim(line);
    if t.len() == 0 {
        Some(None)
    } else {
        let parts = spec_tokens(t);
        if parts.len() < 3 {
            Some(None)
        } else {
            match spec_parse_u32(parts[0]) {
                None => None,
                Some(id) => match spec_parse_datetime(parts[1] + seq![' '] + parts[2]) {
                    None => None,
                    Some(ts) => Some(Some((id, ts))),
                },
            }
        }
    }
}

/// The entries of a listing, line by line; `None` when any line is
/// malformed.
pub open spec fn spec_gen_entries(lines: Seq<Seq<char>>) -> Option<Seq<(u32, Timestamp)>>
    decreases lines.len(),
{
    if lines.len() == 0 {
        Some(Seq::empty())
    } else {
        match spec_gen_entries(lines.drop_last()) {
            None => None,
            Some(acc) => match spec_line_entry(lines.last()) {
                None => None,
                Some(None) => Some(acc),
                Some(Some(e)) => Some(acc.push(e)),
            },
        }
    }
}

/// The generation entries of a whole listing.
pub open spec fn spec_parse_generation_list(s: Seq<char>) -> Option<Seq<(u32, Timestamp)>> {
    spec_gen_entries(spec_lines(s))
}

proof fn lemma_gen_entries_none_extends(lines: Seq<Seq<char>>, j: int)
    requires
        0 <= j <= lines.len(),
        spec_gen_entries(lines.subrange(0, j)) is None,
    ensures
        spec_gen_entries(lines) is None,
    decreases lines.len() - j,
{
    if j == lines.len() {
        assert(lines.subrange(0, j) =~= lines);
    } else {
        let nxt = lines.subrange(0, j + 1);
        assert(nxt.drop_last() =~= lines.subrange(0, j));
        lemma_gen_entries_none_extends(lines, j + 1);
    }
}

/// Parse the host's generation listing: id and timestamp per line,
/// blank or short lines skipped, any malformed id or timestamp
/// rejecting the whole listing.
pub fn parse_generation_list(output: &str) -> (r: Option<Vec<(u32, Timestamp)>>)
    ensures
        match r {
            Some(v) => spec_parse_generation_list(output@) == Some(v@),
            None => spec_parse_generation_list(output@) is None,
        },
{
    let chars = chars_of(output);
    let lines = lines_of(&chars);
    let ghost lviews = views(lines@);
    let mut acc: Vec<(u32, Timestamp)> = Vec::new();
    let mut i: usize = 0;
    proof {
        assert(lviews.subrange(0, 0) =~= Seq::<Seq<char>>::empty());
    }
    while i < lines.len()
        invariant
            i <= lines@.len(),
            lviews == views(lines@),
            lviews == spec_lines(output@),
            spec_gen_entries(lviews.subrange(0, i as int)) == Some(acc@),
        decreases lines@.len() - i,
    {
        let ghost pre = lviews.subrange(0, i as int);
        let t = trim(&lines[i]);
        proof {
            assert(lines@[i as int]@ == lviews[i as int]);
            assert(lviews.subrange(0, i + 1).drop_last() =~= pre);
            assert(lviews.subrange(0, i + 1).last() == lviews[i as int]);
        }
        if t.len() == 0 {
            i += 1;
            continue ;
        }
        let parts = tokens_of(&t);
        proof {
            assert(views(parts@) == spec_tokens(t@));
        }
        if parts.len() < 3 {
            i += 1;
            continue ;
        }
        proof {
            assert(parts@[0]@ == spec_tokens(t@)[0]);
            assert(parts@[1]@ == spec_tokens(t@)[1]);
            assert(parts@[2]@ == spec_tokens(t@)[2]);
        }
        match parse_u32(&parts[0]) {
            None => {
                proof {
                    lemma_gen_entries_none_extends(lviews, i + 1);
                }
                return None;
            },
            Some(id) => {
                let mut dt = subvec(&parts[1], 0, parts[1].len());
                dt.push(' ');
                let p2 = &parts[2];
                let mut k: usize = 0;
                let ghost base = dt@;
                while k < p2.len()
                    invariant
                        k <= p2@.len(),
                        dt@ == base + p2@.subrange(0, k as int),
                    decreases p2@.len() - k,
                {
                    dt.push(p2[k]);
                    k += 1;
                    proof {
                        assert(dt@ =~= base + p2@.subrange(0, k as int));
                    }
                }
                proof {
                    assert(p2@.subrange(0, p2@.len() as int) =~= p2@);
                    assert(dt@ =~= spec_tokens(t@)[1] + seq![' '] + spec_tokens(t@)[2]);
                }
                match parse_datetime(&dt) {
                    None => {
                        proof {
                            lemma_gen_entries_none_extends(lviews, i + 1);
                        }
                        return None;
                    },
                    Some(ts) => {
                        acc.push((id, ts));
                        i += 1;
                    },
                }
            },
        }
    }
    proof {
        assert(lviews.subrange(0, lviews.len() as int) =~= lviews);
    }
    Some(acc)
}

/// Position of the last `'-'` in `s`, or -1.
pub open spec fn last_dash(s: Seq<char>) -> int
    decreases s.len(),
{
    if s.len() == 0 {
        -1
    } else if s.last() == '-' {
        s.len() - 1
    } else {
        last_dash(s.drop_last())
    }
}

/// The component after the last `'/'`; the whole path when it has none.
pub open spec fn spec_file_name(p: Seq<char>) -> Seq<char> {
    let ls = crate::commands::last_slash(p);
    if ls < 0 {
        p
    } else {
        p.subrange(ls + 1, p.len() as int)
    }
}

/// The id of a generation link name of the shape `name-ID-link`.
pub open spec fn spec_extract_generation_id(path: Seq<char>) -> Option<u32> {
    let f = spec_file_name(path);
    let ld = last_dash(f);
    if ld < 0 {
        None
    } else if f.subrange(ld + 1, f.len() as int) == "link"@ {
        let head = f.subrange(0, ld);
        let ld2 = last_dash(head);
        let mid = if ld2 < 0 {
            head
        } else {
            head.subrange(ld2 + 1, head.len() as int)
        };
        spec_parse_u32(mid)
    } else {
        None
    }
}

/// Position of the last occurrence of `c` before `to`, if any.
fn find_last(v: &Vec<char>, to: usize, c: char) -> (r: Option<usize>)
    requires
        to <= v@.len(),
    ensures
        ({
            let ld = if c == '-' {
                last_dash(v@.subrange(0, to as int))
            } else {
                crate::commands::last_slash(v@.subrange(0, to as int))
            };
            match r {
                Some(i) => i < to && (c == '-' || c == '/' ==> ld == i),
                None => c == '-' || c == '/' ==> ld < 0,
            }
        }),
{
    let mut i: usize = to;
    proof {
        assert(v@.subrange(0, to as int).subrange(0, i as int) =~= v@.subrange(0, i as int));
    }
    while i > 0
        invariant
            i <= to <= v@.len(),
            c == '-' ==> last_dash(v@.subrange(0, to as int)) == last_dash(
                v@.subrange(0, i as int),
            ),
            c == '/' ==> crate::commands::last_slash(v@.subrange(0, to as int))
                == crate::commands::last_slash(v@.subrange(0, i as int)),
        decreases i,
    {
        let ghost t = v@.subrange(0, i as int);
        proof {
            assert(t.last() == v@[i - 1]);
            assert(t.drop_last() =~= v@.subrange(0, i - 1));
        }
        if v[i - 1] == c {
            return Some(i - 1);
        }
        i -= 1;
    }
    proof {
        assert(v@.subrange(0, 0) =~= Seq::<char>::empty());
    }
    None
}

/// The file name of a path: the part after the last `'/'`.
pub fn file_name_of(v: &Vec<char>) -> (r: Vec<char>)
    ensures
        r@ == spec_file_name(v@),
{
    proof {
        assert(v@.subrange(0, v@.len() as int) =~= v@);
    }
    match find_last(v, v.len(), '/') {
        Some(ls) => subvec(v, ls + 1, v.len()),
        None => subvec(v, 0, v.len()),
    }
}

/// Extract the generation id from a link path such as
/// `system-142-link`.
pub fn extract_generation_id(path: &str) -> (r: Option<u32>)
    ensures
        r == spec_extract_generation_id(path@),
{
    let v = chars_of(path);
    let f: Vec<char> = match find_last(&v, v.len(), '/') {
        Some(ls) => {
            proof {
                assert(v@.subrange(0, v@.len() as int) =~= v@);
            }
            subvec(&v, ls + 1, v.len())
        },
        None => {
            proof {
                assert(v@.subrange(0, v@.len() as int) =~= v@);
            }
            subvec(&v, 0, v.len())
        },
    };
    proof {
        assert(f@ == spec_file_name(path@));
    }
    let ld = match find_last(&f, f.len(), '-') {
        Some(i) => i,
        None => {
            proof {
                assert(f@.subrange(0, f@.len() as int) =~= f@);
            }
            return None;
        },
    };
    proof {
        assert(f@.subrange(0, f@.len() as int) =~= f@);
    }
    let suffix = subvec(&f, ld + 1, f.len());
    if !chars_eq_str(&suffix, "link") {
        return None;
    }
    let head = subvec(&f, 0, ld);
    let mid: Vec<char> = match find_last(&head, head.len(), '-') {
        Some(ld2) => {
            proof {
                assert(head@.subrange(0, head@.len() as int) =~= head@);
            }
            subvec(&head, ld2 + 1, head.len())
        },
        None => {
            proof {
                assert(head@.subrange(0, head@.len() as int) =~= head@);
            }
            subvec(&head, 0, head.len())
        },
    };
    proof {
        assert(head@.subrange(0, head@.len() as int) =~= head@);
    }
    parse_u32(&mid)
}

/// Are these exactly the characters of the pattern?
fn chars_eq_str(v: &Vec<char>, p: &str) -> (r: bool)
    ensures
        r == (v@ == p@),
{
    if v.len() != p.unicode_len() {
        return false;
    }
    let r = crate::strutil::starts_with(v, p);
    proof {
        assert(v@.subrange(0, v@.len() as int) =~= v@);
        if crate::strutil::has_prefix(v@, p@) {
            assert(v@ =~= p@);
        }
    }
    r
}

/// The version read from a system store path: what follows the second
/// dash after the `-nixos-system-` marker's host name.
pub open spec fn spec_version_from_store_path(s: Seq<char>) -> Option<Seq<char>> {
    let i = crate::strutil::spec_find_first(s, "-nixos-system-"@);
    if i < 0 {
        None
    } else {
        let parts = crate::strutil::spec_split(s.skip(i + 14), '-');
        if parts.len() >= 2 {
            Some(parts[1])
        } else {
            None
        }
    }
}

/// Extract the release version from a store path such as
/// `/nix/store/...-nixos-system-host-24.11...`.
pub fn version_from_store_path(target: &str) -> (r: Option<String>)
    ensures
        match r {
            Some(v) => spec_version_from_store_path(target@) == Some(v@),
            None => spec_version_from_store_path(target@) is None,
        },
{
    let v = chars_of(target);
    let marker = chars_of("-nixos-system-");
    proof {
        reveal_strlit("-nixos-system-");
    }
    match crate::strutil::find_sub(&v, &marker) {
        Some(i) => {
            let n = v.len();
            proof {
                crate::strutil::lemma_find_first_at(v@, "-nixos-system-"@, i as int);
                assert(i + 14 <= v@.len());
            }
            let rest = subvec(&v, i + 14, n);
            proof {
                assert(rest@ =~= v@.skip(i + 14));
            }
            let parts = crate::strutil::split_on(&rest, '-');
            if parts.len() >= 2 {
                proof {
                    assert(parts@[1]@ == crate::strutil::spec_split(rest@, '-')[1]);
                }
                Some(crate::strutil::string_from_chars(&parts[1]))
            } else {
                None
            }
        },
        None => {
            proof {
                crate::strutil::lemma_find_first_none(v@, "-nixos-system-"@);
            }
            None
        },
    }
}

/// The kernel version read from a kernel link target: in the first
/// path component of the shape `linux-<version>`, the version up to
/// its next dash.
pub open spec fn spec_kernel_from_parts(parts: Seq<Seq<char>>) -> Option<Seq<char>>
    decreases parts.len(),
{
    if parts.len() == 0 {
        None
    } else if crate::strutil::has_prefix(parts[0], "linux-"@) && parts[0].len() > 6 {
        Some(crate::strutil::spec_split(parts[0].skip(6), '-')[0])
    } else {
        spec_kernel_from_parts(parts.skip(1))
    }
}

/// The kernel version read from a kernel link target.
pub open spec fn spec_kernel_version(s: Seq<char>) -> Option<Seq<char>> {
    spec_kernel_from_parts(crate::strutil::spec_split(s, '/'))
}

/// Extract the kernel version from a kernel link target such as
/// `/nix/store/...-linux-6.6.52/bzImage`.
pub fn kernel_version_from_path(target: &str) -> (r: Option<String>)
    ensures
        match r {
            Some(v) => spec_kernel_version(target@) == Some(v@),
            None => spec_kernel_version(target@) is None,
        },
{
    let v = chars_of(target);
    let parts = crate::strutil::split_on(&v, '/');
    let ghost pviews = views(parts@);
    let mut i: usize = 0;
    proof {
        assert(pviews.skip(0) =~= pviews);
    }
    while i < parts.len()
        invariant
            i <= parts@.len(),
            pviews == views(parts@),
            pviews == crate::strutil::spec_split(target@, '/'),
            spec_kernel_version(target@) == spec_kernel_from_parts(pviews.skip(i as int)),
        decreases parts@.len() - i,
    {
        proof {
            assert(pviews.skip(i as int)[0] == pviews[i as int]);
            assert(pviews[i as int] == parts@[i as int]@);
            assert(pviews.skip(i as int).skip(1) =~= pviews.skip(i + 1));
        }
        if crate::strutil::starts_with(&parts[i], "linux-") && parts[i].len() > 6 {
            let sub = subvec(&parts[i], 6, parts[i].len());
            proof {
                assert(sub@ =~= parts@[i as int]@.skip(6));
            }
            let inner = crate::strutil::split_on(&sub, '-');
            proof {
                crate::strutil::lemma_split_len(sub@, '-');
                assert(inner@[0]@ == crate::strutil::spec_split(sub@, '-')[0]);
            }
            return Some(crate::strutil::string_from_chars(&inner[0]));
        }
        i += 1;
    }
    proof {
        assert(pviews.skip(pviews.len() as int) =~= Seq::<Seq<char>>::empty());
    }
    None
}

/// The generation id carried by a boot loader entry file name of the
/// shape `nixos-generation-<id>.conf`.
pub open spec fn spec_boot_entry_id(name: Seq<char>) -> Option<u32> {
    if name.len() >= 22 && crate::strutil::has_prefix(name, "nixos-generation-"@)
        && crate::strutil::has_suffix(name, ".conf"@) {
        spec_parse_u32(name.subrange(17, name.len() - 5))
    } else {
        None
    }
}

/// Read the generation id of a boot loader entry file name.
pub fn boot_entry_id(name: &str) -> (r: Option<u32>)
    ensures
        r == spec_boot_entry_id(name@),
{
    let v = chars_of(name);
    if v.len() >= 22 && crate::strutil::starts_with(&v, "nixos-generation-")
        && crate::strutil::ends_with(&v, ".conf") {
        let mid = subvec(&v, 17, v.len() - 5);
        parse_u32(&mid)
    } else {
        None
    }
}

/// The generation id named on a boot menu line: the digits after
/// `Generation `, on a line that also names the system.
pub open spec fn spec_grub_generation_id(line: Seq<char>) -> Option<u32> {
    let i = crate::strutil::spec_find_first(line, "Generation "@);
    if crate::strutil::is_substring(line, "NixOS"@) && i >= 0 {
        spec_parse_u32(crate::strutil::leading_digits(line.skip(i + 11)))
    } else {
        None
    }
}

/// Read the generation id named on a boot menu line.
pub fn grub_generation_id(line: &str) -> (r: Option<u32>)
    ensures
        r == spec_grub_generation_id(line@),
{
    let v = chars_of(line);
    let nixos = chars_of("NixOS");
    let marker = chars_of("Generation ");
    proof {
        reveal_strlit("Generation ");
    }
    if !crate::strutil::contains_sub(&v, &nixos) {
        return None;
    }
    match crate::strutil::find_sub(&v, &marker) {
        Some(i) => {
            let n = v.len();
            proof {
                crate::strutil::lemma_find_first_at(v@, "Generation "@, i as int);
                assert(n == v@.len());
                assert(i + 11 <= v@.len());
            }
            let digits = crate::strutil::take_leading_digits(&v, i + 11);
            parse_u32(&digits)
        },
        None => {
            proof {
                crate::strutil::lemma_find_first_none(v@, "Generation "@);
            }
            None
        },
    }
}

/// The closure size read from a store query report: the second column
/// of the first line that carries a parsable one, or 0.
pub open spec fn spec_size_from_lines(lines: Seq<Seq<char>>) -> u64
    decreases lines.len(),
{
    if lines.len() == 0 {
        0
    } else {
        let parts = spec_tokens(lines[0]);
        if parts.len() >= 2 && crate::strutil::spec_parse_u64(parts[1]) is Some {
            crate::strutil::spec_parse_u64(parts[1]).unwrap()
        } else {
            spec_size_from_lines(lines.skip(1))
        }
    }
}

/// Read the closure size from a store query report.
pub fn parse_path_info_size(output: &str) -> (r: u64)
    ensures
        r == spec_size_from_lines(spec_lines(output@)),
{
    let chars = chars_of(output);
    let lines = lines_of(&chars);
    let ghost lviews = views(lines@);
    let mut i: usize = 0;
    proof {
        assert(lviews.skip(0) =~= lviews);
    }
    while i < lines.len()
        invariant
            i <= lines@.len(),
            lviews == views(lines@),
            lviews == spec_lines(output@),
            spec_size_from_lines(lviews) == spec_size_from_lines(lviews.skip(i as int)),
        decreases lines@.len() - i,
    {
        proof {
            assert(lviews.skip(i as int)[0] == lviews[i as int]);
            assert(lviews[i as int] == lines@[i as int]@);
            assert(lviews.skip(i as int).skip(1) =~= lviews.skip(i + 1));
        }
        let parts = tokens_of(&lines[i]);
        if parts.len() >= 2 {
            proof {
                assert(parts@[1]@ == spec_tokens(lines@[i as int]@)[1]);
            }
            match crate::strutil::parse_u64(&parts[1]) {
                Some(size) => {
                    return size;
                },
                None => {},
            }
        }
        i += 1;
    }
    proof {
        assert(lviews.skip(lviews.len() as int) =~= Seq::<Seq<char>>::empty());
    }
    0
}

/// Ids never ascend along the sequence: newest first.
pub open spec fn sorted_desc(s: Seq<Generation>) -> bool {
    forall|i: int, j: int| 0 <= i < j < s.len() ==> s[i].id >= s[j].id
}

/// Order generations newest-id first.  The result holds exactly the
/// given records, sorted by descending id.
pub fn sort_generations_desc(gens: Vec<Generation>) -> (r: Vec<Generation>)
    ensures
        r@.to_multiset() == gens@.to_multiset(),
        sorted_desc(r@),
        r@.len() == gens@.len(),
{
    broadcast use vstd::seq_lib::group_to_multiset_ensures;

    let mut work = gens;
    let mut out: Vec<Generation> = Vec::new();
    proof {
        assert(out@.to_multiset().add(work@.to_multiset()) =~= gens@.to_multiset());
    }
    while work.len() > 0
        invariant
            out@.to_multiset().add(work@.to_multiset()) == gens@.to_multiset(),
            out@.len() + work@.len() == gens@.len(),
            sorted_desc(out@),
            forall|a: int, b: int|
                0 <= a < out@.len() && 0 <= b < work@.len() ==> out@[a].id >= work@[b].id,
        decreases work@.len(),
    {
        let mut m: usize = 0;
        let mut j: usize = 1;
        while j < work.len()
            invariant
                m < j <= work@.len() || (j <= work@.len() && m == 0),
                m < work@.len(),
                forall|k: int| 0 <= k < j ==> work@[m as int].id >= work@[k].id,
            decreases work@.len() - j,
        {
            if work[j].id > work[m].id {
                m = j;
            }
            j += 1;
        }
        let ghost pre_work = work@;
        let ghost pre_out = out@;
        let x = work.remove(m);
        out.push(x);
        proof {
            pre_work.to_multiset_ensures();
            pre_out.to_multiset_ensures();
            assert(work@ == pre_work.remove(m as int));
            assert(pre_work.remove(m as int).to_multiset() =~= pre_work.to_multiset().remove(
                pre_work[m as int],
            ));
            assert(out@ == pre_out.push(x));
            assert(pre_out.push(x).to_multiset() =~= pre_out.to_multiset().insert(x));
            assert(pre_work.to_multiset().count(x) > 0) by {
                assert(pre_work.contains(x)) by {
                    assert(pre_work[m as int] == x);
                }
            }
            assert(out@.to_multiset().add(work@.to_multiset()) =~= gens@.to_multiset());
            assert(forall|k: int| 0 <= k < work@.len() ==> work@[k] == pre_work[
                (if k < m { k } else { k + 1 })]);
            assert(forall|a: int, b: int|
                0 <= a < out@.len() && 0 <= b < work@.len() ==> out@[a].id >= work@[b].id);
            assert(sorted_desc(out@)) by {
                assert(forall|a: int| 0 <= a < pre_out.len() ==> out@[a] == pre_out[a]);
                assert(out@[out@.len() - 1] == x);
            }
        }
    }
    proof {
        assert(work@.to_multiset().len() == 0);
        assert(out@.to_multiset() =~= gens@.to_multiset());
    }
    out
}

} // verus!
