//! Text helpers shared by the parsers and the command builders.
//!
//! All reasoning is over `Seq<char>`: a `&str` or `String` is read
//! through its view, and most functions work on `Vec<char>` so that the
//! logic stays fully verified.  The only trusted step is pushing a
//! single character onto a `String`.

use vstd::prelude::*;
use vstd::string::StrSliceExecFns;

verus! {

/// The whitespace characters the tokenizer recognises (the ASCII ones;
/// the text handled here is tool output, which is ASCII).
pub open spec fn is_space(c: char) -> bool {
    c == ' ' || c == '\t' || c == '\r' || c == '\n'
}

/// Executable mirror of [`is_space`].
pub fn space_char(c: char) -> (r: bool)
    ensures
        r == is_space(c),
{
    c == ' ' || c == '\t' || c == '\r' || c == '\n'
}

/// The characters of a `&str`, as a vector the verified code can index.
pub fn chars_of(s: &str) -> (r: Vec<char>)
    ensures
        r@ == s@,
{
    let n = s.unicode_len();
    let mut r: Vec<char> = Vec::new();
    let mut i: usize = 0;
    while i < n
        invariant
            n == s@.len(),
            i <= n,
            r@ == s@.subrange(0, i as int),
        decreases n - i,
    {
        r.push(s.get_char(i));
        i += 1;
        proof {
            assert(r@ =~= s@.subrange(0, i as int));
        }
    }
    proof {
        assert(r@ =~= s@);
    }
    r
}

/// Relies on `String::push`: appends exactly one character.
#[verifier::external_body]
pub(crate) fn push_char(s: &mut String, c: char)
    ensures
        final(s)@ == old(s)@ + seq![c],
{
    s.push(c)
}

/// A `String` holding exactly the given characters.
pub fn string_from_chars(v: &Vec<char>) -> (r: String)
    ensures
        r@ == v@,
{
    let mut r = String::new();
    let mut i: usize = 0;
    while i < v.len()
        invariant
            i <= v@.len(),
            r@ == v@.subrange(0, i as int),
        decreases v@.len() - i,
    {
        push_char(&mut r, v[i]);
        i += 1;
        proof {
            assert(r@ =~= v@.subrange(0, i as int));
        }
    }
    proof {
        assert(r@ =~= v@);
    }
    r
}

/// Append every character of `src` to `out`.
pub fn push_chars(out: &mut Vec<char>, src: &str)
    ensures
        final(out)@ == old(out)@ + src@,
{
    let n = src.unicode_len();
    let mut i: usize = 0;
    while i < n
        invariant
            n == src@.len(),
            i <= n,
            out@ == old(out)@ + src@.subrange(0, i as int),
        decreases n - i,
    {
        out.push(src.get_char(i));
        i += 1;
        proof {
            assert(out@ =~= old(out)@ + src@.subrange(0, i as int));
        }
    }
    proof {
        assert(out@ =~= old(out)@ + src@);
    }
}

/// `p` is a prefix of `s`.
pub open spec fn has_prefix(s: Seq<char>, p: Seq<char>) -> bool {
    p.len() <= s.len() && s.subrange(0, p.len() as int) == p
}

/// `p` is a suffix of `s`.
pub open spec fn has_suffix(s: Seq<char>, p: Seq<char>) -> bool {
    p.len() <= s.len() && s.subrange(s.len() - p.len(), s.len() as int) == p
}

/// Does the character vector start with the given pattern?
pub fn starts_with(s: &Vec<char>, p: &str) -> (r: bool)
    ensures
        r == has_prefix(s@, p@),
{
    let n = p.unicode_len();
    if n > s.len() {
        return false;
    }
    let mut i: usize = 0;
    while i < n
        invariant
            n == p@.len(),
            n <= s@.len(),
            i <= n,
            s@.subrange(0, i as int) == p@.subrange(0, i as int),
        decreases n - i,
    {
        if s[i] != p.get_char(i) {
            proof {
                assert(s@.subrange(0, n as int)[i as int] != p@[i as int]);
            }
            return false;
        }
        i += 1;
        proof {
            assert(s@.subrange(0, i as int) =~= p@.subrange(0, i as int));
        }
    }
    proof {
        assert(s@.subrange(0, n as int) =~= p@);
    }
    true
}

/// Does the character vector end with the given pattern?
pub fn ends_with(s: &Vec<char>, p: &str) -> (r: bool)
    ensures
        r == has_suffix(s@, p@),
{
    let n = p.unicode_len();
    if n > s.len() {
        return false;
    }
    let slen = s.len();
    let start = slen - n;
    let mut i: usize = 0;
    while i < n
        invariant
            n == p@.len(),
            n <= slen,
            slen == s@.len(),
            start == slen - n,
            i <= n,
            s@.subrange(start as int, start + i) == p@.subrange(0, i as int),
        decreases n - i,
    {
        if s[start + i] != p.get_char(i) {
            proof {
                assert(s@.subrange(start as int, start + n)[i as int] != p@[i as int]);
            }
            return false;
        }
        i += 1;
        proof {
            assert(s@.subrange(start as int, start + i) =~= p@.subrange(0, i as int));
        }
    }
    proof {
        assert(s@.subrange(start as int, start + n) =~= p@);
    }
    true
}

/// The decimal digit character for a value in `[0, 9]`.
pub open spec fn dec_digit(d: int) -> char {
    if d == 0 { '0' }
    else if d == 1 { '1' }
    else if d == 2 { '2' }
    else if d == 3 { '3' }
    else if d == 4 { '4' }
    else if d == 5 { '5' }
    else if d == 6 { '6' }
    else if d == 7 { '7' }
    else if d == 8 { '8' }
    else { '9' }
}

/// The decimal rendering of a non-negative integer, most significant
/// digit first, without leading zeros (`0` renders as `"0"`).
pub open spec fn spec_dec(n: int) -> Seq<char>
    decreases n,
{
    if n < 10 {
        seq![dec_digit(n)]
    } else {
        spec_dec(n / 10).push(dec_digit(n % 10))
    }
}

fn digit_char(d: u64) -> (r: char)
    requires
        d < 10,
    ensures
        r == dec_digit(d as int),
{
    if d == 0 { '0' }
    else if d == 1 { '1' }
    else if d == 2 { '2' }
    else if d == 3 { '3' }
    else if d == 4 { '4' }
    else if d == 5 { '5' }
    else if d == 6 { '6' }
    else if d == 7 { '7' }
    else if d == 8 { '8' }
    else { '9' }
}

/// Append the decimal rendering of `n`.
pub fn push_dec_u64(out: &mut Vec<char>, n: u64)
    ensures
        final(out)@ == old(out)@ + spec_dec(n as int),
    decreases n,
{
    if n >= 10 {
        push_dec_u64(out, n / 10);
    }
    out.push(digit_char(n % 10));
    proof {
        if n < 10 {
            assert(out@ =~= old(out)@ + spec_dec(n as int));
        } else {
            assert(out@ =~= old(out)@ + spec_dec(n as int));
        }
    }
}

/// Append the decimal rendering of `n`, padded on the left with `'0'`
/// to two characters.
pub fn push_two_digits(out: &mut Vec<char>, n: u64)
    requires
        n < 100,
    ensures
        final(out)@ == old(out)@ + spec_two_digits(n as int),
{
    if n < 10 {
        out.push('0');
    }
    push_dec_u64(out, n);
    proof {
        assert(out@ =~= old(out)@ + spec_two_digits(n as int));
    }
}

/// Two-character zero-padded decimal rendering of a value in `[0, 99]`.
pub open spec fn spec_two_digits(n: int) -> Seq<char> {
    if n < 10 {
        seq!['0'] + spec_dec(n)
    } else {
        spec_dec(n)
    }
}

/// The decimal rendering of `n` as a `String`.
pub fn u64_to_string(n: u64) -> (r: String)
    ensures
        r@ == spec_dec(n as int),
{
    let mut v: Vec<char> = Vec::new();
    push_dec_u64(&mut v, n);
    string_from_chars(&v)
}

/// A decimal digit character.
pub open spec fn is_dec_digit(c: char) -> bool {
    48 <= c as u32 <= 57
}

/// The value of a decimal digit character.
pub open spec fn digit_val(c: char) -> int {
    c as u32 - 48
}

/// Every character of `s` is a decimal digit.
pub open spec fn all_digits(s: Seq<char>) -> bool {
    forall|i: int| 0 <= i < s.len() ==> is_dec_digit(s[i])
}

/// The number a digit string denotes, most significant digit first.
pub open spec fn dec_value(s: Seq<char>) -> int
    decreases s.len(),
{
    if s.len() == 0 {
        0
    } else {
        dec_value(s.drop_last()) * 10 + digit_val(s.last())
    }
}

proof fn lemma_dec_value_nonneg(s: Seq<char>)
    requires
        all_digits(s),
    ensures
        dec_value(s) >= 0,
    decreases s.len(),
{
    if s.len() > 0 {
        assert(all_digits(s.drop_last()));
        lemma_dec_value_nonneg(s.drop_last());
    }
}

proof fn lemma_dec_value_prefix(s: Seq<char>, k: int)
    requires
        all_digits(s),
        0 <= k <= s.len(),
    ensures
        dec_value(s.subrange(0, k)) <= dec_value(s),
    decreases s.len() - k,
{
    if k < s.len() {
        lemma_dec_value_prefix(s, k + 1);
        let p = s.subrange(0, k + 1);
        assert(p.drop_last() =~= s.subrange(0, k));
        assert(all_digits(s.subrange(0, k)));
        lemma_dec_value_nonneg(s.subrange(0, k));
        assert(dec_value(p) == dec_value(s.subrange(0, k)) * 10 + digit_val(s[k]));
        assert(dec_value(s.subrange(0, k)) <= dec_value(p)) by {
            assert(dec_value(s.subrange(0, k)) * 10 >= dec_value(s.subrange(0, k)))
                by (nonlinear_arith)
                requires dec_value(s.subrange(0, k)) >= 0;
            assert(digit_val(s[k]) >= 0);
        }
    } else {
        assert(s.subrange(0, k) =~= s);
    }
}

/// What `str::parse::<u32>` yields on this text: an optional leading
/// `'+'`, then at least one digit, and a value that fits in a `u32`.
pub open spec fn spec_parse_u32(s: Seq<char>) -> Option<u32> {
    let digits = if s.len() > 0 && s[0] == '+' { s.skip(1) } else { s };
    if digits.len() > 0 && all_digits(digits) && dec_value(digits) <= u32::MAX {
        Some(dec_value(digits) as u32)
    } else {
        None
    }
}

/// Parse a decimal `u32`, accepting exactly what
/// [`spec_parse_u32`] describes.
pub fn parse_u32(s: &Vec<char>) -> (r: Option<u32>)
    ensures
        r == spec_parse_u32(s@),
{
    let ghost digits: Seq<char> = if s@.len() > 0 && s@[0] == '+' { s@.skip(1) } else { s@ };
    let start: usize = if s.len() > 0 && s[0] == '+' { 1 } else { 0 };
    proof {
        assert(digits =~= s@.subrange(start as int, s@.len() as int));
    }
    if s.len() == start {
        return None;
    }
    let mut val: u64 = 0;
    let mut i: usize = start;
    while i < s.len()
        invariant
            start <= i <= s@.len(),
            digits == (if s@.len() > 0 && s@[0] == '+' { s@.skip(1) } else { s@ }),
            digits =~= s@.subrange(start as int, s@.len() as int),
            all_digits(digits.subrange(0, i - start)),
            val == dec_value(digits.subrange(0, i - start)),
            val <= u32::MAX,
        decreases s@.len() - i,
    {
        let c = s[i];
        let cv = c as u32;
        let ghost pre = digits.subrange(0, i - start);
        if cv < 48 || cv > 57 {
            proof {
                assert(digits[i - start] == s@[i as int]);
                assert(!all_digits(digits)) by {
                    assert(!is_dec_digit(digits[i - start]));
                }
            }
            return None;
        }
        let d: u64 = (cv - 48) as u64;
        let nv: u64 = val * 10 + d;
        proof {
            let post = digits.subrange(0, i + 1 - start);
            assert(post.drop_last() =~= pre);
            assert(post.last() == s@[i as int]);
            assert(dec_value(post) == dec_value(pre) * 10 + digit_val(s@[i as int]));
            assert(all_digits(post)) by {
                assert(forall|j: int| 0 <= j < post.len() ==> is_dec_digit(#[trigger] post[j]))
                    by {
                    assert(forall|j: int| 0 <= j < pre.len() ==> #[trigger] post[j] == pre[j]);
                    assert(is_dec_digit(post[post.len() - 1]));
                }
            }
        }
        if nv > 0xffff_ffff {
            proof {
                let post = digits.subrange(0, i + 1 - start);
                if all_digits(digits) {
                    lemma_dec_value_prefix(digits, i + 1 - start);
                    assert(dec_value(digits) >= dec_value(post));
                }
            }
            return None;
        }
        val = nv;
        i += 1;
    }
    proof {
        assert(digits.subrange(0, s@.len() - start) =~= digits);
    }
    Some(val as u32)
}

/// What `str::parse::<u64>` yields on this text: an optional leading
/// `'+'`, then at least one digit, and a value that fits in a `u64`.
pub open spec fn spec_parse_u64(s: Seq<char>) -> Option<u64> {
    let digits = if s.len() > 0 && s[0] == '+' { s.skip(1) } else { s };
    if digits.len() > 0 && all_digits(digits) && dec_value(digits) <= u64::MAX {
        Some(dec_value(digits) as u64)
    } else {
        None
    }
}

/// Parse a decimal `u64`, accepting exactly what
/// [`spec_parse_u64`] describes.
pub fn parse_u64(s: &Vec<char>) -> (r: Option<u64>)
    ensures
        r == spec_parse_u64(s@),
{
    let ghost digits: Seq<char> = if s@.len() > 0 && s@[0] == '+' { s@.skip(1) } else { s@ };
    let start: usize = if s.len() > 0 && s[0] == '+' { 1 } else { 0 };
    proof {
        assert(digits =~= s@.subrange(start as int, s@.len() as int));
    }
    if s.len() == start {
        return None;
    }
    let mut val: u64 = 0;
    let mut i: usize = start;
    while i < s.len()
        invariant
            start <= i <= s@.len(),
            digits == (if s@.len() > 0 && s@[0] == '+' { s@.skip(1) } else { s@ }),
            digits =~= s@.subrange(start as int, s@.len() as int),
            all_digits(digits.subrange(0, i - start)),
            val == dec_value(digits.subrange(0, i - start)),
        decreases s@.len() - i,
    {
        let c = s[i];
        let cv = c as u32;
        let ghost pre = digits.subrange(0, i - start);
        if cv < 48 || cv > 57 {
            proof {
                assert(digits[i - start] == s@[i as int]);
                assert(!all_digits(digits)) by {
                    assert(!is_dec_digit(digits[i - start]));
                }
            }
            return None;
        }
        let d: u64 = (cv - 48) as u64;
        proof {
            let post = digits.subrange(0, i + 1 - start);
            assert(post.drop_last() =~= pre);
            assert(post.last() == s@[i as int]);
            assert(dec_value(post) == dec_value(pre) * 10 + digit_val(s@[i as int]));
            assert(all_digits(post)) by {
                assert(forall|j: int| 0 <= j < post.len() ==> is_dec_digit(#[trigger] post[j]))
                    by {
                    assert(forall|j: int| 0 <= j < pre.len() ==> #[trigger] post[j] == pre[j]);
                    assert(is_dec_digit(post[post.len() - 1]));
                }
            }
        }
        if val > 0x1999_9999_9999_9999 || (val == 0x1999_9999_9999_9999 && d > 5) {
            proof {
                let post = digits.subrange(0, i + 1 - start);
                assert(dec_value(post) > u64::MAX);
                if all_digits(digits) {
                    lemma_dec_value_prefix(digits, i + 1 - start);
                    assert(dec_value(digits) >= dec_value(post));
                }
            }
            return None;
        }
        val = val * 10 + d;
        i += 1;
    }
    proof {
        assert(digits.subrange(0, s@.len() - start) =~= digits);
    }
    Some(val)
}

/// The lines of a text, as `str::lines` reads them: split on newlines,
/// one trailing carriage return stripped from each line, and no final
/// empty line after a trailing newline.
pub open spec fn strip_cr(l: Seq<char>) -> Seq<char> {
    if l.len() > 0 && l.last() == '\r' {
        l.drop_last()
    } else {
        l
    }
}

/// The lines of a text.
pub open spec fn spec_lines(s: Seq<char>) -> Seq<Seq<char>> {
    let raw = spec_split(s, '\n');
    let cut = if raw.len() > 0 && raw.last().len() == 0 {
        raw.drop_last()
    } else {
        raw
    };
    cut.map_values(|l: Seq<char>| strip_cr(l))
}

/// Split a text into its lines.
pub fn lines_of(s: &Vec<char>) -> (r: Vec<Vec<char>>)
    ensures
        views(r@) == spec_lines(s@),
{
    let mut raw = split_on(s, '\n');
    let ghost raw0 = views(raw@);
    if raw.len() > 0 {
        let last_empty = raw[raw.len() - 1].len() == 0;
        if last_empty {
            raw.pop();
            proof {
                assert(views(raw@) =~~= raw0.drop_last());
            }
        }
    }
    let ghost cut = views(raw@);
    let mut out: Vec<Vec<char>> = Vec::new();
    let mut i: usize = 0;
    while i < raw.len()
        invariant
            i <= raw@.len(),
            cut == views(raw@),
            out@.len() == i,
            forall|j: int| 0 <= j < i ==> #[trigger] out@[j]@ == strip_cr(cut[j]),
        decreases raw@.len() - i,
    {
        let mut line = crate::strutil::subvec(&raw[i], 0, raw[i].len());
        if line.len() > 0 && line[line.len() - 1] == '\r' {
            line.pop();
            proof {
                assert(line@ =~= strip_cr(raw@[i as int]@));
            }
        }
        proof {
            assert(line@ =~= strip_cr(raw@[i as int]@));
            assert(raw@[i as int]@ == cut[i as int]);
        }
        out.push(line);
        i += 1;
    }
    proof {
        let f = |l: Seq<char>| strip_cr(l);
        assert(views(out@) =~~= cut.map_values(f)) by {
            assert(views(out@).len() == cut.len());
            assert forall|j: int| 0 <= j < cut.len() implies views(out@)[j] == cut.map_values(f)[j] by {
                assert(views(out@)[j] == out@[j]@);
                assert(cut.map_values(f)[j] == f(cut[j]));
                assert(out@[j]@ == strip_cr(cut[j]));
            }
        }
        assert(views(out@) =~~= spec_lines(s@));
    }
    out
}

/// The pattern occurs in `hay` starting at position `i`.
pub open spec fn match_at(hay: Seq<char>, needle: Seq<char>, i: int) -> bool {
    0 <= i && i + needle.len() <= hay.len() && hay.subrange(i, i + needle.len()) == needle
}

/// The pattern occurs somewhere in `hay`.
pub open spec fn is_substring(hay: Seq<char>, needle: Seq<char>) -> bool {
    exists|i: int| match_at(hay, needle, i)
}

fn eq_at(hay: &Vec<char>, needle: &Vec<char>, i: usize) -> (r: bool)
    requires
        i + needle@.len() <= hay@.len(),
    ensures
        r == match_at(hay@, needle@, i as int),
{
    let hlen = hay.len();
    let nlen = needle.len();
    let mut j: usize = 0;
    while j < nlen
        invariant
            hlen == hay@.len(),
            nlen == needle@.len(),
            i + nlen <= hlen,
            j <= nlen,
            hay@.subrange(i as int, i + j) == needle@.subrange(0, j as int),
        decreases nlen - j,
    {
        if hay[i + j] != needle[j] {
            proof {
                assert(hay@.subrange(i as int, i + needle@.len())[j as int] != needle@[j as int]);
            }
            return false;
        }
        j += 1;
        proof {
            assert(hay@.subrange(i as int, i + j) =~= needle@.subrange(0, j as int));
        }
    }
    proof {
        assert(hay@.subrange(i as int, i + needle@.len()) =~= needle@);
    }
    true
}

/// The first position where the pattern occurs, if any.
pub fn find_sub(hay: &Vec<char>, needle: &Vec<char>) -> (r: Option<usize>)
    ensures
        match r {
            Some(i) => match_at(hay@, needle@, i as int) && forall|j: int|
                0 <= j < i ==> !match_at(hay@, needle@, j),
            None => !is_substring(hay@, needle@),
        },
{
    if needle.len() > hay.len() {
        return None;
    }
    if needle.len() == 0 {
        proof {
            assert(hay@.subrange(0, 0) =~= needle@);
        }
        return Some(0);
    }
    let hlen = hay.len();
    let last = hlen - needle.len();
    let mut i: usize = 0;
    while i <= last
        invariant
            hlen == hay@.len(),
            1 <= needle@.len() <= hay@.len(),
            last == hay@.len() - needle@.len(),
            i <= last + 1,
            forall|j: int| 0 <= j < i ==> !match_at(hay@, needle@, j),
        decreases last + 1 - i,
    {
        if eq_at(hay, needle, i) {
            return Some(i);
        }
        i += 1;
    }
    None
}

/// The first position where the pattern occurs, or -1.
pub open spec fn spec_find_first(hay: Seq<char>, needle: Seq<char>) -> int
    decreases hay.len(),
{
    if needle.len() > hay.len() {
        -1
    } else if hay.subrange(0, needle.len() as int) == needle {
        0
    } else if hay.len() == 0 {
        -1
    } else {
        let r = spec_find_first(hay.skip(1), needle);
        if r < 0 {
            -1
        } else {
            r + 1
        }
    }
}

pub proof fn lemma_find_first_at(hay: Seq<char>, needle: Seq<char>, i: int)
    requires
        match_at(hay, needle, i),
        forall|j: int| 0 <= j < i ==> !match_at(hay, needle, j),
    ensures
        spec_find_first(hay, needle) == i,
    decreases i,
{
    if i == 0 {
    } else {
        assert(!match_at(hay, needle, 0));
        assert(hay.subrange(0, needle.len() as int) != needle);
        assert(match_at(hay.skip(1), needle, i - 1)) by {
            assert(hay.skip(1).subrange(i - 1, i - 1 + needle.len()) =~= hay.subrange(
                i,
                i + needle.len(),
            ));
        }
        assert(forall|j: int| 0 <= j < i - 1 ==> !match_at(hay.skip(1), needle, j)) by {
            assert forall|j: int| 0 <= j < i - 1 implies !match_at(hay.skip(1), needle, j) by {
                if match_at(hay.skip(1), needle, j) {
                    assert(hay.subrange(j + 1, j + 1 + needle.len()) =~= hay.skip(1).subrange(
                        j,
                        j + needle.len(),
                    ));
                    assert(match_at(hay, needle, j + 1));
                }
            }
        }
        lemma_find_first_at(hay.skip(1), needle, i - 1);
    }
}

pub proof fn lemma_find_first_none(hay: Seq<char>, needle: Seq<char>)
    requires
        !is_substring(hay, needle),
    ensures
        spec_find_first(hay, needle) < 0,
    decreases hay.len(),
{
    if needle.len() <= hay.len() {
        assert(!match_at(hay, needle, 0));
        assert(hay.subrange(0, needle.len() as int) != needle);
        if hay.len() > 0 {
            assert(!is_substring(hay.skip(1), needle)) by {
                if is_substring(hay.skip(1), needle) {
                    let j = choose|j: int| match_at(hay.skip(1), needle, j);
                    assert(hay.subrange(j + 1, j + 1 + needle.len()) =~= hay.skip(1).subrange(
                        j,
                        j + needle.len(),
                    ));
                    assert(match_at(hay, needle, j + 1));
                }
            }
            lemma_find_first_none(hay.skip(1), needle);
        }
    }
}

/// The longest run of digits at the front of `s`.
pub open spec fn leading_digits(s: Seq<char>) -> Seq<char>
    decreases s.len(),
{
    if s.len() > 0 && is_dec_digit(s[0]) {
        seq![s[0]] + leading_digits(s.skip(1))
    } else {
        Seq::empty()
    }
}

/// Executable mirror of [`is_dec_digit`].
pub fn is_dec_digit_char(c: char) -> (r: bool)
    ensures
        r == is_dec_digit(c),
{
    let cv = c as u32;
    48 <= cv && cv <= 57
}

/// Copy the longest run of digits at the front of `s`.
pub fn take_leading_digits(s: &Vec<char>, from: usize) -> (r: Vec<char>)
    requires
        from <= s@.len(),
    ensures
        r@ == leading_digits(s@.skip(from as int)),
{
    let mut i: usize = from;
    proof {
        assert(s@.subrange(from as int, from as int) =~= Seq::<char>::empty());
        assert(leading_digits(s@.skip(from as int)) =~= s@.subrange(from as int, i as int)
            + leading_digits(s@.skip(i as int)));
    }
    while i < s.len() && is_dec_digit_char(s[i])
        invariant
            from <= i <= s@.len(),
            forall|j: int| from <= j < i ==> is_dec_digit(s@[j]),
            leading_digits(s@.skip(from as int)) == s@.subrange(from as int, i as int)
                + leading_digits(s@.skip(i as int)),
        decreases s@.len() - i,
    {
        proof {
            assert(s@.skip(i as int)[0] == s@[i as int]);
            assert(s@.skip(i as int).skip(1) =~= s@.skip(i + 1));
            assert(s@.subrange(from as int, i + 1) =~= s@.subrange(from as int, i as int) + seq![
                s@[i as int],
            ]);
        }
        i += 1;
        proof {
            assert(leading_digits(s@.skip(from as int)) =~= s@.subrange(from as int, i as int)
                + leading_digits(s@.skip(i as int)));
        }
    }
    proof {
        let t = s@.skip(i as int);
        if t.len() > 0 {
            assert(t[0] == s@[i as int]);
        }
        assert(leading_digits(t) =~= Seq::<char>::empty());
        assert(leading_digits(s@.skip(from as int)) =~= s@.subrange(from as int, i as int));
    }
    subvec(s, from, i)
}

/// Does the pattern occur in `hay`?
pub fn contains_sub(hay: &Vec<char>, needle: &Vec<char>) -> (r: bool)
    ensures
        r == is_substring(hay@, needle@),
{
    match find_sub(hay, needle) {
        Some(_) => true,
        None => false,
    }
}

/// The views of a vector of character vectors.
pub open spec fn views(ss: Seq<Vec<char>>) -> Seq<Seq<char>> {
    ss.map_values(|v: Vec<char>| v@)
}

/// The fields of `s` split on separator `sep`; `n` separators give
/// `n + 1` fields, some possibly empty.
pub open spec fn spec_split(s: Seq<char>, sep: char) -> Seq<Seq<char>>
    decreases s.len(),
{
    if s.len() == 0 {
        seq![Seq::<char>::empty()]
    } else if s[0] == sep {
        seq![Seq::<char>::empty()] + spec_split(s.skip(1), sep)
    } else {
        let r = spec_split(s.skip(1), sep);
        r.update(0, seq![s[0]] + r[0])
    }
}

pub proof fn lemma_split_len(s: Seq<char>, sep: char)
    ensures
        spec_split(s, sep).len() >= 1,
    decreases s.len(),
{
    if s.len() > 0 {
        lemma_split_len(s.skip(1), sep);
    }
}

/// Split on a separator character.
pub fn split_on(s: &Vec<char>, sep: char) -> (r: Vec<Vec<char>>)
    ensures
        views(r@) == spec_split(s@, sep),
{
    let mut r: Vec<Vec<char>> = Vec::new();
    r.push(Vec::new());
    let mut i: usize = s.len();
    proof {
        assert(s@.skip(i as int) =~= Seq::<char>::empty());
        assert(views(r@) =~~= spec_split(s@.skip(i as int), sep));
    }
    while i > 0
        invariant
            i <= s@.len(),
            views(r@) =~~= spec_split(s@.skip(i as int), sep),
        decreases i,
    {
        let c = s[i - 1];
        let ghost t = s@.skip(i - 1);
        proof {
            assert(t[0] == s@[i - 1]);
            assert(t.skip(1) =~= s@.skip(i as int));
        }
        if c == sep {
            r.insert(0, Vec::new());
            proof {
                assert(views(r@) =~~= spec_split(t, sep));
            }
        } else {
            proof {
                lemma_split_len(s@.skip(i as int), sep);
            }
            let mut first = r.remove(0);
            first.insert(0, c);
            r.insert(0, first);
            proof {
                let old_split = spec_split(s@.skip(i as int), sep);
                assert(views(r@) =~~= old_split.update(0, seq![s@[i - 1]] + old_split[0]));
                assert(views(r@) =~~= spec_split(t, sep));
            }
        }
        i -= 1;
    }
    proof {
        assert(s@.skip(0) =~= s@);
    }
    r
}

/// The whitespace-separated tokens of `s`, in order.
pub open spec fn spec_tokens(s: Seq<char>) -> Seq<Seq<char>>
    decreases s.len(),
{
    if s.len() == 0 {
        Seq::empty()
    } else if is_space(s[0]) {
        spec_tokens(s.skip(1))
    } else if s.len() >= 2 && !is_space(s[1]) {
        let r = spec_tokens(s.skip(1));
        r.update(0, seq![s[0]] + r[0])
    } else {
        seq![seq![s[0]]] + spec_tokens(s.skip(1))
    }
}

proof fn lemma_tokens_head(s: Seq<char>)
    requires
        s.len() > 0,
        !is_space(s[0]),
    ensures
        spec_tokens(s).len() >= 1,
        spec_tokens(s)[0].len() >= 1,
        spec_tokens(s)[0][0] == s[0],
    decreases s.len(),
{
    if s.len() >= 2 && !is_space(s[1]) {
        assert(s.skip(1)[0] == s[1]);
        lemma_tokens_head(s.skip(1));
    }
}

/// Split into whitespace-separated tokens.
pub fn tokens_of(s: &Vec<char>) -> (r: Vec<Vec<char>>)
    ensures
        views(r@) == spec_tokens(s@),
{
    let mut r: Vec<Vec<char>> = Vec::new();
    let mut i: usize = s.len();
    proof {
        assert(s@.skip(i as int) =~= Seq::<char>::empty());
        assert(views(r@) =~~= spec_tokens(s@.skip(i as int)));
    }
    while i > 0
        invariant
            i <= s@.len(),
            views(r@) =~~= spec_tokens(s@.skip(i as int)),
        decreases i,
    {
        let c = s[i - 1];
        let ghost t = s@.skip(i - 1);
        proof {
            assert(t[0] == s@[i - 1]);
            assert(t.skip(1) =~= s@.skip(i as int));
            if t.len() >= 2 {
                assert(t[1] == s@[i as int]);
            }
        }
        if space_char(c) {
            proof {
                assert(views(r@) =~~= spec_tokens(t));
            }
        } else if i < s.len() && !space_char(s[i]) {
            proof {
                lemma_tokens_head(s@.skip(i as int));
            }
            let mut first = r.remove(0);
            first.insert(0, c);
            r.insert(0, first);
            proof {
                let old_toks = spec_tokens(s@.skip(i as int));
                assert(views(r@) =~~= old_toks.update(0, seq![s@[i - 1]] + old_toks[0]));
                assert(views(r@) =~~= spec_tokens(t));
            }
        } else {
            let mut first: Vec<char> = Vec::new();
            first.push(c);
            r.insert(0, first);
            proof {
                assert(views(r@) =~~= seq![seq![s@[i - 1]]] + spec_tokens(s@.skip(i as int)));
                assert(views(r@) =~~= spec_tokens(t));
            }
        }
        i -= 1;
    }
    proof {
        assert(s@.skip(0) =~= s@);
    }
    r
}

/// `s` without leading whitespace.
pub open spec fn spec_trim_start(s: Seq<char>) -> Seq<char>
    decreases s.len(),
{
    if s.len() > 0 && is_space(s[0]) {
        spec_trim_start(s.skip(1))
    } else {
        s
    }
}

/// `s` without trailing whitespace.
pub open spec fn spec_trim_end(s: Seq<char>) -> Seq<char>
    decreases s.len(),
{
    if s.len() > 0 && is_space(s.last()) {
        spec_trim_end(s.drop_last())
    } else {
        s
    }
}

/// `s` without leading or trailing whitespace.
pub open spec fn spec_trim(s: Seq<char>) -> Seq<char> {
    spec_trim_end(spec_trim_start(s))
}

/// Copy of the characters in `[from, to)`.
pub fn subvec(s: &Vec<char>, from: usize, to: usize) -> (r: Vec<char>)
    requires
        from <= to <= s@.len(),
    ensures
        r@ == s@.subrange(from as int, to as int),
{
    let mut r: Vec<char> = Vec::new();
    let mut i: usize = from;
    while i < to
        invariant
            from <= i <= to <= s@.len(),
            r@ == s@.subrange(from as int, i as int),
        decreases to - i,
    {
        r.push(s[i]);
        i += 1;
        proof {
            assert(r@ =~= s@.subrange(from as int, i as int));
        }
    }
    r
}

/// Remove leading and trailing whitespace.
pub fn trim(s: &Vec<char>) -> (r: Vec<char>)
    ensures
        r@ == spec_trim(s@),
{
    let mut lo: usize = 0;
    proof {
        assert(s@.skip(0) =~= s@);
    }
    while lo < s.len() && space_char(s[lo])
        invariant
            lo <= s@.len(),
            spec_trim_start(s@) == spec_trim_start(s@.skip(lo as int)),
        decreases s@.len() - lo,
    {
        proof {
            assert(s@.skip(lo as int)[0] == s@[lo as int]);
            assert(s@.skip(lo as int).skip(1) =~= s@.skip(lo + 1));
        }
        lo += 1;
    }
    proof {
        let t = s@.skip(lo as int);
        if t.len() > 0 {
            assert(t[0] == s@[lo as int]);
        }
        assert(spec_trim_start(s@) == t);
    }
    let mut hi: usize = s.len();
    proof {
        assert(s@.skip(lo as int) =~= s@.subrange(lo as int, s@.len() as int));
    }
    while hi > lo && space_char(s[hi - 1])
        invariant
            lo <= hi <= s@.len(),
            spec_trim_start(s@) == s@.skip(lo as int),
            spec_trim_end(s@.skip(lo as int)) == spec_trim_end(s@.subrange(lo as int, hi as int)),
        decreases hi,
    {
        proof {
            let u = s@.subrange(lo as int, hi as int);
            assert(u.last() == s@[hi - 1]);
            assert(u.drop_last() =~= s@.subrange(lo as int, hi - 1));
        }
        hi -= 1;
    }
    proof {
        let u = s@.subrange(lo as int, hi as int);
        if u.len() > 0 {
            assert(u.last() == s@[hi - 1]);
        }
        assert(spec_trim_end(u) == u);
        assert(s@.skip(lo as int) =~= s@.subrange(lo as int, s@.len() as int));
    }
    subvec(s, lo, hi)
}

/// Lexicographic order on character sequences, by code point; a prefix
/// precedes its extensions.
pub open spec fn lex_le(a: Seq<char>, b: Seq<char>) -> bool
    decreases a.len(),
{
    if a.len() == 0 {
        true
    } else if b.len() == 0 {
        false
    } else if (a[0] as u32) < (b[0] as u32) {
        true
    } else if (a[0] as u32) > (b[0] as u32) {
        false
    } else {
        lex_le(a.skip(1), b.skip(1))
    }
}

/// The order is total: two sequences always compare one way or the
/// other.
pub proof fn lemma_lex_total(a: Seq<char>, b: Seq<char>)
    ensures
        lex_le(a, b) || lex_le(b, a),
    decreases a.len(),
{
    if a.len() > 0 && b.len() > 0 && a[0] as u32 == b[0] as u32 {
        lemma_lex_total(a.skip(1), b.skip(1));
    }
}

/// The order is transitive.
pub proof fn lemma_lex_trans(a: Seq<char>, b: Seq<char>, c: Seq<char>)
    requires
        lex_le(a, b),
        lex_le(b, c),
    ensures
        lex_le(a, c),
    decreases a.len(),
{
    if a.len() > 0 {
        if b.len() > 0 && c.len() > 0 && a[0] as u32 == b[0] as u32 && b[0] as u32 == c[0] as u32 {
            lemma_lex_trans(a.skip(1), b.skip(1), c.skip(1));
        }
    }
}

/// Compare two character vectors in lexicographic order.
pub fn lex_le_chars(a: &Vec<char>, b: &Vec<char>) -> (r: bool)
    ensures
        r == lex_le(a@, b@),
{
    let mut i: usize = 0;
    proof {
        assert(a@.skip(0) =~= a@);
        assert(b@.skip(0) =~= b@);
    }
    while i < a.len() && i < b.len()
        invariant
            i <= a@.len(),
            i <= b@.len(),
            lex_le(a@, b@) == lex_le(a@.skip(i as int), b@.skip(i as int)),
            lex_le(b@, a@) == lex_le(b@.skip(i as int), a@.skip(i as int)),
        decreases a@.len() - i,
    {
        proof {
            assert(a@.skip(i as int)[0] == a@[i as int]);
            assert(b@.skip(i as int)[0] == b@[i as int]);
            assert(a@.skip(i as int).skip(1) =~= a@.skip(i + 1));
            assert(b@.skip(i as int).skip(1) =~= b@.skip(i + 1));
        }
        let ca = a[i] as u32;
        let cb = b[i] as u32;
        if ca < cb {
            return true;
        }
        if ca > cb {
            return false;
        }
        i += 1;
    }
    proof {
        if i >= a@.len() {
            assert(a@.skip(i as int) =~= Seq::<char>::empty());
        } else {
            assert(b@.skip(i as int) =~= Seq::<char>::empty());
            assert(a@.skip(i as int).len() > 0);
        }
    }
    a.len() <= b.len()
}

/// How many times the pattern occurs in the text, counted left to
/// right without overlap (an empty pattern counts zero).
pub open spec fn spec_count_occurrences(s: Seq<char>, p: Seq<char>) -> int
    decreases s.len(),
{
    if p.len() == 0 || s.len() < p.len() {
        0
    } else if s.subrange(0, p.len() as int) == p {
        1 + spec_count_occurrences(s.skip(p.len() as int), p)
    } else {
        spec_count_occurrences(s.skip(1), p)
    }
}

/// Count the pattern's non-overlapping occurrences in the text.
pub fn count_occurrences(s: &str, p: &str) -> (r: usize)
    ensures
        r as int == spec_count_occurrences(s@, p@),
{
    let hay = chars_of(s);
    let pat = chars_of(p);
    if pat.len() == 0 {
        proof {
            assert(spec_count_occurrences(s@, p@) == 0);
        }
        return 0;
    }
    let mut count: usize = 0;
    let mut i: usize = 0;
    proof {
        assert(hay@.skip(0) =~= hay@);
    }
    while i < hay.len()
        invariant
            pat@ == p@,
            hay@ == s@,
            pat@.len() >= 1,
            i <= hay@.len(),
            count <= i,
            count as int + spec_count_occurrences(hay@.skip(i as int), pat@)
                == spec_count_occurrences(s@, p@),
        decreases hay@.len() - i,
    {
        let ghost rem = hay@.skip(i as int);
        if pat.len() <= hay.len() - i && eq_at(&hay, &pat, i) {
            proof {
                assert(rem.subrange(0, pat@.len() as int) =~= hay@.subrange(
                    i as int,
                    i + pat@.len(),
                ));
                assert(rem.skip(pat@.len() as int) =~= hay@.skip(i + pat@.len()));
            }
            count += 1;
            i += pat.len();
        } else {
            proof {
                if rem.len() >= pat@.len() {
                    assert(rem.subrange(0, pat@.len() as int) =~= hay@.subrange(
                        i as int,
                        i + pat@.len(),
                    ));
                }
                assert(rem.skip(1) =~= hay@.skip(i + 1));
            }
            i += 1;
        }
    }
    proof {
        assert(hay@.skip(i as int) =~= Seq::<char>::empty());
    }
    count
}

/// What `str::to_lowercase` returns for a given text: a result of the
/// characters alone.
pub uninterp spec fn lower_of(s: Seq<char>) -> Seq<char>;

/// Relies on `str::to_lowercase`: the result depends only on the
/// characters, and an empty text stays empty.
#[verifier::external_body]
pub fn lowercase(s: &str) -> (r: String)
    ensures
        r@ == lower_of(s@),
        s@.len() == 0 ==> r@.len() == 0,
{
    s.to_lowercase()
}

} // verus!
