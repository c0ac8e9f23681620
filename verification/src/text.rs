//! Verified text utilities: character access, scanning, case-insensitive
//! search, whitespace tokens and integer parsing over character sequences.
//!
//! Case handling folds ASCII letters only, and whitespace means the ASCII
//! blank characters; the coordinate parsers built on top of these only
//! ever meet such text.

use vstd::prelude::*;
use vstd::string::StrSliceExecFns;

verus! {

/// ASCII blank characters: space, tab, line feed, carriage return.
pub open spec fn is_space(c: char) -> bool {
    c == ' ' || c == '\t' || c == '\n' || c == '\r'
}

/// ASCII decimal digit.
pub open spec fn is_ascii_digit(c: char) -> bool {
    '0' <= c <= '9'
}

/// `c` with an ASCII capital letter folded to lower case.
pub open spec fn spec_lower_char(c: char) -> char {
    if 'A' <= c <= 'Z' {
        (((c as u8) + 32) as char)
    } else {
        c
    }
}

/// Runtime ASCII lower-casing of one character.
pub fn lower_char(c: char) -> (r: char)
    ensures
        r == spec_lower_char(c),
{
    if 'A' <= c && c <= 'Z' {
        ((c as u8) + 32) as char
    } else {
        c
    }
}

/// The characters of a string as a vector.
pub fn chars_of(s: &str) -> (r: Vec<char>)
    ensures
        r@ == s@,
{
    let n = s.unicode_len();
    let mut out: Vec<char> = Vec::new();
    let mut i: usize = 0;
    while i < n
        invariant
            0 <= i <= n,
            n == s@.len(),
            out@ == s@.subrange(0, i as int),
        decreases n - i,
    {
        out.push(s.get_char(i));
        proof {
            assert(out@ =~= s@.subrange(0, i + 1));
        }
        i = i + 1;
    }
    proof {
        assert(s@.subrange(0, s@.len() as int) =~= s@);
    }
    out
}

/// First position at or after `from` whose character satisfies `p`, or the
/// length when none does.
pub open spec fn scan_from(s: Seq<char>, from: int, p: spec_fn(char) -> bool) -> int
    decreases s.len() - from,
{
    if from < 0 || from >= s.len() {
        s.len() as int
    } else if p(s[from]) {
        from
    } else {
        scan_from(s, from + 1, p)
    }
}

/// What `scan_from` returns: the first hit, with nothing satisfying `p`
/// before it.
pub proof fn lemma_scan_from(s: Seq<char>, from: int, p: spec_fn(char) -> bool)
    requires
        0 <= from <= s.len(),
    ensures
        from <= scan_from(s, from, p) <= s.len(),
        scan_from(s, from, p) < s.len() ==> p(s[scan_from(s, from, p)]),
        forall|k: int| from <= k < scan_from(s, from, p) ==> !p(#[trigger] s[k]),
    decreases s.len() - from,
{
    if from < s.len() && !p(s[from]) {
        lemma_scan_from(s, from + 1, p);
    }
}

/// Start of the first whitespace-separated token at or after `from`.
pub open spec fn token_start(s: Seq<char>, from: int) -> int {
    scan_from(s, from, |c: char| !is_space(c))
}

/// End of the token beginning at `from`: the next blank, or the length.
pub open spec fn token_end(s: Seq<char>, from: int) -> int {
    scan_from(s, from, |c: char| is_space(c))
}

/// Finds the first token of `s` at or after `from`: its bounds, or `None`
/// when only blanks remain.
pub fn find_token(s: &Vec<char>, from: usize) -> (r: Option<(usize, usize)>)
    requires
        from <= s@.len(),
    ensures
        match r {
            Some(t) => {
                &&& t.0 == token_start(s@, from as int)
                &&& t.1 == token_end(s@, t.0 as int)
                &&& from <= t.0 < t.1 <= s@.len()
            },
            None => token_start(s@, from as int) == s@.len(),
        },
{
    proof {
        lemma_scan_from(s@, from as int, |c: char| !is_space(c));
    }
    let mut i: usize = from;
    while i < s.len() && is_space_exec(s[i])
        invariant
            from <= i <= s@.len(),
            token_start(s@, from as int) == token_start(s@, i as int),
        decreases s@.len() - i,
    {
        i = i + 1;
    }
    if i == s.len() {
        return None;
    }
    proof {
        lemma_scan_from(s@, i as int, |c: char| is_space(c));
    }
    let start = i;
    let mut j: usize = i;
    while j < s.len() && !is_space_exec(s[j])
        invariant
            start <= j <= s@.len(),
            token_end(s@, start as int) == token_end(s@, j as int),
        decreases s@.len() - j,
    {
        j = j + 1;
    }
    Some((start, j))
}

/// Runtime check of `is_space`.
pub fn is_space_exec(c: char) -> (r: bool)
    ensures
        r == is_space(c),
{
    c == ' ' || c == '\t' || c == '\n' || c == '\r'
}

/// The needle matches the haystack at `i`, comparing ASCII letters without
/// regard to case.
pub open spec fn ci_match_at(hay: Seq<char>, needle: Seq<char>, i: int) -> bool {
    &&& 0 <= i
    &&& i + needle.len() <= hay.len()
    &&& forall|k: int|
        0 <= k < needle.len() ==> spec_lower_char(#[trigger] hay[i + k]) == spec_lower_char(
            needle[k],
        )
}

/// First match position of `needle` in `hay` at or after `from`, ASCII
/// case-insensitively.
pub open spec fn find_ci_from(hay: Seq<char>, needle: Seq<char>, from: int) -> Option<int>
    decreases hay.len() - from,
{
    if from < 0 || from + needle.len() > hay.len() {
        None
    } else if ci_match_at(hay, needle, from) {
        Some(from)
    } else {
        find_ci_from(hay, needle, from + 1)
    }
}

/// First match position of `needle` in `hay`, ASCII case-insensitively.
pub open spec fn find_ci_spec(hay: Seq<char>, needle: Seq<char>) -> Option<int> {
    find_ci_from(hay, needle, 0)
}

/// Whether the needle matches at position `i` of the haystack.
#[verifier::loop_isolation(false)]
pub fn ci_match(hay: &Vec<char>, needle: &Vec<char>, i: usize) -> (r: bool)
    requires
        i + needle@.len() <= hay@.len(),
    ensures
        r == ci_match_at(hay@, needle@, i as int),
{
    let n = hay.len();
    let mut k: usize = 0;
    while k < needle.len()
        invariant
            0 <= k <= needle@.len(),
            i + needle@.len() <= hay@.len(),
            forall|m: int|
                0 <= m < k ==> spec_lower_char(#[trigger] hay@[i + m]) == spec_lower_char(
                    needle@[m],
                ),
        decreases needle@.len() - k,
    {
        if lower_char(hay[i + k]) != lower_char(needle[k]) {
            return false;
        }
        k = k + 1;
    }
    true
}

/// A successful search means a match at the reported position.
pub proof fn lemma_find_ci_some(hay: Seq<char>, needle: Seq<char>, from: int)
    ensures
        match find_ci_from(hay, needle, from) {
            Some(i) => from <= i && ci_match_at(hay, needle, i),
            None => true,
        },
    decreases hay.len() - from,
{
    if !(from < 0 || from + needle.len() > hay.len()) && !ci_match_at(hay, needle, from) {
        lemma_find_ci_some(hay, needle, from + 1);
    }
}

/// Finds `needle` in `hay`, ASCII case-insensitively, exactly as
/// `find_ci_spec` describes.
#[verifier::loop_isolation(false)]
pub fn find_ci(hay: &Vec<char>, needle: &Vec<char>) -> (r: Option<usize>)
    ensures
        match r {
            Some(i) => find_ci_spec(hay@, needle@) == Some(i as int),
            None => find_ci_spec(hay@, needle@) is None,
        },
{
    if needle.len() > hay.len() {
        return None;
    }
    let bound = hay.len() - needle.len();
    let mut i: usize = 0;
    while i <= bound
        invariant
            0 <= i <= bound + 1,
            find_ci_spec(hay@, needle@) == find_ci_from(hay@, needle@, i as int),
        decreases bound + 1 - i,
    {
        if ci_match(hay, needle, i) {
            return Some(i);
        }
        i = i + 1;
    }
    None
}

/// Decimal value of a digit sequence, most significant first.
pub open spec fn digits_val(s: Seq<char>) -> int
    decreases s.len(),
{
    if s.len() == 0 {
        0
    } else {
        digits_val(s.drop_last()) * 10 + (s.last() as u32 - 48)
    }
}

/// Every character is an ASCII digit.
pub open spec fn all_digits(s: Seq<char>) -> bool {
    forall|k: int| 0 <= k < s.len() ==> is_ascii_digit(#[trigger] s[k])
}

/// What `str::parse::<i32>` accepts: an optional sign, then one or more
/// digits, valued within the type's range.
pub open spec fn parse_i32_spec(s: Seq<char>) -> Option<i32> {
    if s.len() == 0 {
        None
    } else {
        let digits = if s[0] == '-' || s[0] == '+' {
            s.drop_first()
        } else {
            s
        };
        if digits.len() == 0 || !all_digits(digits) {
            None
        } else {
            let v = if s[0] == '-' {
                -digits_val(digits)
            } else {
                digits_val(digits)
            };
            if -0x8000_0000 <= v <= 0x7fff_ffff {
                Some(v as i32)
            } else {
                None
            }
        }
    }
}

pub proof fn lemma_digits_val_nonneg(s: Seq<char>)
    requires
        all_digits(s),
    ensures
        digits_val(s) >= 0,
    decreases s.len(),
{
    if s.len() > 0 {
        assert(all_digits(s.drop_last())) by {
            assert(forall|k: int|
                0 <= k < s.len() - 1 ==> #[trigger] s.drop_last()[k] == s[k]);
        }
        lemma_digits_val_nonneg(s.drop_last());
    }
}

/// A digit string is worth at least any of its prefixes.
pub proof fn lemma_digits_val_prefix(s: Seq<char>, n: int)
    requires
        0 <= n <= s.len(),
        all_digits(s),
    ensures
        digits_val(s.subrange(0, n)) <= digits_val(s),
    decreases s.len() - n,
{
    if n == s.len() {
        assert(s.subrange(0, n) =~= s);
    } else {
        lemma_digits_val_prefix(s, n + 1);
        let shorter = s.subrange(0, n);
        let longer = s.subrange(0, n + 1);
        assert(longer.drop_last() =~= shorter);
        assert(all_digits(shorter)) by {
            assert(forall|k: int| 0 <= k < n ==> #[trigger] shorter[k] == s[k]);
        }
        lemma_digits_val_nonneg(shorter);
        assert(digits_val(longer) == digits_val(shorter) * 10 + (longer.last() as u32 - 48));
        assert(digits_val(shorter) * 10 >= digits_val(shorter)) by (nonlinear_arith)
            requires
                digits_val(shorter) >= 0,
        ;
    }
}

/// Parses the characters `[from, to)` as `str::parse::<i32>` would.
#[verifier::loop_isolation(false)]
#[verifier::rlimit(60)]
pub fn parse_i32_range(s: &Vec<char>, from: usize, to: usize) -> (r: Option<i32>)
    requires
        from <= to <= s@.len(),
    ensures
        r == parse_i32_spec(s@.subrange(from as int, to as int)),
{
    let ghost sub = s@.subrange(from as int, to as int);
    if from == to {
        return None;
    }
    let first = s[from];
    let negative = first == '-';
    let mut i: usize = from;
    if first == '-' || first == '+' {
        i = i + 1;
    }
    let ghost digits = if sub[0] == '-' || sub[0] == '+' {
        sub.drop_first()
    } else {
        sub
    };
    proof {
        assert(digits =~= s@.subrange(i as int, to as int));
    }
    if i == to {
        return None;
    }
    let ghost dstart: int = if sub[0] == '-' || sub[0] == '+' {
        from + 1
    } else {
        from as int
    };
    let mut acc: u64 = 0;
    while i < to
        invariant
            dstart <= i <= to,
            acc <= 0x8000_0000,
            digits =~= s@.subrange(dstart, to as int),
            all_digits(s@.subrange(dstart, i as int)),
            acc == digits_val(s@.subrange(dstart, i as int)),
        decreases to - i,
    {
        let c = s[i];
        if !('0' <= c && c <= '9') {
            proof {
                assert(digits[i - dstart] == c);
                assert(!all_digits(digits));
            }
            return None;
        }
        proof {
            let done = s@.subrange(dstart, i as int);
            let next = s@.subrange(dstart, i + 1);
            assert(next.drop_last() =~= done);
            assert(next.last() == c);
            assert(all_digits(next)) by {
                assert(forall|k: int| 0 <= k < done.len() ==> #[trigger] next[k] == done[k]);
            }
        }
        acc = acc * 10 + ((c as u32) as u64 - 48);
        if acc > 0x8000_0000 {
            proof {
                let dprefix = s@.subrange(dstart, i + 1);
                if all_digits(digits) {
                    lemma_digits_val_nonneg(digits);
                    assert(dprefix =~= digits.subrange(0, i + 1 - dstart));
                    lemma_digits_val_prefix(digits, i + 1 - dstart);
                    assert(digits_val(digits) >= acc);
                }
            }
            return None;
        }
        i = i + 1;
    }
    proof {
        assert(s@.subrange(dstart, i as int) =~= digits);
    }
    if negative {
        let v: i64 = -(acc as i64);
        Some(v as i32)
    } else {
        if acc > 0x7fff_ffff {
            None
        } else {
            Some(acc as i32)
        }
    }
}

/// What an unsigned integral parse accepts: one or more digits, valued
/// within `u32`.
pub open spec fn parse_u32_spec(s: Seq<char>) -> Option<u32> {
    if s.len() == 0 || !all_digits(s) {
        None
    } else if digits_val(s) <= 0xffff_ffff {
        Some(digits_val(s) as u32)
    } else {
        None
    }
}

/// Parses the characters `[from, to)` as an unsigned integer.
#[verifier::loop_isolation(false)]
#[verifier::rlimit(60)]
pub fn parse_u32_range(s: &Vec<char>, from: usize, to: usize) -> (r: Option<u32>)
    requires
        from <= to <= s@.len(),
    ensures
        r == parse_u32_spec(s@.subrange(from as int, to as int)),
{
    let ghost sub = s@.subrange(from as int, to as int);
    if from == to {
        return None;
    }
    let mut acc: u64 = 0;
    let mut i: usize = from;
    while i < to
        invariant
            from <= i <= to,
            acc <= 0xffff_ffff,
            all_digits(s@.subrange(from as int, i as int)),
            acc == digits_val(s@.subrange(from as int, i as int)),
        decreases to - i,
    {
        let c = s[i];
        if !('0' <= c && c <= '9') {
            proof {
                assert(sub[i - from] == c);
                assert(!all_digits(sub));
            }
            return None;
        }
        proof {
            let done = s@.subrange(from as int, i as int);
            let next = s@.subrange(from as int, i + 1);
            assert(next.drop_last() =~= done);
            assert(next.last() == c);
            assert(all_digits(next)) by {
                assert(forall|k: int| 0 <= k < done.len() ==> #[trigger] next[k] == done[k]);
            }
        }
        acc = acc * 10 + ((c as u32) as u64 - 48);
        if acc > 0xffff_ffff {
            proof {
                if all_digits(sub) {
                    lemma_digits_val_nonneg(sub);
                    assert(s@.subrange(from as int, i + 1) =~= sub.subrange(0, i + 1 - from));
                    lemma_digits_val_prefix(sub, i + 1 - from);
                    assert(digits_val(sub) >= acc);
                }
            }
            return None;
        }
        i = i + 1;
    }
    proof {
        assert(s@.subrange(from as int, i as int) =~= sub);
    }
    Some(acc as u32)
}

/// `s` without leading commas.
pub open spec fn drop_leading_commas(s: Seq<char>) -> Seq<char>
    decreases s.len(),
{
    if s.len() > 0 && s.first() == ',' {
        drop_leading_commas(s.drop_first())
    } else {
        s
    }
}

/// `s` without trailing commas.
pub open spec fn drop_trailing_commas(s: Seq<char>) -> Seq<char>
    decreases s.len(),
{
    if s.len() > 0 && s.last() == ',' {
        drop_trailing_commas(s.drop_last())
    } else {
        s
    }
}

/// `s` with every leading and trailing comma removed, as
/// `str::trim_matches(',')` leaves it.
pub open spec fn strip_commas(s: Seq<char>) -> Seq<char> {
    drop_trailing_commas(drop_leading_commas(s))
}

/// Narrows `[from, to)` to the comma-stripped core of the token.
#[verifier::loop_isolation(false)]
pub fn strip_commas_range(s: &Vec<char>, from: usize, to: usize) -> (r: (usize, usize))
    requires
        from <= to <= s@.len(),
    ensures
        r.0 <= r.1 <= s@.len(),
        s@.subrange(r.0 as int, r.1 as int) == strip_commas(
            s@.subrange(from as int, to as int),
        ),
{
    let mut a = from;
    while a < to && s[a] == ','
        invariant
            from <= a <= to,
            drop_leading_commas(s@.subrange(from as int, to as int)) == drop_leading_commas(
                s@.subrange(a as int, to as int),
            ),
        decreases to - a,
    {
        proof {
            assert(s@.subrange(a as int, to as int).drop_first() =~= s@.subrange(
                a + 1,
                to as int,
            ));
        }
        a = a + 1;
    }
    proof {
        assert(drop_leading_commas(s@.subrange(a as int, to as int)) == s@.subrange(
            a as int,
            to as int,
        ));
    }
    let mut b = to;
    while b > a && s[b - 1] == ','
        invariant
            a <= b <= to,
            drop_trailing_commas(s@.subrange(a as int, to as int)) == drop_trailing_commas(
                s@.subrange(a as int, b as int),
            ),
        decreases b,
    {
        proof {
            assert(s@.subrange(a as int, b as int).drop_last() =~= s@.subrange(
                a as int,
                b - 1,
            ));
        }
        b = b - 1;
    }
    proof {
        assert(drop_trailing_commas(s@.subrange(a as int, b as int)) == s@.subrange(
            a as int,
            b as int,
        ));
    }
    (a, b)
}

} // verus!

verus! {

/// The needle matches the haystack at `i`, character for character.
pub open spec fn match_at(hay: Seq<char>, needle: Seq<char>, i: int) -> bool {
    &&& 0 <= i
    &&& i + needle.len() <= hay.len()
    &&& forall|k: int| 0 <= k < needle.len() ==> #[trigger] hay[i + k] == needle[k]
}

/// First exact match position of `needle` in `hay` at or after `from`.
pub open spec fn find_from(hay: Seq<char>, needle: Seq<char>, from: int) -> Option<int>
    decreases hay.len() - from,
{
    if from < 0 || from + needle.len() > hay.len() {
        None
    } else if match_at(hay, needle, from) {
        Some(from)
    } else {
        find_from(hay, needle, from + 1)
    }
}

/// A successful exact search means a match at the reported position.
pub proof fn lemma_find_from_some(hay: Seq<char>, needle: Seq<char>, from: int)
    ensures
        match find_from(hay, needle, from) {
            Some(i) => from <= i && match_at(hay, needle, i),
            None => true,
        },
    decreases hay.len() - from,
{
    if !(from < 0 || from + needle.len() > hay.len()) && !match_at(hay, needle, from) {
        lemma_find_from_some(hay, needle, from + 1);
    }
}

/// `s` with every occurrence of `pat` replaced by `repl`, scanning left
/// to right without overlap, as `str::replace` does.
pub open spec fn replace_all(s: Seq<char>, pat: Seq<char>, repl: Seq<char>) -> Seq<char>
    decreases s.len(),
{
    if pat.len() == 0 {
        s
    } else {
        match find_from(s, pat, 0) {
            None => s,
            Some(i) => {
                proof {
                    lemma_find_from_some(s, pat, 0);
                }
                s.subrange(0, i) + repl + replace_all(s.skip(i + pat.len()), pat, repl)
            },
        }
    }
}

/// Whether the needle matches at position `i` exactly.
#[verifier::loop_isolation(false)]
fn match_exact(hay: &Vec<char>, needle: &Vec<char>, i: usize) -> (r: bool)
    requires
        i + needle@.len() <= hay@.len(),
    ensures
        r == match_at(hay@, needle@, i as int),
{
    let n = hay.len();
    let mut k: usize = 0;
    while k < needle.len()
        invariant
            0 <= k <= needle@.len(),
            forall|m: int| 0 <= m < k ==> #[trigger] hay@[i + m] == needle@[m],
        decreases needle@.len() - k,
    {
        if hay[i + k] != needle[k] {
            return false;
        }
        k = k + 1;
    }
    true
}

/// Finds the first exact occurrence of `needle` in `hay`.
#[verifier::loop_isolation(false)]
fn find_exact(hay: &Vec<char>, needle: &Vec<char>) -> (r: Option<usize>)
    ensures
        match r {
            Some(i) => find_from(hay@, needle@, 0) == Some(i as int),
            None => find_from(hay@, needle@, 0) is None,
        },
{
    if needle.len() > hay.len() {
        return None;
    }
    let bound = hay.len() - needle.len();
    let mut i: usize = 0;
    while i <= bound
        invariant
            0 <= i <= bound + 1,
            find_from(hay@, needle@, 0) == find_from(hay@, needle@, i as int),
        decreases bound + 1 - i,
    {
        if match_exact(hay, needle, i) {
            return Some(i);
        }
        i = i + 1;
    }
    None
}

/// Appends every character of `src` to `dst`.
#[verifier::loop_isolation(false)]
fn append_chars(dst: &mut Vec<char>, src: &Vec<char>)
    ensures
        final(dst)@ == old(dst)@ + src@,
{
    let mut i: usize = 0;
    proof {
        assert(dst@ =~= old(dst)@ + src@.subrange(0, 0));
    }
    while i < src.len()
        invariant
            0 <= i <= src@.len(),
            dst@ == old(dst)@ + src@.subrange(0, i as int),
        decreases src@.len() - i,
    {
        dst.push(src[i]);
        proof {
            assert(dst@ =~= old(dst)@ + src@.subrange(0, i + 1));
        }
        i = i + 1;
    }
    proof {
        assert(src@.subrange(0, src@.len() as int) =~= src@);
    }
}

/// The characters `[a, b)` of `s` as a fresh vector.
#[verifier::loop_isolation(false)]
pub fn slice_chars(s: &Vec<char>, a: usize, b: usize) -> (r: Vec<char>)
    requires
        a <= b <= s@.len(),
    ensures
        r@ == s@.subrange(a as int, b as int),
{
    let mut out: Vec<char> = Vec::new();
    let mut i = a;
    proof {
        assert(out@ =~= s@.subrange(a as int, a as int));
    }
    while i < b
        invariant
            a <= i <= b,
            out@ == s@.subrange(a as int, i as int),
        decreases b - i,
    {
        out.push(s[i]);
        proof {
            assert(out@ =~= s@.subrange(a as int, i + 1));
        }
        i = i + 1;
    }
    out
}

/// Replaces every occurrence of `pat` in `s` by `repl`, exactly as
/// `replace_all` describes.
pub fn replace_all_chars(s: &Vec<char>, pat: &Vec<char>, repl: &Vec<char>) -> (r: Vec<char>)
    requires
        pat@.len() >= 1,
    ensures
        r@ == replace_all(s@, pat@, repl@),
    decreases s@.len(),
{
    match find_exact(s, pat) {
        None => slice_chars(s, 0, s.len()),
        Some(i) => {
            let n = s.len();
            proof {
                lemma_find_from_some(s@, pat@, 0);
                assert(match_at(s@, pat@, i as int));
                assert(i + pat@.len() <= n);
            }
            let mut out = slice_chars(s, 0, i);
            append_chars(&mut out, repl);
            let rest = slice_chars(s, i + pat.len(), s.len());
            proof {
                assert(rest@ =~= s@.skip(i + pat@.len()));
            }
            let tail = replace_all_chars(&rest, pat, repl);
            append_chars(&mut out, &tail);
            proof {
                assert(out@ =~= s@.subrange(0, i as int) + repl@ + replace_all(
                    s@.skip(i + pat@.len()),
                    pat@,
                    repl@,
                ));
            }
            out
        },
    }
}

/// Relies on `String::push`: appends exactly one character.
#[verifier::external_body]
fn push_char(s: &mut String, c: char)
    ensures
        final(s)@ == old(s)@.push(c),
{
    s.push(c);
}

/// The characters of `v` as a string.
#[verifier::loop_isolation(false)]
pub fn string_of_chars(v: &Vec<char>) -> (r: String)
    ensures
        r@ == v@,
{
    let mut out = String::new();
    let mut i: usize = 0;
    proof {
        assert(out@ =~= v@.subrange(0, 0));
    }
    while i < v.len()
        invariant
            0 <= i <= v@.len(),
            out@ == v@.subrange(0, i as int),
        decreases v@.len() - i,
    {
        push_char(&mut out, v[i]);
        proof {
            assert(out@ =~= v@.subrange(0, i + 1));
        }
        i = i + 1;
    }
    proof {
        assert(v@.subrange(0, v@.len() as int) =~= v@);
    }
    out
}

} // verus!
