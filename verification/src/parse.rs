//! Parsers for the small text formats other tools hand the editor: the
//! free-form coordinate replies of a character detector — lines such as
//! `x: 100, y: 50, width: 32, height: 48`, in several separator styles,
//! possibly spread over several lines, or the word `null` when nothing
//! was detected — and the `num/den` frame-rate fraction of a media probe.
//!
//! Keys are matched without regard to ASCII letter case; numbers parse as
//! decimals.

use vstd::prelude::*;

use crate::sprites::BoundingBox;
use crate::text::ci_match;
use crate::text::ci_match_at;
use crate::text::chars_of;
use crate::text::find_ci;
use crate::text::find_ci_spec;
use crate::text::find_token;
use crate::text::is_space;
use crate::text::lemma_scan_from;
use crate::text::parse_i32_range;
use crate::text::parse_i32_spec;
use crate::text::parse_u32_range;
use crate::text::parse_u32_spec;
use crate::text::scan_from;
use crate::text::strip_commas;
use crate::text::strip_commas_range;
use crate::text::token_end;
use crate::text::token_start;

verus! {

/// The views of a vector of character vectors.
pub open spec fn views_of(vs: Seq<Vec<char>>) -> Seq<Seq<char>> {
    vs.map_values(|v: Vec<char>| v@)
}

/// A line with a trailing carriage return removed.
pub open spec fn strip_cr(l: Seq<char>) -> Seq<char> {
    if l.len() > 0 && l.last() == '\r' {
        l.drop_last()
    } else {
        l
    }
}

/// The lines of `s` from position `from` on: split at each line feed,
/// dropping a carriage return at each line's end, with no empty line
/// after a trailing line feed.
pub open spec fn lines_from(s: Seq<char>, from: int) -> Seq<Seq<char>>
    decreases s.len() - from,
{
    if from < 0 || from >= s.len() {
        Seq::<Seq<char>>::empty()
    } else {
        let p = scan_from(s, from, |c: char| c == '\n');
        proof {
            lemma_scan_from(s, from, |c: char| c == '\n');
        }
        if p >= s.len() {
            seq![strip_cr(s.subrange(from, s.len() as int))]
        } else {
            seq![strip_cr(s.subrange(from, p))] + lines_from(s, p + 1)
        }
    }
}

/// The lines of `s`.
pub open spec fn lines_of(s: Seq<char>) -> Seq<Seq<char>> {
    lines_from(s, 0)
}

/// The whitespace-separated words of `s` from position `from` on.
pub open spec fn words_from(s: Seq<char>, from: int) -> Seq<Seq<char>>
    decreases s.len() - from,
{
    if from < 0 || from >= s.len() {
        Seq::<Seq<char>>::empty()
    } else if is_space(s[from]) {
        words_from(s, from + 1)
    } else {
        let te = token_end(s, from);
        proof {
            lemma_scan_from(s, from, |c: char| is_space(c));
        }
        seq![s.subrange(from, te)] + words_from(s, te)
    }
}

/// The whitespace-separated words of `s`.
pub open spec fn words_of(s: Seq<char>) -> Seq<Seq<char>> {
    words_from(s, 0)
}

/// What `extract_number_after_pattern` returns: the number in the first
/// whitespace-separated token after the first (ASCII case-insensitive)
/// occurrence of the pattern, commas stripped from the token's ends.
pub open spec fn number_after_pattern(line: Seq<char>, pattern: Seq<char>) -> Option<i32> {
    match find_ci_spec(line, pattern) {
        None => None,
        Some(p) => {
            let from = p + pattern.len();
            let ts = token_start(line, from);
            if ts >= line.len() {
                None
            } else {
                parse_i32_spec(strip_commas(line.subrange(ts, token_end(line, ts))))
            }
        },
    }
}

/// What `extract_number_after_colon` returns: the number in the first
/// whitespace-separated token after the first colon.
pub open spec fn number_after_colon(line: Seq<char>) -> Option<i32> {
    let p = scan_from(line, 0, |c: char| c == ':');
    if p >= line.len() {
        None
    } else {
        let ts = token_start(line, p + 1);
        if ts >= line.len() {
            None
        } else {
            parse_i32_spec(line.subrange(ts, token_end(line, ts)))
        }
    }
}

/// One detection line updates a coordinate: the first separator style
/// that yields a number wins, otherwise the value so far is kept.
pub open spec fn pick_from_line(
    line: Seq<char>,
    k_colon: Seq<char>,
    k_eq: Seq<char>,
    k_sp: Seq<char>,
    cur: Option<i32>,
) -> Option<i32> {
    match number_after_pattern(line, k_colon) {
        Some(v) => Some(v),
        None => match number_after_pattern(line, k_eq) {
            Some(v) => Some(v),
            None => match number_after_pattern(line, k_sp) {
                Some(v) => Some(v),
                None => cur,
            },
        },
    }
}

/// The coordinate value after the first `n` lines; later lines override
/// earlier ones.
pub open spec fn pick_from_lines(
    lines: Seq<Seq<char>>,
    n: int,
    k_colon: Seq<char>,
    k_eq: Seq<char>,
    k_sp: Seq<char>,
) -> Option<i32>
    decreases n,
{
    if n <= 0 {
        None
    } else {
        pick_from_line(
            lines[n - 1],
            k_colon,
            k_eq,
            k_sp,
            pick_from_lines(lines, n - 1, k_colon, k_eq, k_sp),
        )
    }
}

/// The coordinate value after scanning the first `n` words: a word that
/// begins with the key (ASCII case-insensitively) takes its number from
/// the following word, commas stripped; anything else keeps the value.
pub open spec fn pick_from_words(
    words: Seq<Seq<char>>,
    n: int,
    key: Seq<char>,
    init: Option<i32>,
) -> Option<i32>
    decreases n,
{
    if n <= 0 {
        init
    } else {
        let prev = pick_from_words(words, n - 1, key, init);
        if n < words.len() && ci_match_at(words[n - 1], key, 0) {
            match parse_i32_spec(strip_commas(words[n])) {
                Some(v) => Some(v),
                None => prev,
            }
        } else {
            prev
        }
    }
}

/// What `parse_bounding_box` returns: `None` on a reply containing
/// `null`; otherwise the coordinates collected line by line in the three
/// separator styles, completed by a word-pair scan when any of the four
/// is still missing, and accepted only when the box has positive size and
/// a non-negative corner.
pub open spec fn parse_bounding_box_spec(content: Seq<char>) -> Option<BoundingBox> {
    if find_ci_spec(content, seq!['n', 'u', 'l', 'l']) is Some {
        None
    } else {
        let lines = lines_of(content);
        let nl = lines.len() as int;
        let x0 = pick_from_lines(lines, nl, seq!['x', ':'], seq!['x', '='], seq!['x', ' ']);
        let y0 = pick_from_lines(lines, nl, seq!['y', ':'], seq!['y', '='], seq!['y', ' ']);
        let w0 = pick_from_lines(
            lines,
            nl,
            seq!['w', 'i', 'd', 't', 'h', ':'],
            seq!['w', 'i', 'd', 't', 'h', '='],
            seq!['w', 'i', 'd', 't', 'h', ' '],
        );
        let h0 = pick_from_lines(
            lines,
            nl,
            seq!['h', 'e', 'i', 'g', 'h', 't', ':'],
            seq!['h', 'e', 'i', 'g', 'h', 't', '='],
            seq!['h', 'e', 'i', 'g', 'h', 't', ' '],
        );
        let need = x0 is None || y0 is None || w0 is None || h0 is None;
        let words = words_of(content);
        let nw = words.len() as int;
        let x = if need {
            pick_from_words(words, nw, seq!['x'], x0)
        } else {
            x0
        };
        let y = if need {
            pick_from_words(words, nw, seq!['y'], y0)
        } else {
            y0
        };
        let w = if need {
            pick_from_words(words, nw, seq!['w', 'i', 'd', 't', 'h'], w0)
        } else {
            w0
        };
        let h = if need {
            pick_from_words(words, nw, seq!['h', 'e', 'i', 'g', 'h', 't'], h0)
        } else {
            h0
        };
        if x is Some && y is Some && w is Some && h is Some {
            if w->Some_0 > 0 && h->Some_0 > 0 && x->Some_0 >= 0 && y->Some_0 >= 0 {
                Some(
                    BoundingBox {
                        x: x->Some_0,
                        y: y->Some_0,
                        width: w->Some_0,
                        height: h->Some_0,
                    },
                )
            } else {
                None
            }
        } else {
            None
        }
    }
}

/// Extracts the number following `pattern` in `line`, as
/// `number_after_pattern` describes. The pattern is matched without
/// regard to ASCII letter case.
pub fn extract_number_after_pattern(line: &str, pattern: &str) -> (r: Option<i32>)
    ensures
        r == number_after_pattern(line@, pattern@),
{
    let cs = chars_of(line);
    let ps = chars_of(pattern);
    number_after_pattern_vec(&cs, &ps)
}

/// `extract_number_after_pattern` on character vectors.
fn number_after_pattern_vec(cs: &Vec<char>, ps: &Vec<char>) -> (r: Option<i32>)
    ensures
        r == number_after_pattern(cs@, ps@),
{
    let p = match find_ci(cs, ps) {
        None => {
            return None;
        },
        Some(p) => p,
    };
    let hay_len = cs.len();
    proof {
        crate::text::lemma_find_ci_some(cs@, ps@, 0);
        assert(ci_match_at(cs@, ps@, p as int));
        assert(p + ps@.len() <= hay_len);
    }
    let from = p + ps.len();
    let t = match find_token(cs, from) {
        None => {
            return None;
        },
        Some(t) => t,
    };
    let stripped = strip_commas_range(cs, t.0, t.1);
    parse_i32_range(cs, stripped.0, stripped.1)
}

/// Extracts the number following the first colon in `line`, as
/// `number_after_colon` describes.
pub fn extract_number_after_colon(line: &str) -> (r: Option<i32>)
    ensures
        r == number_after_colon(line@),
{
    let cs = chars_of(line);
    proof {
        lemma_scan_from(cs@, 0, |c: char| c == ':');
    }
    let mut p: usize = 0;
    while p < cs.len() && cs[p] != ':'
        invariant
            0 <= p <= cs@.len(),
            cs@ == line@,
            scan_from(cs@, 0, |c: char| c == ':') == scan_from(cs@, p as int, |c: char| c == ':'),
        decreases cs@.len() - p,
    {
        p = p + 1;
    }
    if p == cs.len() {
        return None;
    }
    let t = match find_token(&cs, p + 1) {
        None => {
            return None;
        },
        Some(t) => t,
    };
    parse_i32_range(&cs, t.0, t.1)
}

/// The frame-rate fraction a probe reports, split at its first slash:
/// an integral numerator, zero when unparseable, over an integral
/// denominator, one when unparseable; text without a slash is no
/// fraction and yields zero over one.
pub open spec fn frame_rate_spec(s: Seq<char>) -> (u32, u32) {
    let p = scan_from(s, 0, |c: char| c == '/');
    if p >= s.len() {
        (0u32, 1u32)
    } else {
        let num = match parse_u32_spec(s.subrange(0, p)) {
            Some(n) => n,
            None => 0u32,
        };
        let den = match parse_u32_spec(s.subrange(p + 1, s.len() as int)) {
            Some(d) => d,
            None => 1u32,
        };
        (num, den)
    }
}

/// Splits a probe's frame-rate text into its numerator and denominator,
/// exactly as `frame_rate_spec` describes.
pub fn parse_frame_rate(text: &str) -> (r: (u32, u32))
    ensures
        r == frame_rate_spec(text@),
{
    let cs = chars_of(text);
    proof {
        lemma_scan_from(cs@, 0, |c: char| c == '/');
    }
    let mut p: usize = 0;
    while p < cs.len() && cs[p] != '/'
        invariant
            0 <= p <= cs@.len(),
            cs@ == text@,
            scan_from(cs@, 0, |c: char| c == '/') == scan_from(cs@, p as int, |c: char| c == '/'),
        decreases cs@.len() - p,
    {
        p = p + 1;
    }
    if p == cs.len() {
        return (0, 1);
    }
    let num = match parse_u32_range(&cs, 0, p) {
        Some(n) => n,
        None => 0,
    };
    let den = match parse_u32_range(&cs, p + 1, cs.len()) {
        Some(d) => d,
        None => 1,
    };
    (num, den)
}

/// The characters `[a, b)` of `s` as a fresh vector.
#[verifier::loop_isolation(false)]
fn copy_range(s: &Vec<char>, a: usize, b: usize) -> (r: Vec<char>)
    requires
        a <= b <= s@.len(),
    ensures
        r@ == s@.subrange(a as int, b as int),
{
    let mut out: Vec<char> = Vec::new();
    let mut i = a;
    proof {
        assert(out@ =~= s@.subrange(a as int, a as int));
    }
    while i < b
        invariant
            a <= i <= b,
            out@ == s@.subrange(a as int, i as int),
        decreases b - i,
    {
        out.push(s[i]);
        proof {
            assert(out@ =~= s@.subrange(a as int, i + 1));
        }
        i = i + 1;
    }
    out
}

/// Splits `s` into lines, exactly as `lines_of` describes.
#[verifier::loop_isolation(false)]
fn split_lines(s: &Vec<char>) -> (r: Vec<Vec<char>>)
    ensures
        views_of(r@) == lines_of(s@),
{
    let mut out: Vec<Vec<char>> = Vec::new();
    let mut pos: usize = 0;
    proof {
        assert(views_of(out@) + lines_of(s@) =~= lines_of(s@));
    }
    while pos < s.len()
        invariant
            0 <= pos <= s@.len(),
            views_of(out@) + lines_from(s@, pos as int) == lines_of(s@),
        decreases s@.len() - pos,
    {
        proof {
            lemma_scan_from(s@, pos as int, |c: char| c == '\n');
        }
        let mut p = pos;
        while p < s.len() && s[p] != '\n'
            invariant
                pos <= p <= s@.len(),
                scan_from(s@, pos as int, |c: char| c == '\n') == scan_from(
                    s@,
                    p as int,
                    |c: char| c == '\n',
                ),
            decreases s@.len() - p,
        {
            p = p + 1;
        }
        let ghost old_views = views_of(out@);
        if p < s.len() {
            let end = if p > pos && s[p - 1] == '\r' {
                p - 1
            } else {
                p
            };
            let line = copy_range(s, pos, end);
            out.push(line);
            proof {
                assert(strip_cr(s@.subrange(pos as int, p as int)) =~= s@.subrange(
                    pos as int,
                    end as int,
                ));
                assert(views_of(out@) =~= old_views + seq![line@]);
                assert(lines_from(s@, pos as int) == seq![
                    strip_cr(s@.subrange(pos as int, p as int)),
                ] + lines_from(s@, p + 1));
                assert(old_views + (seq![line@] + lines_from(s@, p + 1)) =~= (old_views + seq![
                    line@,
                ]) + lines_from(s@, p + 1));
            }
            pos = p + 1;
        } else {
            let end = if p > pos && s[p - 1] == '\r' {
                p - 1
            } else {
                p
            };
            let line = copy_range(s, pos, end);
            out.push(line);
            proof {
                assert(strip_cr(s@.subrange(pos as int, s@.len() as int)) =~= s@.subrange(
                    pos as int,
                    end as int,
                ));
                assert(views_of(out@) =~= old_views + seq![line@]);
                assert(lines_from(s@, pos as int) == seq![
                    strip_cr(s@.subrange(pos as int, s@.len() as int)),
                ]);
                assert(views_of(out@) + lines_from(s@, p as int) =~= lines_of(s@));
            }
            pos = p;
        }
    }
    proof {
        assert(views_of(out@) + lines_from(s@, pos as int) =~= views_of(out@));
    }
    out
}

/// Splits `s` into whitespace-separated words, exactly as `words_of`
/// describes.
#[verifier::loop_isolation(false)]
fn split_words(s: &Vec<char>) -> (r: Vec<Vec<char>>)
    ensures
        views_of(r@) == words_of(s@),
{
    let mut out: Vec<Vec<char>> = Vec::new();
    let mut pos: usize = 0;
    proof {
        assert(views_of(out@) + words_of(s@) =~= words_of(s@));
    }
    while pos < s.len()
        invariant
            0 <= pos <= s@.len(),
            views_of(out@) + words_from(s@, pos as int) == words_of(s@),
        decreases s@.len() - pos,
    {
        if crate::text::is_space_exec(s[pos]) {
            pos = pos + 1;
        } else {
            proof {
                lemma_scan_from(s@, pos as int, |c: char| is_space(c));
            }
            let mut j = pos;
            while j < s.len() && !crate::text::is_space_exec(s[j])
                invariant
                    pos <= j <= s@.len(),
                    token_end(s@, pos as int) == token_end(s@, j as int),
                decreases s@.len() - j,
            {
                j = j + 1;
            }
            let word = copy_range(s, pos, j);
            let ghost old_views = views_of(out@);
            out.push(word);
            proof {
                assert(views_of(out@) =~= old_views + seq![word@]);
                assert(words_from(s@, pos as int) == seq![
                    s@.subrange(pos as int, j as int),
                ] + words_from(s@, j as int));
                assert(old_views + (seq![word@] + words_from(s@, j as int)) =~= (old_views
                    + seq![word@]) + words_from(s@, j as int));
            }
            pos = j;
        }
    }
    proof {
        assert(views_of(out@) + words_from(s@, pos as int) =~= views_of(out@));
    }
    out
}

/// Folds one coordinate key over all lines, exactly as `pick_from_lines`
/// describes.
#[verifier::loop_isolation(false)]
fn pick_from_lines_exec(
    lines: &Vec<Vec<char>>,
    k_colon: &Vec<char>,
    k_eq: &Vec<char>,
    k_sp: &Vec<char>,
) -> (r: Option<i32>)
    ensures
        r == pick_from_lines(views_of(lines@), lines@.len() as int, k_colon@, k_eq@, k_sp@),
{
    let mut cur: Option<i32> = None;
    let mut i: usize = 0;
    while i < lines.len()
        invariant
            0 <= i <= lines@.len(),
            cur == pick_from_lines(views_of(lines@), i as int, k_colon@, k_eq@, k_sp@),
        decreases lines@.len() - i,
    {
        proof {
            assert(views_of(lines@)[i as int] == lines@[i as int]@);
        }
        cur = match number_after_pattern_vec(&lines[i], k_colon) {
            Some(v) => Some(v),
            None => match number_after_pattern_vec(&lines[i], k_eq) {
                Some(v) => Some(v),
                None => match number_after_pattern_vec(&lines[i], k_sp) {
                    Some(v) => Some(v),
                    None => cur,
                },
            },
        };
        i = i + 1;
    }
    cur
}

/// Scans word pairs for one coordinate key, exactly as `pick_from_words`
/// describes.
#[verifier::loop_isolation(false)]
fn pick_from_words_exec(words: &Vec<Vec<char>>, key: &Vec<char>, init: Option<i32>) -> (r:
    Option<i32>)
    ensures
        r == pick_from_words(views_of(words@), words@.len() as int, key@, init),
{
    let mut cur: Option<i32> = init;
    let mut i: usize = 0;
    while i < words.len()
        invariant
            0 <= i <= words@.len(),
            cur == pick_from_words(views_of(words@), i as int, key@, init),
        decreases words@.len() - i,
    {
        proof {
            assert(views_of(words@)[i as int] == words@[i as int]@);
        }
        if i + 1 < words.len() && key.len() <= words[i].len() && ci_match(&words[i], key, 0) {
            proof {
                assert(views_of(words@)[i + 1] == words@[i + 1]@);
            }
            let next = &words[i + 1];
            let stripped = strip_commas_range(next, 0, next.len());
            proof {
                assert(words@[i + 1]@.subrange(0, words@[i + 1]@.len() as int) =~= words@[i
                    + 1]@);
            }
            cur = match parse_i32_range(next, stripped.0, stripped.1) {
                Some(v) => Some(v),
                None => cur,
            };
        } else {
            proof {
                if i + 1 < words@.len() {
                    assert(!ci_match_at(words@[i as int]@, key@, 0));
                }
            }
        }
        i = i + 1;
    }
    cur
}

/// Builds the three separator variants of a coordinate key.
fn key_variants(base: &Vec<char>) -> (r: (Vec<char>, Vec<char>, Vec<char>))
    ensures
        r.0@ == base@.push(':'),
        r.1@ == base@.push('='),
        r.2@ == base@.push(' '),
{
    let mut k_colon = copy_range(base, 0, base.len());
    let mut k_eq = copy_range(base, 0, base.len());
    let mut k_sp = copy_range(base, 0, base.len());
    proof {
        assert(base@.subrange(0, base@.len() as int) =~= base@);
    }
    k_colon.push(':');
    k_eq.push('=');
    k_sp.push(' ');
    (k_colon, k_eq, k_sp)
}

/// Collects one coordinate over all lines, given its key characters.
fn coordinate_from_lines(lines: &Vec<Vec<char>>, base: &Vec<char>) -> (r: Option<i32>)
    ensures
        r == pick_from_lines(
            views_of(lines@),
            lines@.len() as int,
            base@.push(':'),
            base@.push('='),
            base@.push(' '),
        ),
{
    let keys = key_variants(base);
    pick_from_lines_exec(lines, &keys.0, &keys.1, &keys.2)
}

/// Parses a bounding box out of a character-detection reply, exactly as
/// `parse_bounding_box_spec` describes: coordinates may come as
/// `x: 100`, `x=100` or `x 100`, on one line or several, or as adjacent
/// words; a reply containing `null` means no detection.
#[verifier::loop_isolation(false)]
#[verifier::rlimit(60)]
pub fn parse_bounding_box(content: &str) -> (r: Option<BoundingBox>)
    ensures
        r == parse_bounding_box_spec(content@),
{
    let cs = chars_of(content);
    let mut null_key: Vec<char> = Vec::new();
    null_key.push('n');
    null_key.push('u');
    null_key.push('l');
    null_key.push('l');
    proof {
        assert(null_key@ =~= seq!['n', 'u', 'l', 'l']);
    }
    if let Some(_) = find_ci(&cs, &null_key) {
        return None;
    }

    let mut kx: Vec<char> = Vec::new();
    kx.push('x');
    let mut ky: Vec<char> = Vec::new();
    ky.push('y');
    let mut kw: Vec<char> = Vec::new();
    kw.push('w');
    kw.push('i');
    kw.push('d');
    kw.push('t');
    kw.push('h');
    let mut kh: Vec<char> = Vec::new();
    kh.push('h');
    kh.push('e');
    kh.push('i');
    kh.push('g');
    kh.push('h');
    kh.push('t');
    proof {
        assert(kx@ =~= seq!['x']);
        assert(ky@ =~= seq!['y']);
        assert(kw@ =~= seq!['w', 'i', 'd', 't', 'h']);
        assert(kh@ =~= seq!['h', 'e', 'i', 'g', 'h', 't']);
        assert(kx@.push(':') =~= seq!['x', ':']);
        assert(kx@.push('=') =~= seq!['x', '=']);
        assert(kx@.push(' ') =~= seq!['x', ' ']);
        assert(ky@.push(':') =~= seq!['y', ':']);
        assert(ky@.push('=') =~= seq!['y', '=']);
        assert(ky@.push(' ') =~= seq!['y', ' ']);
        assert(kw@.push(':') =~= seq!['w', 'i', 'd', 't', 'h', ':']);
        assert(kw@.push('=') =~= seq!['w', 'i', 'd', 't', 'h', '=']);
        assert(kw@.push(' ') =~= seq!['w', 'i', 'd', 't', 'h', ' ']);
        assert(kh@.push(':') =~= seq!['h', 'e', 'i', 'g', 'h', 't', ':']);
        assert(kh@.push('=') =~= seq!['h', 'e', 'i', 'g', 'h', 't', '=']);
        assert(kh@.push(' ') =~= seq!['h', 'e', 'i', 'g', 'h', 't', ' ']);
    }

    let lines = split_lines(&cs);
    let x0 = coordinate_from_lines(&lines, &kx);
    let y0 = coordinate_from_lines(&lines, &ky);
    let w0 = coordinate_from_lines(&lines, &kw);
    let h0 = coordinate_from_lines(&lines, &kh);

    let need = x0.is_none() || y0.is_none() || w0.is_none() || h0.is_none();
    let (x, y, w, h) = if need {
        let words = split_words(&cs);
        (
            pick_from_words_exec(&words, &kx, x0),
            pick_from_words_exec(&words, &ky, y0),
            pick_from_words_exec(&words, &kw, w0),
            pick_from_words_exec(&words, &kh, h0),
        )
    } else {
        (x0, y0, w0, h0)
    };

    if let (Some(xv), Some(yv), Some(wv), Some(hv)) = (x, y, w, h) {
        if wv > 0 && hv > 0 && xv >= 0 && yv >= 0 {
            Some(BoundingBox { x: xv, y: yv, width: wv, height: hv })
        } else {
            None
        }
    } else {
        None
    }
}

} // verus!
