//! Character-level text helpers: white space, trimming, searching, line
//! splitting and decimal numbers.
use vstd::prelude::*;
use vstd::string::*;

verus! {

/// Characters with the Unicode `White_Space` property.
pub open spec fn is_white(c: char) -> bool {
    ||| c == '\t'
    ||| c == '\n'
    ||| c == '\u{B}'
    ||| c == '\u{C}'
    ||| c == '\r'
    ||| c == ' '
    ||| c == '\u{85}'
    ||| c == '\u{A0}'
    ||| c == '\u{1680}'
    ||| ('\u{2000}' <= c && c <= '\u{200A}')
    ||| c == '\u{2028}'
    ||| c == '\u{2029}'
    ||| c == '\u{202F}'
    ||| c == '\u{205F}'
    ||| c == '\u{3000}'
}

pub fn char_is_white(c: char) -> (r: bool)
    ensures
        r == is_white(c),
{
    c == '\t' || c == '\n' || c == '\u{B}' || c == '\u{C}' || c == '\r' || c == ' ' || c
        == '\u{85}' || c == '\u{A0}' || c == '\u{1680}' || ('\u{2000}' <= c && c <= '\u{200A}')
        || c == '\u{2028}' || c == '\u{2029}' || c == '\u{202F}' || c == '\u{205F}' || c
        == '\u{3000}'
}

/// Classes of characters that are stripped from the ends of a text.
#[derive(Debug, Clone, Copy, PartialEq, Eq, Structural)]
pub enum Strip {
    White,
    Open,
    Close,
}

pub open spec fn in_class(c: char, k: Strip) -> bool {
    match k {
        Strip::White => is_white(c),
        Strip::Open => c == '[',
        Strip::Close => c == ']',
    }
}

fn char_in_class(c: char, k: Strip) -> (r: bool)
    ensures
        r == in_class(c, k),
{
    match k {
        Strip::White => char_is_white(c),
        Strip::Open => c == '[',
        Strip::Close => c == ']',
    }
}

/// `i` is where the leading run of class `k` in `s` ends.
pub open spec fn is_lead_end(s: Seq<char>, k: Strip, i: int) -> bool {
    &&& 0 <= i <= s.len()
    &&& forall|j: int| 0 <= j < i ==> in_class(#[trigger] s[j], k)
    &&& (i == s.len() || !in_class(s[i], k))
}

/// `e` is where the trailing run of class `k` in `s`, not reaching below `lo`, starts.
pub open spec fn is_trail_start(s: Seq<char>, lo: int, k: Strip, e: int) -> bool {
    &&& lo <= e <= s.len()
    &&& forall|j: int| e <= j < s.len() ==> in_class(#[trigger] s[j], k)
    &&& (e == lo || !in_class(s[e - 1], k))
}

pub open spec fn lead_end(s: Seq<char>, k: Strip) -> int {
    choose|i: int| is_lead_end(s, k, i)
}

pub open spec fn trail_start(s: Seq<char>, lo: int, k: Strip) -> int {
    choose|e: int| is_trail_start(s, lo, k, e)
}

/// `s` without its leading characters of class `k`.
pub open spec fn strip_start(s: Seq<char>, k: Strip) -> Seq<char> {
    s.subrange(lead_end(s, k), s.len() as int)
}

/// `s` without its trailing characters of class `k`.
pub open spec fn strip_end(s: Seq<char>, k: Strip) -> Seq<char> {
    s.subrange(0, trail_start(s, 0, k))
}

/// `s` without leading and trailing white space.
pub open spec fn spec_trim(s: Seq<char>) -> Seq<char> {
    strip_end(strip_start(s, Strip::White), Strip::White)
}

proof fn lemma_lead_end_unique(s: Seq<char>, k: Strip, i: int)
    requires
        is_lead_end(s, k, i),
    ensures
        lead_end(s, k) == i,
{
    let c = lead_end(s, k);
    assert(is_lead_end(s, k, c));
    if c < i {
        assert(in_class(s[c], k));
    }
    if i < c {
        assert(in_class(s[i], k));
    }
}

proof fn lemma_trail_start_unique(s: Seq<char>, lo: int, k: Strip, e: int)
    requires
        is_trail_start(s, lo, k, e),
    ensures
        trail_start(s, lo, k) == e,
{
    let c = trail_start(s, lo, k);
    assert(is_trail_start(s, lo, k, c));
    if c < e {
        assert(in_class(s[e - 1], k));
    }
    if e < c {
        assert(in_class(s[c - 1], k));
    }
}

/// Length of the leading run of characters of class `k`.
fn lead_len(s: &str, k: Strip) -> (r: usize)
    ensures
        r == lead_end(s@, k),
        r <= s@.len(),
{
    let n = s.unicode_len();
    let mut i: usize = 0;
    while i < n && char_in_class(s.get_char(i), k)
        invariant
            n == s@.len(),
            0 <= i <= n,
            forall|j: int| 0 <= j < i ==> in_class(#[trigger] s@[j], k),
        decreases n - i,
    {
        i = i + 1;
    }
    proof {
        lemma_lead_end_unique(s@, k, i as int);
    }
    i
}

/// Start of the trailing run of characters of class `k` that begins at `lo` or later.
fn trail_pos(s: &str, lo: usize, k: Strip) -> (r: usize)
    requires
        lo <= s@.len(),
    ensures
        r == trail_start(s@, lo as int, k),
        lo <= r <= s@.len(),
{
    let n = s.unicode_len();
    let mut e: usize = n;
    while e > lo && char_in_class(s.get_char(e - 1), k)
        invariant
            n == s@.len(),
            lo <= e <= n,
            forall|j: int| e <= j < n ==> in_class(#[trigger] s@[j], k),
        decreases e,
    {
        e = e - 1;
    }
    proof {
        lemma_trail_start_unique(s@, lo as int, k, e as int);
    }
    e
}

/// `s` without leading and trailing white space.
pub fn trim(s: &str) -> (r: &str)
    ensures
        r@ == spec_trim(s@),
{
    let a = lead_len(s, Strip::White);
    let t = s.substring_char(a, s.unicode_len());
    let b = trail_pos(t, 0, Strip::White);
    t.substring_char(0, b)
}

/// `s` without the leading `[` characters and then without the trailing `]` characters.
pub fn strip_brackets(s: &str) -> (r: &str)
    ensures
        r@ == strip_end(strip_start(s@, Strip::Open), Strip::Close),
{
    let a = lead_len(s, Strip::Open);
    let t = s.substring_char(a, s.unicode_len());
    let b = trail_pos(t, 0, Strip::Close);
    t.substring_char(0, b)
}

/// `i` is the first position of `c` in `s`.
pub open spec fn is_first(s: Seq<char>, c: char, i: int) -> bool {
    &&& 0 <= i < s.len()
    &&& s[i] == c
    &&& forall|j: int| 0 <= j < i ==> #[trigger] s[j] != c
}

/// Position of the first `c` in `s`, if any.
pub open spec fn spec_find(s: Seq<char>, c: char) -> Option<int> {
    if exists|i: int| is_first(s, c, i) {
        Some(choose|i: int| is_first(s, c, i))
    } else {
        None
    }
}

pub fn find_char(s: &str, c: char) -> (r: Option<usize>)
    ensures
        r matches Some(i) ==> spec_find(s@, c) == Some(i as int) && is_first(s@, c, i as int),
        r is None ==> spec_find(s@, c) is None,
        r is None <==> (forall|j: int| 0 <= j < s@.len() ==> s@[j] != c),
{
    let n = s.unicode_len();
    let mut i: usize = 0;
    while i < n
        invariant
            n == s@.len(),
            0 <= i <= n,
            forall|j: int| 0 <= j < i ==> #[trigger] s@[j] != c,
        decreases n - i,
    {
        if s.get_char(i) == c {
            proof {
                assert(is_first(s@, c, i as int));
                let w = choose|w: int| is_first(s@, c, w);
                if w < i {
                    assert(s@[w] != c);
                }
                if i < w {
                    assert(s@[i as int] != c);
                }
            }
            return Some(i);
        }
        i = i + 1;
    }
    proof {
        if exists|w: int| is_first(s@, c, w) {
            let w = choose|w: int| is_first(s@, c, w);
            assert(s@[w] != c);
        }
    }
    None
}

/// Pieces of `s` between line feeds (always at least one piece).
pub open spec fn split_nl(s: Seq<char>) -> Seq<Seq<char>>
    decreases s.len(),
{
    if s.len() == 0 {
        seq![Seq::empty()]
    } else {
        let p = split_nl(s.drop_last());
        if s.last() == '\n' {
            p.push(Seq::empty())
        } else {
            p.update(p.len() - 1, p.last().push(s.last()))
        }
    }
}

pub open spec fn strip_cr(l: Seq<char>) -> Seq<char> {
    if l.len() > 0 && l.last() == '\r' {
        l.drop_last()
    } else {
        l
    }
}

/// Lines of `s`: split at `\n` or `\r\n`; a final line ending adds no empty line.
pub open spec fn spec_lines(s: Seq<char>) -> Seq<Seq<char>> {
    let p = split_nl(s);
    let ended = p.drop_last().map_values(|l: Seq<char>| strip_cr(l));
    if p.last().len() == 0 {
        ended
    } else {
        ended.push(p.last())
    }
}

proof fn lemma_split_nl_len(s: Seq<char>)
    ensures
        split_nl(s).len() >= 1,
    decreases s.len(),
{
    if s.len() > 0 {
        lemma_split_nl_len(s.drop_last());
    }
}

pub open spec fn views(v: Seq<String>) -> Seq<Seq<char>> {
    v.map_values(|x: String| x@)
}

/// The lines of a text, as `str::lines` yields them.
pub fn text_lines(s: &str) -> (r: Vec<String>)
    ensures
        views(r@) == spec_lines(s@),
{
    let n = s.unicode_len();
    let mut out: Vec<String> = Vec::new();
    let ghost mut raw: Seq<Seq<char>> = Seq::empty();
    let mut start: usize = 0;
    let mut i: usize = 0;
    proof {
        assert(s@.take(0) =~= Seq::<char>::empty());
        assert(s@.subrange(0, 0) =~= Seq::<char>::empty());
        assert(views(out@) =~= raw.map_values(|l: Seq<char>| strip_cr(l)));
    }
    while i < n
        invariant
            n == s@.len(),
            0 <= start <= i <= n,
            split_nl(s@.take(i as int)) == raw.push(s@.subrange(start as int, i as int)),
            views(out@) == raw.map_values(|l: Seq<char>| strip_cr(l)),
        decreases n - i,
    {
        let c = s.get_char(i);
        proof {
            assert(s@.take(i + 1).drop_last() =~= s@.take(i as int));
            lemma_split_nl_len(s@.take(i as int));
        }
        if c == '\n' {
            let piece = s.substring_char(start, i);
            let cut = if i > start && s.get_char(i - 1) == '\r' {
                i - 1
            } else {
                i
            };
            let line = s.substring_char(start, cut);
            proof {
                assert(line@ =~= strip_cr(piece@));
                assert(split_nl(s@.take(i + 1)) =~= raw.push(piece@).push(Seq::empty()));
                assert(s@.subrange((i + 1) as int, (i + 1) as int) =~= Seq::<char>::empty());
            }
            let ghost prev = out@;
            out.push(String::from_str(line));
            proof {
                assert(views(out@) =~= views(prev).push(line@));
                assert(views(out@) =~= raw.push(piece@).map_values(|l: Seq<char>| strip_cr(l)));
                raw = raw.push(piece@);
            }
            start = i + 1;
        } else {
            proof {
                assert(s@.subrange(start as int, (i + 1) as int) =~= s@.subrange(
                    start as int,
                    i as int,
                ).push(c));
                assert(split_nl(s@.take(i + 1)) =~= raw.push(
                    s@.subrange(start as int, (i + 1) as int),
                ));
            }
        }
        i = i + 1;
    }
    proof {
        assert(s@.take(n as int) =~= s@);
        let p = split_nl(s@);
        assert(p.drop_last() =~= raw);
    }
    if start < n {
        let last = s.substring_char(start, n);
        let ghost prev = out@;
        out.push(String::from_str(last));
        proof {
            assert(views(out@) =~= views(prev).push(last@));
            assert(views(out@) =~= raw.map_values(|l: Seq<char>| strip_cr(l)).push(last@));
        }
    }
    out
}

/// Decimal value of a string of ASCII digits.
pub open spec fn digits_value(s: Seq<char>) -> int
    decreases s.len(),
{
    if s.len() == 0 {
        0
    } else {
        10 * digits_value(s.drop_last()) + (s.last() as int - '0' as int)
    }
}

pub open spec fn all_digits(s: Seq<char>) -> bool {
    forall|j: int| 0 <= j < s.len() ==> '0' <= #[trigger] s[j] && s[j] <= '9'
}

/// Reads a non-negative `i32` written in ASCII digits, as `str::parse::<i32>`
/// does for a text without a sign.
pub fn parse_digits(s: &str) -> (r: Option<i32>)
    ensures
        r is Some <==> (s@.len() > 0 && all_digits(s@) && digits_value(s@) <= i32::MAX),
        r matches Some(v) ==> v == digits_value(s@),
{
    let n = s.unicode_len();
    if n == 0 {
        return None;
    }
    let mut value: i32 = 0;
    let mut i: usize = 0;
    while i < n
        invariant
            n == s@.len(),
            0 <= i <= n,
            all_digits(s@.take(i as int)),
            value == digits_value(s@.take(i as int)),
            0 <= value,
        decreases n - i,
    {
        let c = s.get_char(i);
        proof {
            assert(s@.take(i + 1).drop_last() =~= s@.take(i as int));
        }
        if !('0' <= c && c <= '9') {
            proof {
                assert(!('0' <= s@[i as int] && s@[i as int] <= '9'));
            }
            return None;
        }
        let d = (c as u32 - '0' as u32) as i32;
        if value > (i32::MAX - d) / 10 {
            proof {
                assert(s@.take(i as int) =~= s@.take((i + 1) as int).drop_last());
                lemma_digits_grow(s@, (i + 1) as int);
                assert(digits_value(s@.take((i + 1) as int)) > i32::MAX);
                assert(s@.take(n as int) =~= s@);
                assert(all_digits(s@) ==> digits_value(s@) >= digits_value(s@.take((i + 1) as int)))
                    by {
                    if all_digits(s@) {
                        lemma_digits_prefix(s@, (i + 1) as int);
                    }
                };
            }
            return None;
        }
        value = value * 10 + d;
        i = i + 1;
    }
    proof {
        assert(s@.take(n as int) =~= s@);
    }
    Some(value)
}

proof fn lemma_digits_grow(s: Seq<char>, k: int)
    requires
        1 <= k <= s.len(),
        '0' <= s[k - 1] && s[k - 1] <= '9',
    ensures
        digits_value(s.take(k)) == 10 * digits_value(s.take(k - 1)) + (s[k - 1] as int - '0' as int),
{
    assert(s.take(k).drop_last() =~= s.take(k - 1));
}

proof fn lemma_digits_nonneg(s: Seq<char>)
    requires
        all_digits(s),
    ensures
        digits_value(s) >= 0,
    decreases s.len(),
{
    if s.len() > 0 {
        assert(all_digits(s.drop_last()));
        lemma_digits_nonneg(s.drop_last());
    }
}

proof fn lemma_digits_prefix(s: Seq<char>, k: int)
    requires
        all_digits(s),
        0 <= k <= s.len(),
    ensures
        digits_value(s) >= digits_value(s.take(k)),
    decreases s.len() - k,
{
    if k < s.len() {
        lemma_digits_prefix(s, k + 1);
        lemma_digits_grow(s, k + 1);
        assert(all_digits(s.take(k)));
        lemma_digits_nonneg(s.take(k));
    } else {
        assert(s.take(k) =~= s);
    }
}


/// `p` is a prefix of `s`.
pub open spec fn spec_starts_with(s: Seq<char>, p: Seq<char>) -> bool {
    p.len() <= s.len() && s.subrange(0, p.len() as int) == p
}

pub fn starts_with(s: &str, p: &str) -> (r: bool)
    ensures
        r == spec_starts_with(s@, p@),
{
    let n = s.unicode_len();
    let m = p.unicode_len();
    if m > n {
        return false;
    }
    let mut i: usize = 0;
    while i < m
        invariant
            n == s@.len(),
            m == p@.len(),
            m <= n,
            0 <= i <= m,
            forall|j: int| 0 <= j < i ==> s@[j] == #[trigger] p@[j],
        decreases m - i,
    {
        if s.get_char(i) != p.get_char(i) {
            proof {
                assert(s@.subrange(0, m as int)[i as int] != p@[i as int]);
            }
            return false;
        }
        i = i + 1;
    }
    proof {
        assert(s@.subrange(0, m as int) =~= p@);
    }
    true
}

/// The two texts hold the same characters.
pub fn text_eq(a: &str, b: &str) -> (r: bool)
    ensures
        r == (a@ == b@),
{
    if a.unicode_len() != b.unicode_len() {
        return false;
    }
    let same = starts_with(a, b);
    proof {
        assert(a@.subrange(0, b@.len() as int) =~= a@);
        if a@ == b@ {
            assert(spec_starts_with(a@, b@));
        }
    }
    same
}

} // verus!
