//! Character-level text helpers over `char` sequences: trimming, suffix
//! tests, searching for a character, and decimal numerals.

use vstd::prelude::*;

verus! {

/// The texts of a sequence of strings.
pub open spec fn views(v: Seq<String>) -> Seq<Seq<char>> {
    v.map_values(|s: String| s@)
}

/// Unicode `White_Space`, the set that `char::is_whitespace` tests.
pub open spec fn is_space(c: char) -> bool {
    ('\u{9}' <= c && c <= '\u{d}') || c == ' ' || c == '\u{85}' || c == '\u{a0}'
        || c == '\u{1680}' || ('\u{2000}' <= c && c <= '\u{200a}') || c == '\u{2028}'
        || c == '\u{2029}' || c == '\u{202f}' || c == '\u{205f}' || c == '\u{3000}'
}

/// The characters that a trim removes.
#[derive(Clone, Copy, Debug, PartialEq, Eq)]
pub enum Edge {
    /// Unicode white space.
    Whitespace,
    /// A closing parenthesis or a plain space.
    CloseParenOrSpace,
}

impl Edge {
    pub open spec fn holds(&self, c: char) -> bool {
        match self {
            Edge::Whitespace => is_space(c),
            Edge::CloseParenOrSpace => c == ')' || c == ' ',
        }
    }

    pub fn test(&self, c: char) -> (r: bool)
        ensures
            r == self.holds(c),
    {
        match self {
            Edge::Whitespace => {
                ('\u{9}' <= c && c <= '\u{d}') || c == ' ' || c == '\u{85}' || c == '\u{a0}'
                    || c == '\u{1680}' || ('\u{2000}' <= c && c <= '\u{200a}') || c
                    == '\u{2028}' || c == '\u{2029}' || c == '\u{202f}' || c == '\u{205f}' || c
                    == '\u{3000}'
            },
            Edge::CloseParenOrSpace => c == ')' || c == ' ',
        }
    }
}

/// `s` without its leading characters of class `e`.
pub open spec fn trim_start_spec(s: Seq<char>, e: Edge) -> Seq<char>
    decreases s.len(),
{
    if s.len() > 0 && e.holds(s[0]) {
        trim_start_spec(s.drop_first(), e)
    } else {
        s
    }
}

/// `s` without its trailing characters of class `e`.
pub open spec fn trim_end_spec(s: Seq<char>, e: Edge) -> Seq<char>
    decreases s.len(),
{
    if s.len() > 0 && e.holds(s.last()) {
        trim_end_spec(s.drop_last(), e)
    } else {
        s
    }
}

/// `s` without its leading and trailing characters of class `e`.
pub open spec fn trim_spec(s: Seq<char>, e: Edge) -> Seq<char> {
    trim_end_spec(trim_start_spec(s, e), e)
}

pub open spec fn ends_with_spec(s: Seq<char>, suffix: Seq<char>) -> bool {
    suffix.len() <= s.len() && s.subrange(s.len() - suffix.len(), s.len() as int) == suffix
}

/// The index of the last `c` in `s`.
pub open spec fn last_index_of(s: Seq<char>, c: char) -> Option<int>
    decreases s.len(),
{
    if s.len() == 0 {
        None
    } else if s.last() == c {
        Some(s.len() - 1)
    } else {
        last_index_of(s.drop_last(), c)
    }
}

/// The index of the first `c` in `s`.
pub open spec fn first_index_of(s: Seq<char>, c: char) -> Option<int>
    decreases s.len(),
{
    if s.len() == 0 {
        None
    } else if s[0] == c {
        Some(0)
    } else {
        match first_index_of(s.drop_first(), c) {
            Some(i) => Some(i + 1),
            None => None,
        }
    }
}

pub open spec fn digit_char(d: nat) -> char {
    if d == 0 { '0' }
    else if d == 1 { '1' }
    else if d == 2 { '2' }
    else if d == 3 { '3' }
    else if d == 4 { '4' }
    else if d == 5 { '5' }
    else if d == 6 { '6' }
    else if d == 7 { '7' }
    else if d == 8 { '8' }
    else { '9' }
}

/// The decimal numeral of `n`, without sign or leading zeros.
pub open spec fn decimal(n: nat) -> Seq<char>
    decreases n,
{
    if n < 10 {
        seq![digit_char(n)]
    } else {
        decimal(n / 10).push(digit_char(n % 10))
    }
}

proof fn lemma_trim_start_skip(s: Seq<char>, i: int, e: Edge)
    requires
        0 <= i < s.len(),
        e.holds(s[i]),
    ensures
        trim_start_spec(s.subrange(i, s.len() as int), e) == trim_start_spec(
            s.subrange(i + 1, s.len() as int),
            e,
        ),
{
    assert(s.subrange(i, s.len() as int).drop_first() =~= s.subrange(i + 1, s.len() as int));
}

proof fn lemma_trim_end_skip(s: Seq<char>, j: int, e: Edge)
    requires
        0 < j <= s.len(),
        e.holds(s[j - 1]),
    ensures
        trim_end_spec(s.subrange(0, j), e) == trim_end_spec(s.subrange(0, j - 1), e),
{
    assert(s.subrange(0, j).drop_last() =~= s.subrange(0, j - 1));
}

/// `s` without its leading characters of class `e`, as `str::trim_start_matches`.
pub fn trim_start(s: &str, e: Edge) -> (r: String)
    ensures
        r@ == trim_start_spec(s@, e),
{
    let n = s.unicode_len();
    let mut i: usize = 0;
    assert(s@.subrange(0, n as int) =~= s@);
    while i < n && e.test(s.get_char(i))
        invariant
            n == s@.len(),
            i <= n,
            trim_start_spec(s@, e) == trim_start_spec(s@.subrange(i as int, n as int), e),
        decreases n - i,
    {
        proof {
            lemma_trim_start_skip(s@, i as int, e);
        }
        i = i + 1;
    }
    String::from_str(s.substring_char(i, n))
}

/// `s` without its trailing characters of class `e`, as `str::trim_end_matches`.
pub fn trim_end(s: &str, e: Edge) -> (r: String)
    ensures
        r@ == trim_end_spec(s@, e),
{
    let n = s.unicode_len();
    let mut j: usize = n;
    assert(s@.subrange(0, n as int) =~= s@);
    while j > 0 && e.test(s.get_char(j - 1))
        invariant
            n == s@.len(),
            j <= n,
            trim_end_spec(s@, e) == trim_end_spec(s@.subrange(0, j as int), e),
        decreases j,
    {
        proof {
            lemma_trim_end_skip(s@, j as int, e);
        }
        j = j - 1;
    }
    String::from_str(s.substring_char(0, j))
}

/// `s` without its leading and trailing characters of class `e`.
pub fn trim(s: &str, e: Edge) -> (r: String)
    ensures
        r@ == trim_spec(s@, e),
{
    let front = trim_start(s, e);
    trim_end(front.as_str(), e)
}

/// Whether `s` ends with `suffix`.
pub fn ends_with(s: &str, suffix: &str) -> (r: bool)
    ensures
        r == ends_with_spec(s@, suffix@),
{
    let n = s.unicode_len();
    let m = suffix.unicode_len();
    if m > n {
        return false;
    }
    let off = n - m;
    let mut k: usize = 0;
    while k < m
        invariant
            n == s@.len(),
            m == suffix@.len(),
            off == n - m,
            k <= m,
            forall|t: int| 0 <= t < k ==> s@[off + t] == suffix@[t],
        decreases m - k,
    {
        if s.get_char(off + k) != suffix.get_char(k) {
            assert(s@.subrange(off as int, n as int)[k as int] != suffix@[k as int]);
            return false;
        }
        k = k + 1;
    }
    assert(s@.subrange(off as int, n as int) =~= suffix@);
    true
}

/// The index of the last `c` in `s`.
pub fn rfind_char(s: &str, c: char) -> (r: Option<usize>)
    ensures
        match r {
            Some(i) => i < s@.len() && last_index_of(s@, c) == Some(i as int),
            None => last_index_of(s@, c) is None,
        },
{
    let n = s.unicode_len();
    let mut j: usize = n;
    assert(s@.subrange(0, n as int) =~= s@);
    while j > 0
        invariant
            n == s@.len(),
            j <= n,
            last_index_of(s@, c) == last_index_of(s@.subrange(0, j as int), c),
        decreases j,
    {
        assert(s@.subrange(0, j as int).drop_last() =~= s@.subrange(0, j - 1));
        if s.get_char(j - 1) == c {
            return Some(j - 1);
        }
        j = j - 1;
    }
    None
}

/// The index of the first `c` in `s`.
pub fn find_char(s: &str, c: char) -> (r: Option<usize>)
    ensures
        match r {
            Some(i) => i < s@.len() && first_index_of(s@, c) == Some(i as int),
            None => first_index_of(s@, c) is None,
        },
{
    let n = s.unicode_len();
    let mut i: usize = 0;
    while i < n
        invariant
            n == s@.len(),
            i <= n,
            forall|t: int| 0 <= t < i ==> s@[t] != c,
        decreases n - i,
    {
        if s.get_char(i) == c {
            proof {
                lemma_first_index(s@, c, i as int);
            }
            return Some(i);
        }
        i = i + 1;
    }
    proof {
        lemma_first_index_none(s@, c);
    }
    None
}

proof fn lemma_first_index(s: Seq<char>, c: char, i: int)
    requires
        0 <= i < s.len(),
        s[i] == c,
        forall|t: int| 0 <= t < i ==> s[t] != c,
    ensures
        first_index_of(s, c) == Some(i),
    decreases i,
{
    if i > 0 {
        lemma_first_index(s.drop_first(), c, i - 1);
    }
}

proof fn lemma_first_index_none(s: Seq<char>, c: char)
    requires
        forall|t: int| 0 <= t < s.len() ==> s[t] != c,
    ensures
        first_index_of(s, c) is None,
    decreases s.len(),
{
    if s.len() > 0 {
        lemma_first_index_none(s.drop_first(), c);
    }
}

fn digit_text(d: u64) -> (r: &'static str)
    requires
        d < 10,
    ensures
        r@ == seq![digit_char(d as nat)],
{
    proof {
        reveal_strlit("0");
        reveal_strlit("1");
        reveal_strlit("2");
        reveal_strlit("3");
        reveal_strlit("4");
        reveal_strlit("5");
        reveal_strlit("6");
        reveal_strlit("7");
        reveal_strlit("8");
        reveal_strlit("9");
    }
    if d == 0 {
        "0"
    } else if d == 1 {
        "1"
    } else if d == 2 {
        "2"
    } else if d == 3 {
        "3"
    } else if d == 4 {
        "4"
    } else if d == 5 {
        "5"
    } else if d == 6 {
        "6"
    } else if d == 7 {
        "7"
    } else if d == 8 {
        "8"
    } else {
        "9"
    }
}

/// The decimal numeral of `n`.
pub fn decimal_text(n: u64) -> (r: String)
    ensures
        r@ == decimal(n as nat),
    decreases n,
{
    if n < 10 {
        String::from_str(digit_text(n))
    } else {
        let mut s = decimal_text(n / 10);
        s.append(digit_text(n % 10));
        s
    }
}

} // verus!
