//! Character-level text model shared by the line-oriented parsers.
//!
//! The spec functions here describe, over `Seq<char>`, what the standard
//! string operations used by the parsers compute (`lines`, `trim`, prefixes,
//! `split_whitespace`, unsigned parsing). The exec functions work on a
//! `Vec<char>` copy of the input and index ranges into it.
use vstd::prelude::*;
use vstd::string::*;

verus! {

/// `char::is_whitespace`: the Unicode `White_Space` property.
pub open spec fn is_whitespace(c: char) -> bool {
    let u = c as u32;
    ||| u == 0x20
    ||| (0x9 <= u && u <= 0xd)
    ||| u == 0x85
    ||| u == 0xa0
    ||| u == 0x1680
    ||| (0x2000 <= u && u <= 0x200a)
    ||| u == 0x2028
    ||| u == 0x2029
    ||| u == 0x202f
    ||| u == 0x205f
    ||| u == 0x3000
}

pub fn is_whitespace_char(c: char) -> (b: bool)
    ensures
        b == is_whitespace(c),
{
    let u = c as u32;
    u == 0x20 || (0x9 <= u && u <= 0xd) || u == 0x85 || u == 0xa0 || u == 0x1680 || (0x2000
        <= u && u <= 0x200a) || u == 0x2028 || u == 0x2029 || u == 0x202f || u == 0x205f || u
        == 0x3000
}

/// Leading characters of `s` removed while they are whitespace (`str::trim_start`).
pub open spec fn trim_start(s: Seq<char>) -> Seq<char>
    decreases s.len(),
{
    if s.len() > 0 && is_whitespace(s[0]) {
        trim_start(s.drop_first())
    } else {
        s
    }
}

/// Trailing characters of `s` removed while they are whitespace (`str::trim_end`).
pub open spec fn trim_end(s: Seq<char>) -> Seq<char>
    decreases s.len(),
{
    if s.len() > 0 && is_whitespace(s.last()) {
        trim_end(s.drop_last())
    } else {
        s
    }
}

/// `str::trim`.
pub open spec fn trim(s: Seq<char>) -> Seq<char> {
    trim_end(trim_start(s))
}

/// Leading copies of `c` removed (`str::trim_start_matches(c)`).
pub open spec fn trim_start_char(s: Seq<char>, c: char) -> Seq<char>
    decreases s.len(),
{
    if s.len() > 0 && s[0] == c {
        trim_start_char(s.drop_first(), c)
    } else {
        s
    }
}

/// Trailing copies of `c` removed (`str::trim_end_matches(c)`).
pub open spec fn trim_end_char(s: Seq<char>, c: char) -> Seq<char>
    decreases s.len(),
{
    if s.len() > 0 && s.last() == c {
        trim_end_char(s.drop_last(), c)
    } else {
        s
    }
}

/// `str::trim_matches(c)`.
pub open spec fn trim_char(s: Seq<char>, c: char) -> Seq<char> {
    trim_end_char(trim_start_char(s, c), c)
}

/// Index of the first `c` in `s`, or `s.len()` when there is none.
pub open spec fn index_of_char(s: Seq<char>, c: char) -> int
    decreases s.len(),
{
    if s.len() == 0 {
        0
    } else if s[0] == c {
        0
    } else {
        1 + index_of_char(s.drop_first(), c)
    }
}

/// A line without its terminating `'\r'` (used before a `'\n'`).
pub open spec fn strip_cr(l: Seq<char>) -> Seq<char> {
    if l.len() > 0 && l.last() == '\r' {
        l.drop_last()
    } else {
        l
    }
}

/// `str::lines`: split at `'\n'`, dropping a `'\r'` before each `'\n'`; a final
/// `'\n'` does not start an empty line.
pub open spec fn lines(s: Seq<char>) -> Seq<Seq<char>>
    decreases s.len(),
{
    if s.len() == 0 {
        Seq::empty()
    } else {
        let k = index_of_char(s, '\n');
        if k < 0 || k >= s.len() {
            seq![s]
        } else {
            seq![strip_cr(s.take(k))] + lines(s.skip(k + 1))
        }
    }
}

/// `s.strip_prefix(p)`.
pub open spec fn strip_prefix(s: Seq<char>, p: Seq<char>) -> Option<Seq<char>> {
    if p.is_prefix_of(s) {
        Some(s.skip(p.len() as int))
    } else {
        None
    }
}

/// `s.strip_suffix(c)` for one character.
pub open spec fn strip_suffix_char(s: Seq<char>, c: char) -> Option<Seq<char>> {
    if s.len() > 0 && s.last() == c {
        Some(s.drop_last())
    } else {
        None
    }
}

/// `haystack.contains(needle)`.
pub open spec fn contains(haystack: Seq<char>, needle: Seq<char>) -> bool {
    exists|i: int|
        0 <= i && i + needle.len() <= haystack.len() && #[trigger] haystack.subrange(
            i,
            i + needle.len(),
        ) == needle
}

/// Number of leading characters of `s` that are not whitespace.
pub open spec fn word_len(s: Seq<char>) -> int
    decreases s.len(),
{
    if s.len() == 0 || is_whitespace(s[0]) {
        0
    } else {
        1 + word_len(s.drop_first())
    }
}

/// `s.split_whitespace()`.
pub open spec fn words(s: Seq<char>) -> Seq<Seq<char>>
    decreases s.len(),
{
    let t = trim_start(s);
    if t.len() == 0 || t.len() > s.len() {
        Seq::empty()
    } else {
        let n = word_len(t);
        if n <= 0 || n > t.len() {
            Seq::empty()
        } else {
            seq![t.take(n)] + words(t.skip(n))
        }
    }
}

/// `s.split_whitespace().next()`.
pub open spec fn first_word(s: Seq<char>) -> Option<Seq<char>> {
    let w = words(s);
    if w.len() > 0 {
        Some(w[0])
    } else {
        None
    }
}

pub open spec fn is_ascii_digit(c: char) -> bool {
    '0' <= c && c <= '9'
}

pub open spec fn digit_value(c: char) -> nat {
    ((c as u32) - ('0' as u32)) as nat
}

pub open spec fn all_digits(s: Seq<char>) -> bool {
    forall|i: int| 0 <= i < s.len() ==> is_ascii_digit(#[trigger] s[i])
}

/// The number that the decimal digits `s` spell.
pub open spec fn digits_value(s: Seq<char>) -> nat
    decreases s.len(),
{
    if s.len() == 0 {
        0
    } else {
        digits_value(s.drop_last()) * 10 + digit_value(s.last())
    }
}

/// What `<unsigned integer>::from_str` reads from `s`, before the range check:
/// an optional `'+'` followed by at least one ASCII digit.
pub open spec fn parse_unsigned(s: Seq<char>) -> Option<nat> {
    if s.len() == 0 {
        None
    } else {
        let d = if s[0] == '+' {
            s.drop_first()
        } else {
            s
        };
        if d.len() == 0 || !all_digits(d) {
            None
        } else {
            Some(digits_value(d))
        }
    }
}

/// `s.parse::<u64>().ok()`.
pub open spec fn parse_u64(s: Seq<char>) -> Option<u64> {
    match parse_unsigned(s) {
        Some(v) => if v <= u64::MAX {
            Some(v as u64)
        } else {
            None
        },
        None => None,
    }
}

/// `s.parse::<u8>().ok()`.
pub open spec fn parse_u8(s: Seq<char>) -> Option<u8> {
    match parse_unsigned(s) {
        Some(v) => if v <= u8::MAX {
            Some(v as u8)
        } else {
            None
        },
        None => None,
    }
}

pub open spec fn digit_char(d: nat) -> char {
    if d == 0 {
        '0'
    } else if d == 1 {
        '1'
    } else if d == 2 {
        '2'
    } else if d == 3 {
        '3'
    } else if d == 4 {
        '4'
    } else if d == 5 {
        '5'
    } else if d == 6 {
        '6'
    } else if d == 7 {
        '7'
    } else if d == 8 {
        '8'
    } else {
        '9'
    }
}

/// The decimal rendering of `n` (`format!("{n}")`).
pub open spec fn decimal(n: nat) -> Seq<char>
    decreases n,
{
    if n < 10 {
        seq![digit_char(n)]
    } else {
        decimal(n / 10).push(digit_char(n % 10))
    }
}

/// `format!("{n:02}")`.
pub open spec fn decimal2(n: nat) -> Seq<char> {
    if n < 10 {
        seq!['0'] + decimal(n)
    } else {
        decimal(n)
    }
}

/// `c.to_ascii_lowercase()`.
pub open spec fn ascii_lower(c: char) -> char {
    if 'A' <= c && c <= 'Z' {
        (((c as u8) + 32) as u8) as char
    } else {
        c
    }
}

/// `s.to_ascii_lowercase()`.
pub open spec fn ascii_lowercase(s: Seq<char>) -> Seq<char> {
    s.map_values(|c: char| ascii_lower(c))
}

/// The rest of the first line of `ls` that starts with `key` (`find_map(strip_prefix)`).
pub open spec fn first_prefixed(ls: Seq<Seq<char>>, key: Seq<char>) -> Option<Seq<char>>
    decreases ls.len(),
{
    if ls.len() == 0 {
        None
    } else {
        match strip_prefix(ls[0], key) {
            Some(rest) => Some(rest),
            None => first_prefixed(ls.drop_first(), key),
        }
    }
}

/// The rest of the first line of `ls` whose trimmed text starts with `key`.
pub open spec fn first_trimmed_prefixed(ls: Seq<Seq<char>>, key: Seq<char>) -> Option<
    Seq<char>,
>
    decreases ls.len(),
{
    if ls.len() == 0 {
        None
    } else {
        match strip_prefix(trim(ls[0]), key) {
            Some(rest) => Some(rest),
            None => first_trimmed_prefixed(ls.drop_first(), key),
        }
    }
}

// ---------------------------------------------------------------------------
// Lemmas
// ---------------------------------------------------------------------------
pub proof fn lemma_sub_drop_first(s: Seq<char>, lo: int, hi: int)
    requires
        0 <= lo < hi <= s.len(),
    ensures
        s.subrange(lo, hi).drop_first() == s.subrange(lo + 1, hi),
        s.subrange(lo, hi)[0] == s[lo],
{
    assert(s.subrange(lo, hi).drop_first() =~= s.subrange(lo + 1, hi));
}

pub proof fn lemma_sub_drop_last(s: Seq<char>, lo: int, hi: int)
    requires
        0 <= lo < hi <= s.len(),
    ensures
        s.subrange(lo, hi).drop_last() == s.subrange(lo, hi - 1),
        s.subrange(lo, hi).last() == s[hi - 1],
{
    assert(s.subrange(lo, hi).drop_last() =~= s.subrange(lo, hi - 1));
}

pub proof fn lemma_lines_cons(s: Seq<char>, l: Seq<char>, rest: Seq<Seq<char>>)
    requires
        lines(s) == seq![l] + rest,
    ensures
        lines(s).len() > 0,
        lines(s)[0] == l,
        lines(s).drop_first() == rest,
{
    assert((seq![l] + rest).drop_first() =~= rest);
}

pub proof fn lemma_digits_value_take_le(s: Seq<char>, k: int)
    requires
        0 <= k <= s.len(),
    ensures
        digits_value(s.take(k)) <= digits_value(s),
    decreases s.len() - k,
{
    if k < s.len() {
        lemma_digits_value_take_le(s, k + 1);
        assert(s.take(k + 1).drop_last() =~= s.take(k));
        assert(digits_value(s.take(k + 1)) == digits_value(s.take(k)) * 10 + digit_value(
            s[k],
        ));
    } else {
        assert(s.take(k) =~= s);
    }
}

/// Where `c` is first found in `a + t`: in `a`, or past it.
pub proof fn lemma_index_of_char_append(a: Seq<char>, t: Seq<char>, c: char)
    ensures
        0 <= index_of_char(a, c) <= a.len(),
        index_of_char(a, c) < a.len() ==> a[index_of_char(a, c)] == c
            && index_of_char(a + t, c) == index_of_char(a, c),
        index_of_char(a, c) == a.len() ==> index_of_char(a + t, c) == a.len() + index_of_char(
            t,
            c,
        ),
    decreases a.len(),
{
    if a.len() > 0 {
        lemma_index_of_char_append(a.drop_first(), t, c);
        assert((a + t).drop_first() =~= a.drop_first() + t);
    } else {
        assert(a + t =~= t);
    }
}

/// `s` without `c` has no index of it.
pub proof fn lemma_index_of_char_absent(s: Seq<char>, c: char)
    requires
        !s.contains(c),
    ensures
        index_of_char(s, c) == s.len(),
    decreases s.len(),
{
    if s.len() > 0 {
        assert(!s.drop_first().contains(c)) by {
            if s.drop_first().contains(c) {
                let j = choose|j: int| 0 <= j < s.drop_first().len() && s.drop_first()[j] == c;
                assert(s[j + 1] == c);
            }
        }
        lemma_index_of_char_absent(s.drop_first(), c);
    }
}

/// No `c` comes before the index of `c`.
pub proof fn lemma_index_of_char_first(s: Seq<char>, c: char)
    ensures
        forall|j: int| 0 <= j < index_of_char(s, c) && j < s.len() ==> s[j] != c,
    decreases s.len(),
{
    if s.len() > 0 && s[0] != c {
        lemma_index_of_char_first(s.drop_first(), c);
        assert forall|j: int| 0 <= j < index_of_char(s, c) && j < s.len() implies s[j] != c by {
            if j > 0 {
                assert(s[j] == s.drop_first()[j - 1]);
            }
        }
    }
}

/// Text that neither starts nor ends with whitespace is its own trim.
pub proof fn lemma_trim_unchanged(s: Seq<char>)
    requires
        s.len() > 0,
        !is_whitespace(s[0]),
        !is_whitespace(s.last()),
    ensures
        trim(s) == s,
{
}

/// A line joined after non-empty text: `a + "\n" + b` has the lines of `a` and
/// then `b`, when `a` does not end a line and `b` is one line.
pub proof fn lemma_lines_append(a: Seq<char>, b: Seq<char>)
    requires
        a.len() > 0,
        a.last() != '\n',
        a.last() != '\r',
        b.len() > 0,
        !b.contains('\n'),
    ensures
        lines(a + seq!['\n'] + b) == lines(a).push(b),
    decreases a.len(),
{
    let s = a + seq!['\n'] + b;
    lemma_index_of_char_append(a, seq!['\n'] + b, '\n');
    lemma_index_of_char_absent(b, '\n');
    assert(s =~= a + (seq!['\n'] + b));
    let k = index_of_char(a, '\n');
    if k < a.len() {
        let rest = a.skip(k + 1);
        assert(k + 1 < a.len());
        assert(s.take(k) =~= a.take(k));
        assert(s.skip(k + 1) =~= rest + seq!['\n'] + b);
        lemma_lines_append(rest, b);
        assert(lines(a) == seq![strip_cr(a.take(k))] + lines(rest));
        assert(lines(s) =~= lines(a).push(b));
    } else {
        lemma_index_of_char_first(a, '\n');
        assert(s.take(k) =~= a);
        assert(s.skip(k + 1) =~= b);
        lemma_index_of_char_absent(b, '\n');
        assert(lines(b) == seq![b]);
        assert(lines(a) == seq![a]);
        assert(lines(s) =~= seq![a, b]);
    }
}

/// `format!("{n:02}")` of a number below 100 is two digits that parse back to it.
pub proof fn lemma_decimal2_parse(n: nat)
    requires
        n < 100,
    ensures
        decimal2(n).len() == 2,
        decimal2(n) == seq![digit_char(n / 10), digit_char(n % 10)],
        parse_u8(decimal2(n)) == Some(n as u8),
        !is_whitespace(decimal2(n)[0]),
        !is_whitespace(decimal2(n)[1]),
        decimal2(n)[0] != '@' && decimal2(n)[0] != ':' && decimal2(n)[0] != '\n',
        decimal2(n)[1] != '@' && decimal2(n)[1] != ':' && decimal2(n)[1] != '\n',
        decimal2(n)[1] != '\r',
{
    let d = decimal2(n);
    if n < 10 {
        assert(d =~= seq!['0', digit_char(n)]);
    } else {
        assert(decimal(n / 10) == seq![digit_char(n / 10)]);
        assert(d =~= seq![digit_char(n / 10), digit_char(n % 10)]);
    }
    assert(d.drop_last() =~= seq![digit_char(n / 10)]);
    assert(d.drop_last().drop_last() =~= Seq::<char>::empty());
    assert(digits_value(d.drop_last().drop_last()) == 0);
    assert(d.drop_last().last() == digit_char(n / 10));
    assert(digits_value(d.drop_last()) == digit_value(digit_char(n / 10)));
    assert(digits_value(d) == digit_value(digit_char(n / 10)) * 10 + digit_value(
        digit_char(n % 10),
    ));
    assert(all_digits(d));
}

pub proof fn lemma_decimal_len(n: nat)
    ensures
        decimal(n).len() >= 1,
    decreases n,
{
    if n >= 10 {
        lemma_decimal_len(n / 10);
    }
}

// ---------------------------------------------------------------------------
// Exec helpers on `Vec<char>` ranges
// ---------------------------------------------------------------------------
/// The characters of `s`, in order.
pub fn chars_of(s: &str) -> (v: Vec<char>)
    ensures
        v@ == s@,
{
    let mut v: Vec<char> = Vec::new();
    for c in it: s.chars()
        invariant
            v@ == it.seq().take(it.index() as int),
            it.seq() == s@,
    {
        v.push(c);
    }
    v
}

/// An owned copy of the characters `from..to` of `s`.
pub fn piece(s: &str, from: usize, to: usize) -> (r: String)
    requires
        from <= to <= s@.len(),
    ensures
        r@ == s@.subrange(from as int, to as int),
{
    let p = s.substring_char(from, to);
    p.to_owned()
}

/// Index of the first `c` in `v[lo..hi]`, or `hi`.
pub fn find_char(v: &Vec<char>, lo: usize, hi: usize, c: char) -> (k: usize)
    requires
        lo <= hi <= v@.len(),
    ensures
        lo <= k <= hi,
        k - lo == index_of_char(v@.subrange(lo as int, hi as int), c),
        forall|j: int| lo <= j < k ==> v@[j] != c,
        k < hi ==> v@[k as int] == c,
{
    let mut i = lo;
    while i < hi
        invariant
            lo <= i <= hi <= v@.len(),
            index_of_char(v@.subrange(lo as int, hi as int), c) == (i - lo) + index_of_char(
                v@.subrange(i as int, hi as int),
                c,
            ),
            forall|j: int| lo <= j < i ==> v@[j] != c,
        decreases hi - i,
    {
        proof {
            lemma_sub_drop_first(v@, i as int, hi as int);
        }
        if v[i] == c {
            return i;
        }
        i = i + 1;
    }
    i
}

/// Bounds of the first line of `v[pos..]` and where the rest begins.
pub fn next_line(v: &Vec<char>, pos: usize) -> (r: (usize, usize))
    requires
        pos < v@.len(),
    ensures
        pos <= r.0 <= r.1 <= v@.len(),
        pos < r.1,
        lines(v@.skip(pos as int)) == seq![v@.subrange(pos as int, r.0 as int)] + lines(
            v@.skip(r.1 as int),
        ),
{
    let n = v.len();
    let k = find_char(v, pos, n, '\n');
    let ghost s = v@.skip(pos as int);
    assert(v@.subrange(pos as int, n as int) =~= s);
    if k == n {
        assert(v@.skip(n as int) =~= Seq::<char>::empty());
        assert(lines(s) == seq![s]);
        (n, n)
    } else {
        assert(s.skip(k - pos + 1) =~= v@.skip(k + 1));
        let end = if k > pos && v[k - 1] == '\r' {
            k - 1
        } else {
            k
        };
        assert(strip_cr(s.take(k - pos)) =~= v@.subrange(pos as int, end as int));
        (end, k + 1)
    }
}

/// Start of `v[lo..hi]` once leading whitespace is skipped.
pub fn skip_whitespace(v: &Vec<char>, lo: usize, hi: usize) -> (k: usize)
    requires
        lo <= hi <= v@.len(),
    ensures
        lo <= k <= hi,
        trim_start(v@.subrange(lo as int, hi as int)) == v@.subrange(k as int, hi as int),
{
    let mut i = lo;
    while i < hi && is_whitespace_char(v[i])
        invariant
            lo <= i <= hi <= v@.len(),
            trim_start(v@.subrange(lo as int, hi as int)) == trim_start(
                v@.subrange(i as int, hi as int),
            ),
        decreases hi - i,
    {
        proof {
            lemma_sub_drop_first(v@, i as int, hi as int);
        }
        i = i + 1;
    }
    if i < hi {
        proof {
            lemma_sub_drop_first(v@, i as int, hi as int);
        }
    }
    i
}

/// End of `v[lo..hi]` once trailing whitespace is dropped.
pub fn drop_trailing_whitespace(v: &Vec<char>, lo: usize, hi: usize) -> (k: usize)
    requires
        lo <= hi <= v@.len(),
    ensures
        lo <= k <= hi,
        trim_end(v@.subrange(lo as int, hi as int)) == v@.subrange(lo as int, k as int),
{
    let mut i = hi;
    while i > lo && is_whitespace_char(v[i - 1])
        invariant
            lo <= i <= hi <= v@.len(),
            trim_end(v@.subrange(lo as int, hi as int)) == trim_end(
                v@.subrange(lo as int, i as int),
            ),
        decreases i - lo,
    {
        proof {
            lemma_sub_drop_last(v@, lo as int, i as int);
        }
        i = i - 1;
    }
    if i > lo {
        proof {
            lemma_sub_drop_last(v@, lo as int, i as int);
        }
    }
    i
}

/// Bounds of `trim(v[lo..hi])`.
pub fn trim_range(v: &Vec<char>, lo: usize, hi: usize) -> (r: (usize, usize))
    requires
        lo <= hi <= v@.len(),
    ensures
        lo <= r.0 <= r.1 <= hi,
        trim(v@.subrange(lo as int, hi as int)) == v@.subrange(r.0 as int, r.1 as int),
{
    let a = skip_whitespace(v, lo, hi);
    let b = drop_trailing_whitespace(v, a, hi);
    (a, b)
}

/// Start of `v[lo..hi]` once leading copies of `c` are skipped.
pub fn skip_char(v: &Vec<char>, lo: usize, hi: usize, c: char) -> (k: usize)
    requires
        lo <= hi <= v@.len(),
    ensures
        lo <= k <= hi,
        trim_start_char(v@.subrange(lo as int, hi as int), c) == v@.subrange(
            k as int,
            hi as int,
        ),
{
    let mut i = lo;
    while i < hi && v[i] == c
        invariant
            lo <= i <= hi <= v@.len(),
            trim_start_char(v@.subrange(lo as int, hi as int), c) == trim_start_char(
                v@.subrange(i as int, hi as int),
                c,
            ),
        decreases hi - i,
    {
        proof {
            lemma_sub_drop_first(v@, i as int, hi as int);
        }
        i = i + 1;
    }
    if i < hi {
        proof {
            lemma_sub_drop_first(v@, i as int, hi as int);
        }
    }
    i
}

/// End of `v[lo..hi]` once trailing copies of `c` are dropped.
pub fn drop_trailing_char(v: &Vec<char>, lo: usize, hi: usize, c: char) -> (k: usize)
    requires
        lo <= hi <= v@.len(),
    ensures
        lo <= k <= hi,
        trim_end_char(v@.subrange(lo as int, hi as int), c) == v@.subrange(
            lo as int,
            k as int,
        ),
{
    let mut i = hi;
    while i > lo && v[i - 1] == c
        invariant
            lo <= i <= hi <= v@.len(),
            trim_end_char(v@.subrange(lo as int, hi as int), c) == trim_end_char(
                v@.subrange(lo as int, i as int),
                c,
            ),
        decreases i - lo,
    {
        proof {
            lemma_sub_drop_last(v@, lo as int, i as int);
        }
        i = i - 1;
    }
    if i > lo {
        proof {
            lemma_sub_drop_last(v@, lo as int, i as int);
        }
    }
    i
}

/// Whether `p` is a prefix of `v[lo..hi]`.
pub fn has_prefix(v: &Vec<char>, lo: usize, hi: usize, p: &Vec<char>) -> (b: bool)
    requires
        lo <= hi <= v@.len(),
    ensures
        b == p@.is_prefix_of(v@.subrange(lo as int, hi as int)),
{
    if p.len() > hi - lo {
        return false;
    }
    let mut i: usize = 0;
    while i < p.len()
        invariant
            lo <= hi <= v@.len(),
            p@.len() <= hi - lo,
            0 <= i <= p@.len(),
            forall|j: int| 0 <= j < i ==> p@[j] == v@[lo + j],
        decreases p@.len() - i,
    {
        if p[i] != v[lo + i] {
            assert(p@[i as int] != v@.subrange(lo as int, hi as int)[i as int]);
            return false;
        }
        i = i + 1;
    }
    assert(p@ =~= v@.subrange(lo as int, hi as int).take(p@.len() as int));
    true
}

/// Whether `needle` occurs in `v[lo..hi]`.
pub fn contains_range(v: &Vec<char>, lo: usize, hi: usize, needle: &Vec<char>) -> (b: bool)
    requires
        lo <= hi <= v@.len(),
    ensures
        b == contains(v@.subrange(lo as int, hi as int), needle@),
{
    let ghost h = v@.subrange(lo as int, hi as int);
    let n = needle.len();
    if n > hi - lo {
        assert forall|i: int|
            0 <= i && i + n <= h.len() implies #[trigger] h.subrange(i, i + n) != needle@ by {}
        return false;
    }
    let mut i = lo;
    while i <= hi - n
        invariant
            lo <= i,
            n <= hi - lo,
            hi <= v@.len(),
            n == needle@.len(),
            h == v@.subrange(lo as int, hi as int),
            forall|j: int| 0 <= j < i - lo ==> #[trigger] h.subrange(j, j + n) != needle@,
        decreases hi - i,
    {
        if has_prefix(v, i, hi, needle) {
            assert(h.subrange(i - lo, i - lo + n) =~= v@.subrange(i as int, hi as int).take(
                n as int,
            ));
            return true;
        }
        assert(h.subrange(i - lo, i - lo + n) =~= v@.subrange(i as int, hi as int).take(
            n as int,
        ));
        i = i + 1;
    }
    assert forall|j: int| 0 <= j && j + n <= h.len() implies #[trigger] h.subrange(j, j + n)
        != needle@ by {}
    false
}

/// Whether `needle` occurs in `haystack`.
pub fn str_contains(haystack: &str, needle: &str) -> (b: bool)
    ensures
        b == contains(haystack@, needle@),
{
    let h = chars_of(haystack);
    let n = chars_of(needle);
    assert(h@.subrange(0, h@.len() as int) =~= h@);
    contains_range(&h, 0, h.len(), &n)
}

/// Whether `a` and `b` hold the same text.
pub fn str_eq(a: &str, b: &str) -> (r: bool)
    ensures
        r == (a@ == b@),
{
    let x = chars_of(a);
    let y = chars_of(b);
    assert(x@.subrange(0, x@.len() as int) =~= x@);
    range_eq(&x, 0, x.len(), &y)
}

/// Whether `trim(s)` equals `w`.
pub fn trimmed_eq(s: &str, w: &str) -> (r: bool)
    ensures
        r == (trim(s@) == w@),
{
    let x = chars_of(s);
    let y = chars_of(w);
    assert(x@.subrange(0, x@.len() as int) =~= x@);
    let (a, b) = trim_range(&x, 0, x.len());
    range_eq(&x, a, b, &y)
}

/// Whether `v[lo..hi]` equals `w`.
pub fn range_eq(v: &Vec<char>, lo: usize, hi: usize, w: &Vec<char>) -> (b: bool)
    requires
        lo <= hi <= v@.len(),
    ensures
        b == (v@.subrange(lo as int, hi as int) == w@),
{
    if w.len() != hi - lo {
        return false;
    }
    let b = has_prefix(v, lo, hi, w);
    proof {
        if b {
            assert(v@.subrange(lo as int, hi as int) =~= w@);
        }
    }
    b
}

/// End of the first word of `v[lo..hi]` (first whitespace, or `hi`).
pub fn word_end(v: &Vec<char>, lo: usize, hi: usize) -> (k: usize)
    requires
        lo <= hi <= v@.len(),
    ensures
        lo <= k <= hi,
        k - lo == word_len(v@.subrange(lo as int, hi as int)),
{
    let mut i = lo;
    while i < hi && !is_whitespace_char(v[i])
        invariant
            lo <= i <= hi <= v@.len(),
            word_len(v@.subrange(lo as int, hi as int)) == (i - lo) + word_len(
                v@.subrange(i as int, hi as int),
            ),
        decreases hi - i,
    {
        proof {
            lemma_sub_drop_first(v@, i as int, hi as int);
        }
        i = i + 1;
    }
    if i < hi {
        proof {
            lemma_sub_drop_first(v@, i as int, hi as int);
        }
    }
    i
}

/// Bounds of the first whitespace-separated word of `v[lo..hi]`, if any.
pub fn first_word_range(v: &Vec<char>, lo: usize, hi: usize) -> (r: Option<(usize, usize)>)
    requires
        lo <= hi <= v@.len(),
    ensures
        match r {
            Some((a, b)) => lo <= a <= b <= hi && first_word(v@.subrange(lo as int, hi as int))
                == Some(v@.subrange(a as int, b as int)),
            None => first_word(v@.subrange(lo as int, hi as int)) is None,
        },
{
    let a = skip_whitespace(v, lo, hi);
    let ghost s = v@.subrange(lo as int, hi as int);
    let ghost t = v@.subrange(a as int, hi as int);
    if a == hi {
        assert(words(s).len() == 0);
        return None;
    }
    let b = word_end(v, a, hi);
    proof {
        lemma_sub_drop_first(v@, a as int, hi as int);
        assert(!is_whitespace(t[0])) by {
            // `trim_start` stops at a non-whitespace character.
            lemma_trim_start_head(s);
        }
        lemma_words_step(s);
        assert(t.take(b - a) =~= v@.subrange(a as int, b as int));
        assert(words(s)[0] == t.take(b - a));
    }
    Some((a, b))
}

pub proof fn lemma_word_len(s: Seq<char>)
    ensures
        0 <= word_len(s) <= s.len(),
        s.len() > 0 && !is_whitespace(s[0]) ==> word_len(s) > 0,
    decreases s.len(),
{
    if s.len() > 0 && !is_whitespace(s[0]) {
        lemma_word_len(s.drop_first());
    }
}

/// One step of `words`: when `trim_start(s)` is non-empty, its first word comes first.
pub proof fn lemma_words_step(s: Seq<char>)
    requires
        trim_start(s).len() > 0,
    ensures
        ({
            let t = trim_start(s);
            let n = word_len(t);
            0 < n <= t.len() && words(s) == seq![t.take(n)] + words(t.skip(n))
        }),
{
    lemma_trim_start_head(s);
    lemma_word_len(trim_start(s));
}

pub proof fn lemma_trim_start_head(s: Seq<char>)
    ensures
        trim_start(s).len() <= s.len(),
        trim_start(s).len() > 0 ==> !is_whitespace(trim_start(s)[0]),
    decreases s.len(),
{
    if s.len() > 0 && is_whitespace(s[0]) {
        lemma_trim_start_head(s.drop_first());
    }
}

/// The `nth` (0-based) whitespace-separated word of `v[lo..hi]`, if any.
pub fn nth_word_range(v: &Vec<char>, lo: usize, hi: usize, nth: usize) -> (r: Option<
    (usize, usize),
>)
    requires
        lo <= hi <= v@.len(),
    ensures
        match r {
            Some((a, b)) => lo <= a <= b <= hi && nth < words(
                v@.subrange(lo as int, hi as int),
            ).len() && words(v@.subrange(lo as int, hi as int))[nth as int] == v@.subrange(
                a as int,
                b as int,
            ),
            None => words(v@.subrange(lo as int, hi as int)).len() <= nth,
        },
{
    let mut pos = lo;
    let mut k: usize = 0;
    while k < nth
        invariant
            lo <= pos <= hi <= v@.len(),
            k <= nth,
            words(v@.subrange(lo as int, hi as int)).len() == k + words(
                v@.subrange(pos as int, hi as int),
            ).len(),
            forall|j: int|
                0 <= j < words(v@.subrange(pos as int, hi as int)).len() ==> #[trigger] words(
                    v@.subrange(lo as int, hi as int),
                )[k + j] == words(v@.subrange(pos as int, hi as int))[j],
        decreases nth - k,
    {
        let a = skip_whitespace(v, pos, hi);
        let ghost s = v@.subrange(pos as int, hi as int);
        if a == hi {
            assert(words(s).len() == 0);
            return None;
        }
        let b = word_end(v, a, hi);
        proof {
            lemma_trim_start_head(s);
            lemma_sub_drop_first(v@, a as int, hi as int);
            let t = v@.subrange(a as int, hi as int);
            lemma_words_step(s);
            assert(t.skip(b - a) =~= v@.subrange(b as int, hi as int));
            assert(words(s) == seq![t.take(b - a)] + words(v@.subrange(b as int, hi as int)));
            let ws = words(v@.subrange(b as int, hi as int));
            assert forall|j: int| 0 <= j < ws.len() implies #[trigger] words(
                v@.subrange(lo as int, hi as int),
            )[(k + 1) + j] == ws[j] by {
                assert(words(s)[j + 1] == ws[j]);
                let jj = j + 1;
                assert(words(v@.subrange(lo as int, hi as int))[k + jj] == words(s)[jj]);
                assert(k + jj == (k + 1) + j);
            }
        }
        pos = b;
        k = k + 1;
    }
    let w = first_word_range(v, pos, hi);
    match w {
        Some((a, b)) => {
            proof {
                let s = v@.subrange(pos as int, hi as int);
                assert(words(s).len() > 0);
                assert(words(v@.subrange(lo as int, hi as int))[k + 0] == words(s)[0]);
            }
            Some((a, b))
        },
        None => None,
    }
}

/// `v[lo..hi].parse::<u64>().ok()`.
pub fn parse_u64_range(v: &Vec<char>, lo: usize, hi: usize) -> (r: Option<u64>)
    requires
        lo <= hi <= v@.len(),
    ensures
        r == parse_u64(v@.subrange(lo as int, hi as int)),
{
    let ghost s = v@.subrange(lo as int, hi as int);
    if lo == hi {
        return None;
    }
    let start = if v[lo] == '+' {
        lo + 1
    } else {
        lo
    };
    let ghost d = v@.subrange(start as int, hi as int);
    proof {
        if v@[lo as int] == '+' {
            lemma_sub_drop_first(v@, lo as int, hi as int);
        }
        assert(s[0] == v@[lo as int]);
        assert((if s[0] == '+' { s.drop_first() } else { s }) == d);
    }
    if start == hi {
        return None;
    }
    let mut value: u64 = 0;
    let mut i = start;
    while i < hi
        invariant
            lo <= start <= i <= hi <= v@.len(),
            start < hi,
            d == v@.subrange(start as int, hi as int),
            s == v@.subrange(lo as int, hi as int),
            s.len() > 0,
            (if s[0] == '+' { s.drop_first() } else { s }) == d,
            forall|j: int| start <= j < i ==> is_ascii_digit(#[trigger] v@[j]),
            value == digits_value(d.take(i - start)),
        decreases hi - i,
    {
        let c = v[i];
        if !('0' <= c && c <= '9') {
            assert(!is_ascii_digit(d[i - start]));
            assert(!all_digits(d));
            return None;
        }
        let digit = (c as u32 - '0' as u32) as u64;
        proof {
            assert(d.take(i - start + 1).drop_last() =~= d.take(i - start));
            assert(d.take(i - start + 1).last() == c);
        }
        if value > (u64::MAX - digit) / 10 {
            proof {
                assert(digits_value(d.take(i - start + 1)) > u64::MAX) by (nonlinear_arith)
                    requires
                        value > (u64::MAX - digit) / 10,
                        digits_value(d.take(i - start + 1)) == value * 10 + digit,
                        digit <= 9,
                ;
                lemma_digits_value_take_le(d, i - start + 1);
                if all_digits(d) {
                }
            }
            return None;
        }
        proof {
            assert(value * 10 + digit <= u64::MAX) by (nonlinear_arith)
                requires
                    value <= (u64::MAX - digit) / 10,
                    digit <= 9,
            ;
        }
        value = value * 10 + digit;
        i = i + 1;
    }
    proof {
        assert(d.take(d.len() as int) =~= d);
        assert(all_digits(d));
    }
    Some(value)
}

/// `v[lo..hi].parse::<u8>().ok()`.
pub fn parse_u8_range(v: &Vec<char>, lo: usize, hi: usize) -> (r: Option<u8>)
    requires
        lo <= hi <= v@.len(),
    ensures
        r == parse_u8(v@.subrange(lo as int, hi as int)),
{
    let ghost s = v@.subrange(lo as int, hi as int);
    match parse_u64_range(v, lo, hi) {
        Some(x) => {
            if x <= 255 {
                Some(x as u8)
            } else {
                None
            }
        },
        None => {
            proof {
                // A value above `u64::MAX` is above `u8::MAX` too.
                if parse_unsigned(s) is Some {
                }
            }
            None
        },
    }
}

/// Range of the rest of the first line of `v` that starts with `key`.
pub fn first_prefixed_range(v: &Vec<char>, key: &Vec<char>) -> (r: Option<(usize, usize)>)
    ensures
        match r {
            Some((a, b)) => a <= b <= v@.len() && first_prefixed(lines(v@), key@) == Some(
                v@.subrange(a as int, b as int),
            ),
            None => first_prefixed(lines(v@), key@) is None,
        },
{
    let mut pos: usize = 0;
    assert(v@.skip(0) =~= v@);
    while pos < v.len()
        invariant
            pos <= v@.len(),
            first_prefixed(lines(v@), key@) == first_prefixed(lines(v@.skip(pos as int)), key@),
        decreases v@.len() - pos,
    {
        let (end, next) = next_line(v, pos);
        let ghost line = v@.subrange(pos as int, end as int);
        proof {
            lemma_lines_cons(v@.skip(pos as int), line, lines(v@.skip(next as int)));
        }
        if has_prefix(v, pos, end, key) {
            assert(line.skip(key@.len() as int) =~= v@.subrange(pos + key@.len(), end as int));
            return Some((pos + key.len(), end));
        }
        pos = next;
    }
    assert(v@.skip(pos as int) =~= Seq::<char>::empty());
    None
}

/// Range of the rest of the first line of `v` whose trimmed text starts with `key`.
pub fn first_trimmed_prefixed_range(v: &Vec<char>, key: &Vec<char>) -> (r: Option<
    (usize, usize),
>)
    ensures
        match r {
            Some((a, b)) => a <= b <= v@.len() && first_trimmed_prefixed(lines(v@), key@) == Some(
                v@.subrange(a as int, b as int),
            ),
            None => first_trimmed_prefixed(lines(v@), key@) is None,
        },
{
    let mut pos: usize = 0;
    assert(v@.skip(0) =~= v@);
    while pos < v.len()
        invariant
            pos <= v@.len(),
            first_trimmed_prefixed(lines(v@), key@) == first_trimmed_prefixed(
                lines(v@.skip(pos as int)),
                key@,
            ),
        decreases v@.len() - pos,
    {
        let (end, next) = next_line(v, pos);
        let ghost line = v@.subrange(pos as int, end as int);
        proof {
            lemma_lines_cons(v@.skip(pos as int), line, lines(v@.skip(next as int)));
        }
        let (a, b) = trim_range(v, pos, end);
        if has_prefix(v, a, b, key) {
            assert(v@.subrange(a as int, b as int).skip(key@.len() as int) =~= v@.subrange(
                a + key@.len(),
                b as int,
            ));
            return Some((a + key.len(), b));
        }
        pos = next;
    }
    assert(v@.skip(pos as int) =~= Seq::<char>::empty());
    None
}

/// `v[lo..hi].strip_suffix(c)`: the end of the range without its last `c`.
pub fn strip_suffix_range(v: &Vec<char>, lo: usize, hi: usize, c: char) -> (r: Option<usize>)
    requires
        lo <= hi <= v@.len(),
    ensures
        match r {
            Some(k) => lo <= k <= hi && strip_suffix_char(v@.subrange(lo as int, hi as int), c)
                == Some(v@.subrange(lo as int, k as int)),
            None => strip_suffix_char(v@.subrange(lo as int, hi as int), c) is None,
        },
{
    if hi > lo && v[hi - 1] == c {
        proof {
            lemma_sub_drop_last(v@, lo as int, hi as int);
        }
        Some(hi - 1)
    } else {
        None
    }
}

/// Whether `v[lo..hi]`, lowercased in ASCII, equals `w`.
pub fn lower_range_eq(v: &Vec<char>, lo: usize, hi: usize, w: &Vec<char>) -> (b: bool)
    requires
        lo <= hi <= v@.len(),
    ensures
        b == (ascii_lowercase(v@.subrange(lo as int, hi as int)) == w@),
{
    let ghost l = ascii_lowercase(v@.subrange(lo as int, hi as int));
    if w.len() != hi - lo {
        assert(l.len() != w@.len());
        return false;
    }
    let mut i: usize = 0;
    while i < w.len()
        invariant
            lo <= hi <= v@.len(),
            w@.len() == hi - lo,
            l == ascii_lowercase(v@.subrange(lo as int, hi as int)),
            i <= w@.len(),
            forall|j: int| 0 <= j < i ==> l[j] == w@[j],
        decreases w@.len() - i,
    {
        let c = v[lo + i];
        let lc = if 'A' <= c && c <= 'Z' {
            ((c as u8) + 32) as char
        } else {
            c
        };
        assert(lc == l[i as int]);
        if lc != w[i] {
            return false;
        }
        i = i + 1;
    }
    assert(l =~= w@);
    true
}

// ---------------------------------------------------------------------------
// Output helpers
// ---------------------------------------------------------------------------
/// The one-character text of a decimal digit.
pub fn digit_text(d: u64) -> (r: &'static str)
    requires
        d < 10,
    ensures
        r@ == seq![digit_char(d as nat)],
{
    proof {
        reveal_strlit("0");
        reveal_strlit("1");
        reveal_strlit("2");
        reveal_strlit("3");
        reveal_strlit("4");
        reveal_strlit("5");
        reveal_strlit("6");
        reveal_strlit("7");
        reveal_strlit("8");
        reveal_strlit("9");
    }
    if d == 0 {
        "0"
    } else if d == 1 {
        "1"
    } else if d == 2 {
        "2"
    } else if d == 3 {
        "3"
    } else if d == 4 {
        "4"
    } else if d == 5 {
        "5"
    } else if d == 6 {
        "6"
    } else if d == 7 {
        "7"
    } else if d == 8 {
        "8"
    } else {
        "9"
    }
}

/// Appends the decimal rendering of `n` to `out`.
pub fn push_decimal(out: &mut String, n: u64)
    ensures
        final(out)@ == old(out)@ + decimal(n as nat),
    decreases n,
{
    if n >= 10 {
        push_decimal(out, n / 10);
    }
    out.append(digit_text(n % 10));
    proof {
        if n >= 10 {
            assert(decimal(n as nat) == decimal((n / 10) as nat).push(digit_char((n % 10) as nat)));
        }
    }
    assert(final(out)@ =~= old(out)@ + decimal(n as nat));
}

/// Appends `format!("{n:02}")` to `out`.
pub fn push_decimal2(out: &mut String, n: u64)
    ensures
        final(out)@ == old(out)@ + decimal2(n as nat),
{
    if n < 10 {
        proof {
            reveal_strlit("0");
        }
        out.append("0");
    }
    push_decimal(out, n);
    assert(final(out)@ =~= old(out)@ + decimal2(n as nat));
}

} // verus!
