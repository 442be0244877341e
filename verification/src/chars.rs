//! Character and string helpers shared by the builder and the interpreter.

use vstd::prelude::*;
use vstd::string::*;

verus! {

/// Whether `c` has the Unicode property `White_Space`.
pub open spec fn is_whitespace(c: char) -> bool {
    ||| '\u{9}' <= c <= '\u{D}'
    ||| c == ' '
    ||| c == '\u{85}'
    ||| c == '\u{A0}'
    ||| c == '\u{1680}'
    ||| '\u{2000}' <= c <= '\u{200A}'
    ||| c == '\u{2028}'
    ||| c == '\u{2029}'
    ||| c == '\u{202F}'
    ||| c == '\u{205F}'
    ||| c == '\u{3000}'
}

/// Whether every character of `s` is whitespace. The empty string is blank.
pub open spec fn is_blank(s: Seq<char>) -> bool {
    forall|i: int| 0 <= i < s.len() ==> is_whitespace(#[trigger] s[i])
}

/// The number of whitespace characters at the start of `s`, counted from `i`.
pub open spec fn leading_whitespace(s: Seq<char>, i: int) -> int
    decreases s.len() - i,
{
    if 0 <= i < s.len() && is_whitespace(s[i]) {
        leading_whitespace(s, i + 1)
    } else {
        i
    }
}

/// `s` without its leading whitespace.
pub open spec fn trim_start(s: Seq<char>) -> Seq<char> {
    s.subrange(leading_whitespace(s, 0), s.len() as int)
}

/// Whether `s` is non-empty and ends in a character that is not whitespace.
pub open spec fn ends_in_word(s: Seq<char>) -> bool {
    s.len() > 0 && !is_whitespace(s.last())
}

/// The decimal digit for `d`, which must be below ten.
pub open spec fn digit(d: nat) -> char {
    if d == 0 {
        '0'
    } else if d == 1 {
        '1'
    } else if d == 2 {
        '2'
    } else if d == 3 {
        '3'
    } else if d == 4 {
        '4'
    } else if d == 5 {
        '5'
    } else if d == 6 {
        '6'
    } else if d == 7 {
        '7'
    } else if d == 8 {
        '8'
    } else {
        '9'
    }
}

/// `n` written in decimal, without leading zeros.
pub open spec fn decimal(n: nat) -> Seq<char>
    decreases n,
{
    if n < 10 {
        seq![digit(n)]
    } else {
        decimal(n / 10).push(digit(n % 10))
    }
}

/// The leading whitespace from `i` ends at or before the end of `s`: all from
/// `i` up to there is whitespace, and what stands there, if anything, is not.
pub proof fn lemma_leading_whitespace_bounds(s: Seq<char>, i: int)
    requires
        0 <= i <= s.len(),
    ensures
        i <= leading_whitespace(s, i) <= s.len(),
        forall|j: int| i <= j < leading_whitespace(s, i) ==> is_whitespace(#[trigger] s[j]),
        leading_whitespace(s, i) < s.len() ==> !is_whitespace(s[leading_whitespace(s, i)]),
    decreases s.len() - i,
{
    if i < s.len() && is_whitespace(s[i]) {
        lemma_leading_whitespace_bounds(s, i + 1);
    }
}

/// Tests a character for the Unicode property `White_Space`.
pub fn char_is_whitespace(c: char) -> (b: bool)
    ensures
        b == is_whitespace(c),
{
    ('\u{9}' <= c && c <= '\u{D}') || c == ' ' || c == '\u{85}' || c == '\u{A0}' || c == '\u{1680}'
        || ('\u{2000}' <= c && c <= '\u{200A}') || c == '\u{2028}' || c == '\u{2029}' || c
        == '\u{202F}' || c == '\u{205F}' || c == '\u{3000}'
}

/// Compares two strings character by character.
pub fn same_chars(a: &str, b: &str) -> (r: bool)
    ensures
        r == (a@ == b@),
{
    let n = a.unicode_len();
    if n != b.unicode_len() {
        return false;
    }
    let mut i: usize = 0;
    while i < n
        invariant
            n == a@.len(),
            n == b@.len(),
            i <= n,
            forall|j: int| 0 <= j < i ==> a@[j] == b@[j],
        decreases n - i,
    {
        if a.get_char(i) != b.get_char(i) {
            return false;
        }
        i += 1;
    }
    assert(a@ =~= b@);
    true
}

/// Whether every character of `s` is whitespace.
pub fn str_is_blank(s: &str) -> (b: bool)
    ensures
        b == is_blank(s@),
{
    for c in it: s.chars()
        invariant
            it.seq() == s@,
            forall|j: int| 0 <= j < it.index() ==> is_whitespace(#[trigger] s@[j]),
    {
        if !char_is_whitespace(c) {
            return false;
        }
    }
    true
}

/// The one-character string that holds the decimal digit for `d`.
fn digit_str(d: u128) -> (s: &'static str)
    requires
        d < 10,
    ensures
        s@ == seq![digit(d as nat)],
{
    proof {
        reveal_strlit("0");
        reveal_strlit("1");
        reveal_strlit("2");
        reveal_strlit("3");
        reveal_strlit("4");
        reveal_strlit("5");
        reveal_strlit("6");
        reveal_strlit("7");
        reveal_strlit("8");
        reveal_strlit("9");
    }
    let s = if d == 0 {
        "0"
    } else if d == 1 {
        "1"
    } else if d == 2 {
        "2"
    } else if d == 3 {
        "3"
    } else if d == 4 {
        "4"
    } else if d == 5 {
        "5"
    } else if d == 6 {
        "6"
    } else if d == 7 {
        "7"
    } else if d == 8 {
        "8"
    } else {
        "9"
    };
    assert(s@ =~= seq![digit(d as nat)]);
    s
}

/// Writes `n` in decimal, without leading zeros.
pub fn decimal_string(n: u128) -> (s: String)
    ensures
        s@ == decimal(n as nat),
    decreases n,
{
    if n < 10 {
        digit_str(n).to_owned()
    } else {
        let mut s = decimal_string(n / 10);
        s.append(digit_str(n % 10));
        assert(s@ =~= decimal((n / 10) as nat).push(digit((n % 10) as nat)));
        s
    }
}

/// The characters of a string.
pub fn chars_of(s: &str) -> (v: Vec<char>)
    ensures
        v@ == s@,
{
    let mut v: Vec<char> = Vec::new();
    for c in it: s.chars()
        invariant
            it.seq() == s@,
            v@ == s@.take(it.index() as int),
    {
        v.push(c);
        assert(v@ =~= s@.take(it.index() + 1));
    }
    assert(s@.take(s@.len() as int) =~= s@);
    v
}

/// Whether `v` holds exactly the characters of `lit`.
pub fn chars_are(v: &Vec<char>, lit: &str) -> (b: bool)
    ensures
        b == (v@ == lit@),
{
    let n = lit.unicode_len();
    if v.len() != n {
        return false;
    }
    let mut i: usize = 0;
    while i < n
        invariant
            n == v@.len(),
            n == lit@.len(),
            i <= n,
            forall|j: int| 0 <= j < i ==> v@[j] == lit@[j],
        decreases n - i,
    {
        if v[i] != lit.get_char(i) {
            return false;
        }
        i += 1;
    }
    assert(v@ =~= lit@);
    true
}

/// The index of the first `sep` in `s` at or after `i`, or the length of `s`
/// if there is none.
pub open spec fn find_char(s: Seq<char>, sep: char, i: int) -> int
    decreases s.len() - i,
{
    if 0 <= i < s.len() && s[i] != sep {
        find_char(s, sep, i + 1)
    } else if i < s.len() {
        i
    } else {
        s.len() as int
    }
}

/// `find_char` gives an index from `i` up to the length, and one below the
/// length holds `sep`.
pub proof fn lemma_find_char_bounds(s: Seq<char>, sep: char, i: int)
    requires
        0 <= i <= s.len(),
    ensures
        i <= find_char(s, sep, i) <= s.len(),
        find_char(s, sep, i) < s.len() ==> s[find_char(s, sep, i)] == sep,
    decreases s.len() - i,
{
    if i < s.len() && s[i] != sep {
        lemma_find_char_bounds(s, sep, i + 1);
    }
}

/// The index past the last character of `s` that is not whitespace, looking
/// back from `hi`: zero if there is none.
pub open spec fn trailing_content(s: Seq<char>, hi: int) -> int
    decreases hi,
{
    if 0 < hi <= s.len() && is_whitespace(s[hi - 1]) {
        trailing_content(s, hi - 1)
    } else if hi > 0 {
        hi
    } else {
        0
    }
}

/// `s` without its leading and its trailing whitespace.
pub open spec fn trim(s: Seq<char>) -> Seq<char> {
    let from = leading_whitespace(s, 0);
    let to = trailing_content(s, s.len() as int);
    if from < to <= s.len() {
        s.subrange(from, to)
    } else {
        Seq::empty()
    }
}

/// The characters of `v` from `from` up to, but without, `to`.
pub fn slice_of(v: &Vec<char>, from: usize, to: usize) -> (part: Vec<char>)
    requires
        from <= to <= v.len(),
    ensures
        part@ == v@.subrange(from as int, to as int),
{
    let mut part: Vec<char> = Vec::new();
    let mut i = from;
    while i < to
        invariant
            from <= i <= to,
            to <= v.len(),
            part@ == v@.subrange(from as int, i as int),
        decreases to - i,
    {
        part.push(v[i]);
        assert(part@ =~= v@.subrange(from as int, i + 1));
        i += 1;
    }
    part
}

/// The index of the first `sep` in `v`, or the length of `v`.
pub fn index_of(v: &Vec<char>, sep: char) -> (k: usize)
    ensures
        k == find_char(v@, sep, 0),
        k <= v.len(),
{
    let mut k: usize = 0;
    while k < v.len() && v[k] != sep
        invariant
            k <= v.len(),
            find_char(v@, sep, 0) == find_char(v@, sep, k as int),
        decreases v.len() - k,
    {
        k += 1;
    }
    k
}

/// `v` without its leading and its trailing whitespace.
pub fn trimmed(v: &Vec<char>) -> (t: Vec<char>)
    ensures
        t@ == trim(v@),
{
    let mut from: usize = 0;
    while from < v.len() && char_is_whitespace(v[from])
        invariant
            from <= v.len(),
            leading_whitespace(v@, 0) == leading_whitespace(v@, from as int),
        decreases v.len() - from,
    {
        from += 1;
    }
    let mut to: usize = v.len();
    while to > 0 && char_is_whitespace(v[to - 1])
        invariant
            to <= v.len(),
            trailing_content(v@, v@.len() as int) == trailing_content(v@, to as int),
        decreases to,
    {
        to -= 1;
    }
    if from < to {
        slice_of(v, from, to)
    } else {
        Vec::new()
    }
}

/// The value of `c` as a digit: `0` to `9`, then the letters `a` to `f` in
/// either case for ten to fifteen.
pub open spec fn digit_value(c: char) -> Option<nat> {
    if '0' <= c <= '9' {
        Some((c as u32 - '0' as u32) as nat)
    } else if 'a' <= c <= 'f' {
        Some((c as u32 - 'a' as u32 + 10) as nat)
    } else if 'A' <= c <= 'F' {
        Some((c as u32 - 'A' as u32 + 10) as nat)
    } else {
        None
    }
}

/// Whether `s` is a number in the given radix: at least one character, and
/// each a digit below the radix.
pub open spec fn is_number(s: Seq<char>, radix: nat) -> bool {
    &&& s.len() > 0
    &&& forall|i: int|
        0 <= i < s.len() ==> match digit_value(#[trigger] s[i]) {
            Some(d) => d < radix,
            None => false,
        }
}

/// The value of the digits `s` in the given radix, most significant first.
pub open spec fn number_value(s: Seq<char>, radix: nat) -> nat
    decreases s.len(),
{
    if s.len() == 0 {
        0
    } else {
        number_value(s.drop_last(), radix) * radix + match digit_value(s.last()) {
            Some(d) => d,
            None => 0,
        }
    }
}

/// The number that `s` writes in the given radix, if it writes one that is
/// at most `max`.
pub open spec fn number_of(s: Seq<char>, radix: nat, max: nat) -> Option<nat> {
    if is_number(s, radix) && number_value(s, radix) <= max {
        Some(number_value(s, radix))
    } else {
        None
    }
}

/// A number is at least what its leading digits write.
pub proof fn lemma_number_grows(s: Seq<char>, radix: nat, k: int)
    requires
        0 <= k <= s.len(),
        radix >= 1,
    ensures
        number_value(s.take(k), radix) <= number_value(s, radix),
    decreases s.len() - k,
{
    if k < s.len() {
        lemma_number_grows(s.drop_last(), radix, k);
        assert(s.drop_last().take(k) =~= s.take(k));
        let head = number_value(s.drop_last(), radix);
        assert(head <= head * radix) by (nonlinear_arith)
            requires
                radix >= 1,
        ;
    } else {
        assert(s.take(k) =~= s);
    }
}

/// The value of `c` as a digit.
pub fn digit_of(c: char) -> (d: Option<u32>)
    ensures
        match d {
            Some(d) => digit_value(c) == Some(d as nat) && d < 16,
            None => digit_value(c) is None,
        },
{
    if '0' <= c && c <= '9' {
        Some(c as u32 - '0' as u32)
    } else if 'a' <= c && c <= 'f' {
        Some(c as u32 - 'a' as u32 + 10)
    } else if 'A' <= c && c <= 'F' {
        Some(c as u32 - 'A' as u32 + 10)
    } else {
        None
    }
}

/// Reads `v` as a number in the given radix that is at most `max`.
pub fn parse_number(v: &Vec<char>, radix: u32, max: u64) -> (n: Option<u64>)
    requires
        2 <= radix <= 16,
    ensures
        match n {
            Some(n) => number_of(v@, radix as nat, max as nat) == Some(n as nat),
            None => number_of(v@, radix as nat, max as nat) is None,
        },
{
    if v.len() == 0 {
        return None;
    }
    let mut acc: u128 = 0;
    let mut i: usize = 0;
    while i < v.len()
        invariant
            i <= v.len(),
            2 <= radix <= 16,
            acc <= max,
            acc == number_value(v@.take(i as int), radix as nat),
            forall|j: int|
                0 <= j < i ==> match digit_value(#[trigger] v@[j]) {
                    Some(d) => d < radix,
                    None => false,
                },
        decreases v.len() - i,
    {
        let d = match digit_of(v[i]) {
            Some(d) => d,
            None => {
                return None;
            },
        };
        if d >= radix {
            return None;
        }
        assert(v@.take(i + 1).drop_last() =~= v@.take(i as int));
        assert(acc * (radix as u128) + (d as u128) <= 0x1_0000_0000_0000_0000 * 16 + 16)
            by (nonlinear_arith)
            requires
                acc <= 0xFFFF_FFFF_FFFF_FFFF,
                radix <= 16,
                d < 16,
        ;
        let next = acc * (radix as u128) + (d as u128);
        if next > max as u128 {
            proof {
                if is_number(v@, radix as nat) {
                    lemma_number_grows(v@, radix as nat, i + 1);
                }
            }
            return None;
        }
        acc = next;
        i += 1;
    }
    assert(v@.take(v@.len() as int) =~= v@);
    Some(acc as u64)
}

} // verus!
