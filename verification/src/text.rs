//! Character classes, decimal digits and string assembly shared by the codecs.

use vstd::prelude::*;
use vstd::string::*;

verus! {

/// A word character of the gateway's grammars: an ASCII letter, digit or underscore.
pub open spec fn is_word(c: char) -> bool {
    ('a' <= c && c <= 'z') || ('A' <= c && c <= 'Z') || is_digit(c) || c == '_'
}

/// An ASCII decimal digit.
pub open spec fn is_digit(c: char) -> bool {
    '0' <= c && c <= '9'
}

/// A character of a hostname label as the gateway reads it: a word character or a hyphen.
pub open spec fn is_label(c: char) -> bool {
    is_word(c) || c == '-'
}

/// Every character of `s` in `[from, to)` satisfies the label class.
pub open spec fn all_label(s: Seq<char>, from: int, to: int) -> bool {
    forall|i: int| from <= i < to ==> is_label(#[trigger] s[i])
}

/// Every character of `s` in `[from, to)` is a digit.
pub open spec fn all_digit(s: Seq<char>, from: int, to: int) -> bool {
    forall|i: int| from <= i < to ==> is_digit(#[trigger] s[i])
}

pub fn digit_char(c: char) -> (r: bool)
    ensures
        r == is_digit(c),
{
    '0' <= c && c <= '9'
}

pub fn word_char(c: char) -> (r: bool)
    ensures
        r == is_word(c),
{
    ('a' <= c && c <= 'z') || ('A' <= c && c <= 'Z') || digit_char(c) || c == '_'
}

pub fn label_char(c: char) -> (r: bool)
    ensures
        r == is_label(c),
{
    word_char(c) || c == '-'
}

/// The characters of an ASCII text, read off its bytes.
fn ascii_chars_of(s: &str) -> (v: Vec<char>)
    requires
        s.is_ascii(),
    ensures
        v@ == s@,
{
    let bytes: &[u8] = s.as_bytes();
    proof {
        vstd::utf8::is_ascii_chars_encode_utf8(s@);
    }
    let n: usize = bytes.len();
    let mut v: Vec<char> = Vec::new();
    let mut i: usize = 0;
    while i < n
        invariant
            n == s@.len(),
            n == bytes@.len(),
            bytes@ == s.spec_bytes(),
            s.is_ascii(),
            forall|j: int| 0 <= j < n ==> s@[j] as u8 == #[trigger] bytes@[j],
            i <= n,
            v@ == s@.subrange(0, i as int),
        decreases n - i,
    {
        let c: char = bytes[i] as char;
        assert(c == s@[i as int]) by {
            assert('\0' <= s@[i as int] <= '\u{7f}');
        }
        v.push(c);
        i = i + 1;
        assert(v@ =~= s@.subrange(0, i as int));
    }
    assert(s@.subrange(0, n as int) =~= s@);
    v
}

/// The characters of `s`, in order.
pub fn chars_of(s: &str) -> (v: Vec<char>)
    ensures
        v@ == s@,
{
    if s.is_ascii() {
        return ascii_chars_of(s);
    }
    let n: usize = s.unicode_len();
    let mut v: Vec<char> = Vec::new();
    let mut i: usize = 0;
    while i < n
        invariant
            n == s@.len(),
            i <= n,
            v@ == s@.subrange(0, i as int),
        decreases n - i,
    {
        v.push(s.get_char(i));
        i = i + 1;
        assert(v@ =~= s@.subrange(0, i as int));
    }
    assert(s@.subrange(0, n as int) =~= s@);
    v
}

/// The character of a decimal digit `d`.
pub open spec fn digit_of(d: int) -> char {
    if d == 0 {
        '0'
    } else if d == 1 {
        '1'
    } else if d == 2 {
        '2'
    } else if d == 3 {
        '3'
    } else if d == 4 {
        '4'
    } else if d == 5 {
        '5'
    } else if d == 6 {
        '6'
    } else if d == 7 {
        '7'
    } else if d == 8 {
        '8'
    } else {
        '9'
    }
}

/// The decimal numeral of `n`, without leading zeros.
pub open spec fn decimal(n: nat) -> Seq<char>
    decreases n,
{
    if n < 10 {
        seq![digit_of(n as int)]
    } else {
        decimal(n / 10).push(digit_of((n % 10) as int))
    }
}

/// A decimal numeral is a non-empty run of digits.
pub proof fn lemma_decimal_digits(n: nat)
    ensures
        decimal(n).len() >= 1,
        all_digit(decimal(n), 0, decimal(n).len() as int),
    decreases n,
{
    if n >= 10 {
        lemma_decimal_digits(n / 10);
    }
}

/// The one-character string of a decimal digit.
pub fn digit_str(d: u8) -> (r: &'static str)
    requires
        d < 10,
    ensures
        r@ == seq![digit_of(d as int)],
{
    proof {
        reveal_strlit("0");
        reveal_strlit("1");
        reveal_strlit("2");
        reveal_strlit("3");
        reveal_strlit("4");
        reveal_strlit("5");
        reveal_strlit("6");
        reveal_strlit("7");
        reveal_strlit("8");
        reveal_strlit("9");
    }
    let r: &'static str = match d {
        0 => "0",
        1 => "1",
        2 => "2",
        3 => "3",
        4 => "4",
        5 => "5",
        6 => "6",
        7 => "7",
        8 => "8",
        _ => "9",
    };
    assert(r@ =~= seq![digit_of(d as int)]);
    r
}

/// The decimal numeral of a `u64`.
pub fn decimal_string(v: u64) -> (r: String)
    ensures
        r@ == decimal(v as nat),
    decreases v,
{
    if v < 10 {
        let d: u8 = v as u8;
        String::from_str(digit_str(d))
    } else {
        let mut out: String = decimal_string(v / 10);
        let d: u8 = (v % 10) as u8;
        out.append(digit_str(d));
        assert(out@ =~= decimal(v as nat));
        out
    }
}

/// Whether two texts are the same.
pub fn same_text(a: &str, b: &str) -> (r: bool)
    ensures
        r == (a@ == b@),
{
    let x: String = a.to_owned();
    let y: String = b.to_owned();
    x == y
}

/// The lower-case form of an ASCII letter; any other character is itself.
pub open spec fn ascii_lower(c: char) -> char {
    if 'A' <= c && c <= 'Z' {
        ((c as u8 + 32) as u8) as char
    } else {
        c
    }
}

/// Two texts are the same but for the case of their ASCII letters.
pub open spec fn same_ignoring_case(a: Seq<char>, b: Seq<char>) -> bool {
    &&& a.len() == b.len()
    &&& forall|i: int| 0 <= i < a.len() ==> ascii_lower(#[trigger] a[i]) == ascii_lower(b[i])
}

fn lower_char(c: char) -> (r: char)
    ensures
        r == ascii_lower(c),
{
    if 'A' <= c && c <= 'Z' {
        ((c as u8) + 32) as char
    } else {
        c
    }
}

/// Whether two texts are the same but for the case of their ASCII letters.
pub fn eq_ignore_ascii_case(a: &str, b: &str) -> (r: bool)
    ensures
        r == same_ignoring_case(a@, b@),
{
    let x: Vec<char> = chars_of(a);
    let y: Vec<char> = chars_of(b);
    if x.len() != y.len() {
        return false;
    }
    let mut i: usize = 0;
    while i < x.len()
        invariant
            i <= x.len(),
            x.len() == y.len(),
            x@ == a@,
            y@ == b@,
            forall|j: int| 0 <= j < i ==> ascii_lower(#[trigger] x@[j]) == ascii_lower(y@[j]),
        decreases x.len() - i,
    {
        if lower_char(x[i]) != lower_char(y[i]) {
            return false;
        }
        i = i + 1;
    }
    true
}

/// The number that a digit stands for.
pub open spec fn digit_value(c: char) -> nat {
    (c as u32 - 48) as nat
}

/// The number that a run of digits stands for.
pub open spec fn digits_value(s: Seq<char>) -> nat
    decreases s.len(),
{
    if s.len() == 0 {
        0
    } else {
        digits_value(s.drop_last()) * 10 + digit_value(s.last())
    }
}

/// A longer run of digits stands for no smaller number.
pub proof fn lemma_digits_grow(s: Seq<char>, k: int)
    requires
        0 <= k <= s.len(),
    ensures
        digits_value(s.subrange(0, k)) <= digits_value(s),
    decreases s.len() - k,
{
    if k < s.len() {
        lemma_digits_grow(s.drop_last(), k);
        assert(s.drop_last().subrange(0, k) =~= s.subrange(0, k));
    } else {
        assert(s.subrange(0, k) =~= s);
    }
}

/// The number of the digits in `[i, e)`, or `None` where it is above `cap`.
pub fn read_digits(v: &Vec<char>, i: usize, e: usize, cap: u64) -> (r: Option<u64>)
    requires
        i <= e <= v.len(),
        all_digit(v@, i as int, e as int),
    ensures
        match r {
            Some(x) => x == digits_value(v@.subrange(i as int, e as int)) && x <= cap,
            None => digits_value(v@.subrange(i as int, e as int)) > cap,
        },
{
    let mut acc: u128 = 0;
    let mut k: usize = i;
    assert(v@.subrange(i as int, i as int) =~= Seq::<char>::empty());
    while k < e
        invariant
            i <= k <= e <= v.len(),
            all_digit(v@, i as int, e as int),
            acc == digits_value(v@.subrange(i as int, k as int)),
            acc <= cap,
        decreases e - k,
    {
        let c: char = v[k];
        assert(is_digit(v@[k as int]));
        let d: u128 = (c as u32 - 48) as u128;
        let ghost next = v@.subrange(i as int, k + 1);
        assert(next.drop_last() =~= v@.subrange(i as int, k as int));
        assert(next.last() == c);
        let wide: u128 = acc * 10 + d;
        assert(wide == digits_value(next));
        if wide > cap as u128 {
            proof {
                let whole = v@.subrange(i as int, e as int);
                lemma_digits_grow(whole, k + 1 - i);
                assert(whole.subrange(0, k + 1 - i) =~= next);
            }
            return None;
        }
        acc = wide;
        k = k + 1;
    }
    Some(acc as u64)
}

/// The number that a text stands for as Rust reads an unsigned integer:
/// an optional `+`, then digits and nothing else, and no more than `max`.
pub open spec fn unsigned_of(s: Seq<char>, max: nat) -> Option<nat> {
    let digits = if s.len() > 0 && s[0] == '+' {
        s.subrange(1, s.len() as int)
    } else {
        s
    };
    if digits.len() == 0 || !all_digit(digits, 0, digits.len() as int) {
        None
    } else if digits_value(digits) > max {
        None
    } else {
        Some(digits_value(digits))
    }
}

/// Reads an unsigned integer of at most `max` from a text.
pub fn parse_unsigned(text: &str, max: u64) -> (r: Option<u64>)
    ensures
        match r {
            Some(x) => unsigned_of(text@, max as nat) == Some(x as nat),
            None => unsigned_of(text@, max as nat) is None,
        },
{
    let v: Vec<char> = chars_of(text);
    let n: usize = v.len();
    let signed: bool = n > 0 && v[0] == '+';
    let start: usize = if signed {
        1
    } else {
        0
    };
    let ghost digits = if signed {
        v@.subrange(1, n as int)
    } else {
        v@
    };
    if start == n {
        return None;
    }
    let mut k: usize = start;
    while k < n
        invariant
            start <= k <= n,
            n == v.len(),
            v@ == text@,
            start == if signed { 1int } else { 0int },
            signed == (n > 0 && v@[0] == '+'),
            digits == if signed { v@.subrange(1, n as int) } else { v@ },
            all_digit(v@, start as int, k as int),
        decreases n - k,
    {
        if !digit_char(v[k]) {
            assert(digits[k - start] == v@[k as int]);
            return None;
        }
        k = k + 1;
    }
    assert(all_digit(digits, 0, digits.len() as int)) by {
        assert forall|i: int| 0 <= i < digits.len() implies is_digit(#[trigger] digits[i]) by {
            assert(digits[i] == v@[i + start]);
        }
    }
    assert(v@.subrange(start as int, n as int) =~= digits);
    read_digits(&v, start, n, max)
}

/// The pieces of a text between the occurrences of a separator, in
/// order. A text without the separator is its own single piece, and a
/// separator at either end leaves an empty piece there.
pub open spec fn split(s: Seq<char>, sep: char) -> Seq<Seq<char>>
    decreases s.len(),
{
    if s.len() == 0 {
        seq![Seq::<char>::empty()]
    } else {
        let init = split(s.drop_last(), sep);
        if s.last() == sep {
            init.push(Seq::<char>::empty())
        } else {
            init.update(init.len() - 1, init.last().push(s.last()))
        }
    }
}

/// The texts of some strings.
pub open spec fn texts(v: Seq<String>) -> Seq<Seq<char>> {
    Seq::new(v.len(), |i: int| v[i]@)
}

/// Splits a text at every occurrence of a separator.
pub fn split_text(text: &str, sep: char) -> (r: Vec<String>)
    ensures
        texts(r@) == split(text@, sep),
{
    let v: Vec<char> = chars_of(text);
    let n: usize = v.len();
    let mut out: Vec<String> = Vec::new();
    let mut start: usize = 0;
    let mut i: usize = 0;
    assert(v@.subrange(0, 0) =~= Seq::<char>::empty());
    assert(split(v@.subrange(0, 0), sep) =~= texts(out@).push(v@.subrange(0, 0)));
    while i < n
        invariant
            start <= i <= n,
            n == v.len(),
            v@ == text@,
            split(v@.subrange(0, i as int), sep) == texts(out@).push(
                v@.subrange(start as int, i as int),
            ),
        decreases n - i,
    {
        let ghost before = v@.subrange(0, i as int);
        let ghost next = v@.subrange(0, i + 1);
        let ghost done = texts(out@);
        let ghost piece = v@.subrange(start as int, i as int);
        assert(next.drop_last() =~= before);
        assert(next.last() == v@[i as int]);
        if v[i] == sep {
            out.push(text.substring_char(start, i).to_owned());
            start = i + 1;
            assert(texts(out@) =~= done.push(piece));
            assert(v@.subrange(start as int, i + 1) =~= Seq::<char>::empty());
        } else {
            assert(piece.push(v@[i as int]) =~= v@.subrange(start as int, i + 1));
            assert(done.push(piece).last() == piece);
            assert(done.push(piece).update(done.len() as int, piece.push(v@[i as int])) =~= done.push(
                v@.subrange(start as int, i + 1),
            ));
        }
        i = i + 1;
    }
    let ghost done = texts(out@);
    out.push(text.substring_char(start, n).to_owned());
    assert(texts(out@) =~= done.push(v@.subrange(start as int, n as int)));
    assert(v@.subrange(0, n as int) =~= v@);
    out
}

/// The text of an optional string slice.
pub open spec fn opt_text(s: Option<&str>) -> Option<Seq<char>> {
    match s {
        Some(t) => Some(t@),
        None => None,
    }
}

/// A text without the occurrences of a pattern, found from the left and
/// not overlapping. An empty pattern takes nothing away.
pub open spec fn without(s: Seq<char>, pattern: Seq<char>) -> Seq<char>
    decreases s.len(),
{
    if pattern.len() == 0 || s.len() < pattern.len() {
        s
    } else if s.subrange(0, pattern.len() as int) == pattern {
        without(s.subrange(pattern.len() as int, s.len() as int), pattern)
    } else {
        seq![s[0]] + without(s.subrange(1, s.len() as int), pattern)
    }
}

/// Whether the pattern stands in the text at `at`.
fn stands_at(v: &Vec<char>, at: usize, pattern: &Vec<char>) -> (r: bool)
    requires
        at + pattern.len() <= v.len(),
    ensures
        r == (v@.subrange(at as int, at + pattern.len()) == pattern@),
{
    let mut k: usize = 0;
    while k < pattern.len()
        invariant
            k <= pattern.len(),
            at + pattern.len() <= v.len(),
            forall|j: int| 0 <= j < k ==> v@[at + j] == pattern@[j],
        decreases pattern.len() - k,
    {
        if v[at + k] != pattern[k] {
            assert(v@.subrange(at as int, at + pattern.len())[k as int] != pattern@[k as int]);
            return false;
        }
        k = k + 1;
    }
    assert(v@.subrange(at as int, at + pattern.len()) =~= pattern@);
    true
}

/// Takes every occurrence of a pattern out of a text.
pub fn remove_all(text: &str, pattern: &str) -> (r: String)
    ensures
        r@ == without(text@, pattern@),
{
    let v: Vec<char> = chars_of(text);
    let p: Vec<char> = chars_of(pattern);
    let n: usize = v.len();
    let m: usize = p.len();
    if m == 0 || n < m {
        return text.to_owned();
    }
    let mut out: String = String::new();
    let mut kept: usize = 0;
    let mut i: usize = 0;
    assert(v@.subrange(0, 0) =~= Seq::<char>::empty());
    assert(v@.subrange(0, n as int) =~= v@);
    assert(out@ + v@.subrange(0, 0) + without(v@, p@) =~= without(v@, p@));
    while n - i >= m
        invariant
            0 < m <= n,
            n == v.len(),
            m == p.len(),
            v@ == text@,
            p@ == pattern@,
            kept <= i <= n,
            without(v@, p@) == out@ + v@.subrange(kept as int, i as int) + without(
                v@.subrange(i as int, n as int),
                p@,
            ),
        decreases n - i,
    {
        let ghost rest = v@.subrange(i as int, n as int);
        let ghost held = v@.subrange(kept as int, i as int);
        assert(rest.subrange(0, m as int) =~= v@.subrange(i as int, i + m));
        if stands_at(&v, i, &p) {
            out.append(text.substring_char(kept, i));
            assert(rest.subrange(m as int, rest.len() as int) =~= v@.subrange(i + m, n as int));
            i = i + m;
            kept = i;
            assert(v@.subrange(kept as int, i as int) =~= Seq::<char>::empty());
            assert(out@ + v@.subrange(kept as int, i as int) =~= out@);
        } else {
            assert(rest.subrange(1, rest.len() as int) =~= v@.subrange(i + 1, n as int));
            assert(held + seq![rest[0]] =~= v@.subrange(kept as int, i + 1));
            assert(out@ + held + (seq![rest[0]] + without(v@.subrange(i + 1, n as int), p@)) =~= out@
                + v@.subrange(kept as int, i + 1) + without(v@.subrange(i + 1, n as int), p@));
            i = i + 1;
        }
    }
    assert(without(v@.subrange(i as int, n as int), p@) == v@.subrange(i as int, n as int));
    assert(v@.subrange(kept as int, i as int) + v@.subrange(i as int, n as int) =~= v@.subrange(
        kept as int,
        n as int,
    ));
    out.append(text.substring_char(kept, n));
    assert(out@ =~= without(v@, p@));
    out
}

} // verus!
