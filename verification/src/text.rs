//! Building display text: decimal numbers and character-level string edits.
use vstd::prelude::*;

verus! {

pub open spec fn digit_char(d: int) -> char {
    if d == 0 {
        '0'
    } else if d == 1 {
        '1'
    } else if d == 2 {
        '2'
    } else if d == 3 {
        '3'
    } else if d == 4 {
        '4'
    } else if d == 5 {
        '5'
    } else if d == 6 {
        '6'
    } else if d == 7 {
        '7'
    } else if d == 8 {
        '8'
    } else {
        '9'
    }
}

/// Base-ten digits of `n`, most significant first, without leading zeros.
pub open spec fn decimal(n: nat) -> Seq<char>
    decreases n,
{
    if n < 10 {
        seq![digit_char(n as int)]
    } else {
        decimal(n / 10).push(digit_char((n % 10) as int))
    }
}

/// `decimal(n)` preceded by zeros up to `width` characters.
pub open spec fn zero_padded(n: nat, width: nat) -> Seq<char> {
    let digits = decimal(n);
    if digits.len() < width {
        Seq::new((width - digits.len()) as nat, |i: int| '0') + digits
    } else {
        digits
    }
}

/// `a` comes before `b` in character order: at the first position where
/// they differ, `a`'s character has the smaller code point.
pub open spec fn chars_before(a: Seq<char>, b: Seq<char>) -> bool {
    exists|i: int|
        0 <= i < a.len() && i < b.len() && a.subrange(0, i) == b.subrange(0, i) && (a[i] as u32) < (
        b[i] as u32)
}

pub proof fn lemma_digit_char_order(a: int, b: int)
    requires
        0 <= a < b <= 9,
    ensures
        (digit_char(a) as u32) < (digit_char(b) as u32),
{
}

/// Two-digit numbers are padded to exactly their two digits.
pub proof fn lemma_zero_padded_2(n: nat)
    requires
        n < 100,
    ensures
        zero_padded(n, 2) == seq![digit_char((n / 10) as int), digit_char((n % 10) as int)],
{
    reveal_with_fuel(decimal, 2);
    if n < 10 {
        assert(zero_padded(n, 2) =~= seq!['0', digit_char(n as int)]);
    } else {
        assert(decimal(n / 10) == seq![digit_char((n / 10) as int)]);
    }
}

/// Four-digit numbers are written with exactly their four digits.
pub proof fn lemma_zero_padded_4(n: nat)
    requires
        1000 <= n < 10000,
    ensures
        zero_padded(n, 4) == seq![
            digit_char((n / 1000) as int),
            digit_char(((n / 100) % 10) as int),
            digit_char(((n / 10) % 10) as int),
            digit_char((n % 10) as int),
        ],
{
    reveal_with_fuel(decimal, 4);
    assert((n / 10) / 10 == n / 100);
    assert((n / 100) / 10 == n / 1000);
    assert(decimal(n / 1000) == seq![digit_char((n / 1000) as int)]);
    assert(decimal(n / 100) =~= seq![digit_char((n / 1000) as int), digit_char(((n / 100) % 10) as int)]);
    assert(decimal(n / 10) =~= seq![
        digit_char((n / 1000) as int),
        digit_char(((n / 100) % 10) as int),
        digit_char(((n / 10) % 10) as int),
    ]);
    assert(decimal(n) =~= seq![
        digit_char((n / 1000) as int),
        digit_char(((n / 100) % 10) as int),
        digit_char(((n / 10) % 10) as int),
        digit_char((n % 10) as int),
    ]);
}

/// `String::push`: appends one character.
#[verifier::external_body]
pub(crate) fn push_char(s: &mut String, c: char)
    ensures
        final(s)@ == old(s)@.push(c),
{
    s.push(c);
}

fn digit(d: u64) -> (c: char)
    requires
        d < 10,
    ensures
        c == digit_char(d as int),
{
    match d {
        0 => '0',
        1 => '1',
        2 => '2',
        3 => '3',
        4 => '4',
        5 => '5',
        6 => '6',
        7 => '7',
        8 => '8',
        _ => '9',
    }
}

fn push_decimal(s: &mut String, n: u64)
    ensures
        final(s)@ == old(s)@ + decimal(n as nat),
    decreases n,
{
    if n >= 10 {
        push_decimal(s, n / 10);
    }
    push_char(s, digit(n % 10));
    proof {
        if n < 10 {
            assert(old(s)@ + decimal(n as nat) == old(s)@.push(digit_char(n as int)));
        } else {
            assert(old(s)@ + decimal(n as nat) == (old(s)@ + decimal((n / 10) as nat)).push(
                digit_char((n % 10) as int),
            ));
        }
    }
}

/// Decimal text of `n`.
pub fn decimal_string(n: u64) -> (s: String)
    ensures
        s@ == decimal(n as nat),
{
    let mut s = String::new();
    push_decimal(&mut s, n);
    assert(s@ == Seq::<char>::empty() + decimal(n as nat));
    s
}

/// Appends `n` in decimal, padded with zeros to at least `width` characters.
pub fn push_zero_padded(out: &mut String, n: u64, width: usize)
    ensures
        final(out)@ == old(out)@ + zero_padded(n as nat, width as nat),
{
    let digits = decimal_string(n);
    let len = digits.as_str().unicode_len();
    let mut i = len;
    while i < width
        invariant
            len == decimal(n as nat).len(),
            len <= i,
            i <= width || i == len,
            out@ == old(out)@ + Seq::new((i - len) as nat, |k: int| '0'),
        decreases width - i,
    {
        push_char(out, '0');
        i = i + 1;
        assert(out@ == old(out)@ + Seq::new((i - len) as nat, |k: int| '0'));
    }
    let ghost before = out@;
    out.append(digits.as_str());
    assert(out@ == old(out)@ + zero_padded(n as nat, width as nat)) by {
        if len < width {
            assert(before == old(out)@ + Seq::new((width - len) as nat, |k: int| '0'));
        } else {
            assert(before == old(out)@);
        }
    }
}

/// `prefix` is an initial segment of `s`.
pub open spec fn has_prefix(s: Seq<char>, prefix: Seq<char>) -> bool {
    prefix.len() <= s.len() && s.subrange(0, prefix.len() as int) == prefix
}

/// `suffix` is a final segment of `s`.
pub open spec fn has_suffix(s: Seq<char>, suffix: Seq<char>) -> bool {
    suffix.len() <= s.len() && s.subrange(s.len() - suffix.len(), s.len() as int) == suffix
}

/// Character-wise comparison of `a[a_start..]` with `b` over `b`'s length.
fn matches_at(a: &str, a_start: usize, b: &str) -> (same: bool)
    requires
        a_start + b@.len() <= a@.len(),
    ensures
        same == (a@.subrange(a_start as int, a_start + b@.len()) == b@),
{
    let total = a.unicode_len();
    let n = b.unicode_len();
    let mut i: usize = 0;
    while i < n
        invariant
            total == a@.len(),
            n == b@.len(),
            a_start + n <= a@.len(),
            i <= n,
            forall|k: int| 0 <= k < i ==> a@[a_start + k] == b@[k],
        decreases n - i,
    {
        if a.get_char(a_start + i) != b.get_char(i) {
            assert(a@.subrange(a_start as int, a_start + b@.len())[i as int] != b@[i as int]);
            return false;
        }
        i = i + 1;
    }
    assert(a@.subrange(a_start as int, a_start + b@.len()) =~= b@);
    true
}

/// Whether two strings hold the same characters.
pub fn str_eq(a: &str, b: &str) -> (same: bool)
    ensures
        same == (a@ == b@),
{
    let n = a.unicode_len();
    if n != b.unicode_len() {
        return false;
    }
    let same = matches_at(a, 0, b);
    assert(a@.subrange(0, a@.len() as int) =~= a@);
    same
}

/// Whether `s` begins with `prefix`.
pub fn starts_with(s: &str, prefix: &str) -> (yes: bool)
    ensures
        yes == has_prefix(s@, prefix@),
{
    if prefix.unicode_len() > s.unicode_len() {
        return false;
    }
    matches_at(s, 0, prefix)
}

/// Whether `s` ends with `suffix`.
pub fn ends_with(s: &str, suffix: &str) -> (yes: bool)
    ensures
        yes == has_suffix(s@, suffix@),
{
    let n = s.unicode_len();
    let m = suffix.unicode_len();
    if m > n {
        return false;
    }
    matches_at(s, n - m, suffix)
}

} // verus!
