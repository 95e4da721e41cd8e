use vstd::prelude::*;
use vstd::string::{StrSliceExecFns, StringExecFns};

verus! {

/// The UTF-16 code units of one character.
pub open spec fn utf16_of_char(c: char) -> Seq<u16> {
    let v = c as u32;
    if v < 0x10000 {
        seq![v as u16]
    } else {
        seq![(0xd800 + (v - 0x10000) / 0x400) as u16, (0xdc00 + (v - 0x10000) % 0x400) as u16]
    }
}

/// The UTF-16 code units of a character sequence.
pub open spec fn utf16_of(s: Seq<char>) -> Seq<u16>
    decreases s.len(),
{
    if s.len() == 0 {
        Seq::empty()
    } else {
        utf16_of(s.drop_last()) + utf16_of_char(s.last())
    }
}

/// The digit characters `0`-`9`, then `A`-`F`.
pub open spec fn digit_char(d: int) -> char {
    if d == 0 {
        '0'
    } else if d == 1 {
        '1'
    } else if d == 2 {
        '2'
    } else if d == 3 {
        '3'
    } else if d == 4 {
        '4'
    } else if d == 5 {
        '5'
    } else if d == 6 {
        '6'
    } else if d == 7 {
        '7'
    } else if d == 8 {
        '8'
    } else if d == 9 {
        '9'
    } else if d == 10 {
        'A'
    } else if d == 11 {
        'B'
    } else if d == 12 {
        'C'
    } else if d == 13 {
        'D'
    } else if d == 14 {
        'E'
    } else {
        'F'
    }
}

/// The decimal digits of `n`, without leading zeros.
pub open spec fn decimal(n: nat) -> Seq<char>
    decreases n,
{
    if n < 10 {
        seq![digit_char(n as int)]
    } else {
        decimal(n / 10).push(digit_char((n % 10) as int))
    }
}

/// Four upper-case hexadecimal digits of `v`.
pub open spec fn hex4(v: u16) -> Seq<char> {
    seq![
        digit_char(v as int / 4096),
        digit_char(v as int / 256 % 16),
        digit_char(v as int / 16 % 16),
        digit_char(v as int % 16),
    ]
}

/// Encodes `s` as UTF-16 code units.
pub fn utf16_units(s: &str) -> (r: Vec<u16>)
    ensures
        r@ == utf16_of(s@),
{
    let n = s.unicode_len();
    let mut r: Vec<u16> = Vec::new();
    let mut i: usize = 0;
    while i < n
        invariant
            n == s@.len(),
            i <= n,
            r@ == utf16_of(s@.subrange(0, i as int)),
        decreases n - i,
    {
        let c = s.get_char(i);
        let v = c as u32;
        if v < 0x10000 {
            r.push(v as u16);
        } else {
            assert(v <= 0x10ffff) by {
                vstd::utf8::char_is_scalar(c);
            }
            r.push((0xd800 + (v - 0x10000) / 0x400) as u16);
            r.push((0xdc00 + (v - 0x10000) % 0x400) as u16);
        }
        let ghost next = s@.subrange(0, i + 1);
        assert(next.drop_last() =~= s@.subrange(0, i as int));
        assert(next.last() == c);
        i = i + 1;
        assert(r@ =~= utf16_of(s@.subrange(0, i as int)));
    }
    assert(s@.subrange(0, n as int) =~= s@);
    r
}

/// `a` and `b` hold the same characters.
pub fn str_equals(a: &str, b: &str) -> (r: bool)
    ensures
        r == (a@ == b@),
{
    let n = a.unicode_len();
    if n != b.unicode_len() {
        return false;
    }
    let mut i: usize = 0;
    while i < n
        invariant
            n == a@.len(),
            n == b@.len(),
            i <= n,
            forall|k: int| 0 <= k < i ==> a@[k] == b@[k],
        decreases n - i,
    {
        if a.get_char(i) != b.get_char(i) {
            return false;
        }
        i = i + 1;
    }
    assert(a@ =~= b@);
    true
}

/// The one-character string of digit `d`.
fn digit_str(d: u8) -> (r: &'static str)
    requires
        d < 16,
    ensures
        r@ == seq![digit_char(d as int)],
{
    proof {
        reveal_strlit("0");
        reveal_strlit("1");
        reveal_strlit("2");
        reveal_strlit("3");
        reveal_strlit("4");
        reveal_strlit("5");
        reveal_strlit("6");
        reveal_strlit("7");
        reveal_strlit("8");
        reveal_strlit("9");
        reveal_strlit("A");
        reveal_strlit("B");
        reveal_strlit("C");
        reveal_strlit("D");
        reveal_strlit("E");
        reveal_strlit("F");
    }
    let r = if d == 0 {
        "0"
    } else if d == 1 {
        "1"
    } else if d == 2 {
        "2"
    } else if d == 3 {
        "3"
    } else if d == 4 {
        "4"
    } else if d == 5 {
        "5"
    } else if d == 6 {
        "6"
    } else if d == 7 {
        "7"
    } else if d == 8 {
        "8"
    } else if d == 9 {
        "9"
    } else if d == 10 {
        "A"
    } else if d == 11 {
        "B"
    } else if d == 12 {
        "C"
    } else if d == 13 {
        "D"
    } else if d == 14 {
        "E"
    } else {
        "F"
    };
    assert(r@ =~= seq![digit_char(d as int)]);
    r
}

/// Appends the decimal digits of `v`.
pub fn push_decimal(out: &mut String, v: u8)
    ensures
        final(out)@ == old(out)@ + decimal(v as nat),
{
    let ghost n = v as nat;
    if v >= 100 {
        out.append(digit_str(v / 100));
        out.append(digit_str(v / 10 % 10));
        out.append(digit_str(v % 10));
        assert(n / 10 / 10 == n / 100);
        assert(decimal(n / 100) == seq![digit_char((n / 100) as int)]);
        assert(decimal(n / 10) =~= seq![digit_char((n / 100) as int), digit_char((n / 10 % 10) as int)]);
        assert(decimal(n) =~= seq![
            digit_char((n / 100) as int),
            digit_char((n / 10 % 10) as int),
            digit_char((n % 10) as int),
        ]);
    } else if v >= 10 {
        out.append(digit_str(v / 10));
        out.append(digit_str(v % 10));
        assert(decimal(n / 10) == seq![digit_char((n / 10) as int)]);
        assert(decimal(n) =~= seq![digit_char((n / 10) as int), digit_char((n % 10) as int)]);
    } else {
        out.append(digit_str(v));
    }
    assert(final(out)@ =~= old(out)@ + decimal(n));
}

/// Appends four upper-case hexadecimal digits of `v`.
pub fn push_hex4(out: &mut String, v: u16)
    ensures
        final(out)@ == old(out)@ + hex4(v),
{
    out.append(digit_str((v / 4096) as u8));
    out.append(digit_str((v / 256 % 16) as u8));
    out.append(digit_str((v / 16 % 16) as u8));
    out.append(digit_str((v % 16) as u8));
    assert(final(out)@ =~= old(out)@ + hex4(v));
}

} // verus!
