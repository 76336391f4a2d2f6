use vstd::prelude::*;
use vstd::string::StringExecFns;

verus! {

/// The character of a decimal digit.
pub open spec fn digit_char(d: nat) -> char {
    ((('0' as u32) + d) as u32) as char
}

/// The decimal numeral of `n`, without leading zeros.
pub open spec fn spec_decimal(n: nat) -> Seq<char>
    decreases n,
{
    if n < 10 {
        seq![digit_char(n)]
    } else {
        spec_decimal(n / 10) + seq![digit_char(n % 10)]
    }
}

/// The numeral of a single decimal digit.
fn digit_str(d: u8) -> (r: &'static str)
    requires
        d < 10,
    ensures
        r@ == seq![digit_char(d as nat)],
{
    proof {
        reveal_strlit("0");
        reveal_strlit("1");
        reveal_strlit("2");
        reveal_strlit("3");
        reveal_strlit("4");
        reveal_strlit("5");
        reveal_strlit("6");
        reveal_strlit("7");
        reveal_strlit("8");
        reveal_strlit("9");
    }
    let r = if d == 0 {
        "0"
    } else if d == 1 {
        "1"
    } else if d == 2 {
        "2"
    } else if d == 3 {
        "3"
    } else if d == 4 {
        "4"
    } else if d == 5 {
        "5"
    } else if d == 6 {
        "6"
    } else if d == 7 {
        "7"
    } else if d == 8 {
        "8"
    } else {
        "9"
    };
    assert(r@ =~= seq![digit_char(d as nat)]);
    r
}

/// Appends the decimal numeral of `n` to `s`.
pub fn append_decimal_u8(s: &mut String, n: u8)
    ensures
        final(s)@ == old(s)@ + spec_decimal(n as nat),
{
    if n >= 100 {
        s.append(digit_str(n / 100));
        s.append(digit_str((n / 10) % 10));
        s.append(digit_str(n % 10));
        assert(spec_decimal(n as nat) == spec_decimal((n / 10) as nat) + seq![digit_char((n % 10) as nat)]);
        assert(spec_decimal((n / 10) as nat) == spec_decimal((n / 100) as nat) + seq![digit_char(((n / 10) % 10) as nat)]);
    } else if n >= 10 {
        s.append(digit_str(n / 10));
        s.append(digit_str(n % 10));
        assert(spec_decimal(n as nat) == spec_decimal((n / 10) as nat) + seq![digit_char((n % 10) as nat)]);
    } else {
        s.append(digit_str(n));
    }
}

/// The character of a hexadecimal digit, in lower case.
pub open spec fn hex_char(d: nat) -> char {
    if d < 10 {
        digit_char(d)
    } else {
        ((('a' as u32) + (d - 10)) as u32) as char
    }
}

/// Nibble `i` of `n`, counted from the most significant of its sixteen.
pub open spec fn nibble(n: u64, i: int) -> nat {
    ((n >> ((60 - 4 * i) as u64)) & 0xfu64) as nat
}

/// `n` as sixteen lower-case hexadecimal digits, zero-padded (what
/// `format!("{n:016x}")` writes).
pub open spec fn spec_hex16(n: u64) -> Seq<char> {
    Seq::new(16, |i: int| hex_char(nibble(n, i)))
}

/// The numeral of a single hexadecimal digit, in lower case.
fn hex_digit_str(d: u64) -> (r: &'static str)
    requires
        d < 16,
    ensures
        r@ == seq![hex_char(d as nat)],
{
    if d < 10 {
        digit_str(d as u8)
    } else {
        proof {
            reveal_strlit("a");
            reveal_strlit("b");
            reveal_strlit("c");
            reveal_strlit("d");
            reveal_strlit("e");
            reveal_strlit("f");
        }
        let r = if d == 10 {
            "a"
        } else if d == 11 {
            "b"
        } else if d == 12 {
            "c"
        } else if d == 13 {
            "d"
        } else if d == 14 {
            "e"
        } else {
            "f"
        };
        assert(r@ =~= seq![hex_char(d as nat)]);
        r
    }
}

/// Appends `n` as sixteen lower-case hexadecimal digits to `s`.
pub fn append_hex16(s: &mut String, n: u64)
    ensures
        final(s)@ == old(s)@ + spec_hex16(n),
{
    let mut i: u64 = 0;
    while i < 16
        invariant
            i <= 16,
            s@ == old(s)@ + spec_hex16(n).take(i as int),
        decreases 16 - i,
    {
        let sh: u64 = 60 - 4 * i;
        let d = (n >> sh) & 0xf;
        assert(d < 16) by (bit_vector)
            requires
                d == (n >> sh) & 0xf,
        ;
        assert(nibble(n, i as int) == d as nat);
        s.append(hex_digit_str(d));
        assert(spec_hex16(n).take(i + 1) =~= spec_hex16(n).take(i as int) + seq![hex_char(nibble(n, i as int))]);
        i = i + 1;
    }
    assert(spec_hex16(n).take(16) =~= spec_hex16(n));
}

proof fn lemma_hex_char_value(d: nat)
    requires
        d < 16,
    ensures
        hex_char(d) as u32 == (if d < 10 { 48 + d } else { 87 + d }),
{
}

/// Sixteen hex digits name their number: distinct numbers have distinct
/// numerals.
pub proof fn lemma_hex16_injective(a: u64, b: u64)
    requires
        spec_hex16(a) == spec_hex16(b),
    ensures
        a == b,
{
    assert forall|i: int| 0 <= i < 16 implies nibble(a, i) == nibble(b, i) by {
        assert(spec_hex16(a)[i] == spec_hex16(b)[i]);
        assert(spec_hex16(a)[i] == hex_char(nibble(a, i)));
        assert(spec_hex16(b)[i] == hex_char(nibble(b, i)));
        let sh = (60 - 4 * i) as u64;
        assert((a >> sh) & 0xfu64 < 16 && (b >> sh) & 0xfu64 < 16) by (bit_vector);
        assert(nibble(a, i) == ((a >> sh) & 0xfu64) as nat);
        assert(nibble(a, i) < 16 && nibble(b, i) < 16);
        lemma_hex_char_value(nibble(a, i));
        lemma_hex_char_value(nibble(b, i));
        assert(hex_char(nibble(a, i)) as u32 == hex_char(nibble(b, i)) as u32);
    }
    assert(nibble(a, 0) == nibble(b, 0));
    assert(nibble(a, 1) == nibble(b, 1));
    assert(nibble(a, 2) == nibble(b, 2));
    assert(nibble(a, 3) == nibble(b, 3));
    assert(nibble(a, 4) == nibble(b, 4));
    assert(nibble(a, 5) == nibble(b, 5));
    assert(nibble(a, 6) == nibble(b, 6));
    assert(nibble(a, 7) == nibble(b, 7));
    assert(nibble(a, 8) == nibble(b, 8));
    assert(nibble(a, 9) == nibble(b, 9));
    assert(nibble(a, 10) == nibble(b, 10));
    assert(nibble(a, 11) == nibble(b, 11));
    assert(nibble(a, 12) == nibble(b, 12));
    assert(nibble(a, 13) == nibble(b, 13));
    assert(nibble(a, 14) == nibble(b, 14));
    assert(nibble(a, 15) == nibble(b, 15));
    assert(((a >> 60u64) & 0xf) == ((b >> 60u64) & 0xf) && ((a >> 56u64) & 0xf) == ((b >> 56u64)
        & 0xf) && ((a >> 52u64) & 0xf) == ((b >> 52u64) & 0xf) && ((a >> 48u64) & 0xf) == ((b
        >> 48u64) & 0xf) && ((a >> 44u64) & 0xf) == ((b >> 44u64) & 0xf) && ((a >> 40u64) & 0xf)
        == ((b >> 40u64) & 0xf) && ((a >> 36u64) & 0xf) == ((b >> 36u64) & 0xf) && ((a >> 32u64)
        & 0xf) == ((b >> 32u64) & 0xf) && ((a >> 28u64) & 0xf) == ((b >> 28u64) & 0xf) && ((a
        >> 24u64) & 0xf) == ((b >> 24u64) & 0xf) && ((a >> 20u64) & 0xf) == ((b >> 20u64) & 0xf)
        && ((a >> 16u64) & 0xf) == ((b >> 16u64) & 0xf) && ((a >> 12u64) & 0xf) == ((b >> 12u64)
        & 0xf) && ((a >> 8u64) & 0xf) == ((b >> 8u64) & 0xf) && ((a >> 4u64) & 0xf) == ((b
        >> 4u64) & 0xf) && ((a >> 0u64) & 0xf) == ((b >> 0u64) & 0xf) ==> a == b) by (bit_vector);
}

} // verus!

