//! Verified text formatting: decimal rendering of unsigned integers and
//! fixed-width lowercase hexadecimal, used by the human-readable summaries.

use vstd::prelude::*;
use vstd::string::StringExecFns;

verus! {

/// The digit character for a value below ten.
pub open spec fn spec_digit_char(d: nat) -> char {
    if d == 0 {
        '0'
    } else if d == 1 {
        '1'
    } else if d == 2 {
        '2'
    } else if d == 3 {
        '3'
    } else if d == 4 {
        '4'
    } else if d == 5 {
        '5'
    } else if d == 6 {
        '6'
    } else if d == 7 {
        '7'
    } else if d == 8 {
        '8'
    } else {
        '9'
    }
}

/// The decimal digits of `n`, most significant first, no leading zeros.
pub open spec fn spec_dec_digits(n: nat) -> Seq<char>
    decreases n,
{
    if n < 10 {
        seq![spec_digit_char(n)]
    } else {
        spec_dec_digits(n / 10) + seq![spec_digit_char(n % 10)]
    }
}

/// The lowercase hexadecimal character for a value below sixteen.
pub open spec fn spec_hex_char(d: nat) -> char {
    if d < 10 {
        spec_digit_char(d)
    } else if d == 10 {
        'a'
    } else if d == 11 {
        'b'
    } else if d == 12 {
        'c'
    } else if d == 13 {
        'd'
    } else if d == 14 {
        'e'
    } else {
        'f'
    }
}

/// Two lowercase hexadecimal digits of a byte.
pub open spec fn spec_hex2(x: u8) -> Seq<char> {
    seq![spec_hex_char((x >> 4) as nat), spec_hex_char((x & 0xf) as nat)]
}

/// Four lowercase hexadecimal digits of a 16-bit value.
pub open spec fn spec_hex4(x: u16) -> Seq<char> {
    spec_hex2((x >> 8) as u8) + spec_hex2((x & 0xff) as u8)
}

/// Eight lowercase hexadecimal digits of a 32-bit value.
pub open spec fn spec_hex8(x: u32) -> Seq<char> {
    spec_hex4((x >> 16) as u16) + spec_hex4((x & 0xffff) as u16)
}

/// The one-character string for a decimal digit.
pub fn digit_str(d: u8) -> (r: &'static str)
    requires
        d < 10,
    ensures
        r@ == seq![spec_digit_char(d as nat)],
{
    if d == 0 {
        proof {
            reveal_strlit("0");
            assert("0"@ =~= seq!['0']);
        }
        "0"
    } else if d == 1 {
        proof {
            reveal_strlit("1");
            assert("1"@ =~= seq!['1']);
        }
        "1"
    } else if d == 2 {
        proof {
            reveal_strlit("2");
            assert("2"@ =~= seq!['2']);
        }
        "2"
    } else if d == 3 {
        proof {
            reveal_strlit("3");
            assert("3"@ =~= seq!['3']);
        }
        "3"
    } else if d == 4 {
        proof {
            reveal_strlit("4");
            assert("4"@ =~= seq!['4']);
        }
        "4"
    } else if d == 5 {
        proof {
            reveal_strlit("5");
            assert("5"@ =~= seq!['5']);
        }
        "5"
    } else if d == 6 {
        proof {
            reveal_strlit("6");
            assert("6"@ =~= seq!['6']);
        }
        "6"
    } else if d == 7 {
        proof {
            reveal_strlit("7");
            assert("7"@ =~= seq!['7']);
        }
        "7"
    } else if d == 8 {
        proof {
            reveal_strlit("8");
            assert("8"@ =~= seq!['8']);
        }
        "8"
    } else {
        proof {
            reveal_strlit("9");
            assert("9"@ =~= seq!['9']);
        }
        "9"
    }
}

/// The one-character string for a lowercase hexadecimal digit.
pub fn hex_digit_str(d: u8) -> (r: &'static str)
    requires
        d < 16,
    ensures
        r@ == seq![spec_hex_char(d as nat)],
{
    if d < 10 {
        digit_str(d)
    } else if d == 10 {
        proof {
            reveal_strlit("a");
            assert("a"@ =~= seq!['a']);
        }
        "a"
    } else if d == 11 {
        proof {
            reveal_strlit("b");
            assert("b"@ =~= seq!['b']);
        }
        "b"
    } else if d == 12 {
        proof {
            reveal_strlit("c");
            assert("c"@ =~= seq!['c']);
        }
        "c"
    } else if d == 13 {
        proof {
            reveal_strlit("d");
            assert("d"@ =~= seq!['d']);
        }
        "d"
    } else if d == 14 {
        proof {
            reveal_strlit("e");
            assert("e"@ =~= seq!['e']);
        }
        "e"
    } else {
        proof {
            reveal_strlit("f");
            assert("f"@ =~= seq!['f']);
        }
        "f"
    }
}

/// Append the decimal rendering of `x`.
pub fn push_dec_u64(out: &mut String, x: u64)
    ensures
        final(out)@ == old(out)@ + spec_dec_digits(x as nat),
    decreases x,
{
    if x < 10 {
        out.append(digit_str(x as u8));
    } else {
        proof {
            assert(x / 10 < x) by (nonlinear_arith)
                requires
                    x >= 10,
            ;
        }
        push_dec_u64(out, x / 10);
        out.append(digit_str((x % 10) as u8));
        proof {
            assert(old(out)@ + spec_dec_digits((x / 10) as nat) + seq![
                spec_digit_char((x % 10) as nat),
            ] =~= old(out)@ + spec_dec_digits(x as nat));
        }
    }
}

/// Append two hexadecimal digits of a byte.
pub fn push_hex2(out: &mut String, x: u8)
    ensures
        final(out)@ == old(out)@ + spec_hex2(x),
{
    proof {
        assert(x >> 4 < 16 && x & 0xf < 16) by (bit_vector);
    }
    out.append(hex_digit_str(x >> 4));
    out.append(hex_digit_str(x & 0xf));
    assert(out@ =~= old(out)@ + spec_hex2(x));
}

/// Append four hexadecimal digits of a 16-bit value.
pub fn push_hex4(out: &mut String, x: u16)
    ensures
        final(out)@ == old(out)@ + spec_hex4(x),
{
    proof {
        assert(x >> 8 < 256 && x & 0xff < 256) by (bit_vector);
    }
    push_hex2(out, (x >> 8) as u8);
    push_hex2(out, (x & 0xff) as u8);
    assert(out@ =~= old(out)@ + spec_hex4(x));
}

/// Append eight hexadecimal digits of a 32-bit value.
pub fn push_hex8(out: &mut String, x: u32)
    ensures
        final(out)@ == old(out)@ + spec_hex8(x),
{
    proof {
        assert(x >> 16 < 65536 && x & 0xffff < 65536) by (bit_vector);
    }
    push_hex4(out, (x >> 16) as u16);
    push_hex4(out, (x & 0xffff) as u16);
    assert(out@ =~= old(out)@ + spec_hex8(x));
}

} // verus!
