//! Text rendering helpers: decimal and hexadecimal forms of integers.

use vstd::prelude::*;
use vstd::string::*;

verus! {

/// The ASCII character for a digit value below sixteen, in lowercase hexadecimal.
pub open spec fn hex_digit(d: nat) -> char {
    if d < 10 {
        (48 + d) as char
    } else {
        (87 + d) as char
    }
}

/// The decimal form of `n`, most significant digit first, without leading zeros.
pub open spec fn decimal(n: nat) -> Seq<char>
    decreases n,
{
    if n < 10 {
        seq![hex_digit(n)]
    } else {
        decimal(n / 10).push(hex_digit(n % 10))
    }
}

/// One digit as a string slice.
pub fn digit_str(d: u64) -> (s: &'static str)
    requires
        d < 16,
    ensures
        s@ == seq![hex_digit(d as nat)],
{
    match d {
        0 => {
            proof {
                reveal_strlit("0");
                assert("0"@ =~= seq![hex_digit(0)]);
            }
            "0"
        }
        1 => {
            proof {
                reveal_strlit("1");
                assert("1"@ =~= seq![hex_digit(1)]);
            }
            "1"
        }
        2 => {
            proof {
                reveal_strlit("2");
                assert("2"@ =~= seq![hex_digit(2)]);
            }
            "2"
        }
        3 => {
            proof {
                reveal_strlit("3");
                assert("3"@ =~= seq![hex_digit(3)]);
            }
            "3"
        }
        4 => {
            proof {
                reveal_strlit("4");
                assert("4"@ =~= seq![hex_digit(4)]);
            }
            "4"
        }
        5 => {
            proof {
                reveal_strlit("5");
                assert("5"@ =~= seq![hex_digit(5)]);
            }
            "5"
        }
        6 => {
            proof {
                reveal_strlit("6");
                assert("6"@ =~= seq![hex_digit(6)]);
            }
            "6"
        }
        7 => {
            proof {
                reveal_strlit("7");
                assert("7"@ =~= seq![hex_digit(7)]);
            }
            "7"
        }
        8 => {
            proof {
                reveal_strlit("8");
                assert("8"@ =~= seq![hex_digit(8)]);
            }
            "8"
        }
        9 => {
            proof {
                reveal_strlit("9");
                assert("9"@ =~= seq![hex_digit(9)]);
            }
            "9"
        }
        10 => {
            proof {
                reveal_strlit("a");
                assert("a"@ =~= seq![hex_digit(10)]);
            }
            "a"
        }
        11 => {
            proof {
                reveal_strlit("b");
                assert("b"@ =~= seq![hex_digit(11)]);
            }
            "b"
        }
        12 => {
            proof {
                reveal_strlit("c");
                assert("c"@ =~= seq![hex_digit(12)]);
            }
            "c"
        }
        13 => {
            proof {
                reveal_strlit("d");
                assert("d"@ =~= seq![hex_digit(13)]);
            }
            "d"
        }
        14 => {
            proof {
                reveal_strlit("e");
                assert("e"@ =~= seq![hex_digit(14)]);
            }
            "e"
        }
        _ => {
            proof {
                reveal_strlit("f");
                assert("f"@ =~= seq![hex_digit(15)]);
            }
            "f"
        }
    }
}


/// Two lowercase hexadecimal digits for one byte, high nibble first.
pub open spec fn hex_byte(b: u8) -> Seq<char> {
    seq![hex_digit((b / 16) as nat), hex_digit((b % 16) as nat)]
}

/// The lowercase hexadecimal form of a byte sequence, two digits per byte.
pub open spec fn hex_bytes(bytes: Seq<u8>) -> Seq<char>
    decreases bytes.len(),
{
    if bytes.len() == 0 {
        Seq::empty()
    } else {
        hex_bytes(bytes.drop_last()) + hex_byte(bytes.last())
    }
}

/// A lowercase hexadecimal digit.
pub open spec fn is_lower_hex(c: char) -> bool {
    ('0' <= c && c <= '9') || ('a' <= c && c <= 'f')
}

/// The hexadecimal form of `bytes` has two lowercase hexadecimal digits per
/// byte.
pub proof fn lemma_hex_bytes_shape(bytes: Seq<u8>)
    ensures
        hex_bytes(bytes).len() == 2 * bytes.len(),
        forall|i: int| 0 <= i < hex_bytes(bytes).len() ==> is_lower_hex(#[trigger] hex_bytes(bytes)[i]),
    decreases bytes.len(),
{
    if bytes.len() > 0 {
        lemma_hex_bytes_shape(bytes.drop_last());
        let b = bytes.last();
        let hi = (b / 16) as nat;
        let lo = (b % 16) as nat;
        assert(hi < 16 && lo < 16);
        assert(is_lower_hex(hex_digit(hi)));
        assert(is_lower_hex(hex_digit(lo)));
        let prev = hex_bytes(bytes.drop_last());
        assert forall|i: int| 0 <= i < hex_bytes(bytes).len() implies is_lower_hex(
            #[trigger] hex_bytes(bytes)[i],
        ) by {
            if i < prev.len() {
                assert(hex_bytes(bytes)[i] == prev[i]);
            } else if i == prev.len() {
                assert(hex_bytes(bytes)[i] == hex_digit(hi));
            } else {
                assert(hex_bytes(bytes)[i] == hex_digit(lo));
            }
        }
    }
}

/// Append the decimal form of `n` to `out`.
pub fn push_decimal(out: &mut String, n: u64)
    ensures
        final(out)@ == old(out)@ + decimal(n as nat),
    decreases n,
{
    if n >= 10 {
        push_decimal(out, n / 10);
    }
    out.append(digit_str(n % 10));
    proof {
        if n >= 10 {
            assert(decimal(n as nat) =~= decimal((n / 10) as nat).push(hex_digit((n % 10) as nat)));
        }
    }
}

/// Append two lowercase hexadecimal digits for `b`.
pub fn push_hex_byte(out: &mut String, b: u8)
    ensures
        final(out)@ == old(out)@ + hex_byte(b),
{
    out.append(digit_str((b / 16) as u64));
    out.append(digit_str((b % 16) as u64));
    proof {
        assert(final(out)@ =~= old(out)@ + hex_byte(b));
    }
}

/// Calls `String::push`, which appends one character.
#[verifier::external_body]
pub(crate) fn push_char(out: &mut String, c: char)
    ensures
        final(out)@ == old(out)@.push(c),
{
    out.push(c);
}

/// The decimal form of `n` as a new string.
pub fn decimal_string(n: u64) -> (s: String)
    ensures
        s@ == decimal(n as nat),
{
    let mut s = String::new();
    push_decimal(&mut s, n);
    proof {
        assert(s@ =~= decimal(n as nat));
    }
    s
}

} // verus!
