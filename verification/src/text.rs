//! Small text helpers shared by the other modules.

use vstd::prelude::*;
use vstd::string::StringExecFns;

verus! {

/// Equality of two string slices, as `str`'s `==` of the standard library
/// decides it: the result is `true` exactly when both hold the same characters.
#[verifier::external_body]
pub(crate) fn str_eq(a: &str, b: &str) -> (same: bool)
    ensures
        same == (a@ == b@),
{
    a == b
}

/// The decimal digit `d`, for `d` from 0 to 9.
pub open spec fn digit(d: int) -> Seq<char> {
    if d == 0 {
        "0"@
    } else if d == 1 {
        "1"@
    } else if d == 2 {
        "2"@
    } else if d == 3 {
        "3"@
    } else if d == 4 {
        "4"@
    } else if d == 5 {
        "5"@
    } else if d == 6 {
        "6"@
    } else if d == 7 {
        "7"@
    } else if d == 8 {
        "8"@
    } else {
        "9"@
    }
}

/// The decimal numeral of `n`, without leading zeros.
pub open spec fn decimal_nat(n: nat) -> Seq<char>
    decreases n,
{
    if n < 10 {
        digit(n as int)
    } else {
        decimal_nat(n / 10) + digit((n % 10) as int)
    }
}

/// The decimal numeral of `n`, with a minus sign in front where `n` is
/// negative.
pub open spec fn decimal(n: int) -> Seq<char> {
    if n < 0 {
        "-"@ + decimal_nat((-n) as nat)
    } else {
        decimal_nat(n as nat)
    }
}

/// The decimal digit `d` as text.
fn digit_text(d: u32) -> (text: &'static str)
    requires
        d < 10,
    ensures
        text@ == digit(d as int),
{
    if d == 0 {
        "0"
    } else if d == 1 {
        "1"
    } else if d == 2 {
        "2"
    } else if d == 3 {
        "3"
    } else if d == 4 {
        "4"
    } else if d == 5 {
        "5"
    } else if d == 6 {
        "6"
    } else if d == 7 {
        "7"
    } else if d == 8 {
        "8"
    } else {
        "9"
    }
}

/// The decimal numeral of `n`.
pub fn decimal_text(n: i32) -> (text: String)
    ensures
        text@ == decimal(n as int),
{
    let magnitude: u32 = if n < 0 {
        (-(n as i64)) as u32
    } else {
        n as u32
    };
    let mut digits = String::from_str(digit_text(magnitude % 10));
    let mut rest: u32 = magnitude / 10;
    while rest > 0
        invariant
            decimal_nat(magnitude as nat) == if rest > 0 {
                decimal_nat(rest as nat) + digits@
            } else {
                digits@
            },
        decreases rest,
    {
        let ghost tail = digits@;
        digits = String::from_str(digit_text(rest % 10)).concat(digits.as_str());
        proof {
            let d = digit((rest % 10) as int);
            if rest >= 10 {
                assert(decimal_nat((rest / 10) as nat) + d + tail == decimal_nat(
                    (rest / 10) as nat,
                ) + (d + tail));
            }
        }
        rest = rest / 10;
    }
    if n < 0 {
        String::from_str("-").concat(digits.as_str())
    } else {
        digits
    }
}

/// The hexadecimal digit `d` in lower case, for `d` from 0 to 15.
pub open spec fn hex_digit(d: int) -> Seq<char> {
    if d < 10 {
        digit(d)
    } else if d == 10 {
        "a"@
    } else if d == 11 {
        "b"@
    } else if d == 12 {
        "c"@
    } else if d == 13 {
        "d"@
    } else if d == 14 {
        "e"@
    } else {
        "f"@
    }
}

/// The last `width` hexadecimal digits of `n`, most significant first, with
/// zeros in front where `n` has fewer.
pub open spec fn hex_fixed(n: nat, width: nat) -> Seq<char>
    decreases width,
{
    if width == 0 {
        Seq::<char>::empty()
    } else {
        hex_fixed(n / 16, (width - 1) as nat) + hex_digit((n % 16) as int)
    }
}

/// The text under which a fingerprint is handed to the store: its sixteen
/// hexadecimal digits in lower case.
pub open spec fn hex_of(hash: u64) -> Seq<char> {
    hex_fixed(hash as nat, 16)
}

/// The hexadecimal digit `d` as text.
fn hex_digit_text(d: u64) -> (text: &'static str)
    requires
        d < 16,
    ensures
        text@ == hex_digit(d as int),
{
    if d < 10 {
        digit_text(d as u32)
    } else if d == 10 {
        "a"
    } else if d == 11 {
        "b"
    } else if d == 12 {
        "c"
    } else if d == 13 {
        "d"
    } else if d == 14 {
        "e"
    } else {
        "f"
    }
}

/// The sixteen hexadecimal digits of a fingerprint.
pub fn hex_hash(hash: u64) -> (text: String)
    ensures
        text@ == hex_of(hash),
{
    let mut digits = String::new();
    let mut rest: u64 = hash;
    let mut done: usize = 0;
    while done < 16
        invariant
            done <= 16,
            hex_of(hash) == hex_fixed(rest as nat, (16 - done) as nat) + digits@,
        decreases 16 - done,
    {
        let ghost tail = digits@;
        let ghost head = hex_fixed((rest / 16) as nat, (16 - done - 1) as nat);
        digits = String::from_str(hex_digit_text(rest % 16)).concat(digits.as_str());
        proof {
            let d = hex_digit((rest % 16) as int);
            assert(head + d + tail == head + (d + tail));
        }
        rest = rest / 16;
        done = done + 1;
    }
    digits
}

/// Sixteen to the power of `width`.
pub open spec fn pow16(width: nat) -> nat
    decreases width,
{
    if width == 0 {
        1
    } else {
        16 * pow16((width - 1) as nat)
    }
}

/// Every hexadecimal digit is one character, and different digits are
/// different characters.
pub proof fn lemma_hex_digits_differ(a: int, b: int)
    requires
        0 <= a < 16,
        0 <= b < 16,
    ensures
        hex_digit(a).len() == 1,
        hex_digit(a) == hex_digit(b) ==> a == b,
{
    reveal_strlit("0");
    reveal_strlit("1");
    reveal_strlit("2");
    reveal_strlit("3");
    reveal_strlit("4");
    reveal_strlit("5");
    reveal_strlit("6");
    reveal_strlit("7");
    reveal_strlit("8");
    reveal_strlit("9");
    reveal_strlit("a");
    reveal_strlit("b");
    reveal_strlit("c");
    reveal_strlit("d");
    reveal_strlit("e");
    reveal_strlit("f");
    assert(hex_digit(a).len() == 1);
    assert(hex_digit(b).len() == 1);
    if hex_digit(a) == hex_digit(b) {
        assert(hex_digit(a)[0] == hex_digit(b)[0]);
    }
}

/// `hex_fixed` writes as many digits as it is asked for.
pub proof fn lemma_hex_fixed_len(n: nat, width: nat)
    ensures
        hex_fixed(n, width).len() == width,
    decreases width,
{
    if width > 0 {
        lemma_hex_fixed_len(n / 16, (width - 1) as nat);
        lemma_hex_digits_differ((n % 16) as int, 0);
    }
}

/// Numbers that fit into `width` hexadecimal digits and are written alike
/// are the same number.
pub proof fn lemma_hex_fixed_injective(a: nat, b: nat, width: nat)
    requires
        a < pow16(width),
        b < pow16(width),
        hex_fixed(a, width) == hex_fixed(b, width),
    ensures
        a == b,
    decreases width,
{
    if width > 0 {
        let rest = (width - 1) as nat;
        let head = hex_fixed(a / 16, rest);
        let other_head = hex_fixed(b / 16, rest);
        let last = hex_digit((a % 16) as int);
        let other_last = hex_digit((b % 16) as int);
        lemma_hex_fixed_len(a / 16, rest);
        lemma_hex_fixed_len(b / 16, rest);
        lemma_hex_digits_differ((a % 16) as int, (b % 16) as int);
        lemma_hex_digits_differ((b % 16) as int, (a % 16) as int);
        assert(head == (head + last).subrange(0, rest as int));
        assert(other_head == (other_head + other_last).subrange(0, rest as int));
        assert(last == (head + last).subrange(rest as int, width as int));
        assert(other_last == (other_head + other_last).subrange(rest as int, width as int));
        lemma_hex_fixed_injective(a / 16, b / 16, rest);
    }
}

} // verus!
