//! Random ids.

use vstd::prelude::*;
use vstd::string::StringExecFns;
use crate::text::digit_char;

verus! {

/// Whether `id` carries the marks of a random UUID: version four, and the
/// variant of RFC 4122.
pub open spec fn is_random_uuid(id: u128) -> bool {
    id & 0x0000_0000_0000_f000_c000_0000_0000_0000u128
        == 0x0000_0000_0000_4000_8000_0000_0000_0000u128
}

/// A fresh random UUID from `uuid::Uuid::new_v4()`, as its 128 bits. Of the
/// value only the version and variant bits are claimed, which `new_v4` sets.
#[verifier::external_body]
pub(crate) fn fresh_uuid() -> (id: u128)
    ensures
        is_random_uuid(id),
{
    uuid::Uuid::new_v4().as_u128()
}

/// The character of one hexadecimal digit, in lower case.
pub open spec fn hex_char(d: int) -> char {
    if d < 10 {
        digit_char(d)
    } else if d == 10 {
        'a'
    } else if d == 11 {
        'b'
    } else if d == 12 {
        'c'
    } else if d == 13 {
        'd'
    } else if d == 14 {
        'e'
    } else {
        'f'
    }
}

/// Hexadecimal digit number `k` of `id`, counted from the front of its
/// thirty-two digits.
pub open spec fn uuid_digit(id: u128, k: int) -> int {
    ((id >> (((31 - k) * 4) as u128)) & 0xf) as int
}

/// The first `k` hexadecimal digits of `id` in lower case, with a hyphen
/// behind the digits 8, 12, 16 and 20 where more digits follow.
pub open spec fn uuid_prefix(id: u128, k: nat) -> Seq<char>
    decreases k,
{
    if k == 0 {
        Seq::empty()
    } else if k == 9 || k == 13 || k == 17 || k == 21 {
        uuid_prefix(id, (k - 1) as nat).push('-').push(hex_char(uuid_digit(id, k - 1)))
    } else {
        uuid_prefix(id, (k - 1) as nat).push(hex_char(uuid_digit(id, k - 1)))
    }
}

/// The usual text of a UUID: its thirty-two hexadecimal digits in lower
/// case, in groups of 8, 4, 4, 4 and 12 with hyphens between.
pub open spec fn hyphenated(id: u128) -> Seq<char> {
    uuid_prefix(id, 32)
}

/// The length of the first `k` digits with their hyphens.
pub open spec fn prefix_len(k: nat) -> nat {
    if k <= 8 {
        k
    } else if k <= 12 {
        k + 1
    } else if k <= 16 {
        k + 2
    } else if k <= 20 {
        k + 3
    } else {
        k + 4
    }
}

/// The text of a UUID has thirty-six characters.
pub proof fn lemma_hyphenated_len(id: u128)
    ensures
        hyphenated(id).len() == 36,
{
    lemma_prefix_len(id, 32);
}

proof fn lemma_prefix_len(id: u128, k: nat)
    requires
        k <= 32,
    ensures
        uuid_prefix(id, k).len() == prefix_len(k),
    decreases k,
{
    if k > 0 {
        lemma_prefix_len(id, (k - 1) as nat);
    }
}

fn hex_str(d: u8) -> (text: &'static str)
    requires
        d < 16,
    ensures
        text@ == seq![hex_char(d as int)],
{
    proof {
        reveal_strlit("0");
        reveal_strlit("1");
        reveal_strlit("2");
        reveal_strlit("3");
        reveal_strlit("4");
        reveal_strlit("5");
        reveal_strlit("6");
        reveal_strlit("7");
        reveal_strlit("8");
        reveal_strlit("9");
        reveal_strlit("a");
        reveal_strlit("b");
        reveal_strlit("c");
        reveal_strlit("d");
        reveal_strlit("e");
        reveal_strlit("f");
    }
    let text = if d == 0 {
        "0"
    } else if d == 1 {
        "1"
    } else if d == 2 {
        "2"
    } else if d == 3 {
        "3"
    } else if d == 4 {
        "4"
    } else if d == 5 {
        "5"
    } else if d == 6 {
        "6"
    } else if d == 7 {
        "7"
    } else if d == 8 {
        "8"
    } else if d == 9 {
        "9"
    } else if d == 10 {
        "a"
    } else if d == 11 {
        "b"
    } else if d == 12 {
        "c"
    } else if d == 13 {
        "d"
    } else if d == 14 {
        "e"
    } else {
        "f"
    };
    assert(text@ =~= seq![hex_char(d as int)]);
    text
}

/// Writes the UUID with the bits `id` in its usual text.
pub fn uuid_text(id: u128) -> (text: String)
    ensures
        text@ == hyphenated(id),
        text@.len() == 36,
{
    let mut text = String::new();
    let mut k: u32 = 0;
    while k < 32
        invariant
            k <= 32,
            text@ == uuid_prefix(id, k as nat),
        decreases 32 - k,
    {
        if k == 8 || k == 12 || k == 16 || k == 20 {
            proof {
                reveal_strlit("-");
            }
            text.append("-");
        }
        let shift: u32 = (31 - k) * 4;
        let digit: u128 = (id >> (shift as u128)) & 0xf;
        assert(digit < 16) by (bit_vector)
            requires
                digit == (id >> (shift as u128)) & 0xf,
        ;
        text.append(hex_str(digit as u8));
        k = k + 1;
        assert(text@ =~= uuid_prefix(id, k as nat));
    }
    proof {
        lemma_hyphenated_len(id);
    }
    text
}

} // verus!
