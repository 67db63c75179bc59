//! Numbers and identifiers as text.

use vstd::arithmetic::power::pow;
use vstd::prelude::*;

verus! {

/// The decimal digit of a number below ten.
pub open spec fn digit(value: int) -> char {
    if value == 0 {
        '0'
    } else if value == 1 {
        '1'
    } else if value == 2 {
        '2'
    } else if value == 3 {
        '3'
    } else if value == 4 {
        '4'
    } else if value == 5 {
        '5'
    } else if value == 6 {
        '6'
    } else if value == 7 {
        '7'
    } else if value == 8 {
        '8'
    } else {
        '9'
    }
}

/// The decimal digits of a number, without leading zeros.
pub open spec fn digits(value: nat) -> Seq<char>
    decreases value,
{
    if value < 10 {
        seq![digit(value as int)]
    } else {
        digits(value / 10).push(digit((value % 10) as int))
    }
}

/// A number in decimal, behind a minus sign where it is negative.
pub open spec fn decimal(value: int) -> Seq<char> {
    if value < 0 {
        "-"@ + digits((-value) as nat)
    } else {
        digits(value as nat)
    }
}

/// The lower-case hexadecimal digit of a number below sixteen.
pub open spec fn hex_digit(value: int) -> char {
    if value < 10 {
        digit(value)
    } else if value == 10 {
        'a'
    } else if value == 11 {
        'b'
    } else if value == 12 {
        'c'
    } else if value == 13 {
        'd'
    } else if value == 14 {
        'e'
    } else {
        'f'
    }
}

/// How many hyphens stand before the character at `index` of a hyphenated identifier.
pub open spec fn hyphens_before(index: int) -> int {
    if index <= 8 {
        0
    } else if index <= 13 {
        1
    } else if index <= 18 {
        2
    } else if index <= 23 {
        3
    } else {
        4
    }
}

/// An identifier as 32 lower-case hexadecimal digits in groups of 8, 4, 4, 4 and 12.
pub open spec fn uuid_text(id: u128) -> Seq<char> {
    Seq::new(
        36,
        |index: int|
            if index == 8 || index == 13 || index == 18 || index == 23 {
                '-'
            } else {
                hex_digit(id as int / pow(16, (31 - (index - hyphens_before(index))) as nat) % 16)
            },
    )
}

/// The one-character text of a digit.
fn digit_text(value: u128) -> (text: &'static str)
    requires
        value < 10,
    ensures
        text@ == seq![digit(value as int)],
{
    proof {
        reveal_strlit("0");
        reveal_strlit("1");
        reveal_strlit("2");
        reveal_strlit("3");
        reveal_strlit("4");
        reveal_strlit("5");
        reveal_strlit("6");
        reveal_strlit("7");
        reveal_strlit("8");
        reveal_strlit("9");
    }
    let text: &'static str = if value == 0 {
        "0"
    } else if value == 1 {
        "1"
    } else if value == 2 {
        "2"
    } else if value == 3 {
        "3"
    } else if value == 4 {
        "4"
    } else if value == 5 {
        "5"
    } else if value == 6 {
        "6"
    } else if value == 7 {
        "7"
    } else if value == 8 {
        "8"
    } else {
        "9"
    };
    assert(text@ =~= seq![digit(value as int)]);
    text
}

/// A number that is not negative, in decimal.
pub fn unsigned_text(value: u128) -> (text: String)
    ensures
        text@ == decimal(value as int),
    decreases value,
{
    if value < 10 {
        digit_text(value).to_owned()
    } else {
        let mut text = unsigned_text(value / 10);
        let last = digit_text(value % 10);
        text.append(last);
        assert(digits((value / 10) as nat) + seq![digit((value % 10) as int)] =~= digits(
            (value / 10) as nat,
        ).push(digit((value % 10) as int)));
        text
    }
}

/// A number in decimal.
pub fn signed_text(value: i64) -> (text: String)
    ensures
        text@ == decimal(value as int),
{
    if value < 0 {
        let mut text = "-".to_owned();
        let rest = unsigned_text((-(value as i128)) as u128);
        text.append(rest.as_str());
        text
    } else {
        unsigned_text(value as u128)
    }
}

/// The `Display` of `uuid::Uuid`: the hyphenated lower-case form of the identifier.
#[verifier::external_body]
pub(crate) fn id_text(id: u128) -> (text: String)
    ensures
        text@ == uuid_text(id),
{
    uuid::Uuid::from_u128(id).to_string()
}

/// Whether an identifier is marked as a random one: version 4, of the standard variant.
pub open spec fn is_random_id(id: u128) -> bool {
    &&& id as int / pow(2, 76) % 16 == 4
    &&& id as int / pow(2, 62) % 4 == 2
}

/// Whether each of the identifiers is marked as a random one.
pub open spec fn all_random(ids: Seq<u128>) -> bool {
    forall|i: int| 0 <= i < ids.len() ==> is_random_id(#[trigger] ids[i])
}

/// `uuid::Uuid::new_v4`: a random identifier. Its bits mark it as one of version 4 and of the
/// standard variant; the other bits are chance, so nothing says that two calls differ.
#[verifier::external_body]
pub(crate) fn new_id() -> (id: u128)
    ensures
        is_random_id(id),
{
    uuid::Uuid::new_v4().as_u128()
}

} // verus!
