//! What an output layer needs of a message beside its decoded fields.

use vstd::prelude::*;
use vstd::string::*;

verus! {

/// A note on a message whose data was changed or added to after decoding.
#[derive(Clone, Debug)]
pub struct Augmentation {
    /// When the change was made, as UNIX time.
    pub timestamp: i64,
    /// What was changed.
    pub description: String,
}

/// The character that writes the hexadecimal digit `d`, letters in lower
/// case.
pub open spec fn lower_digit_char(d: int) -> char {
    if d < 10 {
        ('0' as int + d) as char
    } else {
        ('a' as int + d - 10) as char
    }
}

/// `data` in hexadecimal digits, two for each byte, letters in lower case.
pub open spec fn hex_of(data: Seq<u8>) -> Seq<char> {
    Seq::new(
        2 * data.len(),
        |i: int|
            if i % 2 == 0 {
                lower_digit_char(data[i / 2] as int / 16)
            } else {
                lower_digit_char(data[i / 2] as int % 16)
            },
    )
}

/// The text of one hexadecimal digit, letters in lower case.
pub fn lower_digit_str(d: u8) -> (s: &'static str)
    requires
        d < 16,
    ensures
        s@ == seq![lower_digit_char(d as int)],
{
    proof {
        reveal_strlit("0");
        reveal_strlit("1");
        reveal_strlit("2");
        reveal_strlit("3");
        reveal_strlit("4");
        reveal_strlit("5");
        reveal_strlit("6");
        reveal_strlit("7");
        reveal_strlit("8");
        reveal_strlit("9");
        reveal_strlit("a");
        reveal_strlit("b");
        reveal_strlit("c");
        reveal_strlit("d");
        reveal_strlit("e");
        reveal_strlit("f");
    }
    let s = match d {
        0 => "0",
        1 => "1",
        2 => "2",
        3 => "3",
        4 => "4",
        5 => "5",
        6 => "6",
        7 => "7",
        8 => "8",
        9 => "9",
        10 => "a",
        11 => "b",
        12 => "c",
        13 => "d",
        14 => "e",
        _ => "f",
    };
    assert(s@ =~= seq![lower_digit_char(d as int)]);
    s
}

/// The payload of a binary message as text: two hexadecimal digits for each
/// byte, letters in lower case.
pub fn data_hex(data: &Vec<u8>) -> (text: String)
    ensures
        text@ == hex_of(data@),
{
    let mut text = String::new();
    let mut i: usize = 0;
    while i < data.len()
        invariant
            i <= data.len(),
            text@ == hex_of(data@.take(i as int)),
        decreases data.len() - i,
    {
        let ghost before = text@;
        text.append(lower_digit_str(data[i] / 16));
        text.append(lower_digit_str(data[i] % 16));
        proof {
            let longer = data@.take(i + 1);
            assert(text@ =~= hex_of(longer)) by {
                assert forall|j: int| 0 <= j < 2 * (i + 1) implies text@[j] == hex_of(longer)[j] by {
                    if j < 2 * i {
                        assert(before[j] == hex_of(data@.take(i as int))[j]);
                        assert(data@.take(i as int)[j / 2] == longer[j / 2]);
                    }
                }
            }
        }
        i += 1;
    }
    assert(data@.take(i as int) =~= data@);
    text
}

} // verus!
