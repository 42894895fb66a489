use vstd::prelude::*;
use vstd::string::StringExecFns;

verus! {

/// The lower-case hexadecimal digit for a value below 16.
pub open spec fn spec_hex_digit(value: u8) -> char {
    if value == 0 {
        '0'
    } else if value == 1 {
        '1'
    } else if value == 2 {
        '2'
    } else if value == 3 {
        '3'
    } else if value == 4 {
        '4'
    } else if value == 5 {
        '5'
    } else if value == 6 {
        '6'
    } else if value == 7 {
        '7'
    } else if value == 8 {
        '8'
    } else if value == 9 {
        '9'
    } else if value == 10 {
        'a'
    } else if value == 11 {
        'b'
    } else if value == 12 {
        'c'
    } else if value == 13 {
        'd'
    } else if value == 14 {
        'e'
    } else {
        'f'
    }
}

/// The two hexadecimal digits of one byte, high digit first.
pub open spec fn spec_hex_byte(byte: u8) -> Seq<char> {
    seq![spec_hex_digit(byte / 16), spec_hex_digit(byte % 16)]
}

/// The hexadecimal rendering of a byte sequence: two digits per byte, in
/// order.
pub open spec fn spec_hex_string(bytes: Seq<u8>) -> Seq<char>
    decreases bytes.len(),
{
    if bytes.len() == 0 {
        Seq::empty()
    } else {
        spec_hex_string(bytes.drop_last()) + spec_hex_byte(bytes.last())
    }
}

/// One hexadecimal digit as a string slice.
fn hex_digit(value: u8) -> (r: &'static str)
    requires
        value < 16,
    ensures
        r@ == seq![spec_hex_digit(value)],
{
    if value == 0 {
        proof {
            reveal_strlit("0");
            assert("0"@ =~= seq![spec_hex_digit(value)]);
        }
        "0"
    } else if value == 1 {
        proof {
            reveal_strlit("1");
            assert("1"@ =~= seq![spec_hex_digit(value)]);
        }
        "1"
    } else if value == 2 {
        proof {
            reveal_strlit("2");
            assert("2"@ =~= seq![spec_hex_digit(value)]);
        }
        "2"
    } else if value == 3 {
        proof {
            reveal_strlit("3");
            assert("3"@ =~= seq![spec_hex_digit(value)]);
        }
        "3"
    } else if value == 4 {
        proof {
            reveal_strlit("4");
            assert("4"@ =~= seq![spec_hex_digit(value)]);
        }
        "4"
    } else if value == 5 {
        proof {
            reveal_strlit("5");
            assert("5"@ =~= seq![spec_hex_digit(value)]);
        }
        "5"
    } else if value == 6 {
        proof {
            reveal_strlit("6");
            assert("6"@ =~= seq![spec_hex_digit(value)]);
        }
        "6"
    } else if value == 7 {
        proof {
            reveal_strlit("7");
            assert("7"@ =~= seq![spec_hex_digit(value)]);
        }
        "7"
    } else if value == 8 {
        proof {
            reveal_strlit("8");
            assert("8"@ =~= seq![spec_hex_digit(value)]);
        }
        "8"
    } else if value == 9 {
        proof {
            reveal_strlit("9");
            assert("9"@ =~= seq![spec_hex_digit(value)]);
        }
        "9"
    } else if value == 10 {
        proof {
            reveal_strlit("a");
            assert("a"@ =~= seq![spec_hex_digit(value)]);
        }
        "a"
    } else if value == 11 {
        proof {
            reveal_strlit("b");
            assert("b"@ =~= seq![spec_hex_digit(value)]);
        }
        "b"
    } else if value == 12 {
        proof {
            reveal_strlit("c");
            assert("c"@ =~= seq![spec_hex_digit(value)]);
        }
        "c"
    } else if value == 13 {
        proof {
            reveal_strlit("d");
            assert("d"@ =~= seq![spec_hex_digit(value)]);
        }
        "d"
    } else if value == 14 {
        proof {
            reveal_strlit("e");
            assert("e"@ =~= seq![spec_hex_digit(value)]);
        }
        "e"
    } else {
        proof {
            reveal_strlit("f");
            assert("f"@ =~= seq![spec_hex_digit(value)]);
        }
        "f"
    }
}

/// Renders a buffer as a hexadecimal string, two digits per byte.
pub fn getHexStringForBuffer(buffer: &Vec<u8>) -> (r: String)
    ensures
        r@ == spec_hex_string(buffer@),
{
    let mut result = String::new();
    let mut i: usize = 0;
    while i < buffer.len()
        invariant
            i <= buffer@.len(),
            result@ == spec_hex_string(buffer@.take(i as int)),
        decreases buffer@.len() - i,
    {
        let byte = buffer[i];
        result.append(hex_digit(byte / 16));
        result.append(hex_digit(byte % 16));
        proof {
            let taken = buffer@.take(i as int + 1);
            assert(taken.drop_last() =~= buffer@.take(i as int));
            assert(taken.last() == byte);
            assert(result@ =~= spec_hex_string(taken));
        }
        i = i + 1;
    }
    proof {
        assert(buffer@.take(buffer@.len() as int) =~= buffer@);
    }
    result
}

} // verus!
