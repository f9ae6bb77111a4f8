//! Checks on what the user types.

use vstd::prelude::*;
use vstd::string::*;
use crate::numbers::{parse_i32, parsed, signed_decimal, signed_text};

verus! {

/// Whether `input` is a number from 1 up to `max`, as a specification.
pub open spec fn valid_number(input: Seq<char>, max: i32) -> bool {
    parsed(input, i32::MIN as int, i32::MAX as int) matches Ok(i) && 0 < i <= max
}

/// Why `input` is refused as a number from 1 up to `max`.
pub open spec fn number_refusal(input: Seq<char>, max: i32) -> Seq<char> {
    if parsed(input, i32::MIN as int, i32::MAX as int) is Err {
        "Expected a number. Was '"@ + input + "'."@
    } else {
        "Number must be between 1 and "@ + signed_text(max as int) + ". Was "@ + input + "."@
    }
}

/// Accepts `input` if it is a number from 1 up to `max`, and says why it is
/// refused if it is not.
pub fn validate_number(input: &str, max: i32) -> (result: Result<(), String>)
    ensures
        result is Ok <==> valid_number(input@, max),
        result matches Err(why) ==> why@ == number_refusal(input@, max),
{
    let i = match parse_i32(input) {
        Ok(i) => i,
        Err(_) => {
            let mut why = String::from_str("Expected a number. Was '");
            why.append(input);
            why.append("'.");
            return Err(why);
        },
    };
    if i > 0 && i <= max {
        Ok(())
    } else {
        let mut why = String::from_str("Number must be between 1 and ");
        why.append(signed_decimal(max as i64).as_str());
        why.append(". Was ");
        why.append(input);
        why.append(".");
        Err(why)
    }
}

} // verus!
