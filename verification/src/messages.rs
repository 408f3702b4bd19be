//! What the messages of the errors say.

use vstd::prelude::*;
use vstd::string::*;

use crate::copy::ToVecError;
use crate::dtype::Dtype;
use crate::error::{check, Error};
use crate::item::NotScalar;
use crate::operator::OperatorError;
use crate::shape::ShapeError;
use crate::text::{append_decimal, append_signed, decimal, digit, signed_decimal};

verus! {

/// The number that decimal digits stand for.
pub open spec fn number(digits: Seq<char>) -> int
    decreases digits.len(),
{
    if digits.len() == 0 {
        0
    } else {
        number(digits.drop_last()) * 10 + (digits.last() as int - '0' as int)
    }
}

/// The decimal notation of a number is made of digits alone, stands for that number, and has no
/// leading zero but for zero itself.
pub proof fn decimal_notation_stands_for_the_number(n: nat)
    ensures
        number(decimal(n)) == n,
        decimal(n).len() > 0,
        forall|i: int| 0 <= i < decimal(n).len() ==> '0' <= #[trigger] decimal(n)[i] <= '9',
        decimal(n)[0] == '0' ==> n == 0 && decimal(n).len() == 1,
    decreases n,
{
    let digits = decimal(n);
    if n < 10 {
        assert(digits.drop_last() =~= Seq::<char>::empty());
        assert(number(digits.drop_last()) == 0);
    } else {
        decimal_notation_stands_for_the_number(n / 10);
        assert(digits.drop_last() =~= decimal(n / 10));
        assert(digits[0] == decimal(n / 10)[0]);
        assert(digits.last() == digit(n % 10));
        assert forall|i: int| 0 <= i < digits.len() implies '0' <= #[trigger] digits[i] <= '9' by {
            if i < digits.len() - 1 {
                assert(digits[i] == decimal(n / 10)[i]);
            }
        }
    }
}

/// The decimal notation of an integer is that of its absolute value, behind a minus sign if and
/// only if it is negative.
pub proof fn signed_notation_stands_for_the_number(n: int)
    ensures
        n >= 0 ==> signed_decimal(n) == decimal(n as nat) && number(signed_decimal(n)) == n,
        n < 0 ==> signed_decimal(n).len() > 1 && signed_decimal(n)[0] == '-' && number(
            signed_decimal(n).skip(1),
        ) == -n,
{
    reveal_strlit("-");
    if n < 0 {
        decimal_notation_stands_for_the_number((-n) as nat);
        assert(signed_decimal(n).skip(1) =~= decimal((-n) as nat));
    } else {
        decimal_notation_stands_for_the_number(n as nat);
    }
}

/// Numbers are written behind the text that is there, all digits of them.
pub proof fn numbers_are_written_behind_the_text(text: &mut String, n: u64, m: i64)
    ensures
        call_ensures(append_decimal, (text, n), ()) ==> exists|digits: Seq<char>|
            number(digits) == n && final(text)@ == #[trigger] (old(text)@ + digits),
        call_ensures(append_signed, (text, m), ()) ==> final(text)@ == old(text)@ + signed_decimal(
            m as int,
        ),
{
    decimal_notation_stands_for_the_number(n as nat);
    if call_ensures(append_decimal, (text, n), ()) {
        assert(final(text)@ == old(text)@ + decimal(n as nat));
    }
}

/// An error keeps the message that it is made of, hands it back, and prints it whole.
pub proof fn errors_keep_their_message(
    message: String,
    error: Error,
    kept: &str,
    text: String,
)
    requires
        call_ensures(Error::new, (message,), error),
    ensures
        call_ensures(Error::message, (&error,), kept) ==> kept@ == message@,
        call_ensures(Error::describe, (&error,), text) ==> text@ == "MLX error: "@ + message@,
{
}

/// A status is a success if and only if it is zero, and otherwise an error with the message.
pub proof fn a_status_decides(status: i32, message: String, result: Result<(), Error>)
    requires
        call_ensures(check, (status, message), result),
    ensures
        result is Ok <==> status == 0,
        result matches Err(error) ==> error@ == message@,
{
}

/// The error on an array that has not one element tells how many it has.
pub proof fn the_number_of_elements_is_told(error: NotScalar, text: String)
    requires
        call_ensures(NotScalar::describe, (&error,), text),
    ensures
        exists|digits: Seq<char>|
            number(digits) == error.size && text@
                == "item() requires a single-element array, but this array has "@ + #[trigger] (
            digits + " elements"@),
{
    let digits = decimal(error.size as nat);
    decimal_notation_stands_for_the_number(error.size as nat);
    let start = "item() requires a single-element array, but this array has "@;
    assert(text@ =~= start + (digits + " elements"@));
}

/// The error on values that do not fill a shape tells their number and the product of the
/// dimensions.
pub proof fn both_numbers_are_told(len: usize, product: i64, text: String)
    requires
        call_ensures(
            ShapeError::describe,
            (&(ShapeError::Mismatch { len, product }),),
            text,
        ),
    ensures
        text@ == "data length "@ + decimal(len as nat) + " does not match shape product "@
            + signed_decimal(product as int),
{
}

/// A product beyond the range of `i64` is told as an overflow.
pub proof fn an_overflow_is_told(text: String)
    requires
        call_ensures(ShapeError::describe, (&ShapeError::Overflow,), text),
    ensures
        text@ == "attempt to multiply with overflow"@,
{
}

/// The error on a read as another type tells the array's own type by its name.
pub proof fn the_element_type_is_told(found: Dtype, name: &'static str, text: String)
    requires
        call_ensures(Dtype::name, (found,), name),
        call_ensures(ToVecError::describe, (&(ToVecError::Dtype { found }),), text),
    ensures
        text@ == "array dtype "@ + name@ + " does not match requested element type"@,
{
}

/// The error on a copy that could not be made tells what MLX reported, whole.
pub proof fn a_failed_copy_is_told(error: Error, text: String)
    requires
        call_ensures(ToVecError::describe, (&(ToVecError::Contiguous { error }),), text),
    ensures
        text@ == "to_vec: failed to make array contiguous: "@ + ("MLX error: "@ + error@),
{
}

/// The error on an operator tells the method behind it and what MLX reported, whole.
pub proof fn a_failed_operator_is_told(failure: OperatorError, text: String)
    requires
        call_ensures(OperatorError::describe, (&failure,), text),
    ensures
        text@ == "Array::"@ + failure.method@ + " failed: "@ + ("MLX error: "@ + failure.error@),
{
}

} // verus!
