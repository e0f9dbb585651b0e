//! Checks on coordinates and on the lengths of coordinate slices.
use vstd::prelude::*;
use crate::binary64::Binary64;
use crate::coord::{Coord, Coord3D};
use crate::error::{Error, ErrorView};
use crate::text::{append_decimal, decimal};

verus! {

/// The error of a check, if it found one.
pub open spec fn error_of<T>(result: Result<T, Error>) -> Option<ErrorView> {
    match result {
        Ok(_) => None,
        Err(error) => Some(error@),
    }
}

/// The failure of an ordinate that is an infinity or not a number.
pub open spec fn not_finite(context: Seq<char>) -> ErrorView {
    ErrorView::OutOfRange(context + " must be finite"@)
}

/// The failure of an output slice that does not fit its input.
pub open spec fn length_mismatch(input_len: nat, output_len: nat) -> ErrorView {
    ErrorView::OutOfRange(
        "output coordinate slice length "@ + decimal(output_len) + " does not match input length "@
            + decimal(input_len),
    )
}

/// Checks that an output slice is as long as its input.
pub fn validate_output_len(input_len: usize, output_len: usize) -> (result: Result<(), Error>)
    ensures
        error_of(result) == (if input_len == output_len {
            None
        } else {
            Some(length_mismatch(input_len as nat, output_len as nat))
        }),
{
    if input_len != output_len {
        let mut text = String::from_str("output coordinate slice length ");
        append_decimal(&mut text, output_len as u64);
        text.append(" does not match input length ");
        append_decimal(&mut text, input_len as u64);
        return Err(Error::OutOfRange(text));
    }
    Ok(())
}

/// The failure of a check for finite ordinates.
fn must_be_finite(context: &str) -> (error: Error)
    ensures
        error@ == not_finite(context@),
{
    let mut text = String::from_str(context);
    text.append(" must be finite");
    Error::OutOfRange(text)
}

/// Checks that both ordinates are finite.
pub fn validate_pipeline_coord(context: &str, coord: Coord) -> (result: Result<(), Error>)
    ensures
        error_of(result) == (if coord.finite() {
            None
        } else {
            Some(not_finite(context@))
        }),
{
    if coord.x.is_finite() && coord.y.is_finite() {
        return Ok(());
    }
    Err(must_be_finite(context))
}

/// Checks that the three ordinates are finite.
pub fn validate_pipeline_coord3d(context: &str, coord: Coord3D) -> (result: Result<(), Error>)
    ensures
        error_of(result) == (if coord.finite() {
            None
        } else {
            Some(not_finite(context@))
        }),
{
    if coord.x.is_finite() && coord.y.is_finite() && coord.z.is_finite() {
        return Ok(());
    }
    Err(must_be_finite(context))
}

/// Checks that a height is finite.
pub fn validate_vertical_ordinate(z: Binary64) -> (result: Result<(), Error>)
    ensures
        error_of(result) == (if z.finite() {
            None
        } else {
            Some(ErrorView::OutOfRange("vertical input coordinate must be finite"@))
        }),
{
    if !z.is_finite() {
        return Err(
            Error::OutOfRange(String::from_str("vertical input coordinate must be finite")),
        );
    }
    Ok(())
}

} // verus!
