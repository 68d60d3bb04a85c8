//! Checks on the text given to the command-line checker.
use vstd::prelude::*;
use crate::error::IntegrityError;
use crate::text::{chars_of, trim, trim_chars};

verus! {

/// The default largest input, in bytes.
pub const DEFAULT_MAX_SIZE: usize = 1048576;

/// Accepts a non-blank input of at most `max_size` bytes.
pub fn validate_input(input: &str, max_size: usize) -> (r: Result<(), IntegrityError>)
    ensures
        r is Ok <==> trim(input@).len() > 0 && input.len() <= max_size,
        trim(input@).len() == 0 ==> r == Err::<(), IntegrityError>(IntegrityError::EmptyInput),
        trim(input@).len() > 0 && input.len() > max_size ==> r == Err::<(), IntegrityError>(
            IntegrityError::InputTooLarge { max_bytes: max_size, actual_bytes: input.len() },
        ),
{
    if trim_chars(&chars_of(input)).len() == 0 {
        return Err(IntegrityError::EmptyInput);
    }
    if input.len() > max_size {
        return Err(IntegrityError::InputTooLarge { max_bytes: max_size, actual_bytes: input.len() });
    }
    Ok(())
}

} // verus!
