//! The name of a user.

use crate::cal::registry::copy_name;
use crate::system_types::group_name::SemanticStringError;
use vstd::prelude::*;

verus! {

/// The largest number of bytes that the name of a user can have.
pub const USER_NAME_LENGTH: usize = 31;

/// What the creation of the name of a user from `string` comes to.
pub open spec fn creation_result(string: Seq<u8>) -> Result<(), SemanticStringError> {
    if string.len() > USER_NAME_LENGTH {
        Err(SemanticStringError::ExceedsMaximumLength)
    } else if string.len() == 0 {
        Err(SemanticStringError::InvalidContent)
    } else {
        Ok(())
    }
}

/// The name of a user: between one and 31 bytes.
#[derive(Debug)]
pub struct UserName {
    value: Vec<u8>,
}

impl View for UserName {
    type V = Seq<u8>;

    closed spec fn view(&self) -> Seq<u8> {
        self.value@
    }
}

impl UserName {
    /// Returns the largest number of bytes that the name of a user can
    /// have.
    pub fn max_len() -> (len: usize)
        ensures
            len == USER_NAME_LENGTH,
    {
        USER_NAME_LENGTH
    }

    /// Creates the name with the given bytes.
    pub fn new(value: &Vec<u8>) -> (result: Result<UserName, SemanticStringError>)
        ensures
            result.is_ok() == creation_result(value@).is_ok(),
            result.is_err() ==> Err::<(), _>(result.unwrap_err()) == creation_result(value@),
            result.is_ok() ==> result.unwrap()@ == value@,
    {
        if value.len() > USER_NAME_LENGTH {
            return Err(SemanticStringError::ExceedsMaximumLength);
        }
        if value.len() == 0 {
            return Err(SemanticStringError::InvalidContent);
        }
        Ok(UserName { value: copy_name(value) })
    }

    /// Returns the bytes of the name.
    pub fn as_bytes(&self) -> (bytes: &Vec<u8>)
        ensures
            bytes@ == self@,
    {
        &self.value
    }

    /// Copies the name.
    pub fn clone(&self) -> (name: UserName)
        ensures
            name@ == self@,
    {
        UserName { value: copy_name(&self.value) }
    }
}

} // verus!
