//! The name of a group of users.

use crate::cal::registry::copy_name;
use vstd::prelude::*;

verus! {

/// The largest number of bytes that the name of a group can have.
pub const GROUP_NAME_LENGTH: usize = 31;

/// Failures when a name is created.
#[derive(Debug, Clone, Copy, PartialEq, Eq, Structural)]
pub enum SemanticStringError {
    InvalidContent,
    ExceedsMaximumLength,
}

/// True if `value` is a lower case letter, a digit or a hyphen.
pub open spec fn is_valid_character(value: u8) -> bool {
    (97 <= value <= 122) || (48 <= value <= 57) || value == 45
}

/// True if `string` holds a byte that the name of a group must not hold.
pub open spec fn has_invalid_characters(string: Seq<u8>) -> bool {
    exists|i: int| 0 <= i < string.len() && !is_valid_character(#[trigger] string[i])
}

/// True if `string` is empty or starts with a hyphen or a digit.
pub open spec fn has_invalid_content(string: Seq<u8>) -> bool {
    string.len() == 0 || string[0] == 45 || (48 <= string[0] <= 57)
}

/// What the creation of the name of a group from `string` comes to.
pub open spec fn creation_result(string: Seq<u8>) -> Result<(), SemanticStringError> {
    if string.len() > GROUP_NAME_LENGTH {
        Err(SemanticStringError::ExceedsMaximumLength)
    } else if has_invalid_characters(string) || has_invalid_content(string) {
        Err(SemanticStringError::InvalidContent)
    } else {
        Ok(())
    }
}

/// The name of a group of users: at most 31 lower case letters, digits and
/// hyphens, the first of which is a letter.
#[derive(Debug)]
pub struct GroupName {
    value: Vec<u8>,
}

impl View for GroupName {
    type V = Seq<u8>;

    closed spec fn view(&self) -> Seq<u8> {
        self.value@
    }
}

impl GroupName {
    /// Every name obeys the rules for the names of groups.
    pub closed spec fn wf(&self) -> bool {
        creation_result(self.value@).is_ok()
    }

    /// Returns the largest number of bytes that the name of a group can
    /// have.
    pub fn max_len() -> (len: usize)
        ensures
            len == GROUP_NAME_LENGTH,
    {
        GROUP_NAME_LENGTH
    }

    /// Creates the name with the given bytes.
    pub fn new(value: &Vec<u8>) -> (result: Result<GroupName, SemanticStringError>)
        ensures
            result.is_ok() == creation_result(value@).is_ok(),
            result.is_err() ==> Err::<(), _>(result.unwrap_err()) == creation_result(value@),
            result.is_ok() ==> result.unwrap()@ == value@ && result.unwrap().wf(),
    {
        if value.len() > GROUP_NAME_LENGTH {
            return Err(SemanticStringError::ExceedsMaximumLength);
        }
        let mut i: usize = 0;
        while i < value.len()
            invariant
                i <= value.len(),
                value.len() <= GROUP_NAME_LENGTH,
                forall|k: int| 0 <= k < i ==> is_valid_character(#[trigger] value@[k]),
            decreases value.len() - i,
        {
            let byte: u8 = value[i];
            let valid: bool = (97 <= byte && byte <= 122) || (48 <= byte && byte <= 57) || byte
                == 45;
            if !valid {
                assert(!is_valid_character(value@[i as int]));
                return Err(SemanticStringError::InvalidContent);
            }
            i += 1;
        }
        if value.len() == 0 || value[0] == 45 || (48 <= value[0] && value[0] <= 57) {
            return Err(SemanticStringError::InvalidContent);
        }
        Ok(GroupName { value: copy_name(value) })
    }

    /// Returns the bytes of the name.
    pub fn as_bytes(&self) -> (bytes: &Vec<u8>)
        ensures
            bytes@ == self@,
    {
        &self.value
    }

    /// Returns the number of bytes of the name.
    pub fn len(&self) -> (len: usize)
        ensures
            len == self@.len(),
    {
        self.value.len()
    }
}

} // verus!
