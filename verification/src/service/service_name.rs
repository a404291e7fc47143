//! The name of a service.

use crate::cal::registry::copy_name;
use crate::cal::hash::{is_hex_digest, sha1_hex, spec_sha1_hex};
use vstd::prelude::*;

verus! {

/// The largest number of bytes that a service name can have.
pub const MAX_LENGTH: usize = 255;

/// Failures when a service name is created.
#[derive(Debug, Clone, Copy, PartialEq, Eq, Structural)]
pub enum ServiceNameError {
    InvalidContent,
    ExceedsMaximumLength,
}

/// True if `byte` is a printable character.
pub open spec fn is_printable(byte: u8) -> bool {
    32 <= byte <= 126
}

/// True if `value` can be the name of a service: it is not empty, it is
/// not longer than [`MAX_LENGTH`] bytes and all of its bytes are printable.
pub open spec fn is_valid(value: Seq<u8>) -> bool {
    &&& 0 < value.len() <= MAX_LENGTH
    &&& forall|i: int| 0 <= i < value.len() ==> is_printable(#[trigger] value[i])
}

/// What the creation of a service name from `value` comes to.
pub open spec fn creation_result(value: Seq<u8>) -> Result<(), ServiceNameError> {
    if value.len() > MAX_LENGTH {
        Err(ServiceNameError::ExceedsMaximumLength)
    } else if !is_valid(value) {
        Err(ServiceNameError::InvalidContent)
    } else {
        Ok(())
    }
}

/// The name of a service.
#[derive(Debug)]
pub struct ServiceName {
    value: Vec<u8>,
}

impl View for ServiceName {
    type V = Seq<u8>;

    closed spec fn view(&self) -> Seq<u8> {
        self.value@
    }
}

impl ServiceName {
    /// Every service name is a valid one.
    pub closed spec fn wf(&self) -> bool {
        is_valid(self.value@)
    }

    #[verifier::type_invariant]
    spec fn holds_valid_bytes(self) -> bool {
        is_valid(self.value@)
    }

    /// Creates the service name with the given bytes.
    pub fn new(value: &Vec<u8>) -> (result: Result<ServiceName, ServiceNameError>)
        ensures
            result.is_ok() == creation_result(value@).is_ok(),
            result.is_err() ==> Err::<(), _>(result.unwrap_err()) == creation_result(value@),
            result.is_ok() ==> result.unwrap()@ == value@ && result.unwrap().wf(),
    {
        if value.len() > MAX_LENGTH {
            return Err(ServiceNameError::ExceedsMaximumLength);
        }
        if value.len() == 0 {
            return Err(ServiceNameError::InvalidContent);
        }
        let mut i: usize = 0;
        while i < value.len()
            invariant
                0 < value.len() <= MAX_LENGTH,
                i <= value.len(),
                forall|k: int| 0 <= k < i ==> is_printable(#[trigger] value@[k]),
            decreases value.len() - i,
        {
            if value[i] < 32 || value[i] > 126 {
                assert(!is_printable(value@[i as int]));
                return Err(ServiceNameError::InvalidContent);
            }
            i += 1;
        }
        Ok(ServiceName { value: copy_name(value) })
    }

    /// Returns the bytes of the name.
    pub fn as_bytes(&self) -> (bytes: &Vec<u8>)
        ensures
            bytes@ == self@,
    {
        &self.value
    }

    /// Copies the name.
    pub fn clone(&self) -> (name: ServiceName)
        ensures
            name@ == self@,
            self.wf() ==> name.wf(),
    {
        proof {
            use_type_invariant(self);
        }
        ServiceName { value: copy_name(&self.value) }
    }
}

/// The id of the service with the given name: the digest of the name. The
/// files and the shared state of a service are found by the id of the
/// service, so that two names with the same digest stand for one service.
pub open spec fn spec_service_id(name: Seq<u8>) -> Seq<u8> {
    spec_sha1_hex(name)
}

/// Returns the id of the service with the given name.
pub fn service_id(name: &ServiceName) -> (id: ServiceName)
    ensures
        id@ == spec_service_id(name@),
        id.wf(),
{
    proof {
        use_type_invariant(name);
    }
    let digest = sha1_hex(name.as_bytes());
    id_of_digest(digest)
}

/// Returns the id that consists of the given digest.
pub fn id_of_digest(digest: Vec<u8>) -> (id: ServiceName)
    requires
        is_hex_digest(digest@),
    ensures
        id@ == digest@,
        id.wf(),
{
    assert(is_valid(digest@));
    ServiceName { value: digest }
}

} // verus!
