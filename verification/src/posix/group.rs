//! Groups of users. The operating system is asked for a group by its id or
//! by its name; this module decides what its answer means and turns it into
//! a [`Group`].

use crate::cal::registry::copy_name;
use crate::posix::errno::{EINTR, EIO, EMFILE, ENFILE, ERANGE, ESUCCES};
use crate::system_types::group_name::GroupName;
use crate::system_types::group_name;
use crate::system_types::user_name::UserName;
use crate::system_types::user_name;
use vstd::prelude::*;

verus! {

/// Failures when a group is looked up.
#[derive(Debug, Clone, Copy, PartialEq, Eq, Structural)]
pub enum GroupError {
    Interrupt,
    IOerror,
    PerProcessFileHandleLimitReached,
    SystemWideFileHandleLimitReached,
    InsufficientBufferSize,
    GroupNotFound,
    SystemGroupNameLengthLongerThanSupportedLength,
    SystemUserNameLengthLongerThanSupportedLength,
    InvalidGroupName,
    UnknownError(i32),
}

/// What the operating system has stored about a group, as it hands it
/// out.
#[derive(Debug)]
pub struct GroupEntry {
    pub gid: u32,
    pub name: Vec<u8>,
    pub password: Vec<u8>,
    pub members: Vec<Vec<u8>>,
}

/// A group of users.
#[derive(Debug)]
pub struct Group {
    gid: u32,
    name: GroupName,
    password: Vec<u8>,
    members: Vec<UserName>,
}

/// The failure that the error number of a lookup stands for, if it stands
/// for one.
pub open spec fn spec_lookup_error(errno: i32) -> Option<GroupError> {
    if errno == ESUCCES {
        None
    } else if errno == EINTR {
        Some(GroupError::Interrupt)
    } else if errno == EIO {
        Some(GroupError::IOerror)
    } else if errno == EMFILE {
        Some(GroupError::PerProcessFileHandleLimitReached)
    } else if errno == ENFILE {
        Some(GroupError::SystemWideFileHandleLimitReached)
    } else if errno == ERANGE {
        Some(GroupError::InsufficientBufferSize)
    } else {
        Some(GroupError::UnknownError(errno))
    }
}

/// The first member of `members` from `index` on whose name cannot be the
/// name of a user, if there is one.
pub open spec fn first_invalid_member(members: Seq<Vec<u8>>, index: int) -> Option<int>
    decreases members.len() - index,
{
    if index < 0 || index >= members.len() {
        None
    } else if user_name::creation_result(members[index]@).is_err() {
        Some(index)
    } else {
        first_invalid_member(members, index + 1)
    }
}

/// What a lookup that ended with the given error number and entry comes
/// to.
pub open spec fn populate_result(errno: i32, entry: Option<GroupEntry>) -> Result<
    (),
    GroupError,
> {
    if spec_lookup_error(errno).is_some() {
        Err(spec_lookup_error(errno).unwrap())
    } else if entry.is_none() {
        Err(GroupError::GroupNotFound)
    } else if group_name::creation_result(entry.unwrap().name@).is_err() {
        Err(GroupError::SystemGroupNameLengthLongerThanSupportedLength)
    } else if first_invalid_member(entry.unwrap().members@, 0).is_some() {
        Err(GroupError::SystemUserNameLengthLongerThanSupportedLength)
    } else {
        Ok(())
    }
}

/// Returns the failure that the error number of a lookup stands for, if
/// it stands for one.
pub fn lookup_error(errno: i32) -> (error: Option<GroupError>)
    ensures
        error == spec_lookup_error(errno),
{
    if errno == ESUCCES {
        None
    } else if errno == EINTR {
        Some(GroupError::Interrupt)
    } else if errno == EIO {
        Some(GroupError::IOerror)
    } else if errno == EMFILE {
        Some(GroupError::PerProcessFileHandleLimitReached)
    } else if errno == ENFILE {
        Some(GroupError::SystemWideFileHandleLimitReached)
    } else if errno == ERANGE {
        Some(GroupError::InsufficientBufferSize)
    } else {
        Some(GroupError::UnknownError(errno))
    }
}

impl Group {
    /// The id of the group.
    pub closed spec fn spec_gid(&self) -> u32 {
        self.gid
    }

    /// The name of the group.
    pub closed spec fn spec_name(&self) -> Seq<u8> {
        self.name@
    }

    /// The password of the group.
    pub closed spec fn spec_password(&self) -> Seq<u8> {
        self.password@
    }

    /// The names of the members of the group.
    pub closed spec fn spec_members(&self) -> Seq<Seq<u8>> {
        Seq::new(self.members@.len(), |i: int| self.members@[i]@)
    }

    /// Turns the answer of the operating system to a lookup into a group:
    /// the error number `errno` of the lookup and the entry that it
    /// filled, if it found one.
    pub fn populate_entries(errno: i32, entry: Option<&GroupEntry>) -> (result: Result<
        Group,
        GroupError,
    >)
        ensures
            result.is_ok() == populate_result(
                errno,
                match entry {
                    Some(entry) => Some(*entry),
                    None => None,
                },
            ).is_ok(),
            result.is_err() ==> Err::<(), _>(result.unwrap_err()) == populate_result(
                errno,
                match entry {
                    Some(entry) => Some(*entry),
                    None => None,
                },
            ),
            result.is_ok() ==> result.unwrap().spec_gid() == entry.unwrap().gid
                && result.unwrap().spec_name() == entry.unwrap().name@
                && result.unwrap().spec_password() == entry.unwrap().password@
                && result.unwrap().spec_members() == Seq::new(
                entry.unwrap().members@.len(),
                |i: int| entry.unwrap().members@[i]@,
            ),
    {
        if let Some(error) = lookup_error(errno) {
            return Err(error);
        }
        let found = match entry {
            Some(found) => found,
            None => {
                return Err(GroupError::GroupNotFound);
            },
        };
        let name = match GroupName::new(&found.name) {
            Ok(name) => name,
            Err(_) => {
                return Err(GroupError::SystemGroupNameLengthLongerThanSupportedLength);
            },
        };
        let password = copy_name(&found.password);

        let mut members: Vec<UserName> = Vec::new();
        let mut counter: usize = 0;
        while counter < found.members.len()
            invariant
                entry == Some(found),
                spec_lookup_error(errno).is_none(),
                group_name::creation_result(found.name@).is_ok(),
                counter <= found.members@.len(),
                members@.len() == counter,
                forall|k: int| 0 <= k < counter ==> (#[trigger] members@[k])@ == found.members@[k]@,
                first_invalid_member(found.members@, counter as int) == first_invalid_member(
                    found.members@,
                    0,
                ),
            decreases found.members@.len() - counter,
        {
            match UserName::new(&found.members[counter]) {
                Ok(member) => {
                    members.push(member);
                },
                Err(_) => {
                    return Err(GroupError::SystemUserNameLengthLongerThanSupportedLength);
                },
            }
            counter += 1;
        }
        let group = Group { gid: found.gid, name, password, members };
        assert(group.spec_members() =~= Seq::new(
            found.members@.len(),
            |i: int| found.members@[i]@,
        ));
        Ok(group)
    }

    /// Returns the id of the group.
    pub fn gid(&self) -> (gid: u32)
        ensures
            gid == self.spec_gid(),
    {
        self.gid
    }

    /// Returns the name of the group.
    pub fn name(&self) -> (name: &GroupName)
        ensures
            name@ == self.spec_name(),
    {
        &self.name
    }

    /// Returns the password of the group.
    pub fn password(&self) -> (password: &Vec<u8>)
        ensures
            password@ == self.spec_password(),
    {
        &self.password
    }

    /// Returns the names of the members of the group.
    pub fn members(&self) -> (members: Vec<UserName>)
        ensures
            members@.len() == self.spec_members().len(),
            forall|i: int| 0 <= i < members@.len() ==> (#[trigger] members@[i])@
                == self.spec_members()[i],
    {
        let mut members: Vec<UserName> = Vec::new();
        let mut i: usize = 0;
        while i < self.members.len()
            invariant
                i <= self.members@.len(),
                members@.len() == i,
                forall|k: int| 0 <= k < i ==> (#[trigger] members@[k])@ == self.members@[k]@,
            decreases self.members@.len() - i,
        {
            members.push(self.members[i].clone());
            i += 1;
        }
        members
    }
}

} // verus!
