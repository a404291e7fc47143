//! Files of one host: each has a path, permissions and a content. The files
//! share a limited number of bytes.

use crate::cal::registry::{copy_name, Registry};
use crate::posix::permission::{Permission, OWNER_READ, OWNER_WRITE};
use vstd::prelude::*;

verus! {

/// Failures when a file is created.
#[derive(Debug, Clone, Copy, PartialEq, Eq, Structural)]
pub enum FileCreationError {
    FileAlreadyExists,
    DirectoryDoesNotExist,
    InsufficientPermissions,
}

/// Failures when a file is written.
#[derive(Debug, Clone, Copy, PartialEq, Eq, Structural)]
pub enum FileWriteError {
    FileDoesNotExist,
    InsufficientPermissions,
}

/// Failures when a file is read.
#[derive(Debug, Clone, Copy, PartialEq, Eq, Structural)]
pub enum FileReadError {
    FileDoesNotExist,
    InsufficientPermissions,
}

/// Failures when a file is looked at.
#[derive(Debug, Clone, Copy, PartialEq, Eq, Structural)]
pub enum FileAccessError {
    FileDoesNotExist,
}

/// A file: its permissions and its content.
pub struct File {
    pub permission: Permission,
    pub content: Vec<u8>,
}

/// What a look at a file shows: its permissions and the size of its
/// content.
#[derive(Debug, Clone, Copy, PartialEq, Eq, Structural)]
pub struct Metadata {
    pub permission: Permission,
    pub size: u64,
}

/// The files and directories of one host.
pub struct FileSystem {
    directories: Registry<Permission>,
    files: Registry<File>,
    free_space: usize,
}

impl FileSystem {
    /// The invariant that every operation keeps.
    pub closed spec fn wf(&self) -> bool {
        &&& self.directories.wf()
        &&& self.files.wf()
    }

    /// The directories by their path.
    pub closed spec fn directories(&self) -> Map<Seq<u8>, Permission> {
        self.directories@
    }

    /// The files by their path.
    pub closed spec fn files(&self) -> Map<Seq<u8>, File> {
        self.files@
    }

    /// The number of bytes that can still be written.
    pub closed spec fn spec_free_space(&self) -> usize {
        self.free_space
    }

    /// True if there is a file at `path`.
    pub open spec fn has_file(&self, path: Seq<u8>) -> bool {
        self.files().contains_key(path)
    }

    /// The permissions of the file at `path`.
    pub open spec fn permission_of(&self, path: Seq<u8>) -> Permission {
        self.files()[path].permission
    }

    /// The content of the file at `path`.
    pub open spec fn content_of(&self, path: Seq<u8>) -> Seq<u8> {
        self.files()[path].content@
    }

    /// True if `other` has the same files as this file system but for the
    /// one at `path`.
    pub open spec fn same_files_except(&self, other: &Self, path: Seq<u8>) -> bool {
        self.files().remove(path) == other.files().remove(path)
    }

    /// File systems with the same files but for one have the same file at
    /// every other path.
    pub proof fn lemma_same_files_except(&self, other: &Self, path: Seq<u8>, elsewhere: Seq<u8>)
        requires
            self.same_files_except(other, path),
            elsewhere != path,
        ensures
            self.has_file(elsewhere) == other.has_file(elsewhere),
            self.has_file(elsewhere) ==> self.files()[elsewhere] == other.files()[elsewhere],
    {
        assert(self.files().remove(path).contains_key(elsewhere) == self.has_file(elsewhere));
        assert(other.files().remove(path).contains_key(elsewhere) == other.has_file(elsewhere));
        if self.has_file(elsewhere) {
            assert(self.files().remove(path)[elsewhere] == self.files()[elsewhere]);
            assert(other.files().remove(path)[elsewhere] == other.files()[elsewhere]);
        }
    }

    /// Creates a file system without files and directories in which
    /// `free_space` bytes can be written.
    pub fn new(free_space: usize) -> (file_system: Self)
        ensures
            file_system.wf(),
            file_system.files() == Map::<Seq<u8>, File>::empty(),
            file_system.directories() == Map::<Seq<u8>, Permission>::empty(),
            file_system.spec_free_space() == free_space,
    {
        FileSystem { directories: Registry::new(), files: Registry::new(), free_space }
    }

    /// Returns true if there is a directory at `path`.
    pub fn does_directory_exist(&self, path: &Vec<u8>) -> (exists: bool)
        requires
            self.wf(),
        ensures
            exists == self.directories().contains_key(path@),
    {
        self.directories.contains(path)
    }

    /// Creates the directory at `path`. Returns false, and changes nothing,
    /// when there is one already.
    pub fn create_directory(&mut self, path: &Vec<u8>, permission: Permission) -> (created: bool)
        requires
            old(self).wf(),
        ensures
            final(self).wf(),
            created == !old(self).directories().contains_key(path@),
            created ==> final(self).directories() == old(self).directories().insert(
                path@,
                permission,
            ),
            !created ==> final(self).directories() == old(self).directories(),
            final(self).files() == old(self).files(),
            final(self).spec_free_space() == old(self).spec_free_space(),
    {
        self.directories.insert(copy_name(path), permission).is_none()
    }

    /// Returns true if there is a file at `path`.
    pub fn does_file_exist(&self, path: &Vec<u8>) -> (exists: bool)
        requires
            self.wf(),
        ensures
            exists == self.has_file(path@),
    {
        self.files.contains(path)
    }

    /// What the creation of an empty file at `path` in `directory` comes
    /// to. A file that exists is found before anything is asked of the
    /// directory.
    pub open spec fn create_file_result(&self, directory: Seq<u8>, path: Seq<u8>) -> Result<
        (),
        FileCreationError,
    > {
        if self.has_file(path) {
            Err(FileCreationError::FileAlreadyExists)
        } else if !self.directories().contains_key(directory) {
            Err(FileCreationError::DirectoryDoesNotExist)
        } else if !self.directories()[directory].spec_has(OWNER_WRITE) {
            Err(FileCreationError::InsufficientPermissions)
        } else {
            Ok(())
        }
    }

    /// Creates an empty file at `path` in `directory` unless there is a
    /// file at that path already.
    pub fn create_file_exclusive(
        &mut self,
        directory: &Vec<u8>,
        path: &Vec<u8>,
        permission: Permission,
    ) -> (result: Result<(), FileCreationError>)
        requires
            old(self).wf(),
        ensures
            final(self).wf(),
            result == old(self).create_file_result(directory@, path@),
            final(self).directories() == old(self).directories(),
            final(self).spec_free_space() == old(self).spec_free_space(),
            result.is_err() ==> final(self).files() == old(self).files(),
            result.is_ok() ==> final(self).has_file(path@) && final(self).permission_of(path@)
                == permission && final(self).content_of(path@) == Seq::<u8>::empty()
                && final(self).same_files_except(old(self), path@),
    {
        if self.files.contains(path) {
            return Err(FileCreationError::FileAlreadyExists);
        }
        match self.directories.find(directory) {
            None => {
                return Err(FileCreationError::DirectoryDoesNotExist);
            },
            Some(position) => {
                proof {
                    self.directories.lemma_positions();
                }
                if !self.directories.value(position).has(OWNER_WRITE) {
                    return Err(FileCreationError::InsufficientPermissions);
                }
            },
        }
        let file = File { permission, content: Vec::new() };
        match self.files.insert(copy_name(path), file) {
            Some(_) => Err(FileCreationError::FileAlreadyExists),
            None => {
                assert(self.files().remove(path@) =~= old(self).files().remove(path@));
                Ok(())
            },
        }
    }

    /// Returns the permissions and the size of the file at `path`.
    pub fn metadata(&self, path: &Vec<u8>) -> (result: Result<Metadata, FileAccessError>)
        requires
            self.wf(),
        ensures
            result.is_ok() == self.has_file(path@),
            result.is_err() ==> result == Err::<Metadata, _>(FileAccessError::FileDoesNotExist),
            result.is_ok() ==> result.unwrap().permission == self.permission_of(path@)
                && result.unwrap().size == self.content_of(path@).len(),
    {
        match self.files.find(path) {
            None => Err(FileAccessError::FileDoesNotExist),
            Some(position) => {
                proof {
                    self.files.lemma_positions();
                }
                let file = self.files.value(position);
                Ok(Metadata { permission: file.permission, size: file.content.len() as u64 })
            },
        }
    }

    /// The number of bytes of `contents` that a write to the file at
    /// `path` stores: all of them while the free space together with the
    /// space of the old content suffices, as many as that otherwise.
    pub open spec fn writable(&self, path: Seq<u8>, contents: Seq<u8>) -> nat {
        if contents.len() <= self.free_space_without(path) {
            contents.len()
        } else {
            self.free_space_without(path) as nat
        }
    }

    /// Replaces the content of the file at `path` with as much of
    /// `contents` as the free space admits, and returns the number of bytes
    /// that were written. The owner must have the permission to write.
    pub fn write(&mut self, path: &Vec<u8>, contents: &Vec<u8>) -> (result: Result<
        u64,
        FileWriteError,
    >)
        requires
            old(self).wf(),
        ensures
            final(self).wf(),
            final(self).directories() == old(self).directories(),
            !old(self).has_file(path@) ==> result == Err::<u64, _>(
                FileWriteError::FileDoesNotExist,
            ),
            old(self).has_file(path@) && !old(self).permission_of(path@).spec_has(OWNER_WRITE)
                ==> result == Err::<u64, _>(FileWriteError::InsufficientPermissions),
            result.is_ok() == (old(self).has_file(path@) && old(self).permission_of(
                path@,
            ).spec_has(OWNER_WRITE)),
            result.is_err() ==> final(self).files() == old(self).files() && final(self).spec_free_space() == old(self).spec_free_space(),
            result.is_ok() ==> result.unwrap() == old(self).writable(path@, contents@) && final(self).has_file(path@) && final(self).permission_of(path@) == old(self).permission_of(path@)
                && final(self).content_of(path@) == contents@.subrange(
                0,
                old(self).writable(path@, contents@) as int,
            ) && final(self).same_files_except(old(self), path@) && final(self).spec_free_space()
                == old(self).free_space_without(path@) - old(self).writable(path@, contents@),
    {
        match self.files.find(path) {
            None => Err(FileWriteError::FileDoesNotExist),
            Some(position) => {
                proof {
                    self.files.lemma_positions();
                }
                if !self.files.value(position).permission.has(OWNER_WRITE) {
                    return Err(FileWriteError::InsufficientPermissions);
                }
                let available: usize = self.free_space.saturating_add(
                    self.files.value(position).content.len(),
                );
                let length: usize = if contents.len() <= available {
                    contents.len()
                } else {
                    available
                };
                let mut content: Vec<u8> = Vec::new();
                let mut i: usize = 0;
                while i < length
                    invariant
                        i <= length <= contents.len(),
                        content@ == contents@.subrange(0, i as int),
                    decreases length - i,
                {
                    content.push(contents[i]);
                    assert(content@ =~= contents@.subrange(0, i + 1));
                    i += 1;
                }
                let file = self.files.value_mut(position);
                file.content = content;
                self.free_space = available - length;
                proof {
                    assert(self.files().remove(path@) =~= old(self).files().remove(path@));
                }
                Ok(length as u64)
            },
        }
    }

    /// Sets the permissions of the file at `path`. Returns false, and
    /// changes nothing, when there is no such file.
    pub fn set_permission(&mut self, path: &Vec<u8>, permission: Permission) -> (done: bool)
        requires
            old(self).wf(),
        ensures
            final(self).wf(),
            done == old(self).has_file(path@),
            final(self).directories() == old(self).directories(),
            final(self).spec_free_space() == old(self).spec_free_space(),
            !done ==> final(self).files() == old(self).files(),
            done ==> final(self).has_file(path@) && final(self).permission_of(path@) == permission
                && final(self).content_of(path@) == old(self).content_of(path@) && final(self).same_files_except(old(self), path@),
    {
        match self.files.find(path) {
            None => false,
            Some(position) => {
                proof {
                    self.files.lemma_positions();
                }
                let file = self.files.value_mut(position);
                file.permission = permission;
                proof {
                    assert(self.files().remove(path@) =~= old(self).files().remove(path@));
                }
                true
            },
        }
    }

    /// Copies the content of the file at `path` to the front of `buffer`
    /// and returns the number of bytes that were copied: the whole content,
    /// or as much of it as the buffer takes. The owner must have the
    /// permission to read.
    pub fn read(&self, path: &Vec<u8>, buffer: &mut Vec<u8>) -> (result: Result<
        u64,
        FileReadError,
    >)
        requires
            self.wf(),
        ensures
            final(buffer)@.len() == old(buffer)@.len(),
            !self.has_file(path@) ==> result == Err::<u64, _>(FileReadError::FileDoesNotExist),
            self.has_file(path@) && !self.permission_of(path@).spec_has(OWNER_READ) ==> result
                == Err::<u64, _>(FileReadError::InsufficientPermissions),
            result.is_ok() == (self.has_file(path@) && self.permission_of(path@).spec_has(
                OWNER_READ,
            )),
            result.is_err() ==> final(buffer)@ == old(buffer)@,
            result.is_ok() ==> result.unwrap() == vstd::math::min(
                self.content_of(path@).len() as int,
                old(buffer)@.len() as int,
            ) && final(buffer)@.subrange(0, result.unwrap() as int) == self.content_of(
                path@,
            ).subrange(0, result.unwrap() as int) && final(buffer)@.subrange(
                result.unwrap() as int,
                old(buffer)@.len() as int,
            ) == old(buffer)@.subrange(result.unwrap() as int, old(buffer)@.len() as int),
    {
        match self.files.find(path) {
            None => Err(FileReadError::FileDoesNotExist),
            Some(position) => {
                proof {
                    self.files.lemma_positions();
                }
                let file = self.files.value(position);
                if !file.permission.has(OWNER_READ) {
                    return Err(FileReadError::InsufficientPermissions);
                }
                let length: usize = if file.content.len() <= buffer.len() {
                    file.content.len()
                } else {
                    buffer.len()
                };
                let mut i: usize = 0;
                while i < length
                    invariant
                        i <= length,
                        length <= file.content.len(),
                        length <= buffer.len(),
                        buffer@.len() == old(buffer)@.len(),
                        forall|k: int| 0 <= k < i ==> buffer@[k] == file.content@[k],
                        forall|k: int| i <= k < buffer@.len() ==> buffer@[k] == old(buffer)@[k],
                    decreases length - i,
                {
                    buffer[i] = file.content[i];
                    i += 1;
                }
                proof {
                    assert(buffer@.subrange(0, length as int) =~= file.content@.subrange(
                        0,
                        length as int,
                    ));
                    assert(buffer@.subrange(length as int, old(buffer)@.len() as int) =~= old(buffer)@.subrange(length as int, old(buffer)@.len() as int));
                }
                Ok(length as u64)
            },
        }
    }

    /// The number of bytes that can be written after the file at `path`
    /// was removed: the bytes of the file can be written again.
    pub open spec fn free_space_without(&self, path: Seq<u8>) -> usize {
        if !self.has_file(path) {
            self.spec_free_space()
        } else if self.spec_free_space() + self.content_of(path).len() > usize::MAX {
            usize::MAX
        } else {
            (self.spec_free_space() + self.content_of(path).len()) as usize
        }
    }

    /// Removes the file at `path`. Returns false when there is no such
    /// file. The bytes of the file can be written again.
    pub fn remove(&mut self, path: &Vec<u8>) -> (removed: bool)
        requires
            old(self).wf(),
        ensures
            final(self).wf(),
            removed == old(self).has_file(path@),
            final(self).files() == old(self).files().remove(path@),
            final(self).directories() == old(self).directories(),
            final(self).spec_free_space() == old(self).free_space_without(path@),
    {
        match self.files.remove(path) {
            Some(file) => {
                self.free_space = self.free_space.saturating_add(file.content.len());
                true
            },
            None => false,
        }
    }

    /// Returns the paths of all files.
    pub fn list(&self) -> (paths: Vec<Vec<u8>>)
        requires
            self.wf(),
        ensures
            forall|i: int| 0 <= i < paths.len() ==> self.has_file(#[trigger] paths[i]@),
            forall|path: Seq<u8>|
                self.has_file(path) ==> exists|i: int|
                    0 <= i < paths.len() && #[trigger] paths[i]@ == path,
            forall|i: int, j: int|
                0 <= i < paths.len() && 0 <= j < paths.len() && i != j ==> paths[i]@ != paths[j]@,
    {
        let mut paths: Vec<Vec<u8>> = Vec::new();
        let mut i: usize = 0;
        proof {
            self.files.lemma_positions();
        }
        while i < self.files.len()
            invariant
                self.wf(),
                i <= self.files.spec_len(),
                paths.len() == i,
                forall|k: int| 0 <= k < i ==> (#[trigger] paths[k]@) == self.files.name_at(k),
            decreases self.files.spec_len() - i,
        {
            paths.push(copy_name(self.files.name(i)));
            i += 1;
        }
        proof {
            assert forall|path: Seq<u8>| self.has_file(path) implies exists|i: int|
                0 <= i < paths.len() && #[trigger] paths[i]@ == path by {
                let position = self.files.position_of(path).unwrap();
                assert(paths[position]@ == path);
            }
        }
        paths
    }
}

} // verus!
