//! Read-only memory which is found by a name: it is written once when it is
//! created and can be read by everyone afterwards.

pub mod file;

use crate::cal::named_concept::{NamedConcept, NamedConceptMgmt};
use vstd::prelude::*;

verus! {

/// Failures when a static storage is created.
#[derive(Debug, Clone, Copy, Eq, Hash, PartialEq)]
pub enum StaticStorageCreateError {
    AlreadyExists,
    Creation,
    Write,
    InsufficientPermissions,
    InternalError,
}

/// Failures when a static storage is opened.
#[derive(Debug, Clone, Copy, Eq, Hash, PartialEq)]
pub enum StaticStorageOpenError {
    DoesNotExist,
    Read,
    IsLocked,
    InternalError,
}

/// Failures when a static storage is read.
#[derive(Debug, Clone, Copy, Eq, Hash, PartialEq)]
pub enum StaticStorageReadError {
    BufferTooSmall,
    ReadError,
    StaticStorageWasModified,
    CreationNotComplete,
}

/// Failures when a locked static storage is unlocked.
#[derive(Debug, Clone, Copy, Eq, Hash, PartialEq)]
pub enum StaticStorageUnlockError {
    InsufficientPermissions,
    NoSpaceLeft,
    InternalError,
}

/// The default suffix of every static storage: `.static_storage`.
pub open spec fn spec_default_suffix() -> Seq<u8> {
    seq![46u8, 115u8, 116u8, 97u8, 116u8, 105u8, 99u8, 95u8, 115u8, 116u8, 111u8, 114u8, 97u8, 103u8, 101u8]
}

/// The default path hint of every static storage: `/tmp/`.
pub open spec fn spec_default_path_hint() -> Seq<u8> {
    seq![47u8, 116u8, 109u8, 112u8, 47u8]
}

/// Returns the default suffix of every static storage.
pub fn default_suffix() -> (suffix: Vec<u8>)
    ensures
        suffix@ == spec_default_suffix(),
{
    let suffix: Vec<u8> = vec![
        46u8, 115u8, 116u8, 97u8, 116u8, 105u8, 99u8, 95u8, 115u8, 116u8, 111u8, 114u8, 97u8, 103u8,
        101u8,
    ];
    assert(suffix@ =~= spec_default_suffix());
    suffix
}

/// Returns the default path hint of every static storage.
pub fn default_path_hint() -> (path_hint: Vec<u8>)
    ensures
        path_hint@ == spec_default_path_hint(),
{
    let path_hint: Vec<u8> = vec![47u8, 116u8, 109u8, 112u8, 47u8];
    assert(path_hint@ =~= spec_default_path_hint());
    path_hint
}

/// A custom configuration of a static storage: where its objects are kept
/// and how they are named.
pub trait StaticStorageConfiguration: Sized {
    /// The suffix of the names of the objects.
    spec fn suffix_of(&self) -> Seq<u8>;

    /// The path under which the objects are kept.
    spec fn path_hint_of(&self) -> Seq<u8>;

    /// Defines the suffix of the names of the objects.
    fn with_suffix(self, value: Vec<u8>) -> (config: Self)
        ensures
            config.suffix_of() == value@,
            config.path_hint_of() == self.path_hint_of(),
    ;

    /// Sets the path under which the objects are kept.
    fn with_path_hint(self, value: Vec<u8>) -> (config: Self)
        ensures
            config.path_hint_of() == value@,
            config.suffix_of() == self.suffix_of(),
    ;
}

/// A locked static storage: it is present but has no content yet.
pub trait StaticStorageLocked: Sized {
    /// The storage that the locked storage becomes.
    type Storage;

    /// What the storages live in.
    type Medium;

    /// What holds of the medium between the operations on it.
    spec fn medium_wf(medium: &Self::Medium) -> bool;

    /// True if the storage is present in the medium, locked or complete.
    spec fn is_present(&self, medium: &Self::Medium) -> bool;

    /// The content of the storage in the medium, or [`None`] while the
    /// storage is absent or locked.
    spec fn content_in(&self, medium: &Self::Medium) -> Option<Seq<u8>>;

    /// True if the locked storage owns the underlying resources: they are
    /// removed when it cannot be unlocked.
    spec fn owns_resources(&self) -> bool;

    /// What an attempt to unlock the storage with `contents` comes to.
    spec fn unlock_result(&self, medium: &Self::Medium, contents: Seq<u8>) -> Result<
        (),
        StaticStorageUnlockError,
    >;

    /// True if `storage` is what the locked storage becomes when it is
    /// unlocked with `contents`.
    spec fn becomes(&self, storage: &Self::Storage, contents: Seq<u8>) -> bool;

    /// True if the two media hold the same but for this storage.
    spec fn same_elsewhere(&self, before: &Self::Medium, after: &Self::Medium) -> bool;

    /// Unlocks the static storage by writing the contents to it: the
    /// storage is complete afterwards and holds the contents. When that
    /// fails, a storage that owns the underlying resources is removed, and
    /// one that does not stays present or absent as it was.
    fn unlock(self, medium: &mut Self::Medium, contents: &Vec<u8>) -> (result: Result<
        Self::Storage,
        StaticStorageUnlockError,
    >)
        requires
            Self::medium_wf(old(medium)),
        ensures
            Self::medium_wf(final(medium)),
            self.same_elsewhere(old(medium), final(medium)),
            result.is_ok() == self.unlock_result(old(medium), contents@).is_ok(),
            match result {
                Ok(storage) => self.becomes(&storage, contents@) && self.content_in(final(medium))
                    == Some(contents@),
                Err(error) => Err::<(), _>(error) == self.unlock_result(old(medium), contents@) && (
                self.owns_resources() ==> !self.is_present(final(medium))) && (
                !self.owns_resources() ==> self.is_present(final(medium)) == self.is_present(
                    old(medium),
                )),
            },
    ;
}

/// Creates a static storage or opens one that exists.
pub trait StaticStorageBuilder: Sized {
    /// The storage that is built.
    type Storage;

    /// The locked storage that is built.
    type Locked: StaticStorageLocked<Storage = Self::Storage, Medium = Self::Medium>;

    /// What the storages live in.
    type Medium;

    /// What holds of the medium between the operations on it.
    spec fn medium_wf(medium: &Self::Medium) -> bool;

    /// What an attempt to create the locked storage comes to.
    spec fn create_locked_result(&self, medium: &Self::Medium) -> Result<
        (),
        StaticStorageCreateError,
    >;

    /// What an attempt to create the storage with `contents` comes to.
    spec fn create_result(&self, medium: &Self::Medium, contents: Seq<u8>) -> Result<
        (),
        StaticStorageCreateError,
    >;

    /// What an attempt to open the storage comes to.
    spec fn open_result(&self, medium: &Self::Medium) -> Result<(), StaticStorageOpenError>;

    /// The content of the storage that the builder describes, or [`None`]
    /// while that storage is absent or locked.
    spec fn content_in(&self, medium: &Self::Medium) -> Option<Seq<u8>>;

    /// True if `storage` is the storage that the builder describes.
    spec fn describes(&self, storage: &Self::Storage) -> bool;

    /// True if a storage that the builder creates owns the underlying
    /// resources.
    spec fn owns_resources(&self) -> bool;

    /// True if the two builders describe the storage of the same name in
    /// the same place.
    spec fn same_storage_as(&self, other: &Self) -> bool;

    /// The length of the content that `storage` stands for.
    spec fn length_of(storage: &Self::Storage) -> nat;

    /// True if `locked` is the storage that the builder describes, in its
    /// locked state, and `after` is the medium after the builder created
    /// it in `before`.
    spec fn has_created_locked(
        &self,
        before: &Self::Medium,
        after: &Self::Medium,
        locked: &Self::Locked,
    ) -> bool;

    /// What holds of the medium is what the locked storage asks of it.
    proof fn lemma_medium(medium: &Self::Medium)
        ensures
            Self::medium_wf(medium) == Self::Locked::medium_wf(medium),
    ;

    /// A storage that cannot be created in its locked state cannot be
    /// created at all, for the same reason.
    proof fn lemma_create_refused(&self, medium: &Self::Medium, contents: Seq<u8>)
        requires
            self.create_locked_result(medium).is_err(),
        ensures
            self.create_result(medium, contents) == self.create_locked_result(medium),
    ;

    /// A storage that was created in its locked state is created when it
    /// can be unlocked, and its creation fails with
    /// [`StaticStorageCreateError::Write`] when it cannot. What the locked
    /// storage becomes is the storage that the builder describes.
    proof fn lemma_create(
        &self,
        before: &Self::Medium,
        created: &Self::Medium,
        locked: &Self::Locked,
        after: &Self::Medium,
        storage: &Self::Storage,
        contents: Seq<u8>,
    )
        requires
            self.create_locked_result(before).is_ok(),
            self.has_created_locked(before, created, locked),
        ensures
            locked.unlock_result(created, contents).is_ok() == self.create_result(
                before,
                contents,
            ).is_ok(),
            self.create_result(before, contents).is_err() ==> self.create_result(before, contents)
                == Err::<(), _>(StaticStorageCreateError::Write),
            locked.becomes(storage, contents) ==> self.describes(storage),
            locked.content_in(after) == self.content_in(after),
    ;

    /// Defines if a newly created storage owns the underlying resources.
    /// The builder describes the same storage as before.
    fn with_ownership(self, value: bool) -> (builder: Self)
        ensures
            builder.owns_resources() == value,
            builder.same_storage_as(&self),
    ;

    /// Creates the storage in its locked state: it is present and has no
    /// content. The contents must be set later with
    /// [`StaticStorageLocked::unlock()`].
    fn create_locked(self, medium: &mut Self::Medium) -> (result: Result<
        Self::Locked,
        StaticStorageCreateError,
    >)
        requires
            Self::medium_wf(old(medium)),
        ensures
            Self::medium_wf(final(medium)),
            result.is_ok() == self.create_locked_result(old(medium)).is_ok(),
            match result {
                Ok(locked) => self.has_created_locked(old(medium), final(medium), &locked)
                    && locked.is_present(final(medium)) && locked.content_in(
                    final(medium),
                ).is_none(),
                Err(error) => Err::<(), _>(error) == self.create_locked_result(old(medium))
                    && self.content_in(final(medium)) == self.content_in(old(medium)),
            },
    ;

    /// Opens a storage that exists and whose creation is finalized.
    fn open(self, medium: &Self::Medium) -> (result: Result<Self::Storage, StaticStorageOpenError>)
        requires
            Self::medium_wf(medium),
        ensures
            result.is_ok() == self.open_result(medium).is_ok(),
            match result {
                Ok(storage) => self.describes(&storage) && self.content_in(medium).is_some()
                    && Self::length_of(&storage) == self.content_in(medium).unwrap().len(),
                Err(error) => Err::<(), _>(error) == self.open_result(medium),
            },
    ;

    /// Creates the storage with the given contents: it is created in its
    /// locked state and unlocked with the contents. When the contents
    /// cannot be written the creation fails with
    /// [`StaticStorageCreateError::Write`].
    fn create(self, medium: &mut Self::Medium, contents: &Vec<u8>) -> (result: Result<
        Self::Storage,
        StaticStorageCreateError,
    >)
        requires
            Self::medium_wf(old(medium)),
        ensures
            Self::medium_wf(final(medium)),
            result.is_ok() == self.create_result(old(medium), contents@).is_ok(),
            match result {
                Ok(storage) => self.describes(&storage) && self.content_in(final(medium)) == Some(
                    contents@,
                ),
                Err(error) => Err::<(), _>(error) == self.create_result(old(medium), contents@),
            },
    {
        let ghost builder = self;
        let locked_storage = match self.create_locked(medium) {
            Ok(locked_storage) => locked_storage,
            Err(error) => {
                proof {
                    builder.lemma_create_refused(old(medium), contents@);
                }
                return Err(error);
            },
        };
        let ghost locked = locked_storage;
        let ghost created = *medium;
        proof {
            Self::lemma_medium(medium);
        }
        let unlocked = locked_storage.unlock(medium, contents);
        proof {
            Self::lemma_medium(medium);
        }
        match unlocked {
            Ok(storage) => {
                proof {
                    builder.lemma_create(
                        old(medium),
                        &created,
                        &locked,
                        medium,
                        &storage,
                        contents@,
                    );
                }
                Ok(storage)
            },
            Err(_) => {
                proof {
                    let ghost storage: Self::Storage = arbitrary();
                    builder.lemma_create(
                        old(medium),
                        &created,
                        &locked,
                        medium,
                        &storage,
                        contents@,
                    );
                }
                Err(StaticStorageCreateError::Write)
            },
        }
    }
}

/// A static storage whose content is complete: it can be read by everyone
/// who finds it by its name.
pub trait StaticStorage: Sized + NamedConceptMgmt + NamedConcept {
    /// The length of the content.
    spec fn length_of(&self) -> u64;

    /// True if the storage owns the underlying resources: they are removed
    /// when the storage is closed.
    spec fn owns_resources(&self) -> bool;

    /// True if the two values stand for the same storage with the same
    /// content, whoever owns the underlying resources.
    spec fn same_content_as(&self, other: &Self) -> bool;

    /// The content of the storage in the medium.
    spec fn content_in(&self, medium: &<Self as NamedConceptMgmt>::Medium) -> Seq<u8>;

    /// What reading the storage into a buffer of `buffer_len` bytes comes
    /// to.
    spec fn read_result(
        &self,
        medium: &<Self as NamedConceptMgmt>::Medium,
        buffer_len: nat,
    ) -> Result<(), StaticStorageReadError>;

    /// Returns the length of the content.
    fn len(&self) -> (len: u64)
        ensures
            len == self.length_of(),
    ;

    /// Returns true if the content is empty.
    fn is_empty(&self) -> (empty: bool)
        ensures
            empty == (self.length_of() == 0),
    ;

    /// Writes the content of the storage to the front of `content` and
    /// leaves the rest of the buffer as it is. The buffer must be large
    /// enough for the content.
    fn read(&self, medium: &<Self as NamedConceptMgmt>::Medium, content: &mut Vec<u8>) -> (result:
        Result<(), StaticStorageReadError>)
        requires
            <Self as NamedConceptMgmt>::medium_wf(medium),
        ensures
            final(content)@.len() == old(content)@.len(),
            result == self.read_result(medium, old(content)@.len()),
            result.is_ok() ==> final(content)@.subrange(0, self.length_of() as int)
                == self.content_in(medium).subrange(0, self.length_of() as int) && final(content)@.subrange(self.length_of() as int, old(content)@.len() as int) == old(content)@.subrange(self.length_of() as int, old(content)@.len() as int),
            result.is_err() && result != Err::<(), _>(
                StaticStorageReadError::StaticStorageWasModified,
            ) ==> final(content)@ == old(content)@,
    ;

    /// Releases the ownership of the storage: the underlying resources
    /// stay when the storage is closed.
    fn release_ownership(&mut self)
        ensures
            !final(self).owns_resources(),
            final(self).same_content_as(old(self)),
    ;

    /// Acquires the ownership of the storage: the underlying resources are
    /// removed when the storage is closed.
    fn acquire_ownership(&mut self)
        ensures
            final(self).owns_resources(),
            final(self).same_content_as(old(self)),
    ;
}

} // verus!
