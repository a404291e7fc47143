//! A static storage that is a file.
//!
//! The file is created with permissions that mark it as locked. Unlocking
//! writes the content and then changes the permissions to read-only, which
//! is the only state in which the storage can be opened: whoever opens it
//! finds the complete content or is told that the storage is still locked.

use crate::cal::named_concept::{
    extract_name_from_path,
    lists_name,
    path_for,
    spec_extract_name_from_path,
    spec_path_for,
    lemma_path_for_is_inverse_of_extract,
    NamedConceptDoesExistError,
    NamedConceptListError,
    NamedConceptRemoveError,
};
use crate::cal::registry::copy_name;
use crate::cal::static_storage::{
    StaticStorageBuilder,
    StaticStorageCreateError,
    StaticStorageLocked,
    StaticStorageOpenError,
    StaticStorageReadError,
    StaticStorageUnlockError,
    default_path_hint,
    default_suffix,
    spec_default_path_hint,
    spec_default_suffix,
};
use crate::posix::file_system::{
    FileAccessError,
    FileCreationError,
    FileReadError,
    FileSystem,
    FileWriteError,
};
use crate::posix::permission::{Permission, GROUP_ALL, OWNER_ALL, OWNER_READ, OWNER_WRITE};
use vstd::prelude::*;

verus! {

/// The permissions of a storage whose content is complete.
pub const FINAL_PERMISSIONS: u16 = OWNER_READ;

/// The permissions of a storage that is being created.
pub const LOCKED_PERMISSIONS: u16 = OWNER_WRITE;

/// The permissions of the directory that is created for the storages.
pub const DIRECTORY_PERMISSIONS: u16 = 0o770;

/// The configuration of a file based static storage: the directory of the
/// file and the suffix of its name.
#[derive(Debug)]
pub struct Configuration {
    path: Vec<u8>,
    suffix: Vec<u8>,
}

impl Configuration {
    /// The suffix that the file names end with.
    pub closed spec fn spec_suffix(&self) -> Seq<u8> {
        self.suffix@
    }

    /// The directory that the files are stored in.
    pub closed spec fn spec_path_hint(&self) -> Seq<u8> {
        self.path@
    }

    /// The full path of the storage with the given name.
    pub open spec fn spec_path_for(&self, name: Seq<u8>) -> Seq<u8> {
        spec_path_for(self.spec_path_hint(), self.spec_suffix(), name)
    }

    /// Creates the configuration with the default path hint and suffix.
    pub fn default() -> (config: Self)
        ensures
            config.spec_suffix() == spec_default_suffix(),
            config.spec_path_hint() == spec_default_path_hint(),
    {
        Configuration { path: default_path_hint(), suffix: default_suffix() }
    }

    /// Defines the suffix that the file names end with.
    pub fn suffix(self, value: Vec<u8>) -> (config: Self)
        ensures
            config.spec_suffix() == value@,
            config.spec_path_hint() == self.spec_path_hint(),
    {
        let mut config = self;
        config.suffix = value;
        config
    }

    /// Sets the directory under which the files are stored.
    pub fn path_hint(self, value: Vec<u8>) -> (config: Self)
        ensures
            config.spec_path_hint() == value@,
            config.spec_suffix() == self.spec_suffix(),
    {
        let mut config = self;
        config.path = value;
        config
    }

    /// Returns the suffix.
    pub fn get_suffix(&self) -> (suffix: &Vec<u8>)
        ensures
            suffix@ == self.spec_suffix(),
    {
        &self.suffix
    }

    /// Returns the path hint.
    pub fn get_path_hint(&self) -> (path_hint: &Vec<u8>)
        ensures
            path_hint@ == self.spec_path_hint(),
    {
        &self.path
    }

    /// Returns the full path of the storage with the given name.
    pub fn path_for(&self, value: &Vec<u8>) -> (path: Vec<u8>)
        ensures
            path@ == self.spec_path_for(value@),
    {
        path_for(&self.path, &self.suffix, value)
    }

    /// Extracts the name of a storage from the full path of its file.
    pub fn extract_name_from_path(&self, value: &Vec<u8>) -> (name: Option<Vec<u8>>)
        ensures
            name.is_some() == spec_extract_name_from_path(
                self.spec_path_hint(),
                self.spec_suffix(),
                value@,
            ).is_some(),
            name.is_some() ==> Some(name.unwrap()@) == spec_extract_name_from_path(
                self.spec_path_hint(),
                self.spec_suffix(),
                value@,
            ),
    {
        extract_name_from_path(&self.path, &self.suffix, value)
    }

    /// Copies the configuration.
    pub fn clone(&self) -> (config: Self)
        ensures
            config.spec_suffix() == self.spec_suffix(),
            config.spec_path_hint() == self.spec_path_hint(),
    {
        Configuration { path: copy_name(&self.path), suffix: copy_name(&self.suffix) }
    }
}

/// True if the file at `path` is a storage that is still being created.
pub open spec fn is_locked(file_system: &FileSystem, path: Seq<u8>) -> bool {
    file_system.has_file(path) && file_system.permission_of(path).bits != FINAL_PERMISSIONS
}

/// True if the file at `path` is a storage whose content is complete.
pub open spec fn is_unlocked(file_system: &FileSystem, path: Seq<u8>) -> bool {
    file_system.has_file(path) && file_system.permission_of(path).bits == FINAL_PERMISSIONS
}

/// The content of the storage at `path`, or [`None`] while there is no
/// storage at `path` or its content is not complete.
pub open spec fn spec_content(file_system: &FileSystem, path: Seq<u8>) -> Option<Seq<u8>> {
    if is_unlocked(file_system, path) {
        Some(file_system.content_of(path))
    } else {
        None
    }
}

/// What an attempt to open the storage at `path` comes to: the length of
/// its content, or the reason for which it cannot be opened.
pub open spec fn open_result(file_system: &FileSystem, path: Seq<u8>) -> Result<
    u64,
    StaticStorageOpenError,
> {
    if !file_system.has_file(path) {
        Err(StaticStorageOpenError::DoesNotExist)
    } else if file_system.permission_of(path).bits != FINAL_PERMISSIONS {
        Err(StaticStorageOpenError::IsLocked)
    } else {
        Ok(file_system.content_of(path).len() as u64)
    }
}

/// What an attempt to create the locked storage at `path` comes to: a
/// storage that is present, locked or complete, exists already, whatever
/// its directory allows.
pub open spec fn create_locked_result(
    file_system: &FileSystem,
    directory: Seq<u8>,
    path: Seq<u8>,
) -> Result<(), StaticStorageCreateError> {
    if file_system.has_file(path) {
        Err(StaticStorageCreateError::AlreadyExists)
    } else if file_system.directories().contains_key(directory)
        && !file_system.directories()[directory].spec_has(OWNER_WRITE) {
        Err(StaticStorageCreateError::InsufficientPermissions)
    } else {
        Ok(())
    }
}

/// What an attempt to unlock the storage at `path` with `contents` comes
/// to.
pub open spec fn unlock_result(
    file_system: &FileSystem,
    path: Seq<u8>,
    contents: Seq<u8>,
) -> Result<(), StaticStorageUnlockError> {
    if !file_system.has_file(path) {
        Err(StaticStorageUnlockError::InternalError)
    } else if !file_system.permission_of(path).spec_has(OWNER_WRITE) {
        Err(StaticStorageUnlockError::InsufficientPermissions)
    } else if contents.len() > file_system.free_space_without(path) {
        Err(StaticStorageUnlockError::NoSpaceLeft)
    } else {
        Ok(())
    }
}

/// The directories after a storage was created under `directory`: the
/// directory is created when it does not exist.
pub open spec fn directories_after_create(file_system: &FileSystem, directory: Seq<u8>) -> Map<
    Seq<u8>,
    Permission,
> {
    if file_system.directories().contains_key(directory) {
        file_system.directories()
    } else {
        file_system.directories().insert(directory, Permission::spec_new(DIRECTORY_PERMISSIONS))
    }
}

/// What asking whether the storage at `path` exists comes to.
pub open spec fn does_exist_result(file_system: &FileSystem, path: Seq<u8>) -> Result<
    bool,
    NamedConceptDoesExistError,
> {
    if !file_system.has_file(path) {
        Ok(false)
    } else if file_system.permission_of(path).bits == FINAL_PERMISSIONS {
        Ok(true)
    } else {
        Err(NamedConceptDoesExistError::UnderlyingResourcesBeingSetUp)
    }
}

/// The permissions of a locked storage allow its owner to write and
/// nothing else; the final ones allow its owner to read and nothing else.
pub proof fn lemma_permissions()
    ensures
        LOCKED_PERMISSIONS == OWNER_WRITE,
        FINAL_PERMISSIONS == OWNER_READ,
        !Permission::spec_new(LOCKED_PERMISSIONS).spec_has(OWNER_READ),
        Permission::spec_new(LOCKED_PERMISSIONS).spec_has(OWNER_WRITE),
        Permission::spec_new(DIRECTORY_PERMISSIONS).spec_has(OWNER_WRITE),
        Permission::spec_new(FINAL_PERMISSIONS).spec_has(OWNER_READ),
        !Permission::spec_new(FINAL_PERMISSIONS).spec_has(OWNER_WRITE),
        LOCKED_PERMISSIONS != FINAL_PERMISSIONS,
{
    assert(0o200u16 & 0o400u16 != 0o400u16) by (bit_vector);
    assert(0o200u16 & 0o200u16 == 0o200u16) by (bit_vector);
    assert(0o770u16 & 0o200u16 == 0o200u16) by (bit_vector);
    assert(0o400u16 & 0o400u16 == 0o400u16) by (bit_vector);
    assert(0o400u16 & 0o200u16 != 0o200u16) by (bit_vector);
}

/// A storage that is locked cannot be opened, and a storage that was
/// unlocked with some contents is opened with exactly these contents:
/// nobody who opens a storage finds a part of its content.
pub proof fn lemma_open_finds_complete_content_or_lock(
    before: &FileSystem,
    after: &FileSystem,
    path: Seq<u8>,
    contents: Seq<u8>,
)
    requires
        before.has_file(path),
        before.permission_of(path).bits == LOCKED_PERMISSIONS,
        unlock_result(before, path, contents).is_ok(),
        is_unlocked(after, path),
        after.content_of(path) == contents,
    ensures
        open_result(before, path) == Err::<u64, _>(StaticStorageOpenError::IsLocked),
        open_result(after, path) == Ok::<u64, StaticStorageOpenError>(contents.len() as u64),
{
    lemma_permissions();
}

/// A storage that was created and then removed by its owner can be
/// created again: the file is gone, its directory is still there and can
/// be written to, and the bytes of the old content can be written again.
/// `created` is the file system after the storage was created in `before`
/// with `contents`, and `closed` the one after its owner has closed it.
pub proof fn lemma_storage_can_be_created_again(
    before: &FileSystem,
    created: &FileSystem,
    closed: &FileSystem,
    directory: Seq<u8>,
    path: Seq<u8>,
    contents: Seq<u8>,
)
    requires
        create_locked_result(before, directory, path).is_ok(),
        created.directories() == directories_after_create(before, directory),
        created.has_file(path),
        created.content_of(path) == contents,
        created.spec_free_space() == before.spec_free_space() - contents.len(),
        closed.directories() == created.directories(),
        closed.files() == created.files().remove(path),
        closed.spec_free_space() == created.free_space_without(path),
    ensures
        create_locked_result(closed, directory, path).is_ok(),
        open_result(closed, path) == Err::<u64, _>(StaticStorageOpenError::DoesNotExist),
        closed.spec_free_space() == before.spec_free_space(),
{
    lemma_permissions();
}

/// True if `after` is the file system after an attempt to create the
/// locked storage at `path` in `before` that had the given result: the
/// attempt creates the directory when it does not exist, and the file,
/// empty and locked, when it succeeds.
pub open spec fn is_create_attempt(
    before: &FileSystem,
    after: &FileSystem,
    directory: Seq<u8>,
    path: Seq<u8>,
    result: Result<(), StaticStorageCreateError>,
) -> bool {
    &&& result == create_locked_result(before, directory, path)
    &&& after.directories() == directories_after_create(before, directory)
    &&& match result {
        Ok(()) => after.has_file(path) && after.permission_of(path).bits == LOCKED_PERMISSIONS
            && after.content_of(path) == Seq::<u8>::empty() && after.same_files_except(
            before,
            path,
        ),
        Err(_) => after.files() == before.files(),
    }
}

/// However many try to create a storage one after the other, exactly one
/// of them creates it, the first: everyone after it finds that the storage
/// exists already and leaves the files as the first has left them.
/// `states[i]` is the file system before attempt `i` and `states[i + 1]`
/// the one after it.
pub proof fn lemma_one_creator_among_many(
    states: Seq<FileSystem>,
    results: Seq<Result<(), StaticStorageCreateError>>,
    directory: Seq<u8>,
    path: Seq<u8>,
    attempt: int,
)
    requires
        states.len() == results.len() + 1,
        forall|i: int|
            0 <= i < results.len() ==> is_create_attempt(
                &states[i],
                &states[i + 1],
                directory,
                path,
                #[trigger] results[i],
            ),
        create_locked_result(&states[0], directory, path).is_ok(),
        1 <= attempt < results.len(),
    ensures
        results[0].is_ok(),
        results[attempt] == Err::<(), _>(StaticStorageCreateError::AlreadyExists),
        states[attempt + 1].files() == states[1].files(),
        states[attempt + 1].directories() == states[1].directories(),
    decreases attempt,
{
    lemma_permissions();
    assert(is_create_attempt(&states[0], &states[1], directory, path, results[0]));
    assert(is_create_attempt(
        &states[attempt],
        &states[attempt + 1],
        directory,
        path,
        results[attempt],
    ));
    if attempt > 1 {
        lemma_one_creator_among_many(states, results, directory, path, attempt - 1);
    }
}

/// A storage which is present but without content. It becomes a
/// [`Storage`] by [`Locked::unlock()`].
#[derive(Debug)]
pub struct Locked {
    static_storage: Storage,
}

impl Locked {
    /// The storage that is being created.
    pub closed spec fn storage(&self) -> Storage {
        self.static_storage
    }

    /// Returns the name of the storage.
    pub fn name(&self) -> (name: &Vec<u8>)
        ensures
            name@ == self.storage().spec_name(),
    {
        self.static_storage.name()
    }

    /// Unlocks the storage by writing `contents` to it and changing its
    /// permissions to the final ones. When that fails, a storage with
    /// ownership is removed, and one without keeps its lock.
    pub fn unlock(self, file_system: &mut FileSystem, contents: &Vec<u8>) -> (result: Result<
        Storage,
        StaticStorageUnlockError,
    >)
        requires
            old(file_system).wf(),
        ensures
            final(file_system).wf(),
            final(file_system).directories() == old(file_system).directories(),
            final(file_system).same_files_except(old(file_system), self.storage().spec_path()),
            result.is_ok() == unlock_result(
                old(file_system),
                self.storage().spec_path(),
                contents@,
            ).is_ok(),
            result.is_err() ==> Err::<(), _>(result.unwrap_err()) == unlock_result(
                old(file_system),
                self.storage().spec_path(),
                contents@,
            ),
            result.is_ok() ==> is_unlocked(final(file_system), self.storage().spec_path())
                && final(file_system).content_of(self.storage().spec_path()) == contents@
                && result.unwrap().same_storage(&self.storage()) && result.unwrap().spec_len()
                == contents@.len() && final(file_system).spec_free_space() == old(file_system).free_space_without(self.storage().spec_path()) - contents@.len(),
            result.is_err() && self.storage().owns() ==> !final(file_system).has_file(
                self.storage().spec_path(),
            ) && final(file_system).spec_free_space() == old(file_system).free_space_without(
                self.storage().spec_path(),
            ),
            result.is_err() && !self.storage().owns() ==> final(file_system).has_file(
                self.storage().spec_path(),
            ) == old(file_system).has_file(self.storage().spec_path()),
            result.is_err() && !self.storage().owns() && old(file_system).has_file(
                self.storage().spec_path(),
            ) ==> final(file_system).has_file(self.storage().spec_path()) && final(file_system).permission_of(self.storage().spec_path()) == old(file_system).permission_of(
                self.storage().spec_path(),
            ),
    {
        let mut static_storage = self.static_storage;
        let ghost path = static_storage.spec_path();
        let bytes_written = match file_system.write(&static_storage.path, contents) {
            Ok(bytes_written) => bytes_written,
            Err(error) => {
                static_storage.close(file_system);
                assert(final(file_system).files().remove(path) =~= old(file_system).files().remove(
                    path,
                ));
                return Err(
                    match error {
                        FileWriteError::InsufficientPermissions => {
                            StaticStorageUnlockError::InsufficientPermissions
                        },
                        FileWriteError::FileDoesNotExist => StaticStorageUnlockError::InternalError,
                    },
                );
            },
        };

        if bytes_written != contents.len() as u64 {
            static_storage.close(file_system);
            assert(final(file_system).files().remove(path) =~= old(file_system).files().remove(
                path,
            ));
            return Err(StaticStorageUnlockError::NoSpaceLeft);
        }
        assert(contents@.subrange(0, contents@.len() as int) =~= contents@);

        if !file_system.set_permission(&static_storage.path, Permission::new(FINAL_PERMISSIONS)) {
            static_storage.close(file_system);
            return Err(StaticStorageUnlockError::InternalError);
        }
        assert(final(file_system).files().remove(path) =~= old(file_system).files().remove(path));

        static_storage.len = contents.len() as u64;
        Ok(static_storage)
    }
}

impl Locked {
    /// Gives the locked storage up: with ownership its file is removed,
    /// without it the file stays locked.
    pub fn unlock_abandon(self, file_system: &mut FileSystem)
        requires
            old(file_system).wf(),
        ensures
            final(file_system).wf(),
            final(file_system).directories() == old(file_system).directories(),
            self.storage().owns() ==> final(file_system).files() == old(file_system).files().remove(self.storage().spec_path()),
            !self.storage().owns() ==> final(file_system).files() == old(file_system).files()
                && final(file_system).spec_free_space() == old(file_system).spec_free_space(),
    {
        self.static_storage.close(file_system)
    }
}

/// A static storage that is a file. A storage with ownership removes its
/// file when it is closed.
#[derive(Debug)]
pub struct Storage {
    name: Vec<u8>,
    config: Configuration,
    has_ownership: bool,
    path: Vec<u8>,
    len: u64,
}

impl Storage {
    /// The name of the storage.
    pub closed spec fn spec_name(&self) -> Seq<u8> {
        self.name@
    }

    /// The full path of the file of the storage.
    pub closed spec fn spec_path(&self) -> Seq<u8> {
        self.path@
    }

    /// The length of the content.
    pub closed spec fn spec_len(&self) -> u64 {
        self.len
    }

    /// True if the storage removes its file when it is closed.
    pub closed spec fn owns(&self) -> bool {
        self.has_ownership
    }

    /// True if the two values stand for the same storage with the same
    /// ownership.
    pub closed spec fn same_storage(&self, other: &Storage) -> bool {
        &&& self.name@ == other.name@
        &&& self.path@ == other.path@
        &&& self.has_ownership == other.has_ownership
        &&& self.config.spec_suffix() == other.config.spec_suffix()
        &&& self.config.spec_path_hint() == other.config.spec_path_hint()
    }

    /// Two values that stand for the same storage have the same name, the
    /// same path and the same ownership.
    pub proof fn lemma_same_storage(&self, other: &Storage)
        requires
            self.same_storage(other),
        ensures
            self.spec_name() == other.spec_name(),
            self.spec_path() == other.spec_path(),
            self.owns() == other.owns(),
    {
    }

    /// Returns the name of the storage.
    pub fn name(&self) -> (name: &Vec<u8>)
        ensures
            name@ == self.spec_name(),
    {
        &self.name
    }

    /// Closes the storage. With ownership its file is removed, without it
    /// nothing changes.
    pub fn close(self, file_system: &mut FileSystem)
        requires
            old(file_system).wf(),
        ensures
            final(file_system).wf(),
            final(file_system).directories() == old(file_system).directories(),
            self.owns() ==> final(file_system).files() == old(file_system).files().remove(
                self.spec_path(),
            ) && final(file_system).spec_free_space() == old(file_system).free_space_without(
                self.spec_path(),
            ),
            !self.owns() ==> final(file_system).files() == old(file_system).files()
                && final(file_system).spec_free_space() == old(file_system).spec_free_space(),
    {
        if self.has_ownership {
            let _ = file_system.remove(&self.path);
        }
    }

    /// Removes the storage with the given name under the given
    /// configuration. Returns true if the storage existed and was removed,
    /// false if it did not exist.
    pub fn remove_cfg(storage_name: &Vec<u8>, config: &Configuration, file_system: &mut FileSystem) -> (result:
        Result<bool, NamedConceptRemoveError>)
        requires
            old(file_system).wf(),
        ensures
            final(file_system).wf(),
            result == Ok::<bool, NamedConceptRemoveError>(
                old(file_system).has_file(config.spec_path_for(storage_name@)),
            ),
            final(file_system).files() == old(file_system).files().remove(
                config.spec_path_for(storage_name@),
            ),
            final(file_system).directories() == old(file_system).directories(),
            final(file_system).spec_free_space() == old(file_system).free_space_without(
                config.spec_path_for(storage_name@),
            ),
    {
        let file_path = config.path_for(storage_name);
        Ok(file_system.remove(&file_path))
    }

    /// Returns the names of all storages under the given configuration
    /// whose content is complete. Fails when the directory of the storages
    /// does not exist.
    pub fn list_cfg(config: &Configuration, file_system: &FileSystem) -> (result: Result<
        Vec<Vec<u8>>,
        NamedConceptListError,
    >)
        requires
            file_system.wf(),
        ensures
            result.is_ok() == file_system.directories().contains_key(config.spec_path_hint()),
            result.is_err() ==> result.unwrap_err() == NamedConceptListError::InternalError,
            result.is_ok() ==> forall|i: int|
                0 <= i < result.unwrap().len() ==> is_unlocked(
                    file_system,
                    config.spec_path_for(#[trigger] result.unwrap()[i]@),
                ),
            result.is_ok() ==> forall|name: Seq<u8>|
                is_unlocked(file_system, #[trigger] config.spec_path_for(name)) ==> lists_name(
                    result.unwrap()@,
                    name,
                ),
            result.is_ok() ==> forall|i: int, j: int|
                0 <= i < result.unwrap().len() && 0 <= j < result.unwrap().len() && i != j
                    ==> result.unwrap()[i]@ != result.unwrap()[j]@,
    {
        if !file_system.does_directory_exist(&config.path) {
            return Err(NamedConceptListError::InternalError);
        }
        let entries = file_system.list();
        let mut result: Vec<Vec<u8>> = Vec::new();
        let ghost mut origin: Seq<int> = Seq::empty();
        let mut k: usize = 0;
        while k < entries.len()
            invariant
                file_system.wf(),
                k <= entries.len(),
                forall|i: int| 0 <= i < entries.len() ==> file_system.has_file(#[trigger] entries[i]@),
                forall|path: Seq<u8>|
                    file_system.has_file(path) ==> exists|i: int|
                        0 <= i < entries.len() && #[trigger] entries[i]@ == path,
                forall|i: int, j: int|
                    0 <= i < entries.len() && 0 <= j < entries.len() && i != j ==> entries[i]@
                        != entries[j]@,
                origin.len() == result.len(),
                forall|i: int|
                    0 <= i < result.len() ==> 0 <= #[trigger] origin[i] < k && entries[origin[i]]@
                        == config.spec_path_for(result[i]@) && is_unlocked(
                        file_system,
                        entries[origin[i]]@,
                    ),
                forall|i: int, j: int|
                    0 <= i < j < result.len() ==> origin[i] < origin[j],
                forall|e: int|
                    0 <= e < k && is_unlocked(file_system, #[trigger] entries[e]@)
                        && spec_extract_name_from_path(
                        config.spec_path_hint(),
                        config.spec_suffix(),
                        entries[e]@,
                    ).is_some() ==> exists|i: int|
                        0 <= i < result.len() && #[trigger] origin[i] == e,
            decreases entries.len() - k,
        {
            let entry = &entries[k];
            let metadata = file_system.metadata(entry);
            match metadata {
                Ok(metadata) => {
                    if metadata.permission.bits == FINAL_PERMISSIONS {
                        if let Some(entry_name) = config.extract_name_from_path(entry) {
                            proof {
                                lemma_path_for_is_inverse_of_extract(
                                    config.spec_path_hint(),
                                    config.spec_suffix(),
                                    entry_name@,
                                    entry@,
                                );
                                let ghost previous = origin;
                                origin = origin.push(k as int);
                                assert forall|e: int|
                                    0 <= e < k + 1 && is_unlocked(
                                        file_system,
                                        #[trigger] entries[e]@,
                                    ) && spec_extract_name_from_path(
                                        config.spec_path_hint(),
                                        config.spec_suffix(),
                                        entries[e]@,
                                    ).is_some() implies exists|i: int|
                                    0 <= i < result.len() + 1 && #[trigger] origin[i] == e by {
                                    if e < k {
                                        let i = choose|i: int|
                                            0 <= i < result.len() && #[trigger] previous[i] == e;
                                        assert(origin[i] == e);
                                    } else {
                                        assert(origin[result.len() as int] == e);
                                    }
                                }
                            }
                            result.push(entry_name);
                        }
                    }
                },
                Err(_) => {},
            }
            k += 1;
        }
        proof {
            assert forall|i: int| 0 <= i < result.len() implies is_unlocked(
                file_system,
                config.spec_path_for(#[trigger] result[i]@),
            ) by {
                let e = origin[i];
                assert(entries[e]@ == config.spec_path_for(result[i]@));
            }
            assert forall|name: Seq<u8>|
                is_unlocked(file_system, #[trigger] config.spec_path_for(name)) implies lists_name(
                result@,
                name,
            ) by {
                let path = config.spec_path_for(name);
                let e = choose|e: int| 0 <= e < entries.len() && #[trigger] entries[e]@ == path;
                lemma_path_for_is_inverse_of_extract(
                    config.spec_path_hint(),
                    config.spec_suffix(),
                    name,
                    path,
                );
                let i = choose|i: int| 0 <= i < result.len() && #[trigger] origin[i] == e;
                lemma_path_for_is_inverse_of_extract(
                    config.spec_path_hint(),
                    config.spec_suffix(),
                    result[i]@,
                    path,
                );
                assert(result@[i]@ == name);
            }
            assert forall|i: int, j: int|
                0 <= i < result.len() && 0 <= j < result.len() && i != j implies result[i]@
                != result[j]@ by {
                if i < j {
                    assert(origin[i] < origin[j]);
                } else {
                    assert(origin[j] < origin[i]);
                }
            }
        }
        Ok(result)
    }

    /// Returns true if the storage with the given name exists under the
    /// given configuration and its content is complete, false if there is
    /// no such storage. A storage that is still locked or cannot be read
    /// is reported as a failure.
    pub fn does_exist_cfg(storage_name: &Vec<u8>, config: &Configuration, file_system: &FileSystem) -> (result:
        Result<bool, NamedConceptDoesExistError>)
        requires
            file_system.wf(),
        ensures
            result == does_exist_result(file_system, config.spec_path_for(storage_name@)),
    {
        let adjusted_path = config.path_for(storage_name);

        if !file_system.does_file_exist(&adjusted_path) {
            return Ok(false);
        }

        let metadata = match file_system.metadata(&adjusted_path) {
            Ok(metadata) => metadata,
            Err(_) => {
                return Err(NamedConceptDoesExistError::UnderlyingResourcesCorrupted);
            },
        };

        if metadata.permission.bits == FINAL_PERMISSIONS {
            return Ok(true);
        }

        Err(NamedConceptDoesExistError::UnderlyingResourcesBeingSetUp)
    }

    /// Releases the ownership of the storage: its file stays when the
    /// storage is closed.
    pub fn release_ownership(&mut self)
        ensures
            !final(self).owns(),
            final(self).spec_name() == old(self).spec_name(),
            final(self).spec_path() == old(self).spec_path(),
            final(self).spec_len() == old(self).spec_len(),
    {
        self.has_ownership = false
    }

    /// Acquires the ownership of the storage: its file is removed when the
    /// storage is closed.
    pub fn acquire_ownership(&mut self)
        ensures
            final(self).owns(),
            final(self).spec_name() == old(self).spec_name(),
            final(self).spec_path() == old(self).spec_path(),
            final(self).spec_len() == old(self).spec_len(),
    {
        self.has_ownership = true
    }

    /// Returns the length of the content.
    pub fn len(&self) -> (len: u64)
        ensures
            len == self.spec_len(),
    {
        self.len
    }

    /// Returns true if the storage has no content.
    pub fn is_empty(&self) -> (empty: bool)
        ensures
            empty == (self.spec_len() == 0),
    {
        self.len == 0
    }

    /// What reading the storage at `path`, whose content had the length
    /// `len` when it was opened, into a buffer of `buffer_len` bytes comes
    /// to.
    pub open spec fn read_result(
        file_system: &FileSystem,
        path: Seq<u8>,
        len: u64,
        buffer_len: nat,
    ) -> Result<(), StaticStorageReadError> {
        if len > buffer_len {
            Err(StaticStorageReadError::BufferTooSmall)
        } else if !file_system.has_file(path) || !file_system.permission_of(path).spec_has(
            OWNER_READ,
        ) {
            Err(StaticStorageReadError::ReadError)
        } else if vstd::math::min(file_system.content_of(path).len() as int, buffer_len as int)
            != len {
            Err(StaticStorageReadError::StaticStorageWasModified)
        } else {
            Ok(())
        }
    }

    /// Writes the content of the storage to the front of `content`. The
    /// buffer must be large enough for it.
    pub fn read(&self, file_system: &FileSystem, content: &mut Vec<u8>) -> (result: Result<
        (),
        StaticStorageReadError,
    >)
        requires
            file_system.wf(),
        ensures
            final(content)@.len() == old(content)@.len(),
            result == Self::read_result(
                file_system,
                self.spec_path(),
                self.spec_len(),
                old(content)@.len(),
            ),
            result.is_ok() ==> final(content)@.subrange(0, self.spec_len() as int)
                == file_system.content_of(self.spec_path()).subrange(0, self.spec_len() as int)
                && final(content)@.subrange(self.spec_len() as int, old(content)@.len() as int)
                == old(content)@.subrange(self.spec_len() as int, old(content)@.len() as int),
            result.is_err() && result.unwrap_err() != StaticStorageReadError::StaticStorageWasModified
                ==> final(content)@ == old(content)@,
    {
        let len: u64 = self.len();

        if len > content.len() as u64 {
            return Err(StaticStorageReadError::BufferTooSmall);
        }

        let bytes_read: u64 = match file_system.read(&self.path, content) {
            Ok(bytes_read) => bytes_read,
            Err(_) => {
                return Err(StaticStorageReadError::ReadError);
            },
        };

        if bytes_read != len {
            return Err(StaticStorageReadError::StaticStorageWasModified);
        }

        Ok(())
    }
}

/// Creates a [`Storage`], which is either new or one that exists already.
#[derive(Debug)]
pub struct Builder {
    storage_name: Vec<u8>,
    has_ownership: bool,
    config: Configuration,
}

impl Builder {
    /// The name of the storage that is built.
    pub closed spec fn spec_name(&self) -> Seq<u8> {
        self.storage_name@
    }

    /// True if the storage that is built removes its file when it is
    /// closed.
    pub closed spec fn owns(&self) -> bool {
        self.has_ownership
    }

    /// The configuration of the storage that is built.
    pub closed spec fn spec_config(&self) -> Configuration {
        self.config
    }

    /// The full path of the file of the storage that is built.
    pub open spec fn spec_path(&self) -> Seq<u8> {
        self.spec_config().spec_path_for(self.spec_name())
    }

    /// True if `storage` is the storage that this builder describes.
    pub closed spec fn builds(&self, storage: &Storage) -> bool {
        &&& storage.name@ == self.storage_name@
        &&& storage.path@ == self.spec_path()
        &&& storage.has_ownership == self.has_ownership
        &&& storage.config.spec_suffix() == self.config.spec_suffix()
        &&& storage.config.spec_path_hint() == self.config.spec_path_hint()
    }

    /// What is built owns, is named and lies where the builder says.
    pub proof fn lemma_builds(&self, storage: &Storage)
        requires
            self.builds(storage),
        ensures
            storage.spec_name() == self.spec_name(),
            storage.spec_path() == self.spec_path(),
            storage.owns() == self.owns(),
    {
    }

    /// Starts to build the storage with the given name. It has the default
    /// configuration and the ownership of its file.
    pub fn new(storage_name: &Vec<u8>) -> (builder: Self)
        ensures
            builder.spec_name() == storage_name@,
            builder.owns(),
            builder.spec_config().spec_suffix() == spec_default_suffix(),
            builder.spec_config().spec_path_hint() == spec_default_path_hint(),
    {
        Self {
            storage_name: copy_name(storage_name),
            has_ownership: true,
            config: Configuration::default(),
        }
    }

    /// Sets the configuration of the storage.
    pub fn config(self, config: &Configuration) -> (builder: Self)
        ensures
            builder.spec_name() == self.spec_name(),
            builder.owns() == self.owns(),
            builder.spec_config().spec_suffix() == config.spec_suffix(),
            builder.spec_config().spec_path_hint() == config.spec_path_hint(),
    {
        let mut builder = self;
        builder.config = config.clone();
        builder
    }

    /// Defines if the storage owns its file.
    pub fn has_ownership(self, value: bool) -> (builder: Self)
        ensures
            builder.spec_name() == self.spec_name(),
            builder.owns() == value,
            builder.spec_config() == self.spec_config(),
    {
        let mut builder = self;
        builder.has_ownership = value;
        builder
    }

    /// Creates the storage in its locked state: its file exists, is empty
    /// and can be written by its owner and by nobody else, and nobody can
    /// read it. The directory of the file is created when it does not
    /// exist.
    pub fn create_locked(self, file_system: &mut FileSystem) -> (result: Result<
        Locked,
        StaticStorageCreateError,
    >)
        requires
            old(file_system).wf(),
        ensures
            final(file_system).wf(),
            final(file_system).spec_free_space() == old(file_system).spec_free_space(),
            final(file_system).directories() == (if old(file_system).directories().contains_key(
                self.spec_config().spec_path_hint(),
            ) {
                old(file_system).directories()
            } else {
                old(file_system).directories().insert(
                    self.spec_config().spec_path_hint(),
                    Permission::spec_new(DIRECTORY_PERMISSIONS),
                )
            }),
            result.is_ok() == create_locked_result(
                old(file_system),
                self.spec_config().spec_path_hint(),
                self.spec_path(),
            ).is_ok(),
            result.is_err() ==> Err::<(), _>(result.unwrap_err()) == create_locked_result(
                old(file_system),
                self.spec_config().spec_path_hint(),
                self.spec_path(),
            ) && final(file_system).files() == old(file_system).files(),
            is_create_attempt(
                old(file_system),
                final(file_system),
                self.spec_config().spec_path_hint(),
                self.spec_path(),
                create_locked_result(
                    old(file_system),
                    self.spec_config().spec_path_hint(),
                    self.spec_path(),
                ),
            ),
            result == Err::<Locked, _>(StaticStorageCreateError::AlreadyExists) <==> old(file_system).has_file(self.spec_path()),
            result.is_ok() ==> self.builds(&result.unwrap().storage()) && final(file_system).has_file(self.spec_path()) && final(file_system).permission_of(self.spec_path()).bits
                == LOCKED_PERMISSIONS && final(file_system).content_of(self.spec_path())
                == Seq::<u8>::empty() && final(file_system).same_files_except(
                old(file_system),
                self.spec_path(),
            ),
    {
        proof {
            lemma_permissions();
        }
        if !file_system.does_directory_exist(&self.config.path) {
            let _ = file_system.create_directory(
                &self.config.path,
                Permission::new(DIRECTORY_PERMISSIONS),
            );
        }

        let path = self.config.path_for(&self.storage_name);
        match file_system.create_file_exclusive(
            &self.config.path,
            &path,
            Permission::new(LOCKED_PERMISSIONS),
        ) {
            Ok(()) => {},
            Err(FileCreationError::FileAlreadyExists) => {
                return Err(StaticStorageCreateError::AlreadyExists);
            },
            Err(FileCreationError::InsufficientPermissions) => {
                return Err(StaticStorageCreateError::InsufficientPermissions);
            },
            Err(FileCreationError::DirectoryDoesNotExist) => {
                return Err(StaticStorageCreateError::Creation);
            },
        }

        Ok(
            Locked {
                static_storage: Storage {
                    name: self.storage_name,
                    config: self.config,
                    has_ownership: self.has_ownership,
                    path,
                    len: 0,
                },
            },
        )
    }

    /// Creates the storage with the given contents. When the contents
    /// cannot be written the storage fails with
    /// [`StaticStorageCreateError::Write`].
    pub fn create(self, file_system: &mut FileSystem, contents: &Vec<u8>) -> (result: Result<
        Storage,
        StaticStorageCreateError,
    >)
        requires
            old(file_system).wf(),
        ensures
            final(file_system).wf(),
            final(file_system).same_files_except(old(file_system), self.spec_path())
                || final(file_system).files() == old(file_system).files(),
            create_locked_result(
                old(file_system),
                self.spec_config().spec_path_hint(),
                self.spec_path(),
            ).is_err() ==> result.is_err() && Err::<(), _>(result.unwrap_err())
                == create_locked_result(
                old(file_system),
                self.spec_config().spec_path_hint(),
                self.spec_path(),
            ) && final(file_system).files() == old(file_system).files(),
            result.is_ok() == (create_locked_result(
                old(file_system),
                self.spec_config().spec_path_hint(),
                self.spec_path(),
            ).is_ok() && contents@.len() <= old(file_system).spec_free_space()),
            create_locked_result(
                old(file_system),
                self.spec_config().spec_path_hint(),
                self.spec_path(),
            ).is_ok() && contents@.len() > old(file_system).spec_free_space() ==> result.is_err()
                && result.unwrap_err() == StaticStorageCreateError::Write,
            result.is_ok() ==> self.builds(&result.unwrap()) && is_unlocked(
                final(file_system),
                self.spec_path(),
            ) && final(file_system).content_of(self.spec_path()) == contents@
                && result.unwrap().spec_len() == contents@.len() && final(file_system).spec_free_space() == old(file_system).spec_free_space() - contents@.len(),
            final(file_system).directories() == directories_after_create(
                old(file_system),
                self.spec_config().spec_path_hint(),
            ),
            result.is_err() && self.owns() ==> final(file_system).files() == old(file_system).files() && final(file_system).spec_free_space() == old(file_system).spec_free_space(),
    {
        proof {
            lemma_permissions();
        }
        let ghost path = self.spec_path();
        let locked_storage = match self.create_locked(file_system) {
            Ok(locked_storage) => locked_storage,
            Err(error) => {
                return Err(error);
            },
        };
        let ghost created = *file_system;
        match locked_storage.unlock(file_system, contents) {
            Ok(storage) => {
                assert(file_system.files().remove(path) =~= old(file_system).files().remove(path));
                Ok(storage)
            },
            Err(_) => {
                assert(file_system.files().remove(path) =~= old(file_system).files().remove(path));
                proof {
                    self.lemma_builds(&locked_storage.storage());
                    if self.owns() {
                        assert(file_system.files() =~= file_system.files().remove(path));
                        assert(old(file_system).files() =~= old(file_system).files().remove(path));
                        assert(created.free_space_without(path) == created.spec_free_space());
                    }
                }
                Err(StaticStorageCreateError::Write)
            },
        }
    }

    /// Opens a storage that exists and whose content is complete.
    pub fn open(self, file_system: &FileSystem) -> (result: Result<Storage, StaticStorageOpenError>)
        requires
            file_system.wf(),
        ensures
            result.is_ok() == open_result(file_system, self.spec_path()).is_ok(),
            result.is_err() ==> Err::<u64, _>(result.unwrap_err()) == open_result(
                file_system,
                self.spec_path(),
            ),
            result.is_ok() ==> self.builds(&result.unwrap()) && Ok::<u64, StaticStorageOpenError>(
                result.unwrap().spec_len(),
            ) == open_result(file_system, self.spec_path()),
    {
        let path = self.config.path_for(&self.storage_name);
        let metadata = match file_system.metadata(&path) {
            Ok(metadata) => metadata,
            Err(_) => {
                return Err(StaticStorageOpenError::DoesNotExist);
            },
        };

        if metadata.permission.bits != FINAL_PERMISSIONS {
            return Err(StaticStorageOpenError::IsLocked);
        }

        Ok(
            Storage {
                name: self.storage_name,
                config: self.config,
                has_ownership: self.has_ownership,
                path,
                len: metadata.size,
            },
        )
    }
}

impl crate::cal::static_storage::StaticStorageConfiguration for Configuration {
    open spec fn suffix_of(&self) -> Seq<u8> {
        self.spec_suffix()
    }

    open spec fn path_hint_of(&self) -> Seq<u8> {
        self.spec_path_hint()
    }

    fn with_suffix(self, value: Vec<u8>) -> (config: Self) {
        self.suffix(value)
    }

    fn with_path_hint(self, value: Vec<u8>) -> (config: Self) {
        self.path_hint(value)
    }
}

impl crate::cal::static_storage::StaticStorageLocked for Locked {
    type Storage = Storage;

    type Medium = FileSystem;

    open spec fn medium_wf(medium: &FileSystem) -> bool {
        medium.wf()
    }

    open spec fn is_present(&self, medium: &FileSystem) -> bool {
        medium.has_file(self.storage().spec_path())
    }

    open spec fn content_in(&self, medium: &FileSystem) -> Option<Seq<u8>> {
        spec_content(medium, self.storage().spec_path())
    }

    open spec fn owns_resources(&self) -> bool {
        self.storage().owns()
    }

    open spec fn unlock_result(&self, medium: &FileSystem, contents: Seq<u8>) -> Result<
        (),
        StaticStorageUnlockError,
    > {
        unlock_result(medium, self.storage().spec_path(), contents)
    }

    open spec fn becomes(&self, storage: &Storage, contents: Seq<u8>) -> bool {
        storage.same_storage(&self.storage()) && storage.spec_len() == contents.len()
    }

    open spec fn same_elsewhere(&self, before: &FileSystem, after: &FileSystem) -> bool {
        after.directories() == before.directories() && after.same_files_except(
            before,
            self.storage().spec_path(),
        )
    }

    fn unlock(self, medium: &mut FileSystem, contents: &Vec<u8>) -> (result: Result<
        Storage,
        StaticStorageUnlockError,
    >) {
        Locked::unlock(self, medium, contents)
    }
}

impl crate::cal::static_storage::StaticStorageBuilder for Builder {
    type Storage = Storage;

    type Locked = Locked;

    type Medium = FileSystem;

    open spec fn medium_wf(medium: &FileSystem) -> bool {
        medium.wf()
    }

    open spec fn create_locked_result(&self, medium: &FileSystem) -> Result<
        (),
        StaticStorageCreateError,
    > {
        create_locked_result(medium, self.spec_config().spec_path_hint(), self.spec_path())
    }

    open spec fn create_result(&self, medium: &FileSystem, contents: Seq<u8>) -> Result<
        (),
        StaticStorageCreateError,
    > {
        match create_locked_result(medium, self.spec_config().spec_path_hint(), self.spec_path()) {
            Err(error) => Err(error),
            Ok(()) => if contents.len() <= medium.spec_free_space() {
                Ok(())
            } else {
                Err(StaticStorageCreateError::Write)
            },
        }
    }

    open spec fn open_result(&self, medium: &FileSystem) -> Result<(), StaticStorageOpenError> {
        match open_result(medium, self.spec_path()) {
            Ok(_) => Ok(()),
            Err(error) => Err(error),
        }
    }

    open spec fn content_in(&self, medium: &FileSystem) -> Option<Seq<u8>> {
        spec_content(medium, self.spec_path())
    }

    open spec fn describes(&self, storage: &Storage) -> bool {
        self.builds(storage)
    }

    open spec fn owns_resources(&self) -> bool {
        self.owns()
    }

    open spec fn same_storage_as(&self, other: &Builder) -> bool {
        self.spec_name() == other.spec_name() && self.spec_config() == other.spec_config()
    }

    open spec fn length_of(storage: &Storage) -> nat {
        storage.spec_len() as nat
    }

    open spec fn has_created_locked(
        &self,
        before: &FileSystem,
        after: &FileSystem,
        locked: &Locked,
    ) -> bool {
        &&& self.builds(&locked.storage())
        &&& after.has_file(self.spec_path())
        &&& after.permission_of(self.spec_path()).bits == LOCKED_PERMISSIONS
        &&& after.content_of(self.spec_path()) == Seq::<u8>::empty()
        &&& after.spec_free_space() == before.spec_free_space()
        &&& after.same_files_except(before, self.spec_path())
    }

    proof fn lemma_medium(medium: &FileSystem) {
        assert(<Locked as crate::cal::static_storage::StaticStorageLocked>::medium_wf(medium)
            == medium.wf());
        assert(<Builder as crate::cal::static_storage::StaticStorageBuilder>::medium_wf(medium)
            == medium.wf());
    }

    proof fn lemma_create_refused(&self, medium: &FileSystem, contents: Seq<u8>) {
        assert(self.create_locked_result(medium) == create_locked_result(
            medium,
            self.spec_config().spec_path_hint(),
            self.spec_path(),
        ));
        assert(self.create_result(medium, contents).is_err());
    }

    proof fn lemma_create(
        &self,
        before: &FileSystem,
        created: &FileSystem,
        locked: &Locked,
        after: &FileSystem,
        storage: &Storage,
        contents: Seq<u8>,
    ) {
        let path = self.spec_path();
        lemma_permissions();
        assert(self.has_created_locked(before, created, locked));
        assert(self.builds(&locked.storage()));
        self.lemma_builds(&locked.storage());
        assert(locked.storage().spec_path() == path);
        assert(locked.unlock_result(created, contents) == unlock_result(created, path, contents));
        assert(created.free_space_without(path) == before.spec_free_space());
        assert(self.create_locked_result(before) == create_locked_result(
            before,
            self.spec_config().spec_path_hint(),
            path,
        ));
        assert(self.create_result(before, contents).is_ok() == (contents.len()
            <= before.spec_free_space()));
        assert(locked.content_in(after) == spec_content(after, path));
        assert(self.content_in(after) == spec_content(after, path));
        if locked.becomes(storage, contents) {
            assert(storage.same_storage(&locked.storage()));
            assert(self.describes(storage) == self.builds(storage));
        }
    }

    fn with_ownership(self, value: bool) -> (builder: Self) {
        let builder = self.has_ownership(value);
        proof {
            assert(builder.owns_resources() == builder.owns());
            assert(builder.same_storage_as(&self) == (builder.spec_name() == self.spec_name()
                && builder.spec_config() == self.spec_config()));
        }
        builder
    }

    fn create_locked(self, medium: &mut FileSystem) -> (result: Result<
        Locked,
        StaticStorageCreateError,
    >) {
        proof {
            lemma_permissions();
        }
        let created = Builder::create_locked(self, medium);
        proof {
            let path = self.spec_path();
            assert(self.create_locked_result(old(medium)) == create_locked_result(
                old(medium),
                self.spec_config().spec_path_hint(),
                path,
            ));
            match &created {
                Ok(locked) => {
                    self.lemma_builds(&locked.storage());
                    assert(self.has_created_locked(old(medium), medium, locked));
                    assert(locked.is_present(medium) == medium.has_file(path));
                    assert(locked.content_in(medium) == spec_content(medium, path));
                },
                Err(_) => {
                    assert(medium.files() == old(medium).files());
                    assert(self.content_in(medium) == spec_content(medium, path));
                    assert(self.content_in(old(medium)) == spec_content(old(medium), path));
                },
            }
        }
        created
    }

    fn open(self, medium: &FileSystem) -> (result: Result<Storage, StaticStorageOpenError>) {
        let opened = Builder::open(self, medium);
        proof {
            let path = self.spec_path();
            assert(self.open_result(medium).is_ok() == open_result(medium, path).is_ok());
            assert(self.content_in(medium) == spec_content(medium, path));
            match &opened {
                Ok(storage) => {
                    assert(self.describes(storage) == self.builds(storage));
                    assert(Self::length_of(storage) == storage.spec_len());
                    assert(medium.files()[path].content.len() == medium.content_of(path).len());
                },
                Err(error) => {
                    assert(self.open_result(medium) == Err::<(), _>(*error));
                },
            }
        }
        opened
    }
}

impl crate::cal::named_concept::NamedConceptConfiguration for Configuration {
    open spec fn suffix_bytes(&self) -> Seq<u8> {
        self.spec_suffix()
    }

    open spec fn path_hint_bytes(&self) -> Seq<u8> {
        self.spec_path_hint()
    }

    open spec fn default_suffix_bytes() -> Seq<u8> {
        spec_default_suffix()
    }

    open spec fn default_path_hint_bytes() -> Seq<u8> {
        spec_default_path_hint()
    }

    fn default_configuration() -> (config: Self) {
        Configuration::default()
    }

    fn suffix(self, value: Vec<u8>) -> (config: Self) {
        Configuration::suffix(self, value)
    }

    fn path_hint(self, value: Vec<u8>) -> (config: Self) {
        Configuration::path_hint(self, value)
    }

    fn get_suffix(&self) -> (suffix: &Vec<u8>) {
        Configuration::get_suffix(self)
    }

    fn get_path_hint(&self) -> (path_hint: &Vec<u8>) {
        Configuration::get_path_hint(self)
    }
}

impl crate::cal::named_concept::NamedConcept for Storage {
    open spec fn name_bytes(&self) -> Seq<u8> {
        self.spec_name()
    }

    fn name(&self) -> (name: &Vec<u8>) {
        Storage::name(self)
    }
}

impl crate::cal::named_concept::NamedConceptMgmt for Storage {
    type Configuration = Configuration;

    type Medium = FileSystem;

    open spec fn medium_wf(medium: &FileSystem) -> bool {
        medium.wf()
    }

    open spec fn is_present(
        name: Seq<u8>,
        path_hint: Seq<u8>,
        suffix: Seq<u8>,
        medium: &FileSystem,
    ) -> bool {
        medium.has_file(spec_path_for(path_hint, suffix, name))
    }

    open spec fn does_exist_result(
        name: Seq<u8>,
        path_hint: Seq<u8>,
        suffix: Seq<u8>,
        medium: &FileSystem,
    ) -> Result<bool, NamedConceptDoesExistError> {
        does_exist_result(medium, spec_path_for(path_hint, suffix, name))
    }

    open spec fn list_result(path_hint: Seq<u8>, suffix: Seq<u8>, medium: &FileSystem) -> Result<
        (),
        NamedConceptListError,
    > {
        if medium.directories().contains_key(path_hint) {
            Ok(())
        } else {
            Err(NamedConceptListError::InternalError)
        }
    }

    open spec fn is_without(
        name: Seq<u8>,
        path_hint: Seq<u8>,
        suffix: Seq<u8>,
        before: &FileSystem,
        after: &FileSystem,
    ) -> bool {
        &&& after.files() == before.files().remove(spec_path_for(path_hint, suffix, name))
        &&& after.directories() == before.directories()
        &&& after.spec_free_space() == before.free_space_without(
            spec_path_for(path_hint, suffix, name),
        )
    }

    fn remove_cfg(name: &Vec<u8>, cfg: &Configuration, medium: &mut FileSystem) -> (result: Result<
        bool,
        NamedConceptRemoveError,
    >) {
        Storage::remove_cfg(name, cfg, medium)
    }

    fn does_exist_cfg(name: &Vec<u8>, cfg: &Configuration, medium: &FileSystem) -> (result: Result<
        bool,
        NamedConceptDoesExistError,
    >) {
        Storage::does_exist_cfg(name, cfg, medium)
    }

    fn list_cfg(cfg: &Configuration, medium: &FileSystem) -> (result: Result<
        Vec<Vec<u8>>,
        NamedConceptListError,
    >) {
        let listed = Storage::list_cfg(cfg, medium);
        proof {
            match &listed {
                Ok(names) => {
                    assert forall|name: Seq<u8>| #[trigger]
                        does_exist_result(
                            medium,
                            spec_path_for(cfg.spec_path_hint(), cfg.spec_suffix(), name),
                        ) == Ok::<bool, NamedConceptDoesExistError>(true) implies lists_name(
                        names@,
                        name,
                    ) by {
                        assert(is_unlocked(medium, cfg.spec_path_for(name)));
                    }
                },
                Err(_) => {},
            }
        }
        listed
    }
}

impl crate::cal::static_storage::StaticStorage for Storage {
    open spec fn length_of(&self) -> u64 {
        self.spec_len()
    }

    open spec fn owns_resources(&self) -> bool {
        self.owns()
    }

    open spec fn same_content_as(&self, other: &Storage) -> bool {
        &&& self.spec_name() == other.spec_name()
        &&& self.spec_path() == other.spec_path()
        &&& self.spec_len() == other.spec_len()
    }

    open spec fn content_in(&self, medium: &FileSystem) -> Seq<u8> {
        medium.content_of(self.spec_path())
    }

    open spec fn read_result(&self, medium: &FileSystem, buffer_len: nat) -> Result<
        (),
        StaticStorageReadError,
    > {
        Storage::read_result(medium, self.spec_path(), self.spec_len(), buffer_len)
    }

    fn len(&self) -> (len: u64) {
        Storage::len(self)
    }

    fn is_empty(&self) -> (empty: bool) {
        Storage::is_empty(self)
    }

    fn read(&self, medium: &FileSystem, content: &mut Vec<u8>) -> (result: Result<
        (),
        StaticStorageReadError,
    >) {
        Storage::read(self, medium, content)
    }

    fn release_ownership(&mut self) {
        Storage::release_ownership(self)
    }

    fn acquire_ownership(&mut self) {
        Storage::acquire_ownership(self)
    }
}

impl crate::cal::named_concept::NamedConceptBuilder for Builder {
    type Concept = Storage;

    open spec fn name_bytes(&self) -> Seq<u8> {
        self.spec_name()
    }

    open spec fn path_hint_bytes(&self) -> Seq<u8> {
        self.spec_config().spec_path_hint()
    }

    open spec fn suffix_bytes(&self) -> Seq<u8> {
        self.spec_config().spec_suffix()
    }

    fn new(name: &Vec<u8>) -> (builder: Self) {
        Builder::new(name)
    }

    fn config(self, config: &Configuration) -> (builder: Self) {
        Builder::config(self, config)
    }
}

} // verus!
