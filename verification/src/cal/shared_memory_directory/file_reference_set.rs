//! The table of the files of a directory. A file is live from the moment at
//! which it is inserted until nobody refers to it any more and it is not
//! persistent; no two live files have the same name.

use crate::cal::registry::{copy_name, same_name};
use crate::cal::shared_memory_directory::{
    SharedMemoryDirectoryCreateFileError,
    MAX_NUMBER_OF_ENTRIES,
};
use crate::lock_free::mpmc::unique_index_set::UniqueIndexSet;
use vstd::prelude::*;

verus! {

/// The place of a file in the table.
#[derive(Debug, Clone, Copy, PartialEq, Eq)]
pub struct FileReferenceSetId {
    value: usize,
}

impl FileReferenceSetId {
    /// The index of the entry of the file.
    pub closed spec fn spec_value(&self) -> usize {
        self.value
    }

    /// Returns the index of the entry of the file.
    pub fn value(&self) -> (value: usize)
        ensures
            value == self.spec_value(),
    {
        self.value
    }
}

/// What the table knows of a file.
pub struct FileState {
    /// The name of the file.
    pub name: Seq<u8>,
    /// Where the content of the file starts in the segment.
    pub offset: usize,
    /// The number of bytes of the content.
    pub len: usize,
    /// The number of those who refer to the file.
    pub references: u64,
    /// True if the file stays when nobody refers to it.
    pub is_persistent: bool,
    /// True once the content of the file is complete.
    pub is_initialized: bool,
}

struct Entry {
    name: Vec<u8>,
    offset: usize,
    len: usize,
    references: u64,
    is_persistent: bool,
    is_initialized: bool,
}

impl View for Entry {
    type V = FileState;

    closed spec fn view(&self) -> FileState {
        FileState {
            name: self.name@,
            offset: self.offset,
            len: self.len,
            references: self.references,
            is_persistent: self.is_persistent,
            is_initialized: self.is_initialized,
        }
    }
}

/// True if every entry of the table holds a file.
pub open spec fn is_full(files: Seq<Option<FileState>>) -> bool {
    forall|i: int| 0 <= i < files.len() ==> (#[trigger] files[i]).is_some()
}

/// True if the entry at `index` holds a file with the given name.
pub open spec fn names(files: Seq<Option<FileState>>, index: int, name: Seq<u8>) -> bool {
    0 <= index < files.len() && files[index].is_some() && files[index].unwrap().name == name
}

/// True if a live file has the given name.
pub open spec fn holds_name(files: Seq<Option<FileState>>, name: Seq<u8>) -> bool {
    exists|i: int| names(files, i, name)
}

/// The index of the entry of the live file with the given name.
pub open spec fn index_of(files: Seq<Option<FileState>>, name: Seq<u8>) -> int {
    choose|i: int| names(files, i, name)
}

/// True if no two live files have the same name.
pub open spec fn names_are_unique(files: Seq<Option<FileState>>) -> bool {
    forall|i: int, j: int|
        0 <= i < files.len() && 0 <= j < files.len() && i != j && (#[trigger] files[i]).is_some()
            && (#[trigger] files[j]).is_some() ==> files[i].unwrap().name != files[j].unwrap().name
}

/// What the insertion of a file with the given name comes to: it fails
/// when every entry holds a file, and when a live file has the name
/// already, whose content is complete or still being written.
pub open spec fn insert_result(files: Seq<Option<FileState>>, name: Seq<u8>) -> Result<
    (),
    SharedMemoryDirectoryCreateFileError,
> {
    if is_full(files) {
        Err(SharedMemoryDirectoryCreateFileError::FileLimitExceeded)
    } else if holds_name(files, name) {
        if files[index_of(files, name)].unwrap().is_initialized {
            Err(SharedMemoryDirectoryCreateFileError::DoesExist)
        } else {
            Err(SharedMemoryDirectoryCreateFileError::BeingCreated)
        }
    } else {
        Ok(())
    }
}

/// The file that is inserted: its creator refers to it, and its content
/// is not complete yet.
pub open spec fn inserted_file(name: Seq<u8>, offset: usize, len: usize, is_persistent: bool) -> FileState {
    FileState { name, offset, len, references: 1, is_persistent, is_initialized: false }
}

/// True if the file can be handed out: its content is complete and another
/// reference to it can be counted.
pub open spec fn can_be_borrowed(file: FileState) -> bool {
    file.is_initialized && file.references < u64::MAX
}

/// The file after one more refers to it.
pub open spec fn borrowed_file(file: FileState) -> FileState {
    FileState { references: (file.references + 1) as u64, ..file }
}

/// The entry of a file after one of those who referred to it has given it
/// up: the file goes when nobody refers to it any more and it is not
/// persistent.
pub open spec fn released_entry(file: FileState) -> Option<FileState> {
    if file.references == 0 {
        Some(file)
    } else if file.references == 1 && !file.is_persistent {
        None
    } else {
        Some(FileState { references: (file.references - 1) as u64, ..file })
    }
}

/// The entry of a file after its removal was asked for: the file is
/// persistent no more, and it goes as soon as nobody refers to it.
pub open spec fn removed_entry(file: FileState) -> Option<FileState> {
    if file.references == 0 {
        None
    } else {
        Some(FileState { is_persistent: false, ..file })
    }
}

/// The table of the files of a directory.
pub struct FileReferenceSet {
    entries: Vec<Option<Entry>>,
    ids: UniqueIndexSet,
}

impl View for FileReferenceSet {
    type V = Seq<Option<FileState>>;

    /// What the table knows of the file of each entry.
    closed spec fn view(&self) -> Seq<Option<FileState>> {
        Seq::new(
            self.entries@.len(),
            |i: int|
                match self.entries@[i] {
                    Some(entry) => Some(entry@),
                    None => None,
                },
        )
    }
}

impl FileReferenceSet {
    /// The invariant that every operation keeps: the table has an entry
    /// for each of the files that a directory can hold, exactly the
    /// entries that hold no file are free, and no two live files have the
    /// same name.
    pub closed spec fn wf(&self) -> bool {
        &&& self.entries@.len() == MAX_NUMBER_OF_ENTRIES
        &&& self.ids.wf()
        &&& self.ids.spec_capacity() == MAX_NUMBER_OF_ENTRIES
        &&& forall|i: int|
            0 <= i < MAX_NUMBER_OF_ENTRIES ==> ((#[trigger] self.entries@[i]).is_some()
                <==> self.ids.is_borrowed(i as u32))
        &&& names_are_unique(self@)
    }

    /// The free entries, the one that is taken next first.
    pub closed spec fn free_entries(&self) -> Seq<u32> {
        self.ids@
    }

    /// A well-formed table has an entry for each of the files that a
    /// directory can hold, no two live files have the same name, and the
    /// free entries are the ones that hold no file.
    pub proof fn lemma_entries(&self)
        requires
            self.wf(),
        ensures
            self@.len() == MAX_NUMBER_OF_ENTRIES,
            names_are_unique(self@),
            is_full(self@) == (self.free_entries().len() == 0),
            forall|i: int|
                0 <= i < self.free_entries().len() ==> 0 <= #[trigger] self.free_entries()[i]
                    < MAX_NUMBER_OF_ENTRIES && self@[self.free_entries()[i] as int].is_none(),
    {
        self.ids.lemma_free_indices();
        assert forall|i: int| 0 <= i < self.ids@.len() implies 0 <= #[trigger] self.ids@[i]
            < MAX_NUMBER_OF_ENTRIES && self@[self.ids@[i] as int].is_none() by {
            let index = self.ids@[i];
            assert(self.ids@.contains(index));
            assert(!self.ids.is_borrowed(index));
            assert(self.entries@[index as int].is_none());
        }
        if self.ids@.len() == 0 {
            assert forall|i: int| 0 <= i < self@.len() implies (#[trigger] self@[i]).is_some() by {
                assert(self.ids.is_borrowed(i as u32));
                assert(self.entries@[i].is_some());
            }
        } else {
            assert(self@[self.ids@[0] as int].is_none());
        }
    }

    /// Creates a table without files.
    pub fn new() -> (set: Self)
        ensures
            set.wf(),
            set@ == Seq::new(MAX_NUMBER_OF_ENTRIES as nat, |i: int| None::<FileState>),
    {
        let mut entries: Vec<Option<Entry>> = Vec::new();
        let mut i: usize = 0;
        while i < MAX_NUMBER_OF_ENTRIES
            invariant
                i <= MAX_NUMBER_OF_ENTRIES,
                entries@.len() == i,
                forall|k: int| 0 <= k < i ==> (#[trigger] entries@[k]).is_none(),
            decreases MAX_NUMBER_OF_ENTRIES - i,
        {
            entries.push(None);
            i += 1;
        }
        let set = FileReferenceSet { entries, ids: UniqueIndexSet::new(MAX_NUMBER_OF_ENTRIES as u32) };
        proof {
            assert(set@ =~= Seq::new(MAX_NUMBER_OF_ENTRIES as nat, |i: int| None::<FileState>));
            assert forall|i: int| 0 <= i < MAX_NUMBER_OF_ENTRIES implies ((
            #[trigger] set.entries@[i]).is_some() <==> set.ids.is_borrowed(i as u32)) by {
                assert(set.ids@[i] == i as u32);
            }
        }
        set
    }

    /// Looks for the live file with the given name.
    fn find(&self, name: &Vec<u8>) -> (index: Option<usize>)
        requires
            self.wf(),
        ensures
            index.is_some() == holds_name(self@, name@),
            index.is_some() ==> names(self@, index.unwrap() as int, name@) && index.unwrap()
                == index_of(self@, name@),
    {
        let mut i: usize = 0;
        while i < self.entries.len()
            invariant
                self.wf(),
                i <= self.entries@.len(),
                forall|k: int| 0 <= k < i ==> !names(self@, k, name@),
            decreases self.entries@.len() - i,
        {
            let found = match &self.entries[i] {
                Some(entry) => same_name(&entry.name, name),
                None => false,
            };
            if found {
                proof {
                    assert(names(self@, i as int, name@));
                    let other = index_of(self@, name@);
                    assert(names(self@, other, name@));
                    if other != i {
                        assert(self@[other].is_some() && self@[i as int].is_some());
                    }
                }
                return Some(i);
            }
            i += 1;
        }
        None
    }

    /// Inserts the file with the given name, whose content of `len` bytes
    /// lies at `offset`. The one who inserts the file refers to it; its
    /// content counts as complete after
    /// [`Self::finalize_initialization()`]. Fails, and changes nothing,
    /// when the table is full or when a live file has the name already.
    pub fn insert(&mut self, name: &Vec<u8>, offset: usize, len: usize, is_persistent: bool) -> (result:
        Result<FileReferenceSetId, SharedMemoryDirectoryCreateFileError>)
        requires
            old(self).wf(),
        ensures
            final(self).wf(),
            result.is_ok() == insert_result(old(self)@, name@).is_ok(),
            match result {
                Ok(id) => id.spec_value() == old(self).free_entries()[0] && old(self)@[id.spec_value() as int].is_none() && final(self)@ == old(self)@.update(
                    id.spec_value() as int,
                    Some(inserted_file(name@, offset, len, is_persistent)),
                ) && final(self).free_entries() == old(self).free_entries().drop_first(),
                Err(error) => Err::<(), _>(error) == insert_result(old(self)@, name@) && final(self)@ == old(self)@ && final(self).free_entries() == old(self).free_entries(),
            },
    {
        proof {
            self.lemma_entries();
        }
        if self.ids.borrowed_indices() == self.ids.capacity() {
            return Err(SharedMemoryDirectoryCreateFileError::FileLimitExceeded);
        }
        match self.find(name) {
            Some(index) => {
                let is_initialized = match &self.entries[index] {
                    Some(entry) => entry.is_initialized,
                    None => false,
                };
                if is_initialized {
                    return Err(SharedMemoryDirectoryCreateFileError::DoesExist);
                } else {
                    return Err(SharedMemoryDirectoryCreateFileError::BeingCreated);
                }
            },
            None => {},
        }
        let id = match self.ids.acquire_raw_index() {
            Some(id) => id as usize,
            None => {
                return Err(SharedMemoryDirectoryCreateFileError::FileLimitExceeded);
            },
        };
        self.entries[id] = Some(
            Entry {
                name: copy_name(name),
                offset,
                len,
                references: 1,
                is_persistent,
                is_initialized: false,
            },
        );
        proof {
            let before = old(self)@;
            let inserted = Some(inserted_file(name@, offset, len, is_persistent));
            assert(self@ =~= before.update(id as int, inserted));
            assert forall|i: int| 0 <= i < MAX_NUMBER_OF_ENTRIES implies ((
            #[trigger] self.entries@[i]).is_some() <==> self.ids.is_borrowed(i as u32)) by {
                let free = old(self).ids@;
                if i == id {
                    old(self).ids.lemma_free_indices();
                    if free.drop_first().contains(i as u32) {
                        let k = choose|k: int|
                            0 <= k < free.drop_first().len() && free.drop_first()[k] == i as u32;
                        assert(free[k + 1] == free[0]);
                    }
                } else {
                    assert(old(self).entries@[i].is_some() <==> old(self).ids.is_borrowed(i as u32));
                    if free.contains(i as u32) {
                        let k = choose|k: int| 0 <= k < free.len() && free[k] == i as u32;
                        assert(free.drop_first()[k - 1] == i as u32);
                    }
                    if free.drop_first().contains(i as u32) {
                        let k = choose|k: int|
                            0 <= k < free.drop_first().len() && free.drop_first()[k] == i as u32;
                        assert(free[k + 1] == i as u32);
                    }
                }
            }
            assert forall|i: int, j: int|
                0 <= i < self@.len() && 0 <= j < self@.len() && i != j && (
                #[trigger] self@[i]).is_some() && (#[trigger] self@[j]).is_some() implies self@[i].unwrap().name
                != self@[j].unwrap().name by {
                if i == id {
                    assert(!names(before, j, name@));
                } else if j == id {
                    assert(!names(before, i, name@));
                } else {
                    assert(before[i].is_some() && before[j].is_some());
                }
            }
        }
        Ok(FileReferenceSetId { value: id })
    }

    /// True if the entry of `id` holds a file.
    pub open spec fn is_live(&self, id: FileReferenceSetId) -> bool {
        id.spec_value() < self@.len() && self@[id.spec_value() as int].is_some()
    }

    /// The file of the entry of `id`.
    pub open spec fn file(&self, id: FileReferenceSetId) -> FileState {
        self@[id.spec_value() as int].unwrap()
    }

    /// Replaces what the table knows of the live file at `index`, whose
    /// name stays.
    fn replace(&mut self, index: usize, entry: Entry)
        requires
            old(self).wf(),
            index < MAX_NUMBER_OF_ENTRIES,
            old(self)@[index as int].is_some(),
            entry@.name == old(self)@[index as int].unwrap().name,
        ensures
            final(self).wf(),
            final(self)@ == old(self)@.update(index as int, Some(entry@)),
            final(self).free_entries() == old(self).free_entries(),
    {
        self.entries[index] = Some(entry);
        proof {
            let before = old(self)@;
            assert(self@ =~= before.update(index as int, Some(entry@)));
            assert forall|i: int| 0 <= i < MAX_NUMBER_OF_ENTRIES implies ((
            #[trigger] self.entries@[i]).is_some() <==> self.ids.is_borrowed(i as u32)) by {
                assert(old(self).entries@[i].is_some() <==> old(self).ids.is_borrowed(i as u32));
            }
            assert forall|i: int, j: int|
                0 <= i < self@.len() && 0 <= j < self@.len() && i != j && (
                #[trigger] self@[i]).is_some() && (#[trigger] self@[j]).is_some() implies self@[i].unwrap().name
                != self@[j].unwrap().name by {
                assert(before[i].is_some() && before[j].is_some());
            }
        }
    }

    /// Takes the live file at `index` out of the table and frees its
    /// entry.
    fn remove(&mut self, index: usize)
        requires
            old(self).wf(),
            index < MAX_NUMBER_OF_ENTRIES,
            old(self)@[index as int].is_some(),
        ensures
            final(self).wf(),
            final(self)@ == old(self)@.update(index as int, None),
            final(self).free_entries() == seq![index as u32] + old(self).free_entries(),
    {
        self.entries[index] = None;
        self.ids.release_raw_index(index as u32);
        proof {
            let before = old(self)@;
            let free = old(self).ids@;
            assert(self@ =~= before.update(index as int, None));
            assert forall|i: int| 0 <= i < MAX_NUMBER_OF_ENTRIES implies ((
            #[trigger] self.entries@[i]).is_some() <==> self.ids.is_borrowed(i as u32)) by {
                assert(old(self).entries@[i].is_some() <==> old(self).ids.is_borrowed(i as u32));
                if i == index {
                    assert(self.ids@[0] == index as u32);
                } else {
                    if free.contains(i as u32) {
                        let k = choose|k: int| 0 <= k < free.len() && free[k] == i as u32;
                        assert(self.ids@[k + 1] == i as u32);
                    }
                    if self.ids@.contains(i as u32) {
                        let k = choose|k: int| 0 <= k < self.ids@.len() && self.ids@[k] == i as u32;
                        assert(free[k - 1] == i as u32);
                    }
                }
            }
            assert forall|i: int, j: int|
                0 <= i < self@.len() && 0 <= j < self@.len() && i != j && (
                #[trigger] self@[i]).is_some() && (#[trigger] self@[j]).is_some() implies self@[i].unwrap().name
                != self@[j].unwrap().name by {
                assert(before[i].is_some() && before[j].is_some());
            }
        }
    }

    /// Returns a copy of the entry at `index`, if it holds a file.
    fn entry(&self, index: usize) -> (entry: Option<Entry>)
        requires
            self.wf(),
        ensures
            index >= MAX_NUMBER_OF_ENTRIES ==> entry.is_none(),
            index < MAX_NUMBER_OF_ENTRIES ==> entry.is_some() == self@[index as int].is_some(),
            entry.is_some() ==> entry.unwrap()@ == self@[index as int].unwrap(),
    {
        if index >= self.entries.len() {
            return None;
        }
        match &self.entries[index] {
            Some(entry) => Some(
                Entry {
                    name: copy_name(&entry.name),
                    offset: entry.offset,
                    len: entry.len,
                    references: entry.references,
                    is_persistent: entry.is_persistent,
                    is_initialized: entry.is_initialized,
                },
            ),
            None => None,
        }
    }

    /// Declares the content of the file of `id` complete: from now on the
    /// file is found by its name. Changes nothing when the entry holds no
    /// file.
    pub fn finalize_initialization(&mut self, id: FileReferenceSetId)
        requires
            old(self).wf(),
        ensures
            final(self).wf(),
            final(self).free_entries() == old(self).free_entries(),
            !old(self).is_live(id) ==> final(self)@ == old(self)@,
            old(self).is_live(id) ==> final(self)@ == old(self)@.update(
                id.spec_value() as int,
                Some((FileState { is_initialized: true, ..old(self).file(id) })),
            ),
    {
        proof {
            self.lemma_entries();
        }
        match self.entry(id.value) {
            Some(entry) => {
                self.replace(id.value, Entry { is_initialized: true, ..entry });
            },
            None => {},
        }
    }

    /// Hands out the file with the given name: one more refers to it.
    /// Returns [`None`], and changes nothing, when no live file has the
    /// name, when the content of the file is not complete, or when no
    /// further reference can be counted.
    pub fn borrow(&mut self, name: &Vec<u8>) -> (id: Option<FileReferenceSetId>)
        requires
            old(self).wf(),
        ensures
            final(self).wf(),
            final(self).free_entries() == old(self).free_entries(),
            id.is_some() == (holds_name(old(self)@, name@) && can_be_borrowed(
                old(self)@[index_of(old(self)@, name@)].unwrap(),
            )),
            id.is_none() ==> final(self)@ == old(self)@,
            id.is_some() ==> id.unwrap().spec_value() == index_of(old(self)@, name@) && final(self)@ == old(self)@.update(
                index_of(old(self)@, name@),
                Some(borrowed_file(old(self)@[index_of(old(self)@, name@)].unwrap())),
            ),
    {
        let index = match self.find(name) {
            Some(index) => index,
            None => {
                return None;
            },
        };
        match self.entry(index) {
            Some(entry) => {
                if !entry.is_initialized || entry.references == u64::MAX {
                    return None;
                }
                let references: u64 = entry.references + 1;
                self.replace(index, Entry { references, ..entry });
                Some(FileReferenceSetId { value: index })
            },
            None => None,
        }
    }

    /// Gives up one reference to the file of `id`. The file goes when
    /// nobody refers to it any more and it is not persistent. Changes
    /// nothing when the entry holds no file or when nobody refers to the
    /// file.
    pub fn release(&mut self, id: FileReferenceSetId)
        requires
            old(self).wf(),
        ensures
            final(self).wf(),
            !old(self).is_live(id) ==> final(self)@ == old(self)@ && final(self).free_entries()
                == old(self).free_entries(),
            old(self).is_live(id) ==> final(self)@ == old(self)@.update(
                id.spec_value() as int,
                released_entry(old(self).file(id)),
            ) && final(self).free_entries() == (if released_entry(old(self).file(id)).is_none() {
                seq![id.spec_value() as u32] + old(self).free_entries()
            } else {
                old(self).free_entries()
            }),
    {
        proof {
            self.lemma_entries();
        }
        match self.entry(id.value) {
            Some(entry) => {
                if entry.references == 0 {
                    assert(self@ =~= old(self)@.update(id.spec_value() as int, Some(entry@)));
                } else if entry.references == 1 && !entry.is_persistent {
                    self.remove(id.value);
                } else {
                    let references: u64 = entry.references - 1;
                    self.replace(id.value, Entry { references, ..entry });
                }
            },
            None => {},
        }
    }

    /// Asks for the removal of the file with the given name: the file is
    /// persistent no more and goes as soon as nobody refers to it. Returns
    /// false, and changes nothing, when no live file with complete content
    /// has the name.
    pub fn to_be_removed(&mut self, name: &Vec<u8>) -> (found: bool)
        requires
            old(self).wf(),
        ensures
            final(self).wf(),
            found == (holds_name(old(self)@, name@) && old(self)@[index_of(
                old(self)@,
                name@,
            )].unwrap().is_initialized),
            !found ==> final(self)@ == old(self)@ && final(self).free_entries() == old(self).free_entries(),
            found ==> final(self)@ == old(self)@.update(
                index_of(old(self)@, name@),
                removed_entry(old(self)@[index_of(old(self)@, name@)].unwrap()),
            ),
    {
        let index = match self.find(name) {
            Some(index) => index,
            None => {
                return false;
            },
        };
        match self.entry(index) {
            Some(entry) => {
                if !entry.is_initialized {
                    return false;
                }
                if entry.references == 0 {
                    self.remove(index);
                } else {
                    self.replace(index, Entry { is_persistent: false, ..entry });
                }
                true
            },
            None => false,
        }
    }

    /// Returns true if a live file with complete content has the given
    /// name.
    pub fn does_exist(&self, name: &Vec<u8>) -> (exists: bool)
        requires
            self.wf(),
        ensures
            exists == (holds_name(self@, name@) && self@[index_of(
                self@,
                name@,
            )].unwrap().is_initialized),
    {
        match self.find(name) {
            Some(index) => match self.entry(index) {
                Some(entry) => entry.is_initialized,
                None => false,
            },
            None => false,
        }
    }

    /// Returns true if the entry of `id` holds a file that is persistent.
    pub fn is_persistent(&self, id: FileReferenceSetId) -> (persistent: bool)
        requires
            self.wf(),
        ensures
            persistent == (self.is_live(id) && self.file(id).is_persistent),
    {
        proof {
            self.lemma_entries();
        }
        match self.entry(id.value) {
            Some(entry) => entry.is_persistent,
            None => false,
        }
    }

    /// Returns the name of the file of `id`, or [`None`] when the entry
    /// holds no file.
    pub fn get_name(&self, id: FileReferenceSetId) -> (name: Option<Vec<u8>>)
        requires
            self.wf(),
        ensures
            name.is_some() == self.is_live(id),
            name.is_some() ==> name.unwrap()@ == self.file(id).name,
    {
        proof {
            self.lemma_entries();
        }
        match self.entry(id.value) {
            Some(entry) => Some(entry.name),
            None => None,
        }
    }
}

/// Whatever is inserted, no two live files have the same name: a file
/// whose name a live file has already is refused.
pub proof fn lemma_insert_keeps_names_unique(
    files: Seq<Option<FileState>>,
    index: int,
    name: Seq<u8>,
    offset: usize,
    len: usize,
    is_persistent: bool,
)
    requires
        names_are_unique(files),
        0 <= index < files.len(),
        files[index].is_none(),
        insert_result(files, name).is_ok(),
    ensures
        names_are_unique(files.update(index, Some(inserted_file(name, offset, len, is_persistent)))),
{
    let after = files.update(index, Some(inserted_file(name, offset, len, is_persistent)));
    assert forall|i: int, j: int|
        0 <= i < after.len() && 0 <= j < after.len() && i != j && (#[trigger] after[i]).is_some()
            && (#[trigger] after[j]).is_some() implies after[i].unwrap().name
        != after[j].unwrap().name by {
        if i == index {
            assert(!names(files, j, name));
        } else if j == index {
            assert(!names(files, i, name));
        } else {
            assert(files[i].is_some() && files[j].is_some());
        }
    }
}

} // verus!
