use elkodon::cal::event::process_local::{Events, ListenerBuilder, NotifierBuilder, CHANNEL_CAPACITY};
use elkodon::cal::event::{
    ListenerCreateError, ListenerWaitError, NotifierCreateError, NotifierNotifyError,
};
use elkodon::cal::named_concept::{
    extract_name_from_file, extract_name_from_path, path_for, NamedConceptDoesExistError,
    NamedConceptListError,
};
use elkodon::cal::registry::Registry;
use elkodon::cal::shared_memory_directory::file_reference_set::FileReferenceSet;
use elkodon::cal::shared_memory_directory::{
    SharedMemoryDirectoryCreateFileError, MAX_NUMBER_OF_ENTRIES,
};
use elkodon::cal::shared_memory::{
    Builder as SegmentBuilder, PointerOffset, Segments, SharedMemoryCreateError,
    SharedMemoryOpenError, ShmAllocationError, ShmDeallocationError,
};
use elkodon::cal::static_storage::file::{Builder, Configuration, Storage};
use elkodon::cal::static_storage::StaticStorageBuilder;
use elkodon::cal::static_storage::{
    StaticStorageCreateError, StaticStorageOpenError, StaticStorageReadError,
    StaticStorageUnlockError,
};
use elkodon::cal::zero_copy_connection::{
    Builder as ConnectionBuilder, Connections, ZeroCopyCreationError, ZeroCopyReceiveError,
    ZeroCopyReclaimError, ZeroCopyReleaseError, ZeroCopySendError,
};
use elkodon::elementary::allocator::Layout;
use elkodon::posix::file_system::FileSystem;
use elkodon::posix::permission::Permission;

fn bytes(value: &str) -> Vec<u8> {
    value.as_bytes().to_vec()
}

#[test]
fn registry_keeps_each_name_once() {
    let mut sut = Registry::<u32>::new();
    assert_eq!(sut.len(), 0);
    assert!(sut.insert(bytes("a"), 1).is_none());
    assert!(sut.insert(bytes("b"), 2).is_none());
    assert_eq!(sut.insert(bytes("a"), 3), Some(3));
    assert_eq!(sut.len(), 2);
    assert!(sut.contains(&bytes("a")));
    assert!(!sut.contains(&bytes("c")));
    let position = sut.find(&bytes("b")).unwrap();
    assert_eq!(*sut.value(position), 2);
    *sut.value_mut(position) = 20;
    assert_eq!(sut.remove(&bytes("a")), Some(1));
    assert_eq!(sut.remove(&bytes("a")), None);
    assert_eq!(sut.remove(&bytes("b")), Some(20));
    assert_eq!(sut.len(), 0);
}

#[test]
fn path_for_joins_path_hint_name_and_suffix() {
    assert_eq!(
        path_for(&bytes("/tmp"), &bytes(".cfg"), &bytes("name")),
        bytes("/tmp/name.cfg")
    );
    assert_eq!(
        path_for(&bytes("/tmp/"), &bytes(".cfg"), &bytes("name")),
        bytes("/tmp/name.cfg")
    );
    assert_eq!(
        path_for(&bytes(""), &bytes(".cfg"), &bytes("name")),
        bytes("name.cfg")
    );
}

#[test]
fn extract_name_is_the_inverse_of_path_for() {
    let path = path_for(&bytes("/some/where"), &bytes(".suffix"), &bytes("fuu"));
    assert_eq!(
        extract_name_from_path(&bytes("/some/where"), &bytes(".suffix"), &path),
        Some(bytes("fuu"))
    );
    assert_eq!(
        extract_name_from_path(&bytes("/some/else"), &bytes(".suffix"), &path),
        None
    );
    assert_eq!(
        extract_name_from_path(&bytes("/some/where"), &bytes(".other"), &path),
        None
    );
    assert_eq!(
        extract_name_from_file(&bytes(".suffix"), &bytes("bar.suffix")),
        Some(bytes("bar"))
    );
    assert_eq!(extract_name_from_file(&bytes(".suffix"), &bytes("bar")), None);
    assert_eq!(extract_name_from_file(&bytes(".suffix"), &bytes("x")), None);
}

fn config() -> Configuration {
    Configuration::default()
        .suffix(bytes(".conifg"))
        .path_hint(bytes("/tmp"))
}

#[test]
fn static_storage_is_created_and_read() {
    let mut file_system = FileSystem::new(1024);
    let content = bytes("some storage content");
    let name = bytes("myStaticStorage");

    let owner = Builder::new(&name)
        .config(&config())
        .create(&mut file_system, &content)
        .unwrap();
    assert_eq!(owner.name(), &name);
    assert_eq!(owner.len(), 20);
    assert!(!owner.is_empty());

    let reader = Builder::new(&name)
        .config(&config())
        .has_ownership(false)
        .open(&file_system)
        .unwrap();
    let mut buffer = vec![b' '; reader.len() as usize];
    assert_eq!(reader.read(&file_system, &mut buffer), Ok(()));
    assert_eq!(buffer, content);

    let mut small = vec![0u8; 5];
    assert_eq!(
        reader.read(&file_system, &mut small),
        Err(StaticStorageReadError::BufferTooSmall)
    );

    assert_eq!(
        Storage::does_exist_cfg(&name, &config(), &file_system),
        Ok(true)
    );
    assert_eq!(
        Storage::list_cfg(&config(), &file_system),
        Ok(vec![name.clone()])
    );

    reader.close(&mut file_system);
    assert_eq!(
        Storage::does_exist_cfg(&name, &config(), &file_system),
        Ok(true)
    );
    owner.close(&mut file_system);
    assert_eq!(
        Storage::does_exist_cfg(&name, &config(), &file_system),
        Ok(false)
    );
    assert_eq!(
        Builder::new(&name)
            .config(&config())
            .open(&file_system)
            .err(),
        Some(StaticStorageOpenError::DoesNotExist)
    );
}

#[test]
fn locked_static_storage_cannot_be_opened() {
    let mut file_system = FileSystem::new(1024);
    let name = bytes("locked");
    let locked = Builder::new(&name)
        .config(&config())
        .create_locked(&mut file_system)
        .unwrap();
    assert_eq!(locked.name(), &name);

    assert_eq!(
        Builder::new(&name)
            .config(&config())
            .open(&file_system)
            .err(),
        Some(StaticStorageOpenError::IsLocked)
    );
    assert_eq!(
        Storage::does_exist_cfg(&name, &config(), &file_system),
        Err(NamedConceptDoesExistError::UnderlyingResourcesBeingSetUp)
    );
    assert_eq!(Storage::list_cfg(&config(), &file_system), Ok(vec![]));
    assert_eq!(
        Builder::new(&name)
            .config(&config())
            .create_locked(&mut file_system)
            .err(),
        Some(StaticStorageCreateError::AlreadyExists)
    );

    let storage = locked.unlock(&mut file_system, &bytes("done")).unwrap();
    assert_eq!(storage.len(), 4);
    assert!(Builder::new(&name)
        .config(&config())
        .open(&file_system)
        .is_ok());
    assert_eq!(
        Storage::remove_cfg(&name, &config(), &mut file_system),
        Ok(true)
    );
    assert_eq!(
        Storage::remove_cfg(&name, &config(), &mut file_system),
        Ok(false)
    );
}

#[test]
fn static_storage_without_space_is_not_left_behind() {
    let mut file_system = FileSystem::new(3);
    let name = bytes("too_large");
    let locked = Builder::new(&name)
        .config(&config())
        .create_locked(&mut file_system)
        .unwrap();
    assert_eq!(
        locked.unlock(&mut file_system, &bytes("four")).err(),
        Some(StaticStorageUnlockError::NoSpaceLeft)
    );
    assert!(!file_system.does_file_exist(&bytes("/tmp/too_large.conifg")));

    assert_eq!(
        Builder::new(&name)
            .config(&config())
            .create(&mut file_system, &bytes("four"))
            .err(),
        Some(StaticStorageCreateError::Write)
    );
    assert!(Builder::new(&name)
        .config(&config())
        .create(&mut file_system, &bytes("fit"))
        .is_ok());
}

#[test]
fn static_storage_in_read_only_directory_is_refused() {
    let mut file_system = FileSystem::new(64);
    assert!(file_system.create_directory(&bytes("/tmp"), Permission::new(0o500)));
    assert_eq!(
        Builder::new(&bytes("name"))
            .config(&config())
            .create_locked(&mut file_system)
            .err(),
        Some(StaticStorageCreateError::InsufficientPermissions)
    );
    assert_eq!(
        Storage::list_cfg(
            &Configuration::default().path_hint(bytes("/nowhere")),
            &file_system
        ),
        Err(NamedConceptListError::InternalError)
    );
}

#[test]
fn static_storage_builder_trait_creates_through_lock_and_unlock() {
    let mut file_system = FileSystem::new(64);
    let builder = Builder::new(&bytes("via_trait")).config(&config());
    let storage =
        <Builder as StaticStorageBuilder>::create(builder, &mut file_system, &bytes("abc")).unwrap();
    assert_eq!(storage.len(), 3);
}

#[test]
fn event_channel_delivers_ids_in_order() {
    let mut events = Events::new();
    let name = bytes("listener");
    assert_eq!(
        NotifierBuilder::new(&name).open(&events).err(),
        Some(NotifierCreateError::DoesNotExist)
    );
    let listener = ListenerBuilder::new(&name).create(&mut events).unwrap();
    assert_eq!(
        ListenerBuilder::new(&name).create(&mut events).err(),
        Some(ListenerCreateError::AlreadyExists)
    );
    let first = NotifierBuilder::new(&name).open(&events).unwrap();
    let second = NotifierBuilder::new(&name).open(&events).unwrap();

    assert_eq!(listener.try_wait(&mut events), Ok(None));
    assert_eq!(first.notify(&mut events, 1), Ok(()));
    assert_eq!(second.notify(&mut events, 2), Ok(()));
    assert_eq!(first.notify(&mut events, 3), Ok(()));
    assert_eq!(listener.try_wait(&mut events), Ok(Some(1)));
    assert_eq!(listener.try_wait(&mut events), Ok(Some(2)));
    assert_eq!(listener.try_wait(&mut events), Ok(Some(3)));
    assert_eq!(listener.try_wait(&mut events), Ok(None));

    for id in 0..CHANNEL_CAPACITY as u64 {
        assert_eq!(first.notify(&mut events, id), Ok(()));
    }
    assert_eq!(
        first.notify(&mut events, 0),
        Err(NotifierNotifyError::FailedToDeliverSignal)
    );

    let stale = NotifierBuilder::new(&name).open(&events).unwrap();
    let other = ListenerBuilder::new(&bytes("other")).create(&mut events).unwrap();
    listener.close(&mut events);
    assert_eq!(
        stale.notify(&mut events, 1),
        Err(NotifierNotifyError::FailedToDeliverSignal)
    );
    assert_eq!(other.try_wait(&mut events), Ok(None));
    let gone = ListenerBuilder::new(&bytes("gone")).create(&mut events).unwrap();
    let handle = ListenerBuilder::new(&bytes("x")).create(&mut events).unwrap();
    handle.close(&mut events);
    let _ = gone;
    let closed = ListenerBuilder::new(&bytes("closed")).create(&mut events).unwrap();
    let name_of_closed = closed.name().clone();
    closed.close(&mut events);
    let reopened = ListenerBuilder::new(&name_of_closed).create(&mut events).unwrap();
    assert_eq!(reopened.try_wait(&mut events), Ok(None));
    let dangling = ListenerBuilder::new(&bytes("dangling")).create(&mut events).unwrap();
    let copy = ListenerBuilder::new(&bytes("dangling")).create(&mut events);
    assert!(copy.is_err());
    dangling.name();
    let waiter = ListenerBuilder::new(&bytes("waiter")).create(&mut events).unwrap();
    let name_of_waiter = waiter.name().clone();
    let remover = NotifierBuilder::new(&name_of_waiter).open(&events).unwrap();
    assert_eq!(remover.name(), &name_of_waiter);
    waiter.close(&mut events);
    let lost = ListenerBuilder::new(&bytes("lost")).create(&mut events).unwrap();
    let lost_name = lost.name().clone();
    let _ = lost_name;
    let mut other_events = Events::new();
    assert_eq!(
        lost.try_wait(&mut other_events),
        Err(ListenerWaitError::ContractViolation)
    );
}

fn connection(name: &Vec<u8>, overflow: bool) -> ConnectionBuilder {
    ConnectionBuilder::new(name)
        .buffer_size(2)
        .max_borrowed_samples(1)
        .enable_safe_overflow(overflow)
}

#[test]
fn connection_carries_offsets_and_takes_them_back() {
    let mut connections = Connections::new();
    let name = bytes("pub_sub");
    let sender = connection(&name, false)
        .create_sender(&mut connections)
        .unwrap();
    assert!(connections.does_exist(&name));
    assert_eq!(
        connection(&name, false)
            .create_sender(&mut connections)
            .err(),
        Some(ZeroCopyCreationError::AnotherInstanceIsAlreadyConnected)
    );
    let receiver = connection(&name, false)
        .create_receiver(&mut connections)
        .unwrap();

    assert_eq!(sender.try_send(&mut connections, 8), Ok(None));
    assert_eq!(sender.try_send(&mut connections, 16), Ok(None));
    assert_eq!(
        sender.try_send(&mut connections, 24),
        Err(ZeroCopySendError::ReceiveBufferFull)
    );

    assert_eq!(receiver.receive(&mut connections), Ok(Some(8)));
    assert_eq!(
        receiver.receive(&mut connections),
        Err(ZeroCopyReceiveError::ReceiveWouldExceedMaxBorrowValue)
    );
    assert_eq!(sender.reclaim(&mut connections), Ok(None));
    assert_eq!(receiver.release(&mut connections, 8), Ok(()));
    assert_eq!(
        receiver.release(&mut connections, 8),
        Err(ZeroCopyReleaseError::NoSampleBorrowed)
    );
    assert_eq!(receiver.receive(&mut connections), Ok(Some(16)));
    assert_eq!(receiver.release(&mut connections, 16), Ok(()));
    assert_eq!(receiver.receive(&mut connections), Ok(None));
    assert_eq!(sender.reclaim(&mut connections), Ok(Some(8)));
    assert_eq!(sender.reclaim(&mut connections), Ok(Some(16)));
    assert_eq!(sender.reclaim(&mut connections), Ok(None));

    sender.close(&mut connections);
    assert!(connections.does_exist(&name));
    let stale = connection(&name, false).create_sender(&mut connections).unwrap();
    receiver.close(&mut connections);
    assert!(connections.does_exist(&name));
    let broken = connection(&name, false)
        .create_receiver(&mut connections)
        .unwrap();
    stale.close(&mut connections);
    let late = connection(&name, false).create_sender(&mut connections).unwrap();
    broken.close(&mut connections);
    late.close(&mut connections);
    assert!(!connections.does_exist(&name));

    let sender = connection(&name, false)
        .create_sender(&mut connections)
        .unwrap();
    let mut other = Connections::new();
    assert_eq!(
        sender.try_send(&mut other, 1),
        Err(ZeroCopySendError::ConnectionBroken)
    );
    assert_eq!(
        sender.reclaim(&mut other),
        Err(ZeroCopyReclaimError::ConnectionBroken)
    );
    let receiver = connection(&name, false)
        .create_receiver(&mut connections)
        .unwrap();
    assert_eq!(
        receiver.receive(&mut other),
        Err(ZeroCopyReceiveError::ConnectionBroken)
    );
    assert_eq!(
        receiver.release(&mut other, 1),
        Err(ZeroCopyReleaseError::ConnectionBroken)
    );
}

#[test]
fn connection_must_be_cleared_before_more_is_sent() {
    let mut connections = Connections::new();
    let name = bytes("pub_sub");
    let sender = connection(&name, false)
        .create_sender(&mut connections)
        .unwrap();
    let receiver = connection(&name, false)
        .create_receiver(&mut connections)
        .unwrap();

    // two offsets wait in the retrieve channel and one is borrowed
    for offset in [8, 16, 24] {
        assert_eq!(sender.try_send(&mut connections, offset), Ok(None));
        assert_eq!(receiver.receive(&mut connections), Ok(Some(offset)));
        if offset != 24 {
            assert_eq!(receiver.release(&mut connections, offset), Ok(()));
        }
    }
    assert_eq!(
        sender.try_send(&mut connections, 32),
        Err(ZeroCopySendError::ClearRetrieveChannelBeforeSend)
    );
    assert_eq!(sender.reclaim(&mut connections), Ok(Some(8)));
    assert_eq!(sender.try_send(&mut connections, 32), Ok(None));
}

#[test]
fn connection_with_safe_overflow_replaces_the_oldest_offset() {
    let mut connections = Connections::new();
    let name = bytes("pub_sub");
    let sender = connection(&name, true)
        .create_sender(&mut connections)
        .unwrap();
    assert_eq!(sender.try_send(&mut connections, 8), Ok(None));
    assert_eq!(sender.try_send(&mut connections, 16), Ok(None));
    assert_eq!(sender.try_send(&mut connections, 24), Ok(Some(8)));
    assert_eq!(sender.try_send(&mut connections, 32), Ok(Some(16)));
}

#[test]
fn connection_sides_must_agree_on_the_settings() {
    let mut connections = Connections::new();
    let name = bytes("pub_sub");
    let _sender = connection(&name, true)
        .create_sender(&mut connections)
        .unwrap();
    assert_eq!(
        connection(&name, false)
            .create_receiver(&mut connections)
            .err(),
        Some(ZeroCopyCreationError::IncompatibleOverflowSetting)
    );
    assert_eq!(
        connection(&name, true)
            .buffer_size(3)
            .create_receiver(&mut connections)
            .err(),
        Some(ZeroCopyCreationError::IncompatibleBufferSize)
    );
    assert_eq!(
        connection(&name, true)
            .max_borrowed_samples(3)
            .create_receiver(&mut connections)
            .err(),
        Some(ZeroCopyCreationError::IncompatibleMaxBorrowedSampleSetting)
    );
    assert_eq!(
        connection(&bytes("huge"), true)
            .buffer_size(usize::MAX)
            .create_receiver(&mut connections)
            .err(),
        Some(ZeroCopyCreationError::InternalError)
    );
}

#[test]
fn shared_memory_hands_out_buckets_by_offset() {
    let mut segments = Segments::new();
    let name = bytes("segment");
    let layout = Layout::from_size_align(12, 8).unwrap();

    assert_eq!(
        SegmentBuilder::new(&name).open(&segments).err(),
        Some(SharedMemoryOpenError::DoesNotExist)
    );
    assert_eq!(
        SegmentBuilder::new(&name)
            .create(&mut segments, layout)
            .err(),
        Some(SharedMemoryCreateError::SizeIsZero)
    );
    assert_eq!(
        SegmentBuilder::new(&name)
            .size(15)
            .create(&mut segments, layout)
            .err(),
        Some(SharedMemoryCreateError::InternalError)
    );
    let owner = SegmentBuilder::new(&name)
        .size(50)
        .create(&mut segments, layout)
        .unwrap();
    assert_eq!(owner.buckets(&segments), Some((3, 16)));
    assert_eq!(
        SegmentBuilder::new(&name)
            .size(50)
            .create(&mut segments, layout)
            .err(),
        Some(SharedMemoryCreateError::AlreadyExists)
    );
    let opener = SegmentBuilder::new(&name).open(&segments).unwrap();

    assert_eq!(
        owner.allocate(&mut segments, Layout::from_size_align(17, 8).unwrap()),
        Err(ShmAllocationError::ExceedsMaxSupportedSize)
    );
    assert_eq!(
        owner.allocate(&mut segments, Layout::from_size_align(8, 16).unwrap()),
        Err(ShmAllocationError::ExceedsMaxSupportedAlignment)
    );
    let first = owner.allocate(&mut segments, layout).unwrap();
    let second = owner.allocate(&mut segments, layout).unwrap();
    let third = owner.allocate(&mut segments, layout).unwrap();
    assert_eq!((first.value(), second.value(), third.value()), (0, 16, 32));
    assert_eq!(
        owner.allocate(&mut segments, layout),
        Err(ShmAllocationError::OutOfMemory)
    );

    assert!(owner.write(&mut segments, second, &bytes("hello world!")));
    assert!(!owner.write(&mut segments, third, &bytes("this does not fit in")));
    assert_eq!(opener.read(&segments, second, 12), Some(bytes("hello world!")));
    assert_eq!(opener.read(&segments, first, 4), Some(vec![0u8; 4]));
    assert_eq!(opener.read(&segments, PointerOffset::new(40), 12), None);

    assert_eq!(opener.deallocate(&mut segments, second, layout), Ok(()));
    assert_eq!(
        opener.deallocate(&mut segments, second, layout),
        Err(ShmDeallocationError::OffsetNotAllocated)
    );
    assert_eq!(owner.allocate(&mut segments, layout), Ok(second));

    opener.close(&mut segments);
    assert!(SegmentBuilder::new(&name).open(&segments).is_ok());
    let stale = SegmentBuilder::new(&name).open(&segments).unwrap();
    owner.close(&mut segments);
    assert_eq!(
        stale.allocate(&mut segments, layout),
        Err(ShmAllocationError::SegmentDoesNotExist)
    );
    assert_eq!(
        stale.deallocate(&mut segments, first, layout),
        Err(ShmDeallocationError::SegmentDoesNotExist)
    );
    assert_eq!(stale.buckets(&segments), None);
}

#[test]
fn locked_static_storage_can_be_written_by_its_owner_only() {
    let mut file_system = FileSystem::new(64);
    let name = bytes("permissions");
    let path = bytes("/tmp/permissions.conifg");
    let locked = Builder::new(&name)
        .config(&config())
        .create_locked(&mut file_system)
        .unwrap();
    assert_eq!(file_system.metadata(&path).unwrap().permission.bits, 0o200);
    assert_eq!(
        Storage::does_exist_cfg(&name, &config(), &file_system),
        Err(NamedConceptDoesExistError::UnderlyingResourcesBeingSetUp)
    );
    assert_eq!(
        Builder::new(&name).config(&config()).open(&file_system).err(),
        Some(StaticStorageOpenError::IsLocked)
    );

    let storage = locked.unlock(&mut file_system, &bytes("abc")).unwrap();
    assert_eq!(file_system.metadata(&path).unwrap().permission.bits, 0o400);
    assert_eq!(Storage::does_exist_cfg(&name, &config(), &file_system), Ok(true));

    // what the owner has removed can be created again
    storage.close(&mut file_system);
    assert_eq!(Storage::does_exist_cfg(&name, &config(), &file_system), Ok(false));
    let again = Builder::new(&name)
        .config(&config())
        .create(&mut file_system, &bytes("abcd"))
        .unwrap();
    assert_eq!(again.len(), 4);
}

#[test]
fn file_reference_set_keeps_each_name_once() {
    let mut sut = FileReferenceSet::new();
    let first = sut.insert(&bytes("a"), 0, 16, false).unwrap();
    assert_eq!(first.value(), 0);
    assert_eq!(
        sut.insert(&bytes("a"), 16, 16, false).err(),
        Some(SharedMemoryDirectoryCreateFileError::BeingCreated)
    );
    assert!(!sut.does_exist(&bytes("a")));
    assert!(sut.borrow(&bytes("a")).is_none());

    sut.finalize_initialization(first);
    assert!(sut.does_exist(&bytes("a")));
    assert_eq!(
        sut.insert(&bytes("a"), 16, 16, false).err(),
        Some(SharedMemoryDirectoryCreateFileError::DoesExist)
    );
    let second = sut.insert(&bytes("b"), 16, 16, true).unwrap();
    assert_eq!(second.value(), 1);
    assert_eq!(sut.get_name(second), Some(bytes("b")));
    assert!(sut.is_persistent(second));
    assert!(!sut.is_persistent(first));
}

#[test]
fn file_reference_set_drops_a_file_with_its_last_reference() {
    let mut sut = FileReferenceSet::new();
    let creator = sut.insert(&bytes("a"), 0, 16, false).unwrap();
    sut.finalize_initialization(creator);
    let reader = sut.borrow(&bytes("a")).unwrap();
    assert_eq!(reader.value(), creator.value());

    sut.release(creator);
    assert!(sut.does_exist(&bytes("a")));
    sut.release(reader);
    assert!(!sut.does_exist(&bytes("a")));
    assert_eq!(sut.get_name(reader), None);
    sut.release(reader);

    // the entry is used again
    let again = sut.insert(&bytes("c"), 0, 16, false).unwrap();
    assert_eq!(again.value(), 0);
}

#[test]
fn file_reference_set_keeps_a_persistent_file_until_it_is_removed() {
    let mut sut = FileReferenceSet::new();
    let creator = sut.insert(&bytes("kept"), 0, 16, true).unwrap();
    assert!(!sut.to_be_removed(&bytes("kept")));
    sut.finalize_initialization(creator);
    sut.release(creator);
    assert!(sut.does_exist(&bytes("kept")));

    let reader = sut.borrow(&bytes("kept")).unwrap();
    assert!(sut.to_be_removed(&bytes("kept")));
    assert!(sut.does_exist(&bytes("kept")));
    assert!(!sut.is_persistent(reader));
    sut.release(reader);
    assert!(!sut.does_exist(&bytes("kept")));
    assert!(!sut.to_be_removed(&bytes("kept")));

    let unused = sut.insert(&bytes("unused"), 0, 16, true).unwrap();
    sut.finalize_initialization(unused);
    sut.release(unused);
    assert!(sut.to_be_removed(&bytes("unused")));
    assert!(!sut.does_exist(&bytes("unused")));
}

#[test]
fn file_reference_set_holds_a_limited_number_of_files() {
    let mut sut = FileReferenceSet::new();
    for i in 0..MAX_NUMBER_OF_ENTRIES {
        let name = format!("file{}", i).into_bytes();
        assert_eq!(sut.insert(&name, i, 1, false).unwrap().value(), i);
    }
    assert_eq!(
        sut.insert(&bytes("one more"), 0, 1, false).err(),
        Some(SharedMemoryDirectoryCreateFileError::FileLimitExceeded)
    );
    // a full table says so even where the name is taken
    assert_eq!(
        sut.insert(&bytes("file3"), 0, 1, false).err(),
        Some(SharedMemoryDirectoryCreateFileError::FileLimitExceeded)
    );
}

#[test]
fn static_storage_that_exists_is_reported_whatever_its_directory_allows() {
    let mut file_system = FileSystem::new(64);
    let read_only = Configuration::default()
        .suffix(bytes(".s"))
        .path_hint(bytes("/ro"));
    assert!(file_system.create_directory(&bytes("/rw"), Permission::new(0o700)));
    assert!(file_system.create_directory(&bytes("/ro"), Permission::new(0o500)));

    assert_eq!(
        Builder::new(&bytes("name"))
            .config(&read_only)
            .create_locked(&mut file_system)
            .err(),
        Some(StaticStorageCreateError::InsufficientPermissions)
    );
    assert_eq!(
        file_system.create_file_exclusive(
            &bytes("/rw"),
            &bytes("/ro/name.s"),
            Permission::new(0o200)
        ),
        Ok(())
    );
    assert_eq!(
        Builder::new(&bytes("name"))
            .config(&read_only)
            .create_locked(&mut file_system)
            .err(),
        Some(StaticStorageCreateError::AlreadyExists)
    );
    assert_eq!(
        Builder::new(&bytes("name"))
            .config(&read_only)
            .create(&mut file_system, &bytes("abc"))
            .err(),
        Some(StaticStorageCreateError::AlreadyExists)
    );
}
