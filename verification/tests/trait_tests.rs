use elkodon::cal::event::process_local;
use elkodon::cal::event::{
    Listener, ListenerBuilder, ListenerCreateError, ListenerWaitError, Notifier, NotifierBuilder,
    NotifierCreateError, NotifierNotifyError,
};
use elkodon::cal::named_concept::{
    NamedConcept, NamedConceptBuilder, NamedConceptConfiguration, NamedConceptDoesExistError,
    NamedConceptListError, NamedConceptMgmt,
};
use elkodon::cal::static_storage::file::{Builder, Configuration, Locked, Storage};
use elkodon::cal::static_storage::{
    StaticStorage, StaticStorageBuilder, StaticStorageCreateError, StaticStorageLocked,
    StaticStorageOpenError, StaticStorageReadError, StaticStorageUnlockError,
};
use elkodon::log::logger::console::{Logger, Size, NO_TERMINAL};
use elkodon::posix::file_system::FileSystem;

fn bytes(value: &str) -> Vec<u8> {
    value.as_bytes().to_vec()
}

fn config() -> Configuration {
    Configuration::default()
        .suffix(bytes(".static"))
        .path_hint(bytes("/tmp"))
}

fn create_channel<B: ListenerBuilder>(
    builder: B,
    channels: &mut B::Channels,
) -> Result<B::Listener, ListenerCreateError> {
    builder.create(channels)
}

fn open_channel<B: NotifierBuilder>(
    builder: B,
    channels: &B::Channels,
) -> Result<B::Notifier, NotifierCreateError> {
    builder.open(channels)
}

fn send<N: Notifier>(
    notifier: &N,
    channels: &mut N::Channels,
    id: u64,
) -> Result<(), NotifierNotifyError> {
    notifier.notify(channels, id)
}

fn take<L: Listener>(
    listener: &L,
    channels: &mut L::Channels,
) -> Result<Option<u64>, ListenerWaitError> {
    listener.try_wait(channels)
}

#[test]
fn channel_behind_the_traits_delivers_ids_oldest_first() {
    let mut events = process_local::Events::new();
    let name = bytes("channel");

    assert_eq!(
        open_channel(process_local::NotifierBuilder::new(&name), &events).err(),
        Some(NotifierCreateError::DoesNotExist)
    );
    let listener = create_channel(process_local::ListenerBuilder::new(&name), &mut events).unwrap();
    assert_eq!(listener.name(), &name);
    assert_eq!(
        create_channel(process_local::ListenerBuilder::new(&name), &mut events).err(),
        Some(ListenerCreateError::AlreadyExists)
    );
    let notifier = open_channel(process_local::NotifierBuilder::new(&name), &events).unwrap();
    assert_eq!(notifier.name(), &name);

    assert_eq!(take(&listener, &mut events), Ok(None));
    assert_eq!(send(&notifier, &mut events, 5), Ok(()));
    assert_eq!(send(&notifier, &mut events, 9), Ok(()));
    assert_eq!(take(&listener, &mut events), Ok(Some(5)));
    assert_eq!(take(&listener, &mut events), Ok(Some(9)));
    assert_eq!(take(&listener, &mut events), Ok(None));
}

#[test]
fn channel_behind_the_traits_refuses_what_it_cannot_hold() {
    let mut events = process_local::Events::new();
    let name = bytes("full");
    let listener = create_channel(process_local::ListenerBuilder::new(&name), &mut events).unwrap();
    let notifier = open_channel(process_local::NotifierBuilder::new(&name), &events).unwrap();

    for id in 0..process_local::CHANNEL_CAPACITY as u64 {
        assert_eq!(send(&notifier, &mut events, id), Ok(()));
    }
    assert_eq!(
        send(&notifier, &mut events, 1),
        Err(NotifierNotifyError::FailedToDeliverSignal)
    );
    assert_eq!(take(&listener, &mut events), Ok(Some(0)));
    assert_eq!(send(&notifier, &mut events, 1), Ok(()));

    let gone = create_channel(process_local::ListenerBuilder::new(&bytes("gone")), &mut events)
        .unwrap();
    let orphan = open_channel(process_local::NotifierBuilder::new(&bytes("gone")), &events).unwrap();
    let handle = create_channel(process_local::ListenerBuilder::new(&bytes("other")), &mut events)
        .unwrap();
    gone.close(&mut events);
    assert_eq!(
        send(&orphan, &mut events, 3),
        Err(NotifierNotifyError::FailedToDeliverSignal)
    );
    assert_eq!(take(&handle, &mut events), Ok(None));
    handle.close(&mut events);
}

fn lock<B: StaticStorageBuilder>(
    builder: B,
    medium: &mut B::Medium,
) -> Result<B::Locked, StaticStorageCreateError> {
    builder.create_locked(medium)
}

fn unlock<L: StaticStorageLocked>(
    locked: L,
    medium: &mut L::Medium,
    contents: &Vec<u8>,
) -> Result<L::Storage, StaticStorageUnlockError> {
    locked.unlock(medium, contents)
}

fn open<B: StaticStorageBuilder>(
    builder: B,
    medium: &B::Medium,
) -> Result<B::Storage, StaticStorageOpenError> {
    builder.open(medium)
}

fn create<B: StaticStorageBuilder>(
    builder: B,
    medium: &mut B::Medium,
    contents: &Vec<u8>,
) -> Result<B::Storage, StaticStorageCreateError> {
    builder.create(medium, contents)
}

fn builder(name: &str) -> Builder {
    Builder::new(&bytes(name)).config(&config())
}

#[test]
fn storage_behind_the_traits_is_locked_until_its_content_is_complete() {
    let mut file_system = FileSystem::new(16);

    assert_eq!(
        open(builder("storage"), &file_system).err(),
        Some(StaticStorageOpenError::DoesNotExist)
    );
    let locked: Locked = lock(builder("storage"), &mut file_system).unwrap();
    assert_eq!(locked.name(), &bytes("storage"));
    assert!(file_system.does_file_exist(&bytes("/tmp/storage.static")));
    assert_eq!(
        open(builder("storage"), &file_system).err(),
        Some(StaticStorageOpenError::IsLocked)
    );
    assert_eq!(
        lock(builder("storage"), &mut file_system).err(),
        Some(StaticStorageCreateError::AlreadyExists)
    );

    let storage = unlock(locked, &mut file_system, &bytes("content")).unwrap();
    assert_eq!(storage.name(), &bytes("storage"));
    assert_eq!(storage.len(), 7);
    let opened = open(builder("storage"), &file_system).unwrap();
    assert_eq!(opened.len(), 7);
    let mut content = vec![0u8; opened.len() as usize];
    assert_eq!(opened.read(&file_system, &mut content), Ok(()));
    assert_eq!(content, bytes("content"));
}

#[test]
fn storage_behind_the_traits_that_cannot_be_unlocked_goes_with_its_owner() {
    let mut file_system = FileSystem::new(4);

    let owned = lock(builder("owned"), &mut file_system).unwrap();
    assert_eq!(
        unlock(owned, &mut file_system, &bytes("too long")).err(),
        Some(StaticStorageUnlockError::NoSpaceLeft)
    );
    assert!(!file_system.does_file_exist(&bytes("/tmp/owned.static")));

    let kept = lock(builder("kept").with_ownership(false), &mut file_system).unwrap();
    assert_eq!(
        unlock(kept, &mut file_system, &bytes("too long")).err(),
        Some(StaticStorageUnlockError::NoSpaceLeft)
    );
    assert!(file_system.does_file_exist(&bytes("/tmp/kept.static")));
    assert_eq!(
        open(builder("kept"), &file_system).err(),
        Some(StaticStorageOpenError::IsLocked)
    );
}

#[test]
fn storage_behind_the_traits_is_created_in_one_step() {
    let mut file_system = FileSystem::new(4);

    assert_eq!(
        create(builder("large"), &mut file_system, &bytes("12345")).err(),
        Some(StaticStorageCreateError::Write)
    );
    assert!(!file_system.does_file_exist(&bytes("/tmp/large.static")));

    let storage = create(builder("small"), &mut file_system, &bytes("1234")).unwrap();
    assert_eq!(storage.len(), 4);
    assert_eq!(
        create(builder("small"), &mut file_system, &bytes("1")).err(),
        Some(StaticStorageCreateError::AlreadyExists)
    );
    assert_eq!(open(builder("small"), &file_system).unwrap().len(), 4);
}

#[test]
fn logger_assumes_a_very_large_terminal_when_there_is_none() {
    assert_eq!(
        Logger::size_of(None),
        Size {
            rows: NO_TERMINAL,
            cols: NO_TERMINAL
        }
    );
    assert_eq!(NO_TERMINAL, 9999);
    assert_eq!(
        Logger::size_of(Some(Size { rows: 24, cols: 80 })),
        Size { rows: 24, cols: 80 }
    );
}

fn build<B: NamedConceptBuilder>(
    name: &Vec<u8>,
    config: &<B::Concept as NamedConceptMgmt>::Configuration,
) -> B {
    B::new(name).config(config)
}

fn configure<C: NamedConceptConfiguration>(path_hint: &str, suffix: &str) -> C {
    C::default_configuration()
        .path_hint(bytes(path_hint))
        .suffix(bytes(suffix))
}

fn name_of<T: NamedConcept>(object: &T) -> Vec<u8> {
    object.name().clone()
}

fn content_of<S: StaticStorage>(storage: &S, medium: &S::Medium) -> Vec<u8> {
    let mut content = vec![b'-'; storage.len() as usize + 2];
    assert_eq!(storage.read(medium, &mut content), Ok(()));
    content
}

#[test]
fn configuration_behind_the_trait_names_the_files() {
    let sut: Configuration = configure("/dir", ".suffix");
    assert_eq!(NamedConceptConfiguration::get_suffix(&sut), &bytes(".suffix"));
    assert_eq!(NamedConceptConfiguration::get_path_hint(&sut), &bytes("/dir"));
    assert_eq!(
        NamedConceptConfiguration::path_for(&sut, &bytes("name")),
        bytes("/dir/name.suffix")
    );
    assert_eq!(
        NamedConceptConfiguration::extract_name_from_path(&sut, &bytes("/dir/name.suffix")),
        Some(bytes("name"))
    );
    assert_eq!(
        NamedConceptConfiguration::extract_name_from_path(&sut, &bytes("/other/name.suffix")),
        None
    );
    assert_eq!(
        NamedConceptConfiguration::extract_name_from_file(&sut, &bytes("name.suffix")),
        Some(bytes("name"))
    );
    assert_eq!(
        NamedConceptConfiguration::extract_name_from_file(&sut, &bytes("name.other")),
        None
    );

    let default: Configuration = NamedConceptConfiguration::default_configuration();
    assert_eq!(
        NamedConceptConfiguration::path_for(&default, &bytes("name")),
        bytes("/tmp/name.static_storage")
    );
}

#[test]
fn storages_behind_the_traits_are_found_listed_and_removed_by_name() {
    let mut file_system = FileSystem::new(64);
    let cfg: Configuration = configure("/dir", ".s");

    assert_eq!(
        <Storage as NamedConceptMgmt>::list_cfg(&cfg, &file_system),
        Err(NamedConceptListError::InternalError)
    );
    let first: Builder = build(&bytes("first"), &cfg);
    let mut storage = create(first, &mut file_system, &bytes("one")).unwrap();
    let second: Builder = build(&bytes("second"), &cfg);
    let locked = lock(second, &mut file_system).unwrap();

    assert_eq!(name_of(&storage), bytes("first"));
    assert_eq!(StaticStorage::len(&storage), 3);
    assert!(!StaticStorage::is_empty(&storage));
    assert_eq!(content_of(&storage, &file_system), bytes("one--"));
    let mut small = vec![0u8; 2];
    assert_eq!(
        StaticStorage::read(&storage, &file_system, &mut small),
        Err(StaticStorageReadError::BufferTooSmall)
    );

    assert_eq!(
        <Storage as NamedConceptMgmt>::does_exist_cfg(&bytes("first"), &cfg, &file_system),
        Ok(true)
    );
    assert_eq!(
        <Storage as NamedConceptMgmt>::does_exist_cfg(&bytes("second"), &cfg, &file_system),
        Err(NamedConceptDoesExistError::UnderlyingResourcesBeingSetUp)
    );
    assert_eq!(
        <Storage as NamedConceptMgmt>::does_exist_cfg(&bytes("third"), &cfg, &file_system),
        Ok(false)
    );
    assert_eq!(
        <Storage as NamedConceptMgmt>::does_exist(&bytes("first"), &file_system),
        Ok(false)
    );
    assert_eq!(
        <Storage as NamedConceptMgmt>::list_cfg(&cfg, &file_system),
        Ok(vec![bytes("first")])
    );
    assert_eq!(
        <Storage as NamedConceptMgmt>::list(&file_system),
        Err(NamedConceptListError::InternalError)
    );

    // without the ownership the file stays when the storage is closed
    StaticStorage::release_ownership(&mut storage);
    storage.close(&mut file_system);
    assert_eq!(
        <Storage as NamedConceptMgmt>::does_exist_cfg(&bytes("first"), &cfg, &file_system),
        Ok(true)
    );
    let mut opened = open(build::<Builder>(&bytes("first"), &cfg), &file_system).unwrap();
    StaticStorage::release_ownership(&mut opened);
    StaticStorage::acquire_ownership(&mut opened);
    opened.close(&mut file_system);
    assert_eq!(
        <Storage as NamedConceptMgmt>::does_exist_cfg(&bytes("first"), &cfg, &file_system),
        Ok(false)
    );

    assert_eq!(
        <Storage as NamedConceptMgmt>::remove_cfg(&bytes("second"), &cfg, &mut file_system),
        Ok(true)
    );
    assert_eq!(
        <Storage as NamedConceptMgmt>::remove_cfg(&bytes("second"), &cfg, &mut file_system),
        Ok(false)
    );
    assert_eq!(
        <Storage as NamedConceptMgmt>::remove(&bytes("second"), &mut file_system),
        Ok(false)
    );
    drop(locked);
}
