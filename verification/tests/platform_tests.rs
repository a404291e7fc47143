use elkodon::concurrency_primitives::condition_variable::ConditionVariable;
use elkodon::concurrency_primitives::mutex::Mutex;
use elkodon::log::logger::console::{append_padded, ConsoleLogOrder, Logger, Size, Time};
use elkodon::log::{
    __internal_print_log_msg, get_log_level, get_logger, set_log_level, set_logger, Log, LogLevel,
};
use elkodon::posix::errno::{EACCES, EAGAIN, EBADF, EDEADLK, EINTR, EIO, EMFILE, ENFILE, ENOLCK, ERANGE};
use elkodon::posix::file_lock::{
    FileLock, FileLockStateError, FileTryLockError, FileUnlockError, LockType, SystemLock,
    F_RDLCK, F_UNLCK, F_WRLCK,
};
use elkodon::posix::file_system::{
    FileAccessError, FileCreationError, FileReadError, FileSystem, FileWriteError,
};
use elkodon::posix::group::{lookup_error, Group, GroupEntry, GroupError};
use elkodon::posix::permission::{Permission, OWNER_ALL, OWNER_READ, OWNER_WRITE};
use elkodon::system_types::group_name::{GroupName, SemanticStringError};
use elkodon::system_types::user_name::UserName;
use std::time::{Duration, Instant};

const TIMEOUT: Duration = Duration::from_millis(25);

#[test]
fn condition_variable_wait_returns_false_when_functor_returns_false() {
    let sut = ConditionVariable::new();
    let mut mtx = Mutex::new();
    mtx.lock(|_, _| true);
    assert_eq!(!sut.wait(&mut mtx, |_| {}, |_, _| false, |_, _| true), true);
    mtx.unlock(|_| {});
}

#[test]
fn condition_variable_wait_acquires_the_mutex_when_notified() {
    let mut sut = ConditionVariable::new();
    let mut mtx = Mutex::new();
    assert!(mtx.try_lock());
    sut.notify(|counter| assert_eq!(counter, 1));
    assert!(sut.wait(
        &mut mtx,
        |state| assert_eq!(state, 0),
        |counter, expected| counter == expected,
        |_, _| false
    ));
    assert!(!mtx.try_lock());
}

#[test]
fn mutex_lock_with_timeout_and_fails_after_timeout() {
    let mut sut = Mutex::new();

    sut.try_lock();

    assert_eq!(
        !sut.lock(|state, value| {
            let start = Instant::now();
            while state == value {
                if start.elapsed() > TIMEOUT {
                    return false;
                }
            }

            true
        }),
        true
    );
}

#[test]
fn mutex_is_held_by_one_at_a_time() {
    let mut sut = Mutex::new();
    assert!(sut.lock(|_, _| false));
    assert!(!sut.try_lock());
    assert!(!sut.lock(|_, _| false));
    sut.unlock(|state| assert_eq!(state, 0));
    assert!(sut.try_lock());
}

#[test]
fn log_level_is_stored_as_number() {
    let mut log = Log::new();
    assert_eq!(get_log_level(&log), 0);
    set_log_level(&mut log, LogLevel::Warn);
    assert_eq!(get_log_level(&log), 3);
    set_log_level(&mut log, LogLevel::Fatal);
    assert_eq!(get_log_level(&log), LogLevel::Fatal.as_u8());
}

#[test]
fn logger_is_set_only_once() {
    let mut log = Log::new();
    assert!(set_logger(&mut log, Logger::with_order(ConsoleLogOrder::Time)));
    assert!(!set_logger(&mut log, Logger::new()));

    let mut untouched = Log::new();
    let _ = get_logger(&mut untouched);
    assert!(!set_logger(&mut untouched, Logger::new()));
}

#[test]
fn decimal_numbers_are_padded_in_front() {
    let mut text = vec![];
    append_padded(&mut text, 0, 0, b' ');
    append_padded(&mut text, 42, 5, b' ');
    append_padded(&mut text, 1234567, 3, b'0');
    append_padded(&mut text, 7, 9, b'0');
    append_padded(&mut text, u64::MAX, 0, b' ');
    assert_eq!(
        String::from_utf8(text).unwrap(),
        "0   42123456700000000718446744073709551615"
    );
}

#[test]
fn console_logger_renders_counter_level_origin_and_message() {
    let mut sut = Logger::new();
    let terminal = Size {
        rows: 50,
        cols: 80,
    };
    let time = Time {
        seconds: 17,
        nanoseconds: 5,
    };
    let text = sut.log(
        0,
        LogLevel::Info,
        &b"Origin".to_vec(),
        &b"hello".to_vec(),
        time,
        terminal,
    );
    assert_eq!(
        String::from_utf8(text).unwrap(),
        "\x1b[0;90m        0 \x1b[0;92m[I] \x1b[0;37mOrigin\x1b[0m\n              \x1b[1;37m| hello\x1b[0m\n"
    );

    let text = sut.log(0, LogLevel::Error, &vec![], &b"bla 1".to_vec(), time, terminal);
    assert_eq!(
        String::from_utf8(text).unwrap(),
        "\x1b[0;90m        1 \x1b[0;31m[E] \x1b[1;91m| bla 1\x1b[0m\n"
    );

    // the message lies below the log level: it is counted but not rendered
    assert!(sut
        .log(4, LogLevel::Warn, &vec![], &b"quiet".to_vec(), time, terminal)
        .is_empty());
    let text = sut.log(4, LogLevel::Fatal, &vec![], &b"x".to_vec(), time, terminal);
    assert_eq!(
        String::from_utf8(text).unwrap(),
        "\x1b[0;90m        3 \x1b[1;4;91m[F] \x1b[1;4;91m| x\x1b[0m\n"
    );
}

#[test]
fn console_logger_renders_the_time_when_asked_for() {
    let mut sut = Logger::with_order(ConsoleLogOrder::Time);
    let terminal = Size {
        rows: 50,
        cols: 80,
    };
    let time = Time {
        seconds: 1700000000,
        nanoseconds: 12345,
    };
    let text = sut.log(0, LogLevel::Trace, &b"o".to_vec(), &b"m".to_vec(), time, terminal);
    assert_eq!(
        String::from_utf8(text).unwrap(),
        "\x1b[0;90m1700000000.000012345 \x1b[0;90m[T] \x1b[0;90mo\x1b[0m\n                         \x1b[1;90m| m\x1b[0m\n"
    );
    let text = sut.log(0, LogLevel::Debug, &vec![], &b"m".to_vec(), time, terminal);
    assert_eq!(
        String::from_utf8(text).unwrap(),
        "\x1b[0;90m1700000000.000012345 \x1b[0;90m[D] \n\x1b[1;90m| m\x1b[0m\n"
    );
}

#[test]
fn console_logger_wraps_long_messages_at_the_width_of_the_terminal() {
    let mut sut = Logger::new();
    let terminal = Size { rows: 5, cols: 6 };
    let time = Time {
        seconds: 0,
        nanoseconds: 0,
    };
    // six columns less the separator leave four characters per line
    let text = sut.log(0, LogLevel::Warn, &vec![], &b"abcdefghij".to_vec(), time, terminal);
    assert_eq!(
        String::from_utf8(text).unwrap(),
        "\x1b[0;90m        0 \x1b[0;33m[W] \x1b[1;93m| abcd\x1b[0m\n\x1b[1;93m| efgh\x1b[0m\n\x1b[1;93m| ij\x1b[0m\n"
    );
    let text = sut.log(0, LogLevel::Warn, &vec![], &b"abcd".to_vec(), time, terminal);
    assert_eq!(
        String::from_utf8(text).unwrap(),
        "\x1b[0;90m        1 \x1b[0;33m[W] \x1b[1;93m| abcd\x1b[0m\n\x1b[1;93m| \x1b[0m\n"
    );
}

#[test]
fn log_message_goes_through_the_logger_of_the_log() {
    let mut log = Log::new();
    set_log_level(&mut log, LogLevel::Error);
    let time = Time {
        seconds: 0,
        nanoseconds: 0,
    };
    assert!(
        __internal_print_log_msg(&mut log, LogLevel::Info, &vec![], &b"x".to_vec(), time)
            .is_empty()
    );
    let text = __internal_print_log_msg(&mut log, LogLevel::Error, &vec![], &b"x".to_vec(), time);
    assert!(String::from_utf8(text)
        .unwrap()
        .starts_with("\x1b[0;90m        1 \x1b[0;31m[E] "));
    assert!(Logger::get_terminal_size().cols > 0);
    assert_eq!(Logger::log_level_string(LogLevel::Debug), "\x1b[0;90m[D]");
    assert_eq!(Logger::message_color(LogLevel::Info), "\x1b[1;37m");
    assert_eq!(Logger::counter_color(LogLevel::Info), "\x1b[0;90m");
    assert_eq!(Logger::origin_color(LogLevel::Fatal), "\x1b[0;4;91m");
}

#[test]
fn group_name_obeys_the_rules_for_names_of_groups() {
    assert!(GroupName::new(&b"some-group".to_vec()).is_ok());
    assert_eq!(
        GroupName::new(&b"some*!?group".to_vec()).err(),
        Some(SemanticStringError::InvalidContent)
    );
    assert_eq!(
        GroupName::new(&vec![]).err(),
        Some(SemanticStringError::InvalidContent)
    );
    assert_eq!(
        GroupName::new(&b"-group".to_vec()).err(),
        Some(SemanticStringError::InvalidContent)
    );
    assert_eq!(
        GroupName::new(&b"1group".to_vec()).err(),
        Some(SemanticStringError::InvalidContent)
    );
    assert_eq!(
        GroupName::new(&b"Group".to_vec()).err(),
        Some(SemanticStringError::InvalidContent)
    );
    assert_eq!(
        GroupName::new(&vec![b'a'; 32]).err(),
        Some(SemanticStringError::ExceedsMaximumLength)
    );
    let sut = GroupName::new(&vec![b'a'; 31]).unwrap();
    assert_eq!(sut.len(), GroupName::max_len());
    assert_eq!(sut.as_bytes(), &vec![b'a'; 31]);
    assert!(UserName::new(&vec![]).is_err());
    assert!(UserName::new(&vec![b'u'; 32]).is_err());
    assert_eq!(UserName::max_len(), 31);
}

fn entry() -> GroupEntry {
    GroupEntry {
        gid: 1000,
        name: b"users".to_vec(),
        password: b"x".to_vec(),
        members: vec![b"alice".to_vec(), b"bob".to_vec()],
    }
}

#[test]
fn group_is_made_of_what_the_lookup_found() {
    let sut = Group::populate_entries(0, Some(&entry())).unwrap();
    assert_eq!(sut.gid(), 1000);
    assert_eq!(sut.name().as_bytes(), &b"users".to_vec());
    assert_eq!(sut.password(), &b"x".to_vec());
    let members = sut.members();
    assert_eq!(members.len(), 2);
    assert_eq!(members[0].as_bytes(), &b"alice".to_vec());
    assert_eq!(members[1].as_bytes(), &b"bob".to_vec());
}

#[test]
fn group_lookup_failures_are_told_apart() {
    assert_eq!(lookup_error(0), None);
    for (errno, error) in [
        (EINTR, GroupError::Interrupt),
        (EIO, GroupError::IOerror),
        (EMFILE, GroupError::PerProcessFileHandleLimitReached),
        (ENFILE, GroupError::SystemWideFileHandleLimitReached),
        (ERANGE, GroupError::InsufficientBufferSize),
        (77, GroupError::UnknownError(77)),
    ] {
        assert_eq!(
            Group::populate_entries(errno, Some(&entry())).err(),
            Some(error)
        );
    }
    assert_eq!(
        Group::populate_entries(0, None).err(),
        Some(GroupError::GroupNotFound)
    );
    let mut long_name = entry();
    long_name.name = vec![b'g'; 32];
    assert_eq!(
        Group::populate_entries(0, Some(&long_name)).err(),
        Some(GroupError::SystemGroupNameLengthLongerThanSupportedLength)
    );
    let mut long_member = entry();
    long_member.members.push(vec![b'u'; 32]);
    assert_eq!(
        Group::populate_entries(0, Some(&long_member)).err(),
        Some(GroupError::SystemUserNameLengthLongerThanSupportedLength)
    );
}

#[test]
fn file_lock_counts_the_locks_of_the_process() {
    let mut sut = FileLock::new();
    let nobody = SystemLock {
        l_type: F_UNLCK,
        l_pid: 0,
    };
    assert!(sut.own_lock_state(7).is_none());
    assert_eq!(
        sut.get_lock_state(7, true, nobody, 0).unwrap().lock_type(),
        LockType::Unlock
    );

    assert_eq!(sut.internal_lock(LockType::Read, true, 0), Ok(true));
    assert_eq!(sut.internal_lock(LockType::Read, true, 0), Ok(true));
    let state = sut.get_lock_state(7, false, nobody, EBADF).unwrap();
    assert_eq!((state.lock_type(), state.pid_of_owner()), (LockType::Read, 7));
    assert_eq!(sut.release(true, 0), Ok(()));
    assert_eq!(sut.own_lock_state(7).unwrap().lock_type(), LockType::Read);
    assert_eq!(sut.release(true, 0), Ok(()));
    assert!(sut.own_lock_state(7).is_none());

    assert_eq!(sut.internal_lock(LockType::Write, true, 0), Ok(true));
    assert_eq!(sut.own_lock_state(7).unwrap().lock_type(), LockType::Write);
    assert_eq!(sut.release(true, 0), Ok(()));
    assert!(sut.own_lock_state(7).is_none());
}

#[test]
fn file_lock_tells_the_answers_of_the_system_apart() {
    let mut sut = FileLock::new();
    assert_eq!(sut.internal_lock(LockType::Write, false, EACCES), Ok(false));
    assert_eq!(sut.internal_lock(LockType::Write, false, EAGAIN), Ok(false));
    for (errno, error) in [
        (EBADF, FileTryLockError::InvalidFileDescriptorOrWrongOpenMode),
        (EINTR, FileTryLockError::Interrupt),
        (
            ENOLCK,
            FileTryLockError::ExceedsMaximumNumberOfLockedRegionsInSystem,
        ),
        (EDEADLK, FileTryLockError::DeadlockConditionDetected),
        (99, FileTryLockError::UnknownError(99)),
    ] {
        assert_eq!(sut.internal_lock(LockType::Read, false, errno), Err(error));
    }
    assert!(sut.own_lock_state(1).is_none());
    for (errno, error) in [
        (EBADF, FileUnlockError::InvalidFileDescriptorOrWrongOpenMode),
        (EINTR, FileUnlockError::Interrupt),
        (99, FileUnlockError::UnknownError(99)),
    ] {
        assert_eq!(sut.release(false, errno), Err(error));
    }

    let writer = SystemLock {
        l_type: F_WRLCK,
        l_pid: 42,
    };
    let state = sut.get_lock_state(7, true, writer, 0).unwrap();
    assert_eq!((state.lock_type(), state.pid_of_owner()), (LockType::Write, 42));
    let reader = SystemLock {
        l_type: F_RDLCK,
        l_pid: 43,
    };
    assert_eq!(
        sut.get_lock_state(7, true, reader, 0).unwrap().lock_type(),
        LockType::Read
    );
    for (errno, error) in [
        (EBADF, FileLockStateError::InvalidFileDescriptor),
        (EINTR, FileLockStateError::Interrupt),
        (99, FileLockStateError::UnknownError(99)),
    ] {
        assert_eq!(sut.get_lock_state(7, false, writer, errno).err(), Some(error));
    }
}

#[test]
fn file_system_keeps_files_with_permissions_and_content() {
    let mut sut = FileSystem::new(10);
    let dir = b"/tmp".to_vec();
    let path = b"/tmp/file".to_vec();
    assert_eq!(
        sut.create_file_exclusive(&dir, &path, Permission::new(OWNER_ALL)),
        Err(FileCreationError::DirectoryDoesNotExist)
    );
    assert!(sut.create_directory(&dir, Permission::new(OWNER_ALL)));
    assert!(!sut.create_directory(&dir, Permission::new(OWNER_ALL)));
    assert!(sut.does_directory_exist(&dir));
    assert_eq!(
        sut.create_file_exclusive(&dir, &path, Permission::new(OWNER_ALL)),
        Ok(())
    );
    assert_eq!(
        sut.create_file_exclusive(&dir, &path, Permission::new(OWNER_ALL)),
        Err(FileCreationError::FileAlreadyExists)
    );
    assert_eq!(sut.metadata(&path).unwrap().size, 0);
    assert_eq!(
        sut.metadata(&b"/tmp/none".to_vec()).err(),
        Some(FileAccessError::FileDoesNotExist)
    );

    assert_eq!(sut.write(&path, &b"0123456789ab".to_vec()), Ok(10));
    assert_eq!(sut.write(&path, &b"0123456789ab".to_vec()), Ok(10));
    assert_eq!(sut.write(&path, &b"x".to_vec()), Ok(1));
    assert_eq!(
        sut.write(&b"/tmp/none".to_vec(), &b"x".to_vec()),
        Err(FileWriteError::FileDoesNotExist)
    );
    let mut buffer = vec![b'.'; 4];
    assert_eq!(sut.read(&path, &mut buffer), Ok(1));
    assert_eq!(buffer, b"x...".to_vec());

    assert!(sut.remove(&path));
    assert!(!sut.remove(&path));
    assert_eq!(
        sut.create_file_exclusive(&dir, &path, Permission::new(OWNER_WRITE)),
        Ok(())
    );
    assert_eq!(sut.write(&path, &b"abc".to_vec()), Ok(3));
    assert_eq!(sut.write(&path, &b"0123456789ab".to_vec()), Ok(10));
    assert_eq!(sut.write(&path, &b"abc".to_vec()), Ok(3));
    assert_eq!(
        sut.read(&path, &mut buffer),
        Err(FileReadError::InsufficientPermissions)
    );
    assert!(sut.set_permission(&path, Permission::new(OWNER_READ)));
    assert!(!sut.set_permission(&b"/tmp/none".to_vec(), Permission::new(OWNER_READ)));
    assert_eq!(
        sut.write(&path, &b"abc".to_vec()),
        Err(FileWriteError::InsufficientPermissions)
    );
    assert_eq!(sut.read(&path, &mut buffer), Ok(3));
    assert_eq!(buffer, b"abc.".to_vec());
    let mut small = vec![0u8; 2];
    assert_eq!(sut.read(&path, &mut small), Ok(2));
    assert_eq!(small, b"ab".to_vec());
    assert_eq!(
        sut.read(&b"/tmp/none".to_vec(), &mut buffer),
        Err(FileReadError::FileDoesNotExist)
    );
    assert_eq!(sut.list(), vec![path.clone()]);
    assert!(Permission::new(OWNER_ALL).has(OWNER_READ));
    assert!(!Permission::new(OWNER_READ).has(OWNER_WRITE));
}

#[test]
fn file_that_exists_is_found_before_its_directory_is_asked() {
    let mut sut = FileSystem::new(16);
    let writable = b"/rw".to_vec();
    let read_only = b"/ro".to_vec();
    let missing = b"/none".to_vec();
    let path = b"/ro/file".to_vec();
    assert!(sut.create_directory(&writable, Permission::new(OWNER_ALL)));
    assert!(sut.create_directory(&read_only, Permission::new(OWNER_READ)));

    assert_eq!(
        sut.create_file_exclusive(&read_only, &path, Permission::new(OWNER_WRITE)),
        Err(FileCreationError::InsufficientPermissions)
    );
    assert_eq!(
        sut.create_file_exclusive(&missing, &path, Permission::new(OWNER_WRITE)),
        Err(FileCreationError::DirectoryDoesNotExist)
    );
    assert_eq!(
        sut.create_file_exclusive(&writable, &path, Permission::new(OWNER_WRITE)),
        Ok(())
    );
    assert_eq!(
        sut.create_file_exclusive(&read_only, &path, Permission::new(OWNER_WRITE)),
        Err(FileCreationError::FileAlreadyExists)
    );
    assert_eq!(
        sut.create_file_exclusive(&missing, &path, Permission::new(OWNER_WRITE)),
        Err(FileCreationError::FileAlreadyExists)
    );
}
