use ccommon_rs::clock::Timestamp;
use ccommon_rs::config::LogConfig;
use ccommon_rs::errors::{LoggerStatus, LoggingError};
use ccommon_rs::files::FileStore;
use ccommon_rs::format::{dec_padded, dec_u64, format_record, format_timestamp, level_name, Record};
use ccommon_rs::level::{enabled_for, Level, LevelFilter};
use ccommon_rs::lifecycle::{
    create, is_setup, log_payload, setup, ActiveLoggerCell, Handle, ModuleState, RegistrationSlot,
};
use ccommon_rs::registry::{identity_for, PerThreadLog};
use ccommon_rs::writer::{FileOp, RawLogWriter};

fn ts() -> Timestamp {
    Timestamp { year: 2018, month: 3, day: 9, hour: 12, minute: 34, second: 56, micros: 123456 }
}

fn config(buf_size: u32, level: Level) -> LogConfig {
    LogConfig {
        path: String::from("/tmp/logs"),
        file_basename: String::from("testmt"),
        buf_size,
        level,
    }
}

fn setup_handle(buf_size: u32, level: Level) -> Handle {
    let mut slot = RegistrationSlot::new();
    create(&mut slot, config(buf_size, level), true).unwrap()
}

#[test]
fn test_basic_mt_roundtrip() {
    // configure unbuffered, log one record at Error, flush, read the file
    let mut handle = setup_handle(0, Level::Trace);
    let mut files = FileStore::new();
    let id = String::from("main");

    let rec = Record {
        level: Level::Error,
        module: String::from("log_tests"),
        message: String::from("this message should be sent"),
    };
    let effs = handle.log(&id, &ts(), &rec);
    files.apply_all(&effs);
    let effs = handle.flush(&id);
    files.apply_all(&effs);

    let path = String::from("/tmp/logs/testmt.main.log");
    let contents = files.contents(&path).unwrap();
    assert!(contents.contains("this message should be sent"));
    assert_eq!(
        contents,
        "2018-03-09 12:34:56.123456 ERROR [log_tests] this message should be sent\n"
    );
}

#[test]
fn test_named_threads() {
    // one identity logging at Debug, one at Warn; after shutdown both
    // files exist and are non-empty, and neither holds the other's record
    let mut handle = setup_handle(0, Level::Trace);
    let mut files = FileStore::new();

    let d_id = String::from("d_level");
    let w_id = String::from("w_level");
    let d_rec = Record {
        level: Level::Debug,
        module: String::from("log_tests"),
        message: String::from("debug message"),
    };
    let w_rec = Record {
        level: Level::Warn,
        module: String::from("log_tests"),
        message: String::from("warn message"),
    };

    let effs = handle.log(&d_id, &ts(), &d_rec);
    files.apply_all(&effs);
    let effs = handle.log(&w_id, &ts(), &w_rec);
    files.apply_all(&effs);
    let effs = handle.shutdown();
    files.apply_all(&effs);

    let d_path = String::from("/tmp/logs/testmt.d_level.log");
    let w_path = String::from("/tmp/logs/testmt.w_level.log");
    let d_contents = files.contents(&d_path).unwrap();
    let w_contents = files.contents(&w_path).unwrap();
    assert!(d_contents.len() > 0);
    assert!(w_contents.len() > 0);
    assert!(d_contents.contains("debug message"));
    assert!(w_contents.contains("warn message"));
    assert!(!d_contents.contains("warn message"));
    assert!(!w_contents.contains("debug message"));
}

#[test]
fn test_shutdown_resilience() {
    // a worker keeps logging in a loop; shutdown lands after its first
    // write; the worker's further calls must return harmlessly
    let mut handle = setup_handle(0, Level::Trace);
    let mut files = FileStore::new();
    let worker = String::from("worker");
    let rec = Record {
        level: Level::Trace,
        module: String::from("log_tests"),
        message: String::from("tick"),
    };

    let mut count: u64 = 0;
    let effs = handle.log(&worker, &ts(), &rec);
    assert!(!effs.is_empty());
    files.apply_all(&effs);
    count += 1;
    assert_eq!(count, 1);

    let effs = handle.shutdown();
    files.apply_all(&effs);

    // the worker writes at least two more times, with no panic; the
    // records are dropped, not delivered
    for _ in 0..2 {
        let effs = handle.log(&worker, &ts(), &rec);
        assert!(effs.is_empty());
        files.apply_all(&effs);
        count += 1;
    }
    assert_eq!(count, 3);

    let path = String::from("/tmp/logs/testmt.worker.log");
    assert!(files.contents(&path).unwrap().contains("tick"));
}

#[test]
fn test_shutdown_twice_is_a_no_op() {
    let mut handle = setup_handle(0, Level::Trace);
    let mut files = FileStore::new();
    let id = String::from("main");
    let rec = Record {
        level: Level::Info,
        module: String::from("log_tests"),
        message: String::from("before shutdown"),
    };
    let effs = handle.log(&id, &ts(), &rec);
    files.apply_all(&effs);

    let first = handle.shutdown();
    files.apply_all(&first);
    let second = handle.shutdown();
    assert!(second.is_empty());
    assert!(!handle.enabled(Level::Error));

    let path = String::from("/tmp/logs/testmt.main.log");
    assert!(files.contents(&path).unwrap().contains("before shutdown"));
}

#[test]
fn test_buffered_writer_holds_until_flush() {
    let mut handle = setup_handle(4096, Level::Trace);
    let mut files = FileStore::new();
    let id = String::from("main");
    let rec = Record {
        level: Level::Info,
        module: String::from("log_tests"),
        message: String::from("buffered"),
    };

    let effs = handle.log(&id, &ts(), &rec);
    files.apply_all(&effs);
    let path = String::from("/tmp/logs/testmt.main.log");
    // the file was opened but the record still sits in the buffer
    assert_eq!(files.contents(&path).unwrap(), "");

    let effs = handle.flush(&id);
    files.apply_all(&effs);
    assert!(files.contents(&path).unwrap().contains("buffered"));
}

#[test]
fn test_small_buffer_writes_through() {
    let mut handle = setup_handle(1, Level::Trace);
    let mut files = FileStore::new();
    let id = String::from("main");
    let rec = Record {
        level: Level::Info,
        module: String::from("log_tests"),
        message: String::from("tiny buffer"),
    };
    let effs = handle.log(&id, &ts(), &rec);
    files.apply_all(&effs);
    let path = String::from("/tmp/logs/testmt.main.log");
    assert!(files.contents(&path).unwrap().contains("tiny buffer"));
}

#[test]
fn test_minimum_level_filters_records() {
    let mut handle = setup_handle(0, Level::Warn);
    let mut files = FileStore::new();
    let id = String::from("main");

    let info_rec = Record {
        level: Level::Info,
        module: String::from("log_tests"),
        message: String::from("too chatty"),
    };
    let effs = handle.log(&id, &ts(), &info_rec);
    assert!(effs.is_empty());

    let warn_rec = Record {
        level: Level::Warn,
        module: String::from("log_tests"),
        message: String::from("kept"),
    };
    let effs = handle.log(&id, &ts(), &warn_rec);
    files.apply_all(&effs);

    let path = String::from("/tmp/logs/testmt.main.log");
    let contents = files.contents(&path).unwrap();
    assert!(contents.contains("kept"));
    assert!(!contents.contains("too chatty"));

    assert!(handle.enabled(Level::Error));
    assert!(!handle.enabled(Level::Debug));
}

#[test]
fn test_create_registers_exactly_once() {
    let mut slot = RegistrationSlot::new();
    assert_eq!(slot.get_state(), ModuleState::Uninitialized);

    let first = create(&mut slot, config(0, Level::Trace), true);
    assert!(first.is_ok());
    assert_eq!(slot.get_state(), ModuleState::Initialized);

    let second = create(&mut slot, config(0, Level::Trace), true);
    assert!(matches!(second, Err(LoggingError::LoggingAlreadySetUp)));
    assert_eq!(slot.get_state(), ModuleState::Initialized);
}

#[test]
fn test_create_reports_registration_failure() {
    let mut slot = RegistrationSlot::new();
    let failed = create(&mut slot, config(0, Level::Trace), false);
    assert!(matches!(failed, Err(LoggingError::LoggerRegistrationFailure)));
    assert_eq!(slot.get_state(), ModuleState::Failed);

    // a slot that failed keeps failing
    let again = create(&mut slot, config(0, Level::Trace), true);
    assert!(matches!(again, Err(LoggingError::LoggerRegistrationFailure)));
}

#[test]
fn test_try_register_is_idempotent() {
    let mut slot = RegistrationSlot::new();
    assert!(slot.try_register(true).is_ok());
    assert_eq!(slot.get_state(), ModuleState::Initialized);
    // claiming an already-claimed slot reports success again
    assert!(slot.try_register(true).is_ok());
    assert!(slot.try_register(false).is_ok());
    assert_eq!(slot.get_state(), ModuleState::Initialized);
}

#[test]
fn test_log_payload_roundtrip_and_invalid_utf8() {
    let mut handle = setup_handle(0, Level::Trace);
    let mut files = FileStore::new();
    let id = String::from("main");
    let module = String::from("log_tests");

    let (status, effs) = log_payload(&mut handle, &id, &ts(), Level::Error, &module, b"payload text");
    assert_eq!(status, LoggerStatus::OK);
    files.apply_all(&effs);
    let path = String::from("/tmp/logs/testmt.main.log");
    assert!(files.contents(&path).unwrap().contains("payload text"));

    // an invalid payload is dropped and reported; the subsystem stays usable
    let (status, effs) = log_payload(&mut handle, &id, &ts(), Level::Error, &module, b"\xff\xfe");
    assert_eq!(status, LoggerStatus::InvalidUTF8);
    assert!(effs.is_empty());

    let (status, _) = log_payload(&mut handle, &id, &ts(), Level::Error, &module, b"still works");
    assert_eq!(status, LoggerStatus::OK);
}

#[test]
fn test_status_of_each_error() {
    assert_eq!(
        LoggerStatus::from(LoggingError::LoggerRegistrationFailure),
        LoggerStatus::RegistrationFailure
    );
    assert_eq!(
        LoggerStatus::from(LoggingError::LoggingAlreadySetUp),
        LoggerStatus::LoggerAlreadySetError
    );
    assert_eq!(
        LoggerStatus::from(LoggingError::CreationError {
            path: String::from("/tmp/x"),
            buf_size: 16
        }),
        LoggerStatus::CreationError
    );
}

#[test]
fn test_target_path_layout() {
    let cfg = config(0, Level::Trace);
    assert_eq!(cfg.target_path("worker"), "/tmp/logs/testmt.worker.log");
    assert_eq!(cfg.target_path("17"), "/tmp/logs/testmt.17.log");
}

#[test]
fn test_from_usize_levels() {
    assert_eq!(LogConfig::from_usize(0), None);
    assert_eq!(LogConfig::from_usize(1), Some(Level::Error));
    assert_eq!(LogConfig::from_usize(2), Some(Level::Warn));
    assert_eq!(LogConfig::from_usize(3), Some(Level::Info));
    assert_eq!(LogConfig::from_usize(4), Some(Level::Debug));
    assert_eq!(LogConfig::from_usize(5), Some(Level::Trace));
    assert_eq!(LogConfig::from_usize(6), None);
}

#[test]
fn test_level_ranks_and_filtering() {
    assert!(enabled_for(Level::Error, LevelFilter::Error));
    assert!(enabled_for(Level::Error, LevelFilter::Trace));
    assert!(!enabled_for(Level::Trace, LevelFilter::Error));
    assert!(!enabled_for(Level::Error, LevelFilter::Off));
    assert_eq!(Level::Warn.to_level_filter(), LevelFilter::Warn);
    assert_eq!(Level::Trace.rank(), 5);
    assert_eq!(LevelFilter::Off.rank(), 0);
}

#[test]
fn test_decimal_and_padding() {
    assert_eq!(dec_u64(0), "0");
    assert_eq!(dec_u64(7), "7");
    assert_eq!(dec_u64(12345), "12345");
    assert_eq!(dec_u64(u64::MAX), "18446744073709551615");
    assert_eq!(dec_padded(7, 2), "07");
    assert_eq!(dec_padded(7, 6), "000007");
    assert_eq!(dec_padded(123, 2), "123");
    assert_eq!(dec_padded(0, 4), "0000");
}

#[test]
fn test_level_names_are_padded_to_five() {
    assert_eq!(level_name(Level::Error), "ERROR");
    assert_eq!(level_name(Level::Warn), "WARN ");
    assert_eq!(level_name(Level::Info), "INFO ");
    assert_eq!(level_name(Level::Debug), "DEBUG");
    assert_eq!(level_name(Level::Trace), "TRACE");
}

#[test]
fn test_format_timestamp_layout() {
    assert_eq!(format_timestamp(&ts()), "2018-03-09 12:34:56.123456");
    let early = Timestamp { year: 5, month: 1, day: 2, hour: 3, minute: 4, second: 5, micros: 6 };
    assert_eq!(format_timestamp(&early), "0005-01-02 03:04:05.000006");
}

#[test]
fn test_format_record_line() {
    let rec = Record {
        level: Level::Warn,
        module: String::from("mod.sub"),
        message: String::from("hello"),
    };
    assert_eq!(format_record(&ts(), &rec), "2018-03-09 12:34:56.123456 WARN  [mod.sub] hello\n");
}

#[test]
fn test_timestamp_from_raw_fields() {
    let t = Timestamp::from_raw_fields(118, 2, 9, 12, 34, 56, 123456789).unwrap();
    assert_eq!(t.year, 2018);
    assert_eq!(t.month, 3);
    assert_eq!(t.day, 9);
    assert_eq!(t.hour, 12);
    assert_eq!(t.minute, 34);
    assert_eq!(t.second, 56);
    assert_eq!(t.micros, 123456);

    assert!(Timestamp::from_raw_fields(118, 12, 9, 12, 34, 56, 0).is_none());
    assert!(Timestamp::from_raw_fields(-2000, 0, 1, 0, 0, 0, 0).is_none());
    assert!(Timestamp::from_raw_fields(118, 0, 0, 0, 0, 0, 0).is_none());
}

#[test]
fn test_now_timestamp_is_in_range() {
    let t = ccommon_rs::clock::now_timestamp();
    assert!(t.year >= 1970);
    assert!((1..=12).contains(&t.month));
    assert!((1..=31).contains(&t.day));
    assert!(t.hour <= 23);
    assert!(t.minute <= 59);
    assert!(t.second <= 60);
    assert!(t.micros < 1_000_000);
}

#[test]
fn test_identity_for_name_and_number() {
    let named = identity_for(Some(String::from("d_level")));
    assert_eq!(named, "d_level");

    let numeric = identity_for(None);
    assert!(!numeric.is_empty());
    assert!(numeric.chars().all(|c| c.is_ascii_digit()));
}

#[test]
fn test_module_state_codes() {
    assert_eq!(ModuleState::from_usize(0), ModuleState::Uninitialized);
    assert_eq!(ModuleState::from_usize(1), ModuleState::Initializing);
    assert_eq!(ModuleState::from_usize(2), ModuleState::Initialized);
    assert_eq!(ModuleState::from_usize(3), ModuleState::Failed);
    assert_eq!(ModuleState::Initialized.as_usize(), 2);
}

#[test]
fn test_per_thread_files_stay_disjoint_and_ordered() {
    // two identities interleaving writes: each file holds only its own
    // records, in program order
    let mut handle = setup_handle(0, Level::Trace);
    let mut files = FileStore::new();
    let a = String::from("alpha");
    let b = String::from("beta");

    for k in 0..3u32 {
        let rec_a = Record {
            level: Level::Info,
            module: String::from("log_tests"),
            message: format!("a{}", k),
        };
        let rec_b = Record {
            level: Level::Info,
            module: String::from("log_tests"),
            message: format!("b{}", k),
        };
        let effs = handle.log(&a, &ts(), &rec_a);
        files.apply_all(&effs);
        let effs = handle.log(&b, &ts(), &rec_b);
        files.apply_all(&effs);
    }
    let effs = handle.shutdown();
    files.apply_all(&effs);

    let a_contents = files.contents(&String::from("/tmp/logs/testmt.alpha.log")).unwrap();
    let b_contents = files.contents(&String::from("/tmp/logs/testmt.beta.log")).unwrap();
    for k in 0..3u32 {
        assert!(a_contents.contains(&format!("a{}", k)));
        assert!(b_contents.contains(&format!("b{}", k)));
        assert!(!a_contents.contains(&format!("b{}", k)));
        assert!(!b_contents.contains(&format!("a{}", k)));
    }
    // program order within one file
    let p0 = a_contents.find("a0").unwrap();
    let p1 = a_contents.find("a1").unwrap();
    let p2 = a_contents.find("a2").unwrap();
    assert!(p0 < p1 && p1 < p2);
}

#[test]
fn test_two_phase_install() {
    let mut slot = RegistrationSlot::new();
    let mut cell = ActiveLoggerCell::disabled();
    assert!(!is_setup(&slot, &cell));

    // installing before the slot is claimed is refused
    assert_eq!(cell.install(&slot, config(0, Level::Trace)), LoggerStatus::LoggerNotSetupError);

    assert_eq!(setup(&mut slot, true), LoggerStatus::OK);
    assert!(!is_setup(&slot, &cell));

    assert_eq!(cell.install(&slot, config(0, Level::Trace)), LoggerStatus::OK);
    assert!(is_setup(&slot, &cell));
    assert!(cell.is_active());

    // a second install is refused but need not be fatal
    assert_eq!(cell.install(&slot, config(0, Level::Trace)), LoggerStatus::LoggerAlreadySetError);

    let (was_active, effs) = cell.uninstall();
    assert!(was_active);
    assert!(effs.is_empty());
    assert!(!cell.is_active());
    let (was_active, _) = cell.uninstall();
    assert!(!was_active);
}

#[test]
fn test_setup_statuses() {
    let mut slot = RegistrationSlot::new();
    assert_eq!(setup(&mut slot, false), LoggerStatus::RegistrationFailure);
    assert_eq!(slot.get_state(), ModuleState::Failed);
    assert_eq!(setup(&mut slot, true), LoggerStatus::RegistrationFailure);

    let mut fresh = RegistrationSlot::new();
    assert_eq!(setup(&mut fresh, true), LoggerStatus::OK);
    assert_eq!(setup(&mut fresh, true), LoggerStatus::OK);
}

#[test]
fn test_writer_buffers_and_closes_once() {
    let (mut w, op) = RawLogWriter::open_at(String::from("/tmp/logs/a.log"), 64);
    assert!(matches!(op, FileOp::Open { .. }));

    // a small write stays in the buffer
    let (accepted, eff) = w.write("hello ");
    assert!(accepted);
    assert!(eff.is_none());

    // the flush pushes exactly what was buffered
    match w.flush() {
        Some(FileOp::Append { path, data }) => {
            assert_eq!(path, "/tmp/logs/a.log");
            assert_eq!(data, "hello ");
        }
        other => panic!("expected an append, got {:?}", other.is_some()),
    }
    // flushing an empty buffer pushes nothing
    assert!(w.flush().is_none());

    let (_, eff) = w.write("tail");
    assert!(eff.is_none());
    // the close pushes the rest; a second close is a no-op
    match w.close() {
        Some(FileOp::Append { data, .. }) => assert_eq!(data, "tail"),
        other => panic!("expected an append, got {:?}", other.is_some()),
    }
    assert!(w.close().is_none());
}

#[test]
fn test_writer_full_buffer_writes_through() {
    let (mut w, _) = RawLogWriter::open_at(String::from("/tmp/logs/b.log"), 4);
    let (_, eff) = w.write("abcd");
    match eff {
        Some(FileOp::Append { data, .. }) => assert_eq!(data, "abcd"),
        other => panic!("expected an append, got {:?}", other.is_some()),
    }
}

#[test]
fn test_per_thread_log_owns_its_file() {
    let cfg = config(0, Level::Trace);
    let (mut slot, op) = PerThreadLog::for_identity(&cfg, String::from("worker"));
    assert_eq!(slot.identity(), "worker");
    match op {
        FileOp::Open { path, buf_size } => {
            assert_eq!(path, "/tmp/logs/testmt.worker.log");
            assert_eq!(buf_size, 0);
        }
        _ => panic!("expected an open"),
    }
    let rec = Record {
        level: Level::Info,
        module: String::from("log_tests"),
        message: String::from("mine alone"),
    };
    match slot.log(&ts(), &rec) {
        Some(FileOp::Append { path, data }) => {
            assert_eq!(path, "/tmp/logs/testmt.worker.log");
            assert!(data.contains("mine alone"));
            assert!(data.ends_with("\n"));
        }
        _ => panic!("an unbuffered write must push at once"),
    }
    // everything was already pushed, so the close has nothing to add
    assert!(slot.close().is_none());
}

#[test]
fn test_basic_st_roundtrip() {
    // the two-phase flow end to end: claim the slot, install the sink,
    // log one record, flush, read it back from the file, then unset
    let mut slot = RegistrationSlot::new();
    assert_eq!(setup(&mut slot, true), LoggerStatus::OK);

    let mut cell = ActiveLoggerCell::disabled();
    assert_eq!(cell.install(&slot, config(0, Level::Debug)), LoggerStatus::OK);

    let mut handle = Handle::new(cell);
    let mut files = FileStore::new();
    let id = String::from("main");

    let logged_msg = "this message should be sent to the cc logger";
    let rec = Record {
        level: Level::Error,
        module: String::from("log_test"),
        message: String::from(logged_msg),
    };
    let effs = handle.log(&id, &ts(), &rec);
    files.apply_all(&effs);
    let effs = handle.flush(&id);
    files.apply_all(&effs);

    let path = String::from("/tmp/logs/testmt.main.log");
    let contents = files.contents(&path).unwrap();
    assert!(contents.len() > logged_msg.len());
    assert!(contents.rfind(logged_msg).is_some());

    let effs = handle.shutdown();
    files.apply_all(&effs);
    assert!(!handle.enabled(Level::Error));
}
