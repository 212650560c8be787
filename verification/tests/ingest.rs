use logstore::components::{Config, LogLevel, Timestamp, World};
use logstore::ingest::{connection_step, ingest_line, ingest_line_at, log_system, ConnState, ReadEvent};
use logstore::query::{is_kernel_message, search};
use logstore::watch::{forward_decision, FsEvent, FsEventKind};

fn config() -> Config {
    Config {
        log_file_path: String::from("logs"),
        max_log_size: 1024 * 1024,
        rotation_count: 7,
    }
}

#[test]
fn end_to_end_scenario() {
    // client sends "hello world\n" then "kernel panic detected\n"
    let mut w = World::new();
    let cfg = config();
    let day = "2024-07-01";
    let out1 = ingest_line_at(
        &mut w,
        &cfg,
        "hello world\n",
        Timestamp(String::from("2024-07-01 08:00:00")),
        day,
    );
    let out2 = ingest_line_at(
        &mut w,
        &cfg,
        "kernel panic detected\n",
        Timestamp(String::from("2024-07-01 08:00:01")),
        day,
    );

    // store contains 2 records
    assert_eq!(w.snapshot_ids(), vec![0, 1]);
    assert_eq!(out1.id, 0);
    assert_eq!(out2.id, 1);

    // the second record is kernel-tagged, by content
    let (_, _, m2) = w.get(out2.id);
    assert!(is_kernel_message(&m2.0));
    let (_, _, m1) = w.get(out1.id);
    assert!(!is_kernel_message(&m1.0));

    // search("kernel") returns exactly the one matching message
    assert_eq!(search(&w, "kernel"), vec![String::from("kernel panic detected")]);

    // the day's file receives, in order, the untagged then the tagged line
    assert_eq!(out1.file_name, "logs-2024-07-01.txt");
    assert_eq!(out2.file_name, out1.file_name);
    assert_eq!(out1.persist_line, "hello world");
    assert_eq!(out2.persist_line, "KERNEL: kernel panic detected");
}

#[test]
fn appends_straddling_a_date_change_go_to_distinct_files() {
    let mut w = World::new();
    let cfg = config();
    let out1 = ingest_line_at(
        &mut w,
        &cfg,
        "late line\n",
        Timestamp(String::from("2024-02-28 23:59:59")),
        "2024-02-28",
    );
    let out2 = ingest_line_at(
        &mut w,
        &cfg,
        "early line\n",
        Timestamp(String::from("2024-02-29 00:00:00")),
        "2024-02-29",
    );
    assert_ne!(out1.file_name, out2.file_name);
    assert_eq!(out1.file_name, "logs-2024-02-28.txt");
    assert_eq!(out2.file_name, "logs-2024-02-29.txt");
}

#[test]
fn ingest_line_uses_the_real_clock() {
    let mut w = World::new();
    let cfg = config();
    let out = ingest_line(&mut w, &cfg, "kernel watchdog\n");
    assert_eq!(out.id, 0);
    assert_eq!(out.persist_line, "KERNEL: kernel watchdog");
    assert!(out.file_name.starts_with("logs-"));
    assert!(out.file_name.ends_with(".txt"));
    let (_, l, m) = w.get(out.id);
    assert_eq!(l.0, LogLevel::Info);
    assert_eq!(m.0, "kernel watchdog");
}

#[test]
fn log_system_records_at_the_given_level() {
    let mut w = World::new();
    let id = log_system(&mut w, LogLevel::Warning, String::from("low disk"));
    assert_eq!(id, 0);
    let (t, l, m) = w.get(id);
    assert_eq!(l.0, LogLevel::Warning);
    assert_eq!(m.0, "low disk");
    // the timestamp came from the wall clock; it is at least non-empty
    assert!(!t.0.is_empty());
}

#[test]
fn connection_state_machine() {
    let mut w = World::new();
    let cfg = config();

    // a line while reading is ingested and reading continues
    let (s1, act1) = connection_step(
        ConnState::Reading,
        ReadEvent::Line(String::from("hello\n")),
        &mut w,
        &cfg,
    );
    assert_eq!(s1, ConnState::Reading);
    let out = act1.expect("a line must be ingested");
    assert_eq!(out.id, 0);
    assert_eq!(out.persist_line, "hello");
    assert_eq!(w.snapshot_ids(), vec![0]);

    // end-of-stream closes the handler and leaves the store untouched
    let (s2, act2) = connection_step(ConnState::Reading, ReadEvent::Eof, &mut w, &cfg);
    assert_eq!(s2, ConnState::Closed);
    assert!(act2.is_none());
    assert_eq!(w.snapshot_ids(), vec![0]);

    // a read error closes too
    let (s3, act3) = connection_step(ConnState::Reading, ReadEvent::ReadError, &mut w, &cfg);
    assert_eq!(s3, ConnState::Closed);
    assert!(act3.is_none());

    // a closed handler ignores further events
    let (s4, act4) = connection_step(
        ConnState::Closed,
        ReadEvent::Line(String::from("ignored\n")),
        &mut w,
        &cfg,
    );
    assert_eq!(s4, ConnState::Closed);
    assert!(act4.is_none());
    assert_eq!(w.snapshot_ids(), vec![0]);
}

#[test]
fn watcher_forwards_events_and_drops_errors() {
    let ev = FsEvent {
        path: String::from("/var/log/syslog"),
        kind: FsEventKind::Modified,
    };
    let forwarded = forward_decision(Ok(ev)).expect("an event must be forwarded");
    assert_eq!(forwarded.path, "/var/log/syslog");
    assert_eq!(forwarded.kind, FsEventKind::Modified);

    let dropped = forward_decision(Err(String::from("watch handle lost")));
    assert!(dropped.is_none());
}
