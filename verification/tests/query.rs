use logstore::components::{Level, LogLevel, Message, Timestamp, World};
use logstore::query::{contains_substring, filter_by_level, is_kernel_message, search};

fn add(w: &mut World, level: LogLevel, msg: &str) -> u32 {
    w.create_log(
        Timestamp(String::from("2024-01-01 12:00:00")),
        Level(level),
        Message(String::from(msg)),
    )
}

#[test]
fn contains_substring_cases() {
    assert!(contains_substring("hello world", "world"));
    assert!(contains_substring("hello world", "hello"));
    assert!(contains_substring("hello world", "o w"));
    assert!(contains_substring("hello world", ""));
    assert!(contains_substring("", ""));
    assert!(!contains_substring("", "a"));
    assert!(!contains_substring("hello world", "World"));
    assert!(!contains_substring("kern", "kernel"));
}

#[test]
fn kernel_classification_is_by_content() {
    assert!(is_kernel_message("kernel panic detected"));
    assert!(is_kernel_message("the kernel said so"));
    assert!(!is_kernel_message("Kernel panic"));
    assert!(!is_kernel_message("hello world"));
    assert!(!is_kernel_message(""));
}

#[test]
fn filter_excludes_kernel_when_asked() {
    let mut w = World::new();
    let info_plain = add(&mut w, LogLevel::Info, "plain info");
    let err_plain = add(&mut w, LogLevel::Error, "plain error");
    let info_kernel = add(&mut w, LogLevel::Info, "kernel info line");
    let err_kernel = add(&mut w, LogLevel::Error, "kernel error line");

    // level alone never matches a kernel record
    assert_eq!(filter_by_level(&w, LogLevel::Info, false), vec![info_plain]);
    assert_eq!(filter_by_level(&w, LogLevel::Error, false), vec![err_plain]);
    assert_eq!(filter_by_level(&w, LogLevel::Warning, false), Vec::<u32>::new());

    // with kernel logs included, every kernel record is surfaced whatever its level
    assert_eq!(filter_by_level(&w, LogLevel::Info, true), vec![info_plain, info_kernel, err_kernel]);
    assert_eq!(filter_by_level(&w, LogLevel::Warning, true), vec![info_kernel, err_kernel]);
}

#[test]
fn filter_on_empty_store() {
    let w = World::new();
    assert_eq!(filter_by_level(&w, LogLevel::Info, true), Vec::<u32>::new());
}

#[test]
fn search_returns_exactly_the_matching_messages_in_order() {
    let mut w = World::new();
    add(&mut w, LogLevel::Info, "alpha one");
    add(&mut w, LogLevel::Info, "beta two");
    add(&mut w, LogLevel::Info, "alpha three");
    add(&mut w, LogLevel::Info, "gamma");

    assert_eq!(search(&w, "alpha"), vec![String::from("alpha one"), String::from("alpha three")]);
    assert_eq!(search(&w, "two"), vec![String::from("beta two")]);
    assert_eq!(search(&w, "delta"), Vec::<String>::new());
    // case-sensitive
    assert_eq!(search(&w, "Alpha"), Vec::<String>::new());
    // the empty query matches every stored message
    assert_eq!(search(&w, "").len(), 4);
}

#[test]
fn search_on_empty_store() {
    let w = World::new();
    assert_eq!(search(&w, "anything"), Vec::<String>::new());
}
