use codex_core::config::{Config, History, HistoryPersistence};
use codex_core::message_history::append::{
    append_entry, ensure_owner_only_permissions, AppendAction, AppendError, AppendEvent, AppendStep,
};
use codex_core::message_history::load::{load_history_entries, LoadStep};
use codex_core::message_history::metadata::{
    count_line_feeds, history_metadata, CountAction, CountEvent, CountStep,
};
use codex_core::message_history::{
    get_history_entry, history_cache, history_filepath, lookup, CacheAccessError, HistoryCache,
    HistoryEntry, LookupAction, LookupEvent, LookupStep, MAX_RETRIES, RETRY_SLEEP_MS,
};
use std::collections::HashMap;
use std::path::PathBuf;

const LOG_ID: u64 = 77;

fn config() -> Config {
    Config {
        codex_home: PathBuf::from("/home/user/.codex"),
        history: History { persistence: HistoryPersistence::SaveAll },
    }
}

fn entry(session_id: &str, ts: u64, text: &str) -> HistoryEntry {
    HistoryEntry { session_id: session_id.to_string(), ts, text: text.to_string() }
}

fn encode(entry: &HistoryEntry) -> String {
    let mut object = serde_json::Map::new();
    object.insert(
        "conversation_id".to_string(),
        serde_json::Value::String(entry.session_id.clone()),
    );
    object.insert("ts".to_string(), serde_json::Value::from(entry.ts));
    object.insert("text".to_string(), serde_json::Value::String(entry.text.clone()));
    serde_json::to_string(&serde_json::Value::Object(object)).unwrap()
}

fn decode(record: &str) -> Result<HistoryEntry, String> {
    let value: serde_json::Value =
        serde_json::from_str(record).map_err(|error| error.to_string())?;
    let session_id = value.get("conversation_id").and_then(|field| field.as_str());
    let ts = value.get("ts").and_then(|field| field.as_u64());
    let text = value.get("text").and_then(|field| field.as_str());
    match (session_id, ts, text) {
        (Some(session_id), Some(ts), Some(text)) => Ok(entry(session_id, ts, text)),
        _ => Err("missing field".to_string()),
    }
}

fn lines(entries: &[HistoryEntry]) -> String {
    entries.iter().map(|entry| encode(entry) + "\n").collect()
}

/// A history file in memory.
struct MemoryFile {
    log_id: u64,
    content: String,
    mode: u32,
    /// How often a lock is refused.
    blocked: usize,
    tries: usize,
    slept: usize,
    opened: usize,
    position: usize,
    /// The action that fails.
    failing: &'static str,
}

impl MemoryFile {
    fn new(content: String) -> Self {
        MemoryFile {
            log_id: LOG_ID,
            content,
            mode: 0o100600,
            blocked: 0,
            tries: 0,
            slept: 0,
            opened: 0,
            position: 0,
            failing: "",
        }
    }

    fn read_line(&mut self) -> String {
        let rest = &self.content[self.position.min(self.content.len())..];
        let line = match rest.find('\n') {
            Some(end) => &rest[..=end],
            None => rest,
        };
        self.position += line.len();
        line.to_string()
    }

    fn look(
        &mut self,
        offset: usize,
        caches: &mut HashMap<u64, HistoryCache>,
    ) -> (Option<HistoryEntry>, Option<CacheAccessError>) {
        let step = get_history_entry(LOG_ID, offset, &config(), caches);
        self.follow(step, caches)
    }

    fn follow(
        &mut self,
        mut step: LookupStep,
        caches: &mut HashMap<u64, HistoryCache>,
    ) -> (Option<HistoryEntry>, Option<CacheAccessError>) {
        loop {
            let (lookup, action) = match step {
                LookupStep::Continue { lookup, action } => (lookup, action),
                LookupStep::Done { entry, failure } => return (entry, failure),
            };
            step = lookup.read_more(self.answer(action), caches);
        }
    }

    fn answer(&mut self, action: LookupAction) -> LookupEvent {
        match action {
            LookupAction::Open { path } => {
                assert_eq!(path, history_filepath(&config()));
                if self.failing == "open" {
                    return LookupEvent::Failed("cannot open".to_string());
                }
                self.opened += 1;
                self.position = 0;
                LookupEvent::Opened { log_id: self.log_id }
            }
            LookupAction::TryLockShared => {
                self.tries += 1;
                if self.failing == "lock" {
                    LookupEvent::Failed("cannot lock".to_string())
                } else if self.tries <= self.blocked {
                    LookupEvent::WouldBlock
                } else {
                    LookupEvent::Locked
                }
            }
            LookupAction::Sleep => {
                self.slept += 1;
                LookupEvent::Slept
            }
            LookupAction::Seek(to) => {
                self.position = to as usize;
                LookupEvent::Sought
            }
            LookupAction::ReadLine => {
                if self.failing == "read" {
                    LookupEvent::Failed("cannot read".to_string())
                } else {
                    LookupEvent::Line(self.read_line())
                }
            }
            LookupAction::Parse(record) => match decode(&record) {
                Ok(entry) => LookupEvent::Parsed(entry),
                Err(message) => LookupEvent::ParseFailed(message),
            },
        }
    }

    /// Appends a record; gives the end and the actions that were asked for.
    fn append(&mut self, text: &str, config: &Config) -> (Result<(), AppendError>, Vec<String>) {
        let mut asked = Vec::new();
        let mut step = append_entry(text, "session", config);
        loop {
            let (append, action) = match step {
                AppendStep::Continue { append, action } => (append, action),
                AppendStep::Done(end) => return (end, asked),
            };
            let (name, event) = match action {
                AppendAction::CreateDirectory { path } => {
                    assert_eq!(path, config.codex_home);
                    ("create", AppendEvent::DirectoryCreated)
                }
                AppendAction::TellTime => (
                    "time",
                    if self.failing == "clock" {
                        AppendEvent::ClockFailed("too early".to_string())
                    } else {
                        AppendEvent::Time(9)
                    },
                ),
                AppendAction::Serialise(entry) => (
                    "serialise",
                    if self.failing == "json" {
                        AppendEvent::SerialiseFailed("too odd".to_string())
                    } else {
                        AppendEvent::Serialised(encode(&entry))
                    },
                ),
                AppendAction::Open { path } => {
                    assert_eq!(path, history_filepath(config));
                    ("open", AppendEvent::Opened)
                }
                AppendAction::TellMode => ("mode", AppendEvent::Mode(self.mode)),
                AppendAction::SetMode(mode) => {
                    self.mode = mode;
                    ("restrict", AppendEvent::ModeSet)
                }
                AppendAction::TryLock => {
                    self.tries += 1;
                    (
                        "lock",
                        if self.tries <= self.blocked {
                            AppendEvent::WouldBlock
                        } else {
                            AppendEvent::Locked
                        },
                    )
                }
                AppendAction::Sleep => {
                    self.slept += 1;
                    ("sleep", AppendEvent::Slept)
                }
                AppendAction::Write(line) => {
                    if self.failing != "write" {
                        self.content.push_str(&line);
                    }
                    ("write", AppendEvent::Written)
                }
            };
            asked.push(name.to_string());
            let fails = name == self.failing;
            step = append.next(if fails { AppendEvent::Failed } else { event });
        }
    }

    /// Asks for the identifier and the number of records, reading `size` bytes at a time.
    fn metadata(&mut self, size: usize) -> (u64, usize) {
        let mut step = history_metadata(&config());
        let mut position: usize = 0;
        loop {
            let (counting, action) = match step {
                CountStep::Continue { counting, action } => (counting, action),
                CountStep::Done { log_id, count } => return (log_id, count),
            };
            let (name, event) = match action {
                CountAction::Identify { path } => {
                    assert_eq!(path, history_filepath(&config()));
                    ("identify", CountEvent::Identified { log_id: self.log_id })
                }
                CountAction::Open { path } => {
                    assert_eq!(path, history_filepath(&config()));
                    ("open", CountEvent::Opened)
                }
                CountAction::Read => {
                    let bytes = self.content.as_bytes();
                    let end = (position + size).min(bytes.len());
                    let chunk = bytes[position..end].to_vec();
                    position = end;
                    ("read", CountEvent::Bytes(chunk))
                }
            };
            step = counting.next(if name == self.failing { CountEvent::Failed } else { event });
        }
    }
}

fn cache_state(caches: &HashMap<u64, HistoryCache>) -> Option<(usize, u64)> {
    caches.get(&LOG_ID).map(|cache| (cache.entries.len(), cache.byte_offset))
}

fn text_at(
    file: &mut MemoryFile,
    offset: usize,
    caches: &mut HashMap<u64, HistoryCache>,
) -> Option<String> {
    file.look(offset, caches).0.map(|entry| entry.text)
}

#[test]
fn sequential_offset_requests_extend_cache_incrementally() {
    let entries = [
        entry("session", 1, "first"),
        entry("session", 2, "second"),
        entry("session", 3, "third"),
    ];
    let mut file = MemoryFile::new(lines(&entries));
    let mut caches = history_cache();

    let first = file.look(0, &mut caches).0.expect("first entry");
    assert_eq!(first.text, "first");

    let (count_after_first, bytes_after_first) =
        cache_state(&caches).expect("cache should contain first entry");
    assert_eq!(count_after_first, 1);
    assert!(bytes_after_first > 0);

    let second = file.look(1, &mut caches).0.expect("second entry");
    assert_eq!(second.text, "second");

    let (count_after_second, bytes_after_second) =
        cache_state(&caches).expect("cache should contain second entry");
    assert_eq!(count_after_second, 2);
    assert!(bytes_after_second > bytes_after_first);

    let third = file.look(2, &mut caches).0.expect("third entry");
    assert_eq!(third.text, "third");

    let (count_after_third, bytes_after_third) =
        cache_state(&caches).expect("cache should contain third entry");
    assert_eq!(count_after_third, 3);
    assert!(bytes_after_third > bytes_after_second);
}

#[test]
fn appended_entries_are_loaded_from_cached_offset() {
    let initial_entries = [entry("session", 1, "first"), entry("session", 2, "second")];
    let mut file = MemoryFile::new(lines(&initial_entries));
    let mut caches = history_cache();

    assert_eq!(text_at(&mut file, 0, &mut caches), Some("first".to_string()));
    assert_eq!(text_at(&mut file, 1, &mut caches), Some("second".to_string()));

    let (_, bytes_before_append) =
        cache_state(&caches).expect("cache should contain initial entries");

    let appended = entry("session", 3, "third");
    file.content.push_str(&lines(&[appended]));

    let third = file.look(2, &mut caches).0.expect("third entry");
    assert_eq!(third.text, "third");

    let (count_after_append, bytes_after_append) =
        cache_state(&caches).expect("cache should contain appended entry");
    assert_eq!(count_after_append, 3);
    assert!(bytes_after_append > bytes_before_append);
}

#[test]
fn sequential_lookups_use_cached_offsets() {
    let base_entries =
        vec![entry("s1", 1, "first"), entry("s2", 2, "second"), entry("s3", 3, "third")];
    let mut file = MemoryFile::new(lines(&base_entries));
    let mut caches = history_cache();

    for (idx, expected) in base_entries.iter().enumerate() {
        let step = lookup(LOG_ID, idx, &config(), &mut caches);
        let entry = file
            .follow(step, &mut caches)
            .0
            .unwrap_or_else(|| panic!("entry for offset"));
        assert_eq!(entry.session_id, expected.session_id);
        assert_eq!(entry.ts, expected.ts);
        assert_eq!(entry.text, expected.text);
    }

    let new_entry = entry("s4", 4, "fourth");
    file.content.push_str(&lines(&[new_entry.clone()]));

    let step = lookup(LOG_ID, base_entries.len(), &config(), &mut caches);
    let entry =
        file.follow(step, &mut caches).0.unwrap_or_else(|| panic!("entry after append"));
    assert_eq!(entry.session_id, new_entry.session_id);
    assert_eq!(entry.ts, new_entry.ts);
    assert_eq!(entry.text, new_entry.text);
}

#[test]
fn offsets_beyond_the_file_have_no_record() {
    let mut file = MemoryFile::new(lines(&[entry("s", 1, "only")]));
    let mut caches = history_cache();
    let (found, failure) = file.look(1, &mut caches);
    assert!(found.is_none() && failure.is_none());
    assert_eq!(cache_state(&caches), Some((1, file.content.len() as u64)));
    assert_eq!(file.opened, 2);
    assert_eq!(text_at(&mut file, 0, &mut caches), Some("only".to_string()));
}

#[test]
fn blank_lines_do_not_count_and_ends_of_lines_do_not_matter() {
    let a = encode(&entry("s", 1, "a"));
    let b = encode(&entry("s", 2, "b"));
    let mut file = MemoryFile::new(format!("\n\r\n{a}\r\n\n{b}"));
    let mut caches = history_cache();
    assert_eq!(text_at(&mut file, 0, &mut caches), Some("a".to_string()));
    assert_eq!(text_at(&mut file, 1, &mut caches), Some("b".to_string()));
    assert_eq!(cache_state(&caches), Some((2, file.content.len() as u64)));
}

#[test]
fn records_outside_ascii_keep_the_offsets_right() {
    let entries = [entry("s", 1, "grüße, 日本"), entry("s", 2, "zweite")];
    let mut file = MemoryFile::new(lines(&entries));
    let mut caches = history_cache();
    assert_eq!(text_at(&mut file, 0, &mut caches), Some("grüße, 日本".to_string()));
    assert_eq!(cache_state(&caches), Some((1, lines(&entries[..1]).len() as u64)));
    assert_eq!(text_at(&mut file, 1, &mut caches), Some("zweite".to_string()));
}

#[test]
fn another_file_has_no_records_even_if_they_are_cached() {
    let mut file = MemoryFile::new(lines(&[entry("s", 1, "first")]));
    let mut caches = history_cache();
    assert_eq!(text_at(&mut file, 0, &mut caches), Some("first".to_string()));
    file.log_id = LOG_ID + 1;
    let (found, failure) = file.look(0, &mut caches);
    assert!(found.is_none());
    assert!(matches!(failure, Some(CacheAccessError::LogIdMismatch)));
    assert_eq!(cache_state(&caches), None);
}

#[test]
fn a_cache_from_elsewhere_is_not_used() {
    let mut file = MemoryFile::new(lines(&[entry("s", 1, "here")]));
    let mut caches = history_cache();
    caches.insert(
        LOG_ID,
        HistoryCache {
            path: PathBuf::from("/elsewhere/history.jsonl"),
            byte_offset: 5,
            entries: vec![entry("s", 1, "there")],
        },
    );
    caches.insert(LOG_ID + 1, HistoryCache::new(PathBuf::from("/other")));
    assert_eq!(text_at(&mut file, 0, &mut caches), Some("here".to_string()));
    assert_eq!(caches[&LOG_ID].path, history_filepath(&config()));
    assert!(caches.contains_key(&(LOG_ID + 1)));
}

#[test]
fn a_cache_whose_path_is_written_otherwise_is_used() {
    let mut file = MemoryFile::new(String::new());
    let mut caches = history_cache();
    caches.insert(
        LOG_ID,
        HistoryCache {
            path: PathBuf::from("/home//user/./.codex/history.jsonl"),
            byte_offset: 0,
            entries: vec![entry("s", 1, "cached")],
        },
    );
    let step = lookup(LOG_ID, 0, &config(), &mut caches);
    assert!(caches.is_empty());
    assert_eq!(
        file.follow(step, &mut caches).0.map(|entry| entry.text),
        Some("cached".to_string())
    );
}

#[test]
fn failures_to_read_end_a_lookup_and_drop_its_cache() {
    for (failing, message) in
        [("open", "cannot open"), ("lock", "cannot lock"), ("read", "cannot read")]
    {
        let mut file = MemoryFile::new(lines(&[entry("s", 1, "a"), entry("s", 2, "b")]));
        let mut caches = history_cache();
        assert_eq!(text_at(&mut file, 0, &mut caches), Some("a".to_string()));
        file.failing = failing;
        let (found, failure) = file.look(1, &mut caches);
        assert!(found.is_none());
        assert!(matches!(failure, Some(CacheAccessError::Io(text)) if text == message));
        assert_eq!(cache_state(&caches), None);
    }
}

#[test]
fn records_that_cannot_be_decoded_end_a_lookup() {
    let mut file = MemoryFile::new("{}\n".to_string());
    let mut caches = history_cache();
    let (found, failure) = file.look(0, &mut caches);
    assert!(found.is_none());
    assert!(matches!(failure, Some(CacheAccessError::Parse(text)) if text == "missing field"));
    assert_eq!(cache_state(&caches), None);
}

#[test]
fn a_lookup_waits_for_its_lock() {
    let mut file = MemoryFile::new(lines(&[entry("s", 1, "a")]));
    file.blocked = MAX_RETRIES - 1;
    let mut caches = history_cache();
    assert_eq!(text_at(&mut file, 0, &mut caches), Some("a".to_string()));
    assert_eq!((file.tries, file.slept), (MAX_RETRIES, MAX_RETRIES - 1));
}

#[test]
fn a_lookup_gives_up_waiting_for_its_lock() {
    let mut file = MemoryFile::new(lines(&[entry("s", 1, "a")]));
    file.blocked = usize::MAX;
    let mut caches = history_cache();
    let (found, failure) = file.look(0, &mut caches);
    assert!(found.is_none());
    assert!(matches!(
        failure,
        Some(CacheAccessError::WouldBlock(text))
            if text == "could not acquire shared lock on history file after multiple attempts"
    ));
    assert_eq!((file.tries, file.slept), (10, 10));
    assert_eq!(RETRY_SLEEP_MS, 100);
}

#[test]
fn caches_start_empty_and_can_be_reset() {
    let mut cache = HistoryCache::new(PathBuf::from("/a"));
    assert!(cache.entry_at(0).is_none());
    cache.byte_offset = 3;
    cache.entries.push(entry("s", 1, "a"));
    assert_eq!(cache.entry_at(0).map(|entry| entry.ts), Some(1));
    cache.reset(PathBuf::from("/b"));
    assert_eq!(cache.path, PathBuf::from("/b"));
    assert_eq!(cache.byte_offset, 0);
    assert!(cache.entries.is_empty());
    assert!(history_cache().is_empty());
}

#[test]
fn the_history_file_lies_in_the_home_directory() {
    assert_eq!(
        history_filepath(&config()),
        PathBuf::from("/home/user/.codex/history.jsonl")
    );
}

#[test]
fn an_append_writes_one_line() {
    let mut file = MemoryFile::new(lines(&[entry("s", 1, "a")]));
    let (end, asked) = file.append("two\nlines\r", &config());
    assert!(end.is_ok());
    assert_eq!(
        asked,
        vec!["create", "time", "serialise", "open", "mode", "lock", "write"]
    );
    let added = entry("session", 9, "two\nlines\r");
    assert_eq!(file.content, lines(&[entry("s", 1, "a"), added]));
}

#[test]
fn what_was_appended_is_looked_up() {
    let mut file = MemoryFile::new(String::new());
    let mut caches = history_cache();
    for count in 0..5 {
        assert_eq!(file.metadata(7), (LOG_ID, count));
        assert!(file.append(&format!("text {count}"), &config()).0.is_ok());
        file.tries = 0;
        let found = file.look(count, &mut caches).0.unwrap();
        assert_eq!(found.text, format!("text {count}"));
        assert_eq!(found.session_id, "session");
        assert_eq!(found.ts, 9);
    }
}

#[test]
fn an_append_takes_permissions_away() {
    let mut file = MemoryFile::new(String::new());
    file.mode = 0o100644;
    let (end, asked) = file.append("a", &config());
    assert!(end.is_ok());
    assert_eq!(
        asked,
        vec!["create", "time", "serialise", "open", "mode", "restrict", "lock", "write"]
    );
    assert_eq!(file.mode, 0o600);
}

#[test]
fn only_other_permissions_are_changed() {
    assert_eq!(ensure_owner_only_permissions(0o600), None);
    assert_eq!(ensure_owner_only_permissions(0o100600), None);
    assert_eq!(ensure_owner_only_permissions(0o644), Some(0o600));
    assert_eq!(ensure_owner_only_permissions(0o400), Some(0o600));
    assert_eq!(ensure_owner_only_permissions(0o100700), Some(0o600));
}

#[test]
fn an_append_does_nothing_when_the_history_is_not_saved() {
    let mut file = MemoryFile::new(String::new());
    let config = Config {
        history: History { persistence: HistoryPersistence::SaveNone },
        ..config()
    };
    let (end, asked) = file.append("a", &config);
    assert!(end.is_ok());
    assert!(asked.is_empty());
    assert_eq!(file.content, "");
}

#[test]
fn an_append_gives_up_waiting_for_its_lock() {
    let mut file = MemoryFile::new(String::new());
    file.blocked = MAX_RETRIES - 1;
    assert!(file.append("a", &config()).0.is_ok());
    assert_eq!((file.tries, file.slept), (10, 9));

    let mut file = MemoryFile::new(String::new());
    file.blocked = MAX_RETRIES;
    assert!(matches!(
        file.append("a", &config()).0,
        Err(AppendError::WouldBlock(text))
            if text == "could not acquire exclusive lock on history file after multiple attempts"
    ));
    assert_eq!((file.tries, file.slept), (10, 10));
    assert_eq!(file.content, "");
}

#[test]
fn failures_end_an_append() {
    for failing in ["create", "open", "mode", "restrict", "lock", "write"] {
        let mut file = MemoryFile::new(String::new());
        file.mode = 0o644;
        file.failing = failing;
        let (end, asked) = file.append("a", &config());
        assert!(matches!(end, Err(AppendError::Io)));
        assert_eq!(asked.last().map(|name| name.as_str()), Some(failing));
        assert_eq!(file.content, "");
    }
    let mut file = MemoryFile::new(String::new());
    file.failing = "clock";
    assert!(matches!(
        file.append("a", &config()).0,
        Err(AppendError::Other(text)) if text == "system clock before Unix epoch: too early"
    ));
    file.failing = "json";
    assert!(matches!(
        file.append("a", &config()).0,
        Err(AppendError::Other(text)) if text == "failed to serialise history entry: too odd"
    ));
}

#[test]
fn the_count_does_not_depend_on_how_the_file_is_read() {
    let entries = [entry("s", 1, "ünï"), entry("s", 2, "b"), entry("s", 3, "c")];
    for size in 1..100 {
        assert_eq!(MemoryFile::new(lines(&entries)).metadata(size), (LOG_ID, 3));
    }
    assert_eq!(MemoryFile::new("no end".to_string()).metadata(3), (LOG_ID, 0));
    assert_eq!(count_line_feeds(b"\na\n\r\n"), 3);
    assert_eq!(count_line_feeds(b""), 0);
}

#[test]
fn files_that_cannot_be_read_count_as_empty() {
    for (failing, expected) in [("identify", (0, 0)), ("open", (LOG_ID, 0)), ("read", (LOG_ID, 0))]
    {
        let mut file = MemoryFile::new(lines(&[entry("s", 1, "a")]));
        file.failing = failing;
        assert_eq!(file.metadata(4), expected);
    }
}

fn load(file: &mut MemoryFile, cache: HistoryCache, needed: usize) -> (HistoryCache, Option<CacheAccessError>) {
    let mut step = load_history_entries(cache, needed);
    loop {
        let (load, action) = match step {
            LoadStep::Continue { load, action } => (load, action),
            LoadStep::Done { cache, failure } => return (cache, failure),
        };
        step = load.next(file.answer(action));
    }
}

#[test]
fn a_load_stops_when_it_has_enough() {
    let entries = [entry("s", 1, "a"), entry("s", 2, "b"), entry("s", 3, "c")];
    let mut file = MemoryFile::new(lines(&entries));
    let (cache, failure) = load(&mut file, HistoryCache::new(PathBuf::from("/h")), 2);
    assert!(failure.is_none());
    assert_eq!(cache.entries.len(), 2);
    assert_eq!(cache.byte_offset as usize, lines(&entries[..2]).len());
    let (cache, failure) = load(&mut file, cache, 9);
    assert!(failure.is_none());
    assert_eq!(cache.entries.len(), 3);
    assert_eq!(cache.entries[2].text, "c");
    assert_eq!(cache.byte_offset as usize, file.content.len());
}

#[test]
fn a_load_keeps_what_it_took_in_before_a_failure() {
    let good = lines(&[entry("s", 1, "a")]);
    let mut file = MemoryFile::new(format!("{good}\n"));
    let (cache, failure) = load(&mut file, HistoryCache::new(PathBuf::from("/h")), 2);
    assert!(matches!(failure, Some(CacheAccessError::Parse(_))));
    assert_eq!(cache.entries.len(), 1);
    assert_eq!(cache.byte_offset as usize, good.len());
    file.failing = "read";
    let (cache, failure) = load(&mut file, cache, 2);
    assert!(matches!(failure, Some(CacheAccessError::Io(text)) if text == "cannot read"));
    assert_eq!(cache.entries.len(), 1);
}

#[test]
fn a_load_with_enough_takes_in_nothing() {
    let mut file = MemoryFile::new("not json\n".to_string());
    let mut cache = HistoryCache::new(PathBuf::from("/h"));
    cache.entries.push(entry("s", 1, "a"));
    let (cache, failure) = load(&mut file, cache, 1);
    assert!(failure.is_none());
    assert_eq!((cache.entries.len(), cache.byte_offset), (1, 0));
}

/// Runs appends side by side on one file; the schedule says which one takes the next step.
fn race(texts: &[&str], schedule: &[usize]) -> (String, Vec<bool>) {
    let mut content = String::new();
    let mut holder: Option<usize> = None;
    let mut progress = vec![0; texts.len()];
    let mut ended: Vec<Option<bool>> = vec![None; texts.len()];
    let mut running: Vec<Option<_>> = texts
        .iter()
        .map(|text| match append_entry(text, "session", &config()) {
            AppendStep::Continue { append, action } => Some((append, action)),
            AppendStep::Done(_) => None,
        })
        .collect();
    let mut turn = 0;
    while ended.iter().any(|end| end.is_none()) {
        let who = schedule[turn % schedule.len()] % texts.len();
        turn += 1;
        let (append, action) = match running[who].take() {
            Some(step) => step,
            None => continue,
        };
        let event = match action {
            AppendAction::CreateDirectory { .. } => AppendEvent::DirectoryCreated,
            AppendAction::TellTime => AppendEvent::Time(who as u64),
            AppendAction::Serialise(entry) => AppendEvent::Serialised(encode(&entry)),
            AppendAction::Open { .. } => AppendEvent::Opened,
            AppendAction::TellMode => AppendEvent::Mode(0o600),
            AppendAction::SetMode(_) => AppendEvent::ModeSet,
            AppendAction::TryLock => {
                if holder.is_none() {
                    holder = Some(who);
                    AppendEvent::Locked
                } else {
                    AppendEvent::WouldBlock
                }
            }
            AppendAction::Sleep => AppendEvent::Slept,
            AppendAction::Write(line) => {
                let upto = (progress[who] + 20).min(line.len());
                content.push_str(&line[progress[who]..upto]);
                progress[who] = upto;
                if upto < line.len() {
                    running[who] = Some((append, AppendAction::Write(line)));
                    continue;
                }
                AppendEvent::Written
            }
        };
        match append.next(event) {
            AppendStep::Continue { append, action } => running[who] = Some((append, action)),
            AppendStep::Done(end) => {
                if holder == Some(who) {
                    holder = None;
                }
                ended[who] = Some(end.is_ok());
            }
        }
    }
    (content, ended.into_iter().map(|end| end.unwrap()).collect())
}

#[test]
fn concurrent_appends_keep_their_lines_whole() {
    let texts = ["first", "second", "third"];
    for schedule in [vec![0, 1, 2], vec![2, 1, 0, 0, 1], vec![1, 1, 2, 0, 2]] {
        let (content, ended) = race(&texts, &schedule);
        assert_eq!(ended, vec![true, true, true]);
        let mut found: Vec<String> =
            content.lines().map(|line| decode(line).unwrap().text).collect();
        found.sort();
        assert_eq!(found, vec!["first", "second", "third"]);
        assert!(content.ends_with('\n'));
    }
}

#[test]
fn an_append_that_gave_up_leaves_no_trace_in_a_race() {
    let (content, ended) = race(&["slow", "fast"], &[0, 1, 1, 1, 1, 1, 1, 1, 1, 1]);
    assert_eq!(ended[0], true);
    assert_eq!(content.lines().count(), ended.iter().filter(|end| **end).count());
}
