use codex_core::internal_storage::{
    storage_filepath, InternalStorage, PersistAction, PersistEvent, PersistPhase, PersistStep,
    Stored, INTERNAL_STORAGE_FILE,
};
use std::path::PathBuf;

fn home() -> PathBuf {
    PathBuf::from("/home/user/.codex")
}

fn file() -> PathBuf {
    PathBuf::from("/home/user/.codex/internal_storage.json")
}

fn encode(seen: bool) -> String {
    let mut object = serde_json::Map::new();
    object.insert("gpt_5_codex_model_prompt_seen".to_string(), serde_json::Value::Bool(seen));
    serde_json::to_string_pretty(&serde_json::Value::Object(object)).unwrap()
}

fn decode(content: &str) -> Stored {
    match serde_json::from_str::<serde_json::Value>(content) {
        Ok(serde_json::Value::Object(object)) => {
            match object.get("gpt_5_codex_model_prompt_seen") {
                None => Stored::Found { gpt_5_codex_model_prompt_seen: None },
                Some(serde_json::Value::Bool(seen)) => {
                    Stored::Found { gpt_5_codex_model_prompt_seen: Some(*seen) }
                }
                Some(_) => Stored::Failed,
            }
        }
        _ => Stored::Failed,
    }
}

/// Runs a persist; the action with this number fails.
fn run(storage: &InternalStorage, failing: usize) -> (Vec<String>, Option<String>, PersistStep) {
    let mut asked = Vec::new();
    let mut written = None;
    let mut step = storage.persist();
    loop {
        let (phase, action) = match step {
            PersistStep::Continue { phase, action } => (phase, action),
            end => return (asked, written, end),
        };
        let fails = asked.len() == failing;
        let event = match action {
            PersistAction::CreateDirectory { path } => {
                asked.push(format!("create {}", path.display()));
                PersistEvent::DirectoryCreated
            }
            PersistAction::Serialise { gpt_5_codex_model_prompt_seen } => {
                asked.push(format!("serialise {gpt_5_codex_model_prompt_seen}"));
                PersistEvent::Serialised(encode(gpt_5_codex_model_prompt_seen))
            }
            PersistAction::Write { path, content } => {
                asked.push(format!("write {}", path.display()));
                if !fails {
                    written = Some(content);
                }
                PersistEvent::Written
            }
        };
        step = storage.persist_next(phase, if fails { PersistEvent::Failed } else { event });
    }
}

#[test]
fn the_file_lies_in_the_home_directory() {
    assert_eq!(INTERNAL_STORAGE_FILE, "internal_storage.json");
    assert_eq!(storage_filepath(&home()), file());
}

#[test]
fn a_state_that_was_not_found_is_fresh() {
    for stored in [
        Stored::NotFound,
        Stored::Failed,
        Stored::Found { gpt_5_codex_model_prompt_seen: None },
        Stored::Found { gpt_5_codex_model_prompt_seen: Some(false) },
        decode("not json"),
        decode("{}"),
        decode("{\"gpt_5_codex_model_prompt_seen\": 1}"),
    ] {
        let storage = InternalStorage::load(&home(), stored);
        assert!(!storage.gpt_5_codex_model_prompt_seen);
        assert_eq!(storage.storage_path, file());
    }
}

#[test]
fn a_state_that_was_found_is_taken_over() {
    let storage = InternalStorage::load(
        &home(),
        decode("{\"gpt_5_codex_model_prompt_seen\": true, \"other\": 1}"),
    );
    assert!(storage.gpt_5_codex_model_prompt_seen);
    assert_eq!(storage.storage_path, file());
}

#[test]
fn what_was_persisted_is_loaded_again() {
    for seen in [false, true] {
        let mut storage = InternalStorage::load(&home(), Stored::NotFound);
        storage.gpt_5_codex_model_prompt_seen = seen;
        let (asked, written, end) = run(&storage, usize::MAX);
        assert_eq!(
            asked,
            vec![
                "create /home/user/.codex".to_string(),
                format!("serialise {seen}"),
                "write /home/user/.codex/internal_storage.json".to_string(),
            ]
        );
        assert!(matches!(end, PersistStep::Done));
        let again = InternalStorage::load(&home(), decode(&written.unwrap()));
        assert_eq!(again.gpt_5_codex_model_prompt_seen, seen);
        assert_eq!(again.clone().storage_path, storage.storage_path);
    }
}

#[test]
fn failures_say_what_was_being_done() {
    let storage = InternalStorage::load(&home(), Stored::NotFound);
    let contexts: Vec<Option<String>> = (0..3)
        .map(|failing| {
            let (asked, written, end) = run(&storage, failing);
            assert_eq!(asked.len(), failing + 1);
            assert_eq!(written, None);
            match end {
                PersistStep::Failed { context } => context,
                other => panic!("did not fail: {other:?}"),
            }
        })
        .collect();
    assert_eq!(
        contexts,
        vec![
            Some("failed to create directory /home/user/.codex".to_string()),
            None,
            Some(
                "failed to write to /home/user/.codex/internal_storage.json".to_string()
            ),
        ]
    );
}

#[test]
fn only_files_in_a_directory_have_it_created() {
    let creates = |path: &str| {
        let storage = InternalStorage {
            storage_path: PathBuf::from(path),
            gpt_5_codex_model_prompt_seen: true,
        };
        match storage.persist() {
            PersistStep::Continue { action: PersistAction::CreateDirectory { path }, .. } => {
                Some(path)
            }
            _ => None,
        }
    };
    assert_eq!(creates(""), None);
    assert_eq!(creates("/"), None);
    assert_eq!(creates("a"), Some(PathBuf::new()));
    assert_eq!(creates("/a:b"), Some(PathBuf::from("/")));
    assert_eq!(creates("a/.."), Some(PathBuf::from("a")));
    assert_eq!(creates("a/b/"), Some(PathBuf::from("a")));
}

#[test]
fn a_default_state_belongs_to_no_file() {
    let storage = InternalStorage::default();
    assert_eq!(storage.storage_path, PathBuf::new());
    assert!(!storage.gpt_5_codex_model_prompt_seen);
    assert!(matches!(
        storage.persist(),
        PersistStep::Continue { phase: PersistPhase::Serialising, .. }
    ));
}
