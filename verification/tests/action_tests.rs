use create_file::action::completed;
use create_file::action::requested;
use create_file::action::CreateFile;
use create_file::action::ParameterPacket;
use create_file::action::Progress;
use create_file::error::ActionError;
use create_file::metadata::DecodeError;
use rustc_serialize::base64::ToBase64;
use rustc_serialize::base64::STANDARD;
use std::collections::HashMap;

const APP_ROOT: u32 = 1;
const SHARED_ROOT: u32 = 2;

#[derive(Debug, PartialEq)]
enum Call {
    Lookup(u32, String),
    Create(String, Vec<u8>, u32),
}

struct Store {
    directories: HashMap<(u32, String), u32>,
    files: HashMap<(u32, String), Vec<u8>>,
    calls: Vec<Call>,
}

fn store(entries: &[(u32, &str, u32)]) -> Store {
    let mut directories = HashMap::new();
    for (parent, name, child) in entries {
        directories.insert((*parent, name.to_string()), *child);
    }
    Store { directories, files: HashMap::new(), calls: Vec::new() }
}

fn encode(text: &str) -> String {
    text.as_bytes().to_base64(STANDARD)
}

fn command(is_shared: bool, file_path: &str, user_metadata: &str) -> CreateFile {
    CreateFile::new(is_shared, file_path.to_string(), user_metadata.to_string())
}

fn run(
    store: &mut Store,
    command: CreateFile,
    access: bool,
) -> Result<Option<String>, ActionError<String>> {
    let params = ParameterPacket {
        safe_drive_access: access,
        app_root_dir_key: APP_ROOT,
        safe_drive_dir_key: SHARED_ROOT,
    };
    let mut progress: Progress<u32, String> = command.execute(params);
    loop {
        match progress {
            Progress::Done(result) => return result,
            Progress::Resolve(pending) => {
                let key = (*pending.directory(), pending.name().to_string());
                store.calls.push(Call::Lookup(key.0, key.1.clone()));
                let child = store.directories.get(&key).copied();
                progress = pending.advance(child);
            }
            Progress::Create(creation) => {
                store.calls.push(Call::Create(
                    creation.name.clone(),
                    creation.metadata.clone(),
                    creation.directory,
                ));
                let key = (creation.directory, creation.name);
                let outcome = if store.files.contains_key(&key) {
                    Err("file already exists".to_string())
                } else {
                    store.files.insert(key, creation.metadata);
                    Ok(())
                };
                return completed(outcome);
            }
        }
    }
}

#[test]
fn creates_a_file_under_the_private_root() {
    let mut s = store(&[(APP_ROOT, "docs", 10)]);
    let result = run(&mut s, command(false, "docs/readme.txt", &encode("v1")), false);
    assert_eq!(result, Ok(None));
    assert_eq!(
        s.calls,
        vec![
            Call::Lookup(APP_ROOT, "docs".to_string()),
            Call::Create("readme.txt".to_string(), b"v1".to_vec(), 10),
        ]
    );
    assert_eq!(s.files.get(&(10, "readme.txt".to_string())), Some(&b"v1".to_vec()));
}

#[test]
fn shared_root_without_access_is_denied() {
    let mut s = store(&[(SHARED_ROOT, "shared", 20)]);
    let result = run(&mut s, command(true, "shared/report.pdf", &encode("x")), false);
    assert_eq!(result, Err(ActionError::PermissionDenied));
    assert!(s.calls.is_empty());
}

#[test]
fn shared_root_with_access_is_used() {
    let mut s = store(&[(SHARED_ROOT, "shared", 20), (APP_ROOT, "shared", 30)]);
    let result = run(&mut s, command(true, "shared/report.pdf", &encode("x")), true);
    assert_eq!(result, Ok(None));
    assert_eq!(
        s.calls,
        vec![
            Call::Lookup(SHARED_ROOT, "shared".to_string()),
            Call::Create("report.pdf".to_string(), b"x".to_vec(), 20),
        ]
    );
}

#[test]
fn malformed_metadata_is_refused_after_resolution() {
    let mut s = store(&[]);
    let result = run(&mut s, command(false, "notes.txt", "not-valid-base64!!"), false);
    assert_eq!(result, Err(ActionError::DecodeError));
    assert!(s.calls.is_empty());
    assert!(s.files.is_empty());
}

#[test]
fn malformed_metadata_never_reaches_create() {
    let mut s = store(&[(APP_ROOT, "a", 10), (10, "b", 11)]);
    let result = run(&mut s, command(false, "a/b/notes.txt", "%%%"), true);
    assert_eq!(result, Err(ActionError::DecodeError));
    assert_eq!(
        s.calls,
        vec![Call::Lookup(APP_ROOT, "a".to_string()), Call::Lookup(10, "b".to_string())]
    );
}

#[test]
fn a_path_that_ends_in_a_separator_names_no_file() {
    let mut s = store(&[(APP_ROOT, "a", 10)]);
    let result = run(&mut s, command(false, "a/", &encode("x")), false);
    assert_eq!(result, Err(ActionError::FileNameMissing));
    assert!(s.calls.is_empty());
}

#[test]
fn an_empty_path_names_no_file() {
    let mut s = store(&[]);
    let result = run(&mut s, command(false, "", &encode("x")), true);
    assert_eq!(result, Err(ActionError::FileNameMissing));
    assert!(s.calls.is_empty());
}

#[test]
fn a_second_creation_fails_in_storage() {
    let mut s = store(&[(APP_ROOT, "docs", 10)]);
    let first = run(&mut s, command(false, "docs/readme.txt", &encode("v1")), false);
    assert_eq!(first, Ok(None));
    let second = run(&mut s, command(false, "docs/readme.txt", &encode("v1")), false);
    assert_eq!(second, Err(ActionError::StorageError("file already exists".to_string())));
    let creations = s.calls.iter().filter(|call| matches!(call, Call::Create(..))).count();
    assert_eq!(creations, 2);
}

#[test]
fn a_missing_directory_is_named() {
    let mut s = store(&[]);
    let result = run(&mut s, command(false, "a/b/file.txt", &encode("x")), false);
    assert_eq!(result, Err(ActionError::NotFound("a".to_string())));
    assert_eq!(s.calls, vec![Call::Lookup(APP_ROOT, "a".to_string())]);
}

#[test]
fn the_first_missing_directory_ends_the_walk() {
    let mut s = store(&[(APP_ROOT, "a", 10), (11, "c", 12)]);
    let result = run(&mut s, command(false, "a/b/c/file.txt", &encode("x")), false);
    assert_eq!(result, Err(ActionError::NotFound("b".to_string())));
    assert_eq!(
        s.calls,
        vec![Call::Lookup(APP_ROOT, "a".to_string()), Call::Lookup(10, "b".to_string())]
    );
}

#[test]
fn a_missing_directory_comes_before_malformed_metadata() {
    let mut s = store(&[]);
    let result = run(&mut s, command(false, "a/file.txt", "!!"), false);
    assert_eq!(result, Err(ActionError::NotFound("a".to_string())));
}

#[test]
fn denial_comes_before_every_other_failure() {
    let mut s = store(&[]);
    let result = run(&mut s, command(true, "a/", "!!"), false);
    assert_eq!(result, Err(ActionError::PermissionDenied));
    assert!(s.calls.is_empty());
}

#[test]
fn a_missing_file_name_comes_before_resolution() {
    let mut s = store(&[]);
    let result = run(&mut s, command(true, "missing/", "!!"), true);
    assert_eq!(result, Err(ActionError::FileNameMissing));
    assert!(s.calls.is_empty());
}

#[test]
fn the_private_root_ignores_the_access_flag() {
    let cases = [
        ("docs/readme.txt", encode("v1")),
        ("nowhere/readme.txt", encode("v1")),
        ("docs/", encode("v1")),
        ("docs/readme.txt", "!!".to_string()),
    ];
    for (path, metadata) in cases {
        let mut granted = store(&[(APP_ROOT, "docs", 10)]);
        let mut withheld = store(&[(APP_ROOT, "docs", 10)]);
        let with_access = run(&mut granted, command(false, path, &metadata), true);
        let without = run(&mut withheld, command(false, path, &metadata), false);
        assert_eq!(with_access, without);
        assert_eq!(granted.calls, withheld.calls);
    }
}

#[test]
fn empty_pieces_of_the_path_are_not_looked_up() {
    let mut s = store(&[(APP_ROOT, "a", 10), (10, "b", 11)]);
    let result = run(&mut s, command(false, "/a//b/f", &encode("x")), false);
    assert_eq!(result, Ok(None));
    assert_eq!(
        s.calls,
        vec![
            Call::Lookup(APP_ROOT, "a".to_string()),
            Call::Lookup(10, "b".to_string()),
            Call::Create("f".to_string(), b"x".to_vec(), 11),
        ]
    );
}

#[test]
fn a_command_keeps_its_values() {
    let c = command(true, "a/b", "eA==");
    assert!(c.is_shared);
    assert_eq!(c.file_path, "a/b");
    assert_eq!(c.user_metadata, "eA==");
}

#[test]
fn decoded_metadata_becomes_a_creation() {
    let progress: Progress<u32, String> = requested("f".to_string(), Ok(vec![1u8, 2u8]), 4);
    match progress {
        Progress::Create(creation) => {
            assert_eq!(creation.name, "f");
            assert_eq!(creation.metadata, vec![1u8, 2u8]);
            assert_eq!(creation.directory, 4);
        }
        _ => panic!("well-formed metadata leads to a creation"),
    }
    let refused: Progress<u32, String> = requested("f".to_string(), Err(DecodeError), 4);
    assert!(matches!(refused, Progress::Done(Err(ActionError::DecodeError))));
}

#[test]
fn a_storage_failure_is_handed_on_as_it_came() {
    assert_eq!(completed::<String>(Ok(())), Ok(None));
    assert_eq!(
        completed(Err("disk full".to_string())),
        Err(ActionError::StorageError("disk full".to_string()))
    );
}
