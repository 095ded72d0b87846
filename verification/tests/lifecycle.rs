use devsecrets::memfs::FsEntry;
use devsecrets::rootdir::DevSecretsRootDir;
use devsecrets::store::{ensure_devsecrets_id, read_devsecrets_id};
use devsecrets::{
    embedded_devsecrets_id, get_devsecrets_dir_from_manifest_dir,
    init_devsecrets_dir_from_manifest_dir, DevSecretsId, Error, Fs,
};

const CONFIG_ROOT: &str = "/home/user/.config";
const PROJECT: &str = "/home/user/project";
const SIDECAR: &str = "/home/user/project/.devsecrets_id.txt";

fn fresh_machine() -> Fs {
    let mut fs = Fs::new();
    fs.create_dir_all(CONFIG_ROOT).unwrap();
    fs.create_dir_all(PROJECT).unwrap();
    fs
}

fn is_canonical(s: &str) -> bool {
    DevSecretsId::from_canonical(s).is_some()
}

#[test]
fn read_identity_absent_is_none() {
    let fs = fresh_machine();
    let r = read_devsecrets_id(&fs, PROJECT).unwrap();
    assert!(r.is_none());
}

#[test]
fn ensure_identity_creates_canonical_sidecar() {
    let mut fs = fresh_machine();
    let id = ensure_devsecrets_id(&mut fs, PROJECT).unwrap();
    assert!(is_canonical(id.id_str()));
    match fs.lookup(SIDECAR) {
        Some(FsEntry::File(bytes)) => {
            assert_eq!(bytes.as_slice(), id.id_str().as_bytes());
        }
        other => panic!("expected a sidecar file, got {:?}", other),
    }
}

#[test]
fn ensure_identity_idempotent() {
    let mut fs = fresh_machine();
    let first = ensure_devsecrets_id(&mut fs, PROJECT).unwrap();
    let count_after_first = fs.entry_count();
    let sidecar_after_first = fs.lookup(SIDECAR).cloned();
    let second = ensure_devsecrets_id(&mut fs, PROJECT).unwrap();
    assert_eq!(first.id_str(), second.id_str());
    assert_eq!(fs.entry_count(), count_after_first);
    assert_eq!(fs.lookup(SIDECAR).cloned(), sidecar_after_first);
}

#[test]
fn ensure_identity_missing_project_dir_fails() {
    let mut fs = Fs::new();
    let r = ensure_devsecrets_id(&mut fs, PROJECT);
    assert!(matches!(r, Err(Error::FileError(_))));
}

#[test]
fn corrupt_sidecar_is_never_regenerated() {
    let mut fs = fresh_machine();
    fs.write_file(SIDECAR, b"not-a-uuid".to_vec()).unwrap();
    let r = ensure_devsecrets_id(&mut fs, PROJECT);
    assert!(matches!(r, Err(Error::CorruptIdentity(_))));
    let r = read_devsecrets_id(&fs, PROJECT);
    assert!(matches!(r, Err(Error::CorruptIdentity(_))));
    match fs.lookup(SIDECAR) {
        Some(FsEntry::File(bytes)) => assert_eq!(bytes.as_slice(), b"not-a-uuid"),
        other => panic!("expected the corrupt sidecar untouched, got {:?}", other),
    }
}

#[test]
fn sidecar_with_invalid_utf8_is_corrupt() {
    let mut fs = fresh_machine();
    fs.write_file(SIDECAR, vec![0xff, 0xfe, 0x00]).unwrap();
    let r = read_devsecrets_id(&fs, PROJECT);
    assert!(matches!(r, Err(Error::CorruptIdentity(_))));
}

#[test]
fn root_open_absent_is_none() {
    let fs = fresh_machine();
    let r = DevSecretsRootDir::with_config_root(&fs, CONFIG_ROOT).unwrap();
    assert!(r.is_none());
}

#[test]
fn root_open_conflicting_file_is_fatal() {
    let mut fs = fresh_machine();
    fs.write_file("/home/user/.config/rust-devsecrets", b"oops".to_vec())
        .unwrap();
    let r = DevSecretsRootDir::with_config_root(&fs, CONFIG_ROOT);
    assert!(matches!(r, Err(Error::ConflictingPathType(_))));
}

#[test]
fn ensure_root_requires_config_root() {
    let mut fs = Fs::new();
    let r = DevSecretsRootDir::ensure_with_config_root(&mut fs, CONFIG_ROOT);
    assert!(matches!(r, Err(Error::FileError(_))));
}

#[test]
fn ensure_root_then_open_finds_it() {
    let mut fs = fresh_machine();
    DevSecretsRootDir::ensure_with_config_root(&mut fs, CONFIG_ROOT).unwrap();
    let r = DevSecretsRootDir::with_config_root(&fs, CONFIG_ROOT).unwrap();
    assert!(r.is_some());
    match fs.lookup("/home/user/.config/rust-devsecrets") {
        Some(FsEntry::Dir) => {}
        other => panic!("expected the reserved directory, got {:?}", other),
    }
}

#[test]
fn get_child_absent_is_none() {
    let mut fs = fresh_machine();
    let root = DevSecretsRootDir::ensure_with_config_root(&mut fs, CONFIG_ROOT).unwrap();
    let id = ensure_devsecrets_id(&mut fs, PROJECT).unwrap();
    let r = root.get_child(&fs, &id).unwrap();
    assert!(r.is_none());
}

#[test]
fn ensure_child_idempotent() {
    let mut fs = fresh_machine();
    let root = DevSecretsRootDir::ensure_with_config_root(&mut fs, CONFIG_ROOT).unwrap();
    let id = ensure_devsecrets_id(&mut fs, PROJECT).unwrap();
    let first = root.ensure_child(&mut fs, &id).unwrap();
    let count_after_first = fs.entry_count();
    let second = root.ensure_child(&mut fs, &id).unwrap();
    assert_eq!(first.path(), second.path());
    assert_eq!(fs.entry_count(), count_after_first);
    match fs.lookup(first.path()) {
        Some(FsEntry::Dir) => {}
        other => panic!("expected the child directory, got {:?}", other),
    }
    let expected = format!(
        "{}/rust-devsecrets/{}",
        CONFIG_ROOT,
        id.id_str()
    );
    assert_eq!(first.path(), expected.as_str());
}

#[test]
fn ensure_child_conflicting_file_is_fatal() {
    let mut fs = fresh_machine();
    let root = DevSecretsRootDir::ensure_with_config_root(&mut fs, CONFIG_ROOT).unwrap();
    let id = ensure_devsecrets_id(&mut fs, PROJECT).unwrap();
    let child_path = format!("{}/rust-devsecrets/{}", CONFIG_ROOT, id.id_str());
    fs.write_file(child_path.as_str(), b"oops".to_vec()).unwrap();
    let r = root.ensure_child(&mut fs, &id);
    assert!(matches!(r, Err(Error::ConflictingPathType(_))));
}

#[test]
fn init_creates_everything_and_is_idempotent() {
    let mut fs = fresh_machine();
    let first = init_devsecrets_dir_from_manifest_dir(&mut fs, CONFIG_ROOT, PROJECT).unwrap();
    let count_after_first = fs.entry_count();
    let second = init_devsecrets_dir_from_manifest_dir(&mut fs, CONFIG_ROOT, PROJECT).unwrap();
    assert_eq!(first, second);
    assert_eq!(fs.entry_count(), count_after_first);
    match fs.lookup(first.as_str()) {
        Some(FsEntry::Dir) => {}
        other => panic!("expected the child directory, got {:?}", other),
    }
    let id = read_devsecrets_id(&fs, PROJECT).unwrap().unwrap();
    assert_eq!(
        first,
        format!("{}/rust-devsecrets/{}", CONFIG_ROOT, id.id_str())
    );
}

#[test]
fn init_stops_on_corrupt_sidecar() {
    let mut fs = fresh_machine();
    fs.write_file(SIDECAR, b"not-a-uuid".to_vec()).unwrap();
    let count_before = fs.entry_count();
    let r = init_devsecrets_dir_from_manifest_dir(&mut fs, CONFIG_ROOT, PROJECT);
    assert!(matches!(r, Err(Error::CorruptIdentity(_))));
    assert_eq!(fs.entry_count(), count_before);
}

#[test]
fn get_dir_before_init_reports_uninitialized() {
    let mut fs = fresh_machine();
    ensure_devsecrets_id(&mut fs, PROJECT).unwrap();
    let r = get_devsecrets_dir_from_manifest_dir(&fs, CONFIG_ROOT, PROJECT).unwrap();
    assert!(r.is_none());
}

#[test]
fn get_dir_without_sidecar_is_an_error() {
    let fs = fresh_machine();
    let r = get_devsecrets_dir_from_manifest_dir(&fs, CONFIG_ROOT, PROJECT);
    assert!(matches!(r, Err(Error::FileError(_))));
}

#[test]
fn get_dir_after_init_finds_the_same_path() {
    let mut fs = fresh_machine();
    let created = init_devsecrets_dir_from_manifest_dir(&mut fs, CONFIG_ROOT, PROJECT).unwrap();
    let found = get_devsecrets_dir_from_manifest_dir(&fs, CONFIG_ROOT, PROJECT)
        .unwrap()
        .unwrap();
    assert_eq!(created, found);
}

#[test]
fn embedded_id_requires_the_sidecar() {
    let fs = fresh_machine();
    let r = embedded_devsecrets_id(&fs, PROJECT);
    assert!(matches!(r, Err(Error::FileError(_))));
}

#[test]
fn embedded_id_returns_the_stored_identity() {
    let mut fs = fresh_machine();
    let id = ensure_devsecrets_id(&mut fs, PROJECT).unwrap();
    let embedded = embedded_devsecrets_id(&fs, PROJECT).unwrap();
    assert_eq!(id.id_str(), embedded.id_str());
}

#[test]
fn write_file_over_directory_is_fatal() {
    let mut fs = fresh_machine();
    let r = fs.write_file(PROJECT, b"oops".to_vec());
    assert!(matches!(r, Err(Error::ConflictingPathType(_))));
}

#[test]
fn create_dir_all_over_file_is_fatal() {
    let mut fs = fresh_machine();
    fs.write_file("/home/user/project/file.txt", b"x".to_vec())
        .unwrap();
    let r = fs.create_dir_all("/home/user/project/file.txt/sub");
    assert!(matches!(r, Err(Error::ConflictingPathType(_))));
}

#[test]
fn full_scenario_step_by_step() {
    let mut fs = fresh_machine();
    // No sidecar yet: ensuring the identity writes a fresh one.
    assert!(read_devsecrets_id(&fs, PROJECT).unwrap().is_none());
    let id = ensure_devsecrets_id(&mut fs, PROJECT).unwrap();
    // Ensure the root directory, then the child directory keyed by the id.
    let root = DevSecretsRootDir::ensure_with_config_root(&mut fs, CONFIG_ROOT).unwrap();
    let child = root.ensure_child(&mut fs, &id).unwrap();
    assert_eq!(
        child.path(),
        format!("{}/rust-devsecrets/{}", CONFIG_ROOT, id.id_str())
    );
    // Drop a JSON secret into the child directory and read it back typed.
    fs.write_file(
        &format!("{}/token.json", child.path()),
        b"{\"key\":\"abc\"}".to_vec(),
    )
    .unwrap();
    let ds = devsecrets::DevSecrets::from_id(&fs, CONFIG_ROOT, &devsecrets::Id(id)).unwrap();
    let value = ds
        .read_from("token.json")
        .with_format(devsecrets::JsonFormat)
        .into_value(&fs)
        .unwrap();
    let mut expected = serde_json::Map::new();
    expected.insert(
        "key".to_string(),
        serde_json::Value::String("abc".to_string()),
    );
    assert_eq!(value, serde_json::Value::Object(expected));
}
