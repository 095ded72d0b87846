use devsecrets::store::read_devsecrets_id;
use devsecrets::{
    init_devsecrets_dir_from_manifest_dir, DevSecrets, DevSecretsId, Error, Fs, Id, JsonFormat,
};

const CONFIG_ROOT: &str = "/home/user/.config";
const PROJECT: &str = "/home/user/project";

fn initialized() -> (Fs, Id, String) {
    let mut fs = Fs::new();
    fs.create_dir_all(CONFIG_ROOT).unwrap();
    fs.create_dir_all(PROJECT).unwrap();
    let child = init_devsecrets_dir_from_manifest_dir(&mut fs, CONFIG_ROOT, PROJECT).unwrap();
    let id = read_devsecrets_id(&fs, PROJECT).unwrap().unwrap();
    (fs, Id(id), child)
}

#[test]
fn from_identity_without_root_is_not_initialized() {
    let fs = Fs::new();
    let id = Id(DevSecretsId::new_unique());
    let r = DevSecrets::from_id(&fs, CONFIG_ROOT, &id);
    assert!(matches!(r, Err(Error::DirectoryNotInitialized)));
}

#[test]
fn from_identity_without_child_is_not_initialized() {
    let mut fs = Fs::new();
    fs.create_dir_all("/home/user/.config/rust-devsecrets").unwrap();
    let id = Id(DevSecretsId::new_unique());
    let r = DevSecrets::from_id(&fs, CONFIG_ROOT, &id);
    assert!(matches!(r, Err(Error::DirectoryNotInitialized)));
}

#[test]
fn resolve_accepts_plain_relative_paths() {
    let (fs, id, child) = initialized();
    let ds = DevSecrets::from_id(&fs, CONFIG_ROOT, &id).unwrap();
    let p = ds.get_relative_path("mysecret.txt").unwrap();
    assert_eq!(p, format!("{}/mysecret.txt", child));
    let p = ds.get_relative_path("a/b/c.txt").unwrap();
    assert_eq!(p, format!("{}/a/b/c.txt", child));
    let p = ds.get_relative_path("..hidden/notes.md").unwrap();
    assert_eq!(p, format!("{}/..hidden/notes.md", child));
}

#[test]
fn resolve_rejects_traversal_and_absolute_paths() {
    let (fs, id, _child) = initialized();
    let ds = DevSecrets::from_id(&fs, CONFIG_ROOT, &id).unwrap();
    let bad = [
        "/etc/passwd",
        "../../anotherfile.txt",
        "a/../d/e.txt",
        "..",
        ".",
        "a/./b",
        "a//b",
        "a/",
        "",
        "C:\\secrets.txt",
        "a\\b",
        "dir:name",
    ];
    for path in bad {
        let r = ds.get_relative_path(path);
        assert!(
            matches!(r, Err(Error::InvalidRelativePath(_))),
            "path {:?} was not rejected",
            path
        );
    }
}

#[test]
fn read_missing_file_is_a_file_error() {
    let (fs, id, _child) = initialized();
    let ds = DevSecrets::from_id(&fs, CONFIG_ROOT, &id).unwrap();
    let r = ds.read_from("absent.txt").to_bytes(&fs);
    assert!(matches!(r, Err(Error::FileError(_))));
}

#[test]
fn to_bytes_returns_the_content() {
    let (mut fs, id, child) = initialized();
    fs.write_file(&format!("{}/raw.bin", child), vec![1, 2, 3, 255])
        .unwrap();
    let ds = DevSecrets::from_id(&fs, CONFIG_ROOT, &id).unwrap();
    let bytes = ds.read_from("raw.bin").to_bytes(&fs).unwrap();
    assert_eq!(bytes, vec![1, 2, 3, 255]);
}

#[test]
fn to_string_decodes_utf8() {
    let (mut fs, id, child) = initialized();
    fs.write_file(&format!("{}/token.txt", child), "hello säcret".as_bytes().to_vec())
        .unwrap();
    let ds = DevSecrets::from_id(&fs, CONFIG_ROOT, &id).unwrap();
    let text = ds.read_from("token.txt").to_string(&fs).unwrap();
    assert_eq!(text, "hello säcret");
}

#[test]
fn to_string_rejects_invalid_utf8() {
    let (mut fs, id, child) = initialized();
    fs.write_file(&format!("{}/bad.txt", child), vec![0xff, 0xfe])
        .unwrap();
    let ds = DevSecrets::from_id(&fs, CONFIG_ROOT, &id).unwrap();
    let r = ds.read_from("bad.txt").to_string(&fs);
    assert!(matches!(r, Err(Error::ParseError(_))));
}

#[test]
fn to_reader_hands_out_the_bytes() {
    let (mut fs, id, child) = initialized();
    fs.write_file(&format!("{}/raw.bin", child), vec![7, 8, 9])
        .unwrap();
    let ds = DevSecrets::from_id(&fs, CONFIG_ROOT, &id).unwrap();
    let mut reader = ds.read_from("raw.bin").to_reader(&fs).unwrap();
    assert_eq!(reader.remaining(), 3);
    assert_eq!(reader.read_byte(), Some(7));
    assert_eq!(reader.read_to_end(), vec![8, 9]);
    assert_eq!(reader.remaining(), 0);
    assert_eq!(reader.read_byte(), None);
}

#[test]
fn read_typed_round_trips_json() {
    let (mut fs, id, child) = initialized();
    fs.write_file(
        &format!("{}/token.json", child),
        b"{\"key\":\"abc\"}".to_vec(),
    )
    .unwrap();
    let ds = DevSecrets::from_id(&fs, CONFIG_ROOT, &id).unwrap();
    let value: serde_json::Value = ds
        .read_from("token.json")
        .with_format(JsonFormat)
        .into_value(&fs)
        .unwrap();
    let mut expected_map = serde_json::Map::new();
    expected_map.insert(
        "key".to_string(),
        serde_json::Value::String("abc".to_string()),
    );
    assert_eq!(value, serde_json::Value::Object(expected_map));
}

#[test]
fn read_typed_rejects_extension_mismatch_before_any_read() {
    let (fs, id, _child) = initialized();
    let ds = DevSecrets::from_id(&fs, CONFIG_ROOT, &id).unwrap();
    // No file named secret.txt exists: a read would report FileError,
    // so InvalidExtension proves the extension was validated before any
    // read was tried.
    let r = ds
        .read_from("secret.txt")
        .with_format(JsonFormat)
        .into_value(&fs);
    assert!(matches!(r, Err(Error::InvalidExtension(_))));
}

#[test]
fn read_typed_takes_only_the_final_suffix() {
    let (mut fs, id, child) = initialized();
    fs.write_file(&format!("{}/a.tar.json", child), b"[1,2]".to_vec())
        .unwrap();
    let ds = DevSecrets::from_id(&fs, CONFIG_ROOT, &id).unwrap();
    let value = ds
        .read_from("a.tar.json")
        .with_format(JsonFormat)
        .into_value(&fs)
        .unwrap();
    assert_eq!(
        value,
        serde_json::Value::Array(vec![
            serde_json::Value::Number(serde_json::Number::from(1)),
            serde_json::Value::Number(serde_json::Number::from(2)),
        ])
    );
}

#[test]
fn read_typed_hidden_file_has_no_extension() {
    let (mut fs, id, child) = initialized();
    fs.write_file(&format!("{}/.json", child), b"{}".to_vec())
        .unwrap();
    let ds = DevSecrets::from_id(&fs, CONFIG_ROOT, &id).unwrap();
    let r = ds.read_from(".json").with_format(JsonFormat).into_value(&fs);
    assert!(matches!(r, Err(Error::InvalidExtension(_))));
}

#[test]
fn read_typed_wraps_deserializer_failures() {
    let (mut fs, id, child) = initialized();
    fs.write_file(&format!("{}/bad.json", child), b"{not json".to_vec())
        .unwrap();
    let ds = DevSecrets::from_id(&fs, CONFIG_ROOT, &id).unwrap();
    let r = ds.read_from("bad.json").with_format(JsonFormat).into_value(&fs);
    assert!(matches!(r, Err(Error::ParseError(_))));
}

#[test]
fn new_unique_is_canonical() {
    let id = DevSecretsId::new_unique();
    let s = id.id_str();
    assert_eq!(s.len(), 36);
    for (i, c) in s.chars().enumerate() {
        if i == 8 || i == 13 || i == 18 || i == 23 {
            assert_eq!(c, '-');
        } else {
            assert!(c.is_ascii_hexdigit() && !c.is_ascii_uppercase());
        }
    }
    assert!(DevSecretsId::from_canonical(s).is_some());
}

#[test]
fn from_canonical_rejects_non_canonical_strings() {
    assert!(DevSecretsId::from_canonical("not-a-uuid").is_none());
    assert!(DevSecretsId::from_canonical("936DA01F-9ABD-4D9D-80C7-02AF85C822A8").is_none());
    assert!(DevSecretsId::from_canonical("936da01f9abd4d9d80c702af85c822a8").is_none());
    assert!(DevSecretsId::from_canonical("{936da01f-9abd-4d9d-80c7-02af85c822a8}").is_none());
    assert!(DevSecretsId::from_canonical("936da01f-9abd-4d9d-80c7-02af85c822a8").is_some());
}

#[test]
fn distinct_projects_get_distinct_directories() {
    let mut fs = Fs::new();
    fs.create_dir_all(CONFIG_ROOT).unwrap();
    fs.create_dir_all("/home/user/alpha").unwrap();
    fs.create_dir_all("/home/user/beta").unwrap();
    let a = init_devsecrets_dir_from_manifest_dir(&mut fs, CONFIG_ROOT, "/home/user/alpha")
        .unwrap();
    let b = init_devsecrets_dir_from_manifest_dir(&mut fs, CONFIG_ROOT, "/home/user/beta")
        .unwrap();
    assert_ne!(a, b);
}
