use obsclip::json::{get, get_i64, get_str, JsonValue};
use obsclip::vault::resolver::{
    read_obsidian_text, resolve_effective_vault, resolve_vault, resolve_vault_from_obsidian_json,
    vault_from_obsidian_text, ResolvedVault, VaultError,
};

fn s(v: &str) -> JsonValue {
    JsonValue::String(v.to_string())
}

fn obj(members: Vec<(&str, JsonValue)>) -> JsonValue {
    JsonValue::Object(members.into_iter().map(|(k, v)| (k.to_string(), v)).collect())
}

fn vault(path: &str, ts: i64, open: bool) -> JsonValue {
    obj(vec![("open", JsonValue::Bool(open)), ("path", s(path)), ("ts", JsonValue::Number(Some(ts)))])
}

fn fixture() -> JsonValue {
    obj(vec![
        ("last_open", s("96a832d9c9cc9eca")),
        (
            "vaults",
            obj(vec![
                ("1111111111111111", vault("/Users/test/Other", 1643208916610, false)),
                ("96a832d9c9cc9eca", vault("/Users/test/MyVault", 1643208916609, true)),
            ]),
        ),
    ])
}

#[test]
fn resolves_last_open_vault() {
    let path = resolve_vault_from_obsidian_json(&fixture()).unwrap();
    assert_eq!(path, "/Users/test/MyVault");
}

#[test]
fn resolves_open_vault_without_last_open() {
    let root = obj(vec![(
        "vaults",
        obj(vec![
            ("a", vault("/Users/test/Closed", 5, false)),
            ("b", vault("/Users/test/OpenVault", 1, true)),
        ]),
    )]);
    let path = resolve_vault_from_obsidian_json(&root).unwrap();
    assert_eq!(path, "/Users/test/OpenVault");
}

#[test]
fn override_takes_precedence() {
    let path = resolve_vault(Some("/override/vault"), true, true, None).unwrap();
    assert_eq!(path, "/override/vault");
    let path = resolve_vault(Some("/override/vault"), true, true, Some(Ok(fixture()))).unwrap();
    assert_eq!(path, "/override/vault");
}

#[test]
fn invalid_override_is_skipped() {
    let path = resolve_vault(Some("/missing"), false, false, Some(Ok(fixture()))).unwrap();
    assert_eq!(path, "/Users/test/MyVault");
    let path = resolve_vault(Some("/plain/folder"), true, false, Some(Ok(fixture()))).unwrap();
    assert_eq!(path, "/Users/test/MyVault");
    let e = resolve_vault(Some("/missing"), false, false, Some(Err(VaultError::NoLastOpen)));
    assert_eq!(e, Err(VaultError::NoLastOpen));
    assert_eq!(
        resolve_vault(Some("/missing"), false, false, Some(Ok(fixture()))),
        resolve_vault(None, false, false, Some(Ok(fixture())))
    );
}

#[test]
fn single_vault_is_used() {
    let root = obj(vec![("vaults", obj(vec![("a", obj(vec![("path", s("/only"))]))]))]);
    assert_eq!(resolve_vault_from_obsidian_json(&root).unwrap(), "/only");
}

#[test]
fn most_recent_vault_is_used_and_later_wins_ties() {
    let root = obj(vec![
        ("last_open", s("missing")),
        (
            "vaults",
            obj(vec![
                ("a", vault("/a", 3, true)),
                ("b", vault("/b", 7, true)),
                ("c", vault("/c", 7, false)),
                ("d", obj(vec![("ts", JsonValue::Number(Some(99)))])),
            ]),
        ),
    ]);
    assert_eq!(resolve_vault_from_obsidian_json(&root).unwrap(), "/c");
}

#[test]
fn missing_ts_counts_as_zero() {
    let root = obj(vec![(
        "vaults",
        obj(vec![
            ("a", obj(vec![("path", s("/a")), ("ts", JsonValue::Number(Some(-4)))])),
            ("b", obj(vec![("path", s("/b")), ("ts", JsonValue::Number(None))])),
        ]),
    )]);
    assert_eq!(resolve_vault_from_obsidian_json(&root).unwrap(), "/b");
}

#[test]
fn no_usable_vault_is_an_error() {
    let no_vaults = obj(vec![("last_open", s("a"))]);
    assert_eq!(resolve_vault_from_obsidian_json(&no_vaults), Err(VaultError::NoLastOpen));
    let not_object = obj(vec![("vaults", JsonValue::Array(vec![]))]);
    assert_eq!(resolve_vault_from_obsidian_json(&not_object), Err(VaultError::NoLastOpen));
    let no_paths = obj(vec![("vaults", obj(vec![("a", obj(vec![])), ("b", s("x"))]))]);
    assert_eq!(resolve_vault_from_obsidian_json(&no_paths), Err(VaultError::NoLastOpen));
}

#[test]
fn read_errors_pass_through() {
    let e = resolve_vault(None, false, false, Some(Err(VaultError::NotFound("/x/obsidian.json".into()))));
    assert_eq!(e, Err(VaultError::NotFound("/x/obsidian.json".into())));
}

#[test]
fn error_messages() {
    assert_eq!(VaultError::NotFound("/p".into()).message(), "obsidian config not found: /p");
    assert_eq!(VaultError::NoLastOpen.message(), "no last_open vault in obsidian.json");
    assert_eq!(VaultError::InvalidJson("eof".into()).message(), "invalid obsidian.json: eof");
    assert_eq!(VaultError::Io("denied".into()).message(), "io error: denied");
}

#[test]
fn effective_vault_reports_each_case() {
    assert_eq!(
        resolve_effective_vault(Ok("/v".into()), true, true),
        ResolvedVault { path: Some("/v".into()), error: None }
    );
    assert_eq!(
        resolve_effective_vault(Ok("/v".into()), false, false),
        ResolvedVault { path: None, error: Some("Vault folder not found: /v".into()) }
    );
    assert_eq!(
        resolve_effective_vault(Ok("/v".into()), true, false),
        ResolvedVault {
            path: None,
            error: Some(
                "This folder is not an Obsidian vault. Choose a folder that contains a .obsidian directory.".into()
            ),
        }
    );
    assert_eq!(
        resolve_effective_vault(Err(VaultError::NoLastOpen), true, true),
        ResolvedVault { path: None, error: Some("no last_open vault in obsidian.json".into()) }
    );
}

#[test]
fn obsidian_json_text_is_parsed() {
    let text = r#"{
        "vaults": {
            "1111111111111111": {"path": "/Users/test/Other", "ts": 1643208916610, "open": false},
            "96a832d9c9cc9eca": {"path": "/Users/test/MyVault", "ts": 1643208916609, "open": true}
        },
        "last_open": "96a832d9c9cc9eca"
    }"#;
    assert_eq!(vault_from_obsidian_text(text).unwrap(), "/Users/test/MyVault");
    let open_only = r#"{"vaults": {"a": {"path": "/Users/test/Closed", "ts": 2}, "b": {"path": "/Users/test/OpenVault", "ts": 1, "open": true}}}"#;
    assert_eq!(vault_from_obsidian_text(open_only).unwrap(), "/Users/test/OpenVault");
    let by_ts = r#"{"vaults": {"a": {"path": "/a", "ts": 5}, "b": {"path": "/b", "ts": 9}, "c": {"path": "/c"}}}"#;
    assert_eq!(vault_from_obsidian_text(by_ts).unwrap(), "/b");
    assert_eq!(vault_from_obsidian_text(r#"{"vaults": {}}"#), Err(VaultError::NoLastOpen));
}

#[test]
fn obsidian_json_that_is_not_json_is_reported() {
    assert!(matches!(vault_from_obsidian_text("{not json"), Err(VaultError::InvalidJson(m)) if !m.is_empty()));
    assert!(matches!(read_obsidian_text(""), Err(VaultError::InvalidJson(_))));
    let root = read_obsidian_text(r#"{"last_open": "x", "n": 1.5, "big": 99999999999999999999, "k": -7}"#).unwrap();
    assert_eq!(get_str(&root, "last_open").map(|v| v.as_str()), Some("x"));
    assert!(matches!(get(&root, "n"), Some(JsonValue::Number(None))));
    assert!(matches!(get(&root, "big"), Some(JsonValue::Number(None))));
    assert_eq!(get_i64(&root, "k"), Some(-7));
    match root {
        JsonValue::Object(members) => {
            let keys: Vec<&str> = members.iter().map(|(k, _)| k.as_str()).collect();
            assert_eq!(keys, vec!["big", "k", "last_open", "n"]);
        }
        _ => panic!("not an object"),
    }
}
