use subuidless::syscall::{DecodeError, Operation, OperationError, Syscall};

fn fstatat(path: &str, dir: Option<&str>, flags: i32) -> Operation {
    Operation::Fstatat { path: path.to_string(), dir: dir.map(|d| d.to_string()), flags }
}

fn same(a: &Operation, b: &Operation) -> bool {
    match (a, b) {
        (
            Operation::Fstatat { path: pa, dir: da, flags: fa },
            Operation::Fstatat { path: pb, dir: db, flags: fb },
        ) => pa == pb && da == db && fa == fb,
        (
            Operation::Fchownat { path: pa, dir: da, owner: oa, group: ga, flags: fa },
            Operation::Fchownat { path: pb, dir: db, owner: ob, group: gb, flags: fb },
        ) => pa == pb && da == db && oa == ob && ga == gb && fa == fb,
        _ => false,
    }
}

#[test]
fn encodes_metadata_query_as_tagged_record() {
    let op = fstatat("/dev", None, 0);
    assert_eq!(op.encode(), r#"{"type":"Fstatat","path":"/dev","dir":null,"flags":0}"#);
}

#[test]
fn encodes_ownership_change_as_tagged_record() {
    let op = Operation::Fchownat {
        path: "/tmp/x".to_string(),
        dir: Some("/tmp".to_string()),
        owner: Some(1000),
        group: None,
        flags: 256,
    };
    assert_eq!(
        op.encode(),
        r#"{"type":"Fchownat","path":"/tmp/x","dir":"/tmp","owner":1000,"group":null,"flags":256}"#
    );
}

#[test]
fn escapes_quotes_backslashes_and_control_characters() {
    let op = fstatat("a\"b\\c\nd\u{1f}", None, -1);
    assert_eq!(
        op.encode(),
        r#"{"type":"Fstatat","path":"a\"b\\c\nd\u001f","dir":null,"flags":-1}"#
    );
}

#[test]
fn round_trips_every_kind() {
    let ops = vec![
        fstatat("/dev", None, 0),
        fstatat("", Some("/"), i32::MIN),
        fstatat("ünï \"q\" \\ \t\r\n", Some("x\u{0}y"), i32::MAX),
        Operation::Fchownat { path: "/etc".to_string(), dir: None, owner: None, group: None, flags: 0 },
        Operation::Fchownat {
            path: "p".to_string(),
            dir: Some("d".to_string()),
            owner: Some(u32::MAX),
            group: Some(0),
            flags: 0x1000,
        },
    ];
    for op in &ops {
        let text = op.encode();
        match Operation::decode(&text) {
            Ok(back) => assert!(same(op, &back), "{}", text),
            Err(_) => panic!("could not decode {}", text),
        }
    }
}

#[test]
fn decodes_numbers_with_leading_zeros() {
    match Operation::decode(r#"{"type":"Fstatat","path":"/dev","dir":null,"flags":007}"#) {
        Ok(op) => assert!(same(&op, &fstatat("/dev", None, 7))),
        Err(_) => panic!("refused"),
    }
}

#[test]
fn decodes_every_short_escape() {
    match Operation::decode(r#"{"type":"Fstatat","path":"\/a\tb\rc\bd\fe\u0041","dir":null,"flags":0}"#) {
        Ok(op) => assert!(same(&op, &fstatat("/a\tb\rc\u{8}d\u{c}eA", None, 0))),
        Err(_) => panic!("refused"),
    }
}

#[test]
fn rejects_unknown_tag() {
    match Operation::decode(r#"{"type":"Openat","path":"/dev","dir":null,"flags":0}"#) {
        Err(DecodeError::UnknownTag(t)) => assert_eq!(t, "Openat"),
        _ => panic!("unknown tag was accepted"),
    }
}

#[test]
fn rejects_malformed_text() {
    for text in [
        "",
        "{}",
        "not json",
        r#"{"type":"Fstatat","path":"/dev","dir":null}"#,
        r#"{"type":"Fstatat","path":"/dev","dir":null,"flags":4294967296}"#,
        r#"{"type":"Fstatat","dir":null,"path":"/dev","flags":0}"#,
        r#"{"type":"Fstatat","path":"/dev","dir":null,"flags":0} "#,
        r#"{"type":"Fchownat","path":"/dev","dir":null,"owner":-1,"group":null,"flags":0}"#,
        r#"{"type":"Fstatat","path":"a\x","dir":null,"flags":0}"#,
    ] {
        assert!(matches!(Operation::decode(text), Err(DecodeError::Malformed)), "{}", text);
    }
}

#[test]
fn validates_flags() {
    assert!(fstatat("/", None, 0).validate().is_ok());
    assert!(fstatat("/", None, 0x100 | 0x1000).validate().is_ok());
    assert!(fstatat("/", None, 0x1f00).validate().is_ok());
    assert_eq!(fstatat("/", None, 1).validate(), Err(OperationError::InvalidArgument));
    assert_eq!(fstatat("/", None, 0x2000).validate(), Err(OperationError::InvalidArgument));
    assert_eq!(fstatat("/", None, -1).validate(), Err(OperationError::InvalidArgument));
    assert_eq!(fstatat("/", None, 0x1f00).flags(), 0x1f00);
}

#[test]
fn string_escapes_agree_with_serde_json() {
    for s in ["plain", "q\"b\\", "\n\r\t\u{8}\u{c}", "\u{0}\u{1}\u{1f}\u{7f}", "ünïcødé ✓", "a/b"] {
        let quoted = serde_json::to_string(s).unwrap();
        let text = fstatat(s, None, 0).encode();
        let expected = format!("{{\"type\":\"Fstatat\",\"path\":{},\"dir\":null,\"flags\":0}}", quoted);
        assert_eq!(text, expected);
    }
}
