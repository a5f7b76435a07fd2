use lib_kern::registry::SchemaMap;
use lib_kern::schema::{split_schema, FileId, FileType, SchemaError};
use lib_kern::sys::SysSchema;

fn with_sys() -> SchemaMap<SysSchema> {
    let mut m = SchemaMap::new();
    assert_eq!(m.register("sys".to_string(), SysSchema::new()), Ok(()));
    m
}

#[test]
fn split_strips_leading_slashes() {
    assert_eq!(split_schema("sys://info"), ("sys".to_string(), "info".to_string()));
    assert_eq!(split_schema("sys:info"), ("sys".to_string(), "info".to_string()));
    assert_eq!(split_schema("sys:////a/b"), ("sys".to_string(), "a/b".to_string()));
    assert_eq!(split_schema("sys:/a"), ("sys".to_string(), "/a".to_string()));
}

#[test]
fn split_at_first_colon_only() {
    assert_eq!(split_schema("a:b:c"), ("a".to_string(), "b:c".to_string()));
    assert_eq!(split_schema(":x"), ("".to_string(), "x".to_string()));
}

#[test]
fn register_same_name_twice_fails() {
    let mut m = with_sys();
    assert_eq!(
        m.register("sys".to_string(), SysSchema::new()),
        Err(SchemaError::SameNameRegistered("sys".to_string()))
    );
    assert_eq!(m.dump_names(), vec!["sys".to_string()]);
    assert_eq!(m.find("sys://info"), Ok(FileType::File));
}

#[test]
fn two_names_are_listed() {
    let mut m = with_sys();
    assert_eq!(m.register("other".to_string(), SysSchema::new()), Ok(()));
    let mut names = m.dump_names();
    names.sort();
    assert_eq!(names, vec!["other".to_string(), "sys".to_string()]);
}

#[test]
fn unregistered_scheme_is_no_schema() {
    let mut m = with_sys();
    assert_eq!(m.find("bogus://x"), Err(SchemaError::NoSchema("bogus".to_string())));
    assert_eq!(m.open("bogus://x"), Err(SchemaError::NoSchema("bogus".to_string())));
    let mut empty: SchemaMap<SysSchema> = SchemaMap::new();
    assert_eq!(empty.open("sys://info"), Err(SchemaError::NoSchema("sys".to_string())));
}

#[test]
fn missing_path_is_not_found() {
    let mut m = with_sys();
    assert_eq!(m.find("sys://missing"), Err(SchemaError::NotFound("missing".to_string())));
    assert_eq!(m.open("sys://missing"), Err(SchemaError::NotFound("missing".to_string())));
}

#[test]
fn sys_info_scenario() {
    let mut m = with_sys();
    assert_eq!(m.find("sys://info"), Ok(FileType::File));
    let h0 = m.open("sys://info").unwrap();
    let mut buf = Vec::new();
    assert_eq!(m.read_to_end(&h0, &mut buf), Ok(11));
    assert_eq!(buf, b"Hello World".to_vec());
    assert_eq!(
        m.open("sys://info"),
        Err(SchemaError::AlreadyOpen("sys://info".to_string()))
    );
    assert_eq!(m.close(&h0), Ok(h0));
    let h1 = m.open("sys://info").unwrap();
    assert_ne!(h0, h1);
}

#[test]
fn read_appends_to_buffer() {
    let mut m = with_sys();
    let h = m.open("sys:info").unwrap();
    let mut buf = b"> ".to_vec();
    assert_eq!(m.read_to_end(&h, &mut buf), Ok(11));
    assert_eq!(buf, b"> Hello World".to_vec());
}

#[test]
fn other_spelling_of_open_path_is_already_open() {
    let mut m = with_sys();
    let h = m.open("sys://info").unwrap();
    assert_eq!(m.open("sys:info"), Err(SchemaError::AlreadyOpen("sys:info".to_string())));
    assert_eq!(m.close(&h), Ok(h));
    assert!(m.open("sys:info").is_ok());
}

#[test]
fn same_local_path_in_two_schemes_is_independent() {
    let mut m = with_sys();
    assert_eq!(m.register("other".to_string(), SysSchema::new()), Ok(()));
    let a = m.open("sys://info").unwrap();
    let b = m.open("other://info").unwrap();
    assert_ne!(a, b);
}

#[test]
fn close_never_opened_is_not_open() {
    let mut m = with_sys();
    assert_eq!(m.close(&FileId(7)), Err(SchemaError::NotOpen(FileId(7))));
}

#[test]
fn close_twice_is_not_open() {
    let mut m = with_sys();
    let h = m.open("sys://info").unwrap();
    assert_eq!(m.close(&h), Ok(h));
    assert_eq!(m.close(&h), Err(SchemaError::NotOpen(h)));
}

#[test]
fn read_after_close_is_not_open() {
    let mut m = with_sys();
    let h = m.open("sys://info").unwrap();
    assert_eq!(m.close(&h), Ok(h));
    let mut buf = Vec::new();
    assert_eq!(m.read_to_end(&h, &mut buf), Err(SchemaError::NotOpen(h)));
    assert!(buf.is_empty());
}

#[test]
fn handles_are_never_reused() {
    let mut m = with_sys();
    let mut seen = Vec::new();
    for _ in 0..5 {
        let h = m.open("sys://info").unwrap();
        assert!(!seen.contains(&h));
        seen.push(h);
        assert_eq!(m.close(&h), Ok(h));
    }
}

#[test]
fn read_to_string_replaces_buffer() {
    let mut m = with_sys();
    let h = m.open("sys://info").unwrap();
    let mut text = "old".to_string();
    assert_eq!(m.read_to_string(&h, &mut text), Ok(11));
    assert_eq!(text, "Hello World");
    assert_eq!(m.close(&h), Ok(h));
    let mut after = String::new();
    assert_eq!(m.read_to_string(&h, &mut after), Err(SchemaError::NotOpen(h)));
    assert_eq!(after, "");
}

#[test]
fn fresh_registry_state() {
    let m: SchemaMap<SysSchema> = SchemaMap::new();
    assert_eq!(m.backend_count(), 0);
    assert!(m.handles_left());
    assert!(m.dump_names().is_empty());
}

#[test]
fn text_from_valid_bytes() {
    let mut buf = "old".to_string();
    let r = SchemaMap::<SysSchema>::text_from_bytes(FileId(3), "héllo".as_bytes().to_vec(), &mut buf);
    assert_eq!(r, Ok(6));
    assert_eq!(buf, "héllo");
}

#[test]
fn text_from_invalid_bytes_is_no_read() {
    let mut buf = "old".to_string();
    let r = SchemaMap::<SysSchema>::text_from_bytes(FileId(3), vec![0x66, 0xFF, 0x6F], &mut buf);
    assert_eq!(r, Err(SchemaError::NoRead(FileId(3))));
    assert_eq!(buf, "old");
}
