use fsdb::Bucket;
use fsdb::Error;
use fsdb::Fsdb;
use fsdb::IoKind;

fn enc(n: u8) -> Vec<u8> {
    rmp_serde::to_vec(&n).expect("encode")
}

fn dec(bytes: &[u8]) -> u8 {
    rmp_serde::from_slice(bytes).expect("decode")
}

fn fresh_bucket(base: &str, name: &str) -> Bucket {
    let db = Fsdb::new(base).expect("fail Fsdb::new");
    db.bucket(name).expect("fail bucket")
}

#[test]
fn test_db() {
    let db = Fsdb::new("testdb").expect("fail Fsdb::new");
    let mut b = db.bucket("hi").expect("fail bucket");
    b.set_max_file_name(8);
    let t1 = enc(1);
    b.put("keythatisverylong", t1.clone()).expect("failed to save");
    let t2 = b.get("keythatisverylong").expect("fail to load");
    assert_eq!(t1, t2);
    let list = b.list().expect("fail list");
    assert_eq!(list, vec!["keythati".to_string()]);
}

#[test]
fn test_within() {
    let db = Fsdb::new("testdb2").expect("fail Fsdb::new");
    let mut b = db.bucket("hi").expect("fail bucket");
    let t1 = enc(1);
    b.put_within("key", t1.clone(), "sub1").expect("failed to save");
    let t2 = b.get_within("key", "sub1").expect("fail to load");
    assert_eq!(t1, t2);
    let list = b.list_within("sub1").expect("fail list");
    assert_eq!(list, vec!["key".to_string()]);
}

#[test]
fn round_trip_values() {
    let mut b = fresh_bucket("db", "round");
    for n in [0u8, 1, 42, 255] {
        b.put("slot", enc(n)).expect("put");
        let back = b.get("slot").expect("get");
        assert_eq!(dec(&back), n);
    }
    b.put("empty", Vec::new()).expect("put");
    assert_eq!(b.get("empty").expect("get"), Vec::<u8>::new());
}

#[test]
fn overwrite_keeps_last_value() {
    let mut b = fresh_bucket("db", "overwrite");
    b.put("k", enc(1)).expect("put");
    b.put("k", enc(2)).expect("put");
    assert_eq!(dec(&b.get("k").expect("get")), 2);
    let list = b.list().expect("list");
    assert_eq!(list.len(), 1);
}

#[test]
fn exists_consistency() {
    let mut b = fresh_bucket("db", "exists");
    assert!(!b.exists_key("k"));
    b.put("k", enc(9)).expect("put");
    assert!(b.exists_key("k"));
    b.remove("k").expect("remove");
    assert!(!b.exists_key("k"));
}

#[test]
fn truncation_scenario() {
    let mut b = fresh_bucket("db", "trunc");
    b.set_max_file_name(8);
    b.put("keythatisverylong", enc(1)).expect("put");
    let list = b.list().expect("list");
    assert_eq!(list, vec!["keythati".to_string()]);
    let t = b.get("keythatisverylong").expect("get re-truncates");
    assert_eq!(dec(&t), 1);
    assert!(b.exists_key("keythatisverylong"));
    assert!(b.exists_key("keythati"));
}

#[test]
fn truncation_collision_last_write_wins() {
    let mut b = fresh_bucket("db", "collide");
    b.set_max_file_name(8);
    b.put("prefixes-one", enc(1)).expect("put");
    b.put("prefixes-two", enc(2)).expect("put");
    let list = b.list().expect("list");
    assert_eq!(list, vec!["prefixes".to_string()]);
    assert_eq!(dec(&b.get("prefixes-one").expect("get")), 2);
}

#[test]
fn truncation_on_character_boundary() {
    let mut b = fresh_bucket("db", "chars");
    b.set_max_file_name(2);
    b.put("h\u{e9}llo", enc(5)).expect("put");
    let list = b.list().expect("list");
    assert_eq!(list, vec!["h\u{e9}".to_string()]);
    assert_eq!(dec(&b.get("h\u{e9}llo").expect("get")), 5);
}

#[test]
fn no_retroactive_rename_after_cap_change() {
    let mut b = fresh_bucket("db", "capchange");
    b.put("longkey", enc(3)).expect("put");
    b.set_max_file_name(4);
    assert_eq!(b.get("longkey"), Err(Error::Io(IoKind::NotFound)));
    let list = b.list().expect("list");
    assert_eq!(list, vec!["longkey".to_string()]);
}

#[test]
fn listing_completeness() {
    let mut b = fresh_bucket("db", "listing");
    b.put("alpha", enc(1)).expect("put");
    b.put("beta", enc(2)).expect("put");
    b.put("gamma", enc(3)).expect("put");
    b.put("beta", enc(4)).expect("put twice");
    let mut list = b.list().expect("list");
    list.sort();
    assert_eq!(
        list,
        vec!["alpha".to_string(), "beta".to_string(), "gamma".to_string()]
    );
}

#[test]
fn list_includes_sub_namespaces() {
    let mut b = fresh_bucket("db", "mixedlist");
    b.put("file", enc(1)).expect("put");
    b.put_within("k", enc(2), "subdir").expect("put_within");
    let mut list = b.list().expect("list");
    list.sort();
    assert_eq!(list, vec!["file".to_string(), "subdir".to_string()]);
}

#[test]
fn within_isolation() {
    let mut b = fresh_bucket("db", "iso");
    b.put_within("key", enc(7), "a").expect("put_within");
    assert_eq!(dec(&b.get_within("key", "a").expect("get_within")), 7);
    assert_eq!(b.get("key"), Err(Error::Io(IoKind::NotFound)));
    assert!(!b.exists_key("key"));
    assert!(b.exists_within("key", "a"));
    assert!(!b.exists_within("key", "b"));
}

#[test]
fn within_missing_sub_namespace() {
    let mut b = fresh_bucket("db", "nosub");
    assert_eq!(b.get_within("k", "missing"), Err(Error::Io(IoKind::NotFound)));
    assert_eq!(b.remove_within("k", "missing"), Err(Error::Io(IoKind::NotFound)));
    assert_eq!(b.list_within("missing"), Err(Error::Io(IoKind::NotFound)));
    assert_eq!(b.clear_within("missing"), Err(Error::Io(IoKind::NotFound)));
    assert!(!b.exists_within("k", "missing"));
}

#[test]
fn remove_within_keeps_directory() {
    let mut b = fresh_bucket("db", "rmwithin");
    b.put_within("k", enc(1), "s").expect("put_within");
    b.remove_within("k", "s").expect("remove_within");
    assert!(!b.exists_within("k", "s"));
    let list = b.list_within("s").expect("sub-directory still listable");
    assert!(list.is_empty());
    assert_eq!(b.remove_within("k", "s"), Err(Error::Io(IoKind::NotFound)));
}

#[test]
fn clear_semantics() {
    let mut b = fresh_bucket("db", "cleared");
    b.put("k", enc(1)).expect("put");
    b.put_within("k2", enc(2), "s").expect("put_within");
    b.clear().expect("clear");
    assert_eq!(b.list(), Err(Error::Io(IoKind::NotFound)));
    assert!(!b.exists_key("k"));
    assert!(!b.exists_within("k2", "s"));
    assert_eq!(b.get("k"), Err(Error::Io(IoKind::NotFound)));
    assert_eq!(b.put("k", enc(1)), Err(Error::Io(IoKind::NotFound)));
    assert_eq!(b.clear(), Err(Error::Io(IoKind::NotFound)));
}

#[test]
fn clear_within_leaves_top_level() {
    let mut b = fresh_bucket("db", "clearwithin");
    b.put("top", enc(1)).expect("put");
    b.put_within("k", enc(2), "s").expect("put_within");
    b.clear_within("s").expect("clear_within");
    assert_eq!(b.list_within("s"), Err(Error::Io(IoKind::NotFound)));
    assert_eq!(dec(&b.get("top").expect("get")), 1);
    let list = b.list().expect("list");
    assert_eq!(list, vec!["top".to_string()]);
}

#[test]
fn name_taken_by_other_kind_of_entry() {
    let mut b = fresh_bucket("db", "taken");
    b.put_within("k", enc(1), "s").expect("put_within");
    assert_eq!(b.get("s"), Err(Error::Io(IoKind::Other)));
    assert_eq!(b.remove("s"), Err(Error::Io(IoKind::Other)));
    assert_eq!(b.put("s", enc(2)), Err(Error::Io(IoKind::Other)));
    b.put("f", enc(3)).expect("put");
    assert_eq!(b.put_within("k", enc(4), "f"), Err(Error::Io(IoKind::Other)));
    assert_eq!(b.list_within("f"), Err(Error::Io(IoKind::Other)));
    assert_eq!(b.clear_within("f"), Err(Error::Io(IoKind::Other)));
}

#[test]
fn missing_key_errors() {
    let mut b = fresh_bucket("db", "missing");
    assert_eq!(b.get("nope"), Err(Error::Io(IoKind::NotFound)));
    assert_eq!(b.remove("nope"), Err(Error::Io(IoKind::NotFound)));
}

#[test]
fn concrete_scenario() {
    let db = Fsdb::new("db").expect("fail Fsdb::new");
    let mut b = db.bucket("hi").expect("fail bucket");
    b.put("key", enc(1)).expect("put");
    assert_eq!(dec(&b.get("key").expect("get")), 1);
    let list = b.list().expect("list");
    assert_eq!(list, vec!["key".to_string()]);
}

#[test]
fn resolved_paths() {
    let db = Fsdb::new("db").expect("fail Fsdb::new");
    let mut b = db.bucket("hi").expect("fail bucket");
    assert_eq!(b.dir_path(), "db/hi");
    assert_eq!(b.file_path("k"), "db/hi/k");
    assert_eq!(b.sub_dir_path("s"), "db/hi/s");
    assert_eq!(b.sub_file_path("k", "s"), "db/hi/s/k");
    b.set_max_file_name(1);
    assert_eq!(b.file_path("key"), "db/hi/k");
    assert_eq!(b.sub_file_path("key", "sub"), "db/hi/sub/k");
}
