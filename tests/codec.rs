use backup::codec::{decode_key, encode_key};
use backup::key::key_less;
use backup::name::backup_file_name;
use backup::region::{find_peer, Peer, Region, RegionEpoch};
use backup::response::{saved_files, File};
use backup::task::{parse_sink, Sink, SinkError, Task, BackupRequest};

#[test]
fn encode_pads_groups_of_eight() {
    assert_eq!(encode_key(b""), vec![0, 0, 0, 0, 0, 0, 0, 0, 247]);
    assert_eq!(encode_key(b"1"), vec![b'1', 0, 0, 0, 0, 0, 0, 0, 248]);
    assert_eq!(
        encode_key(b"12345678"),
        vec![b'1', b'2', b'3', b'4', b'5', b'6', b'7', b'8', 255, 0, 0, 0, 0, 0, 0, 0, 0, 247]
    );
    assert_eq!(
        encode_key(b"123456789"),
        vec![b'1', b'2', b'3', b'4', b'5', b'6', b'7', b'8', 255, b'9', 0, 0, 0, 0, 0, 0, 0, 248]
    );
}

#[test]
fn decode_inverts_encode() {
    for k in [&b""[..], b"a", b"abcdefgh", b"abcdefghijklmnopq", &[0, 0, 255]] {
        assert_eq!(decode_key(&encode_key(k)), Some(k.to_vec()));
    }
}

#[test]
fn decode_rejects_malformed() {
    assert_eq!(decode_key(b""), None);
    assert_eq!(decode_key(&[1, 2, 3]), None);
    // a marker that pads more than a group
    assert_eq!(decode_key(&[0, 0, 0, 0, 0, 0, 0, 0, 200]), None);
    // padding that is not zero
    assert_eq!(decode_key(&[b'a', 1, 0, 0, 0, 0, 0, 0, 248]), None);
    // a full group with nothing after it
    assert_eq!(decode_key(&[1, 2, 3, 4, 5, 6, 7, 8, 255]), None);
}

#[test]
fn encoding_keeps_order() {
    let keys: Vec<&[u8]> = vec![b"", b"\x00", b"1", b"12345678", b"123456780", b"2", b"9", b"91"];
    for a in &keys {
        for b in &keys {
            assert_eq!(key_less(a, b), key_less(&encode_key(a), &encode_key(b)), "{:?} {:?}", a, b);
        }
    }
}

#[test]
fn key_less_is_lexicographic() {
    assert!(key_less(b"", b"a"));
    assert!(!key_less(b"a", b""));
    assert!(key_less(b"ab", b"b"));
    assert!(key_less(b"a", b"ab"));
    assert!(!key_less(b"ab", b"ab"));
}

#[test]
fn file_name_joins_store_region_and_version() {
    let region = Region {
        id: 42,
        epoch: RegionEpoch { conf_ver: 3, version: 1007 },
        start_key: vec![],
        end_key: vec![],
        peers: vec![Peer { id: 9, store_id: 1 }, Peer { id: 10, store_id: 2 }],
    };
    assert_eq!(backup_file_name(1, &region), "1_42_1007");
    assert_eq!(backup_file_name(18446744073709551615, &region), "18446744073709551615_42_1007");
    assert_eq!(find_peer(&region, 2), Some(Peer { id: 10, store_id: 2 }));
    assert_eq!(find_peer(&region, 3), None);
}

#[test]
fn sink_destinations() {
    assert!(matches!(parse_sink(b"local:///tmp/x"), Ok(Sink::Local { path }) if path == b"/tmp/x".to_vec()));
    assert!(matches!(parse_sink(b"noop://"), Ok(Sink::Noop)));
    assert_eq!(parse_sink(b"").err(), Some(SinkError::Empty));
    assert_eq!(parse_sink(b"/tmp/x").err(), Some(SinkError::NoScheme));
    assert_eq!(parse_sink(b"s4://bucket").err(), Some(SinkError::UnknownScheme));
    assert_eq!(parse_sink(b"local://").err(), Some(SinkError::EmptyPath));
}

#[test]
fn task_copies_the_request() {
    let req = BackupRequest {
        start_key: b"a".to_vec(),
        end_key: b"z".to_vec(),
        start_version: 5,
        end_version: 5,
        path: "local:///data/b".to_string(),
    };
    let task = Task::new(req).unwrap();
    assert_eq!(task.start_key, b"a".to_vec());
    assert_eq!(task.end_key, b"z".to_vec());
    assert_eq!(task.start_ts, 5);
    assert!(task.is_full_backup());
    assert!(matches!(task.sink, Sink::Local { ref path } if path == &b"/data/b".to_vec()));
}

fn file(cf: &str) -> File {
    File {
        name: "1_1_1".to_string(),
        sha256: vec![],
        crc32: 0,
        size: 0,
        start_key: vec![],
        end_key: vec![],
        start_version: 0,
        end_version: 0,
        cf: cf.to_string(),
    }
}

#[test]
fn one_file_per_non_empty_column_family() {
    assert_eq!(saved_files(None, None).len(), 0);
    assert_eq!(saved_files(None, Some(file("write"))).len(), 1);
    let both = saved_files(Some(file("default")), Some(file("write")));
    assert_eq!(both.len(), 2);
    assert_eq!(both[0].cf, "default");
    assert_eq!(both[1].cf, "write");
}
