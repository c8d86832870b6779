use durable_streams_kafka_bridge::offset_store::{
    temp_path, write_atomic, OffsetStore, OffsetStoreError, SaveOutcome, SaveStep, StoredRead,
};
use durable_streams_kafka_bridge::types::Offset;

#[test]
fn round_trips_saved_offsets() {
    let mut store = OffsetStore::open("/tmp/offsets.json", StoredRead::NotFound).unwrap();
    assert_eq!(store.load("/v1/stream/orders"), None);
    store.save("/v1/stream/orders", &Offset::from("o42"));

    let reopened =
        OffsetStore::open("/tmp/offsets.json", StoredRead::Entries(store.entries())).unwrap();
    assert_eq!(reopened.load("/v1/stream/orders"), Some(Offset::from("o42")));
}

#[test]
fn saving_one_stream_leaves_the_others_alone() {
    let entries = vec![
        ("/a".to_string(), "o1".to_string()),
        ("/b".to_string(), "now".to_string()),
        ("/a".to_string(), "o2".to_string()),
    ];
    let mut store = OffsetStore::open("o.json", StoredRead::Entries(entries)).unwrap();
    assert_eq!(store.load("/a"), Some(Offset::from("o2")));
    store.save("/a", &Offset::Start);
    assert_eq!(store.load("/a"), Some(Offset::Start));
    assert_eq!(store.load("/b"), Some(Offset::Now));
    assert_eq!(
        store.entries(),
        vec![
            ("/a".to_string(), "-1".to_string()),
            ("/b".to_string(), "now".to_string()),
        ]
    );
    assert_eq!(store.path(), "o.json");
}

#[test]
fn the_file_is_written_beside_and_renamed() {
    let mut store = OffsetStore::open("var/lib/o.json", StoredRead::NotFound).unwrap();
    let steps = store.save("/a", &Offset::Now);
    assert_eq!(
        steps,
        vec![
            SaveStep::CreateDir { path: "var/lib".to_string() },
            SaveStep::Write { path: "var/lib/o.json.tmp".to_string() },
            SaveStep::Rename {
                from: "var/lib/o.json.tmp".to_string(),
                to: "var/lib/o.json".to_string(),
            },
        ]
    );
    assert_eq!(temp_path("o.json"), "o.json.tmp");
    assert_eq!(temp_path("./o.json"), "./o.json.tmp");
    assert_eq!(temp_path("../o.json"), "../o.json.tmp");
    assert_eq!(temp_path("/o.json"), "/o.json.tmp");
    assert_eq!(temp_path("/./o.json"), "/o.json.tmp");
    assert_eq!(temp_path("a//o.json"), "a/o.json.tmp");
    assert_eq!(temp_path("a/./o.json"), "a/o.json.tmp");
    assert_eq!(temp_path("a/o.json/"), "a/o.json.tmp");
    assert_eq!(temp_path("a/.."), "a/../offsets.json.tmp");
    assert_eq!(temp_path("../"), "../offsets.json.tmp");
    assert_eq!(temp_path("."), "./offsets.json.tmp");
    assert_eq!(temp_path("/"), "/offsets.json.tmp");
    assert_eq!(temp_path("/."), "/./offsets.json.tmp");
    assert_eq!(temp_path(""), "offsets.json.tmp");
    assert_eq!(temp_path("/a:b/o.json"), "/a:b/o.json.tmp");
    for path in ["c:o.json", "c:\\d\\o.json", "//host/o.json", "/d/a:b", "a\\b", "\\\\?\\c:\\o"] {
        assert_ne!(temp_path(path), path);
    }
    assert_eq!(write_atomic("o", None, "t".to_string()).len(), 2);
}

#[test]
fn the_directory_of_the_file_is_made_first() {
    let first = |path: &str| {
        let mut store = OffsetStore::open(path, StoredRead::NotFound).unwrap();
        store.save("/a", &Offset::Now).remove(0)
    };
    let directory = |path: &str| SaveStep::CreateDir { path: path.to_string() };
    assert_eq!(first("./o.json"), directory("."));
    assert_eq!(first("../o.json"), directory(".."));
    assert_eq!(first("/o.json"), directory("/"));
    assert_eq!(first("a//o.json"), directory("a"));
    assert_eq!(first("o.json"), directory(""));
    assert_eq!(first(""), SaveStep::Write { path: "offsets.json.tmp".to_string() });
}

#[test]
fn the_file_is_replaced_as_a_whole() {
    let mut store = OffsetStore::open("./o.json", StoredRead::NotFound).unwrap();
    let mut files = vec![("./o.json".to_string(), "old")];
    let steps = store.save("/a", &Offset::Now);
    let count = steps.len();
    for (taken, step) in steps.into_iter().enumerate() {
        match step {
            SaveStep::CreateDir { .. } => {}
            SaveStep::Write { path } => files.push((path, "new")),
            SaveStep::Rename { from, to } => {
                files.retain(|(path, _)| *path != to);
                for file in &mut files {
                    if file.0 == from {
                        file.0 = to.clone();
                    }
                }
            }
        }
        let expected = if taken + 1 < count { "old" } else { "new" };
        assert!(files.contains(&("./o.json".to_string(), expected)));
    }
    assert_eq!(files.len(), 1);
}

#[test]
fn files_that_cannot_be_read_are_reported() {
    let open = |read: StoredRead| OffsetStore::open("o.json", read).unwrap_err();
    let error = open(StoredRead::Malformed("line 1".to_string()));
    assert!(matches!(&error, OffsetStoreError::Parse { source, .. } if source == "line 1"));
    assert_eq!(error.message(), "failed to parse offset store `o.json`");
    let error = open(StoredRead::Failed("denied".to_string()));
    assert!(matches!(&error, OffsetStoreError::Read { source, .. } if source == "denied"));
    assert_eq!(error.message(), "failed to read offset store `o.json`");
}

#[test]
fn steps_that_fail_are_reported() {
    let failed = |step: SaveStep| {
        step.taken(SaveOutcome::Failed("denied".to_string())).unwrap_err().message()
    };
    let write = SaveStep::Write { path: "t".to_string() };
    assert!(write.taken(SaveOutcome::Done).is_ok());
    match write.taken(SaveOutcome::NoText("bad".to_string())) {
        Err(OffsetStoreError::Serialize(source)) => assert_eq!(source, "bad"),
        other => panic!("expected no text, got {other:?}"),
    }
    assert_eq!(
        failed(SaveStep::CreateDir { path: "d".to_string() }),
        "failed to create directory `d`"
    );
    assert_eq!(
        failed(SaveStep::Write { path: "t".to_string() }),
        "failed to write offset store `t`"
    );
    assert_eq!(
        failed(SaveStep::Rename { from: "t".to_string(), to: "o".to_string() }),
        "failed to rename offset store from `t` to `o`"
    );
    assert_eq!(
        OffsetStoreError::Serialize("deep".to_string()).message(),
        "failed to serialize offset store"
    );
}
