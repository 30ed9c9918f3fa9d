use slight::kv_filesystem::{Error as DirError, KvFilesystem};
use slight::common::{find_state, BasicState};
use slight::keyvalue::{Keyvalue, KeyvalueImplementors, RedisImplementor as ContainerRedis};
use slight::kv::{Error as KvError, Kv, KvImplementors, RedisCommand, RedisImplementor};
use slight::kv_dispatcher::{Error as DispatchError, KvDispatcher, ResourceDescriptor};
use slight::kv_fs::{Error as FsError, KV_FS};

fn state(implementor: &str, name: &str) -> BasicState {
    BasicState::new(
        None,
        implementor.to_string(),
        name.to_string(),
        None,
        "slightfile.toml".to_string(),
    )
}

#[test]
fn state_lookup_prefers_the_name() {
    let store = vec![
        ("kv.redis".to_string(), state("kv.redis", "default")),
        ("orders".to_string(), state("kv.filesystem", "orders")),
    ];
    assert_eq!(find_state(&store, "orders", "kv.redis").unwrap().implementor, "kv.filesystem");
    assert_eq!(find_state(&store, "other", "kv.redis").unwrap().implementor, "kv.redis");
    assert!(find_state(&store, "other", "kv.azblob").is_none());
}

#[test]
fn kv_open_picks_the_implementation() {
    let mut kv = Kv::new(
        "kv.redis".to_string(),
        vec![
            ("kv.redis".to_string(), state("kv.redis", "a")),
            ("files".to_string(), state("kv.filesystem", "files")),
        ],
    );
    let opened = kv.kv_open("files").unwrap();
    assert_eq!(opened.kv_implementor, KvImplementors::Filesystem);
    assert_eq!(opened.name, "files");
    assert!(uuid::Uuid::parse_str(&opened.resource_descriptor).is_ok());
    let other = kv.kv_open("cache").unwrap();
    assert_eq!(other.kv_implementor, KvImplementors::Redis);
    let watched = kv.kv_watch(&other, "k").unwrap();
    assert_eq!(watched.rd, other.resource_descriptor);
    assert_eq!(watched.key, "k");
    assert_eq!(KvImplementors::from_name("kv.azblob"), Some(KvImplementors::AzBlob));
    assert_eq!(KvImplementors::from_name("kv.awsdynamodb"), Some(KvImplementors::AwsDynamoDb));
    assert_eq!(KvImplementors::from_name("kv.unknown"), None);
}

#[test]
fn redis_commands_and_replies() {
    let r = RedisImplementor::new();
    assert!(matches!(r.get("k"), RedisCommand::Get { key } if key == "k"));
    assert!(matches!(r.set("k", b"v"), RedisCommand::SetValue { key, value } if key == "k" && value == b"v".to_vec()));
    assert!(matches!(r.delete("k"), RedisCommand::Del { key } if key == "k"));
    assert_eq!(r.get_reply(vec![7]).unwrap(), vec![7]);
    match r.get_reply(vec![]) {
        Err(KvError::ErrorWithDescription(m)) => assert_eq!(m, "key not found"),
        Ok(v) => panic!("unexpected value {v:?}"),
    }
}

#[test]
fn container_keys_are_namespaced() {
    let c = ContainerRedis::new("box");
    assert_eq!(c.key_for("k"), "box:k");
    assert!(matches!(c.get("k"), RedisCommand::Get { key } if key == "box:k"));
    assert!(matches!(c.set("k", b"1"), RedisCommand::SetValue { key, value } if key == "box:k" && value == vec![b'1']));
    assert!(matches!(c.delete("k"), RedisCommand::Del { key } if key == "box:k"));
    assert!(matches!(c.keys(), RedisCommand::Keys { pattern } if pattern == "box:*"));
    assert_eq!(
        c.keys_reply(vec!["box:a".to_string(), "box:b".to_string(), "other".to_string()]),
        vec!["a".to_string(), "b".to_string(), "other".to_string()]
    );
    // only the prefix at the front is taken off
    assert_eq!(
        c.keys_reply(vec!["box:xbox:y".to_string(), "xbox:a".to_string()]),
        vec!["xbox:y".to_string(), "xbox:a".to_string()]
    );
    // a written key is listed again as itself
    let written = c.key_for("plain");
    assert_eq!(c.keys_reply(vec![written]), vec!["plain".to_string()]);
    assert!(c.get_reply(vec![]).is_err());
}

#[test]
fn keyvalue_open_picks_the_implementation() {
    let kv = Keyvalue::new(
        "keyvalue.redis@v1".to_string(),
        vec![
            ("keyvalue.redis@v1".to_string(), state("keyvalue.redis@v1", "a")),
            ("docs".to_string(), state("keyvalue.azblob", "docs")),
        ],
    );
    let docs = kv.keyvalue_open("docs");
    assert_eq!(docs.keyvalue_implementor, KeyvalueImplementors::AzBlob);
    assert_eq!(docs.name, "docs");
    let other = kv.keyvalue_open("cache");
    assert_eq!(other.keyvalue_implementor, KeyvalueImplementors::Redis);
    assert_eq!(
        KeyvalueImplementors::from_name("keyvalue.filesystem"),
        Some(KeyvalueImplementors::Filesystem)
    );
    assert_eq!(
        KeyvalueImplementors::from_name("keyvalue.awsdynamodb@v1"),
        Some(KeyvalueImplementors::AwsDynamoDb)
    );
    assert_eq!(KeyvalueImplementors::from_name("keyvalue.redis@v2"), None);
}

#[test]
fn file_store_has_one_descriptor() {
    let mut fs = KV_FS::new("/tmp/store".to_string());
    assert_eq!(fs.path(), "/tmp/store");
    assert_eq!(fs.get_kv(), Ok(0));
    assert_eq!(fs.check_descriptor(&0), Ok(()));
    assert_eq!(fs.check_descriptor(&1), Err(FsError::Error));
    assert_eq!(fs.read_outcome(None), Ok(vec![]));
    assert_eq!(fs.read_outcome(Some(Ok(vec![4, 5]))), Ok(vec![4, 5]));
    assert_eq!(fs.read_outcome(Some(Err(()))), Err(FsError::Error));
    assert_eq!(KV_FS::default().path(), "");
}

#[test]
fn dispatcher_picks_backend_by_scheme() {
    let mut d = KvDispatcher {};
    match d.get_kv("file:///tmp/kv") {
        Ok(ResourceDescriptor::Filesystem(u)) => assert_eq!(u, "file:///tmp/kv"),
        other => panic!("unexpected {other:?}"),
    }
    match d.get_kv("azblob://account/container") {
        Ok(ResourceDescriptor::AzureBlob(u)) => assert_eq!(u, "azblob://account/container"),
        other => panic!("unexpected {other:?}"),
    }
    // the scheme is compared lower-cased
    assert!(matches!(d.get_kv("FILE:///tmp/kv"), Ok(ResourceDescriptor::Filesystem(_))));
    assert!(matches!(d.get_kv("https://example.com"), Err(DispatchError::OtherError)));
    assert!(d.try_get_kv("not a url").is_none());
    assert!(matches!(d.try_get_kv("file:///x"), Some(Ok(ResourceDescriptor::Filesystem(_)))));
}

#[test]
fn directory_stores_are_found_by_descriptor() {
    let mut fs = KvFilesystem::new();
    let rd = fs.kv_open("orders").unwrap();
    assert!(uuid::Uuid::parse_str(&rd).is_ok());
    assert_eq!(fs.kv_base(&rd).unwrap(), "/tmp/orders");
    let rd2 = fs.kv_open("users").unwrap();
    assert_eq!(fs.kv_base(&rd2).unwrap(), "/tmp/users");
    assert_eq!(fs.kv_base(&rd).unwrap(), "/tmp/orders");
    match fs.kv_base("bad") {
        Err(DirError::ErrorWithDescription(m)) => assert_eq!(
            m,
            "internal error: failed to parse internal handle to this resource"
        ),
        Ok(b) => panic!("unexpected base {b}"),
    }
    let unknown = "67e55044-10b1-426f-9247-bb680e5fe0c8";
    match fs.kv_base(unknown) {
        Err(DirError::ErrorWithDescription(m)) => {
            assert_eq!(m, format!("failed because key '{unknown}' was not found"))
        }
        Ok(b) => panic!("unexpected base {b}"),
    }
    let ob = fs.kv_watch(&rd, "k").unwrap();
    assert_eq!(ob.rd, rd);
    assert_eq!(ob.key, "k");
}

#[test]
fn file_paths_and_dynamodb_replies() {
    assert_eq!(slight::kv_fs::path("k", "/tmp/store"), Some("/tmp/store/k".to_string()));
    match slight::keyvalue::dynamodb_get_reply("k", vec![]) {
        Err(slight::keyvalue::KeyvalueError::UnexpectedError(m)) => {
            assert_eq!(m, "no value found for key: k")
        }
        Ok(v) => panic!("unexpected value {v:?}"),
    }
    assert_eq!(
        slight::keyvalue::dynamodb_get_reply("k", vec!["a".to_string(), "é".to_string()]).unwrap(),
        "é".as_bytes().to_vec()
    );
}
