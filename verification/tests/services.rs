use short_crypt::ShortCrypt;
use slight::blob_store::{find_bucket, key_exists, read_window, BlobStore, BlobStoreImplementors, ContainerMetadata, GetObjectFailure};
use slight::common::BasicState;
use slight::configs::{usersecrets_get, usersecrets_set, ConfigProvider, ConfigSource, ConfigTarget, ConfigType, Configs, Error as ConfigsError};
use slight::locking::{lease_lock_next, DistributedLocking, DistributedLockingImplementor, LeaseLockStep, Lockd};
use slight::parsers::{InterfaceAtRelease, InterfaceParser, Version, WasmModuleParser};

fn state(implementor: &str, name: &str) -> BasicState {
    BasicState {
        secret_store: None,
        implementor: implementor.to_string(),
        name: name.to_string(),
        configs_map: None,
        slightfile_path: "slightfile.toml".to_string(),
    }
}

fn parts(v: &Version) -> (u64, u64, u64, String, String) {
    (v.major(), v.minor(), v.patch(), v.pre().to_string(), v.build().to_string())
}

#[test]
fn interface_values_are_parsed() {
    let parser = InterfaceParser;
    let parsed = parser.parse_value("keyvalue@v0.1.0").unwrap();
    assert_eq!(parsed.name, "keyvalue");
    assert_eq!(parts(&parsed.version), (0, 1, 0, String::new(), String::new()));
    let parsed = parser.parse_value("http-server@v1.2.3-beta@extra").unwrap();
    assert_eq!(parsed.name, "http-server");
    assert_eq!(parts(&parsed.version), (1, 2, 3, "beta".to_string(), String::new()));
    let parsed = parser.parse_value("kv@v10.20.30-rc.1+build.5").unwrap();
    assert_eq!(
        parts(&parsed.version),
        (10, 20, 30, "rc.1".to_string(), "build.5".to_string())
    );
    let bad = parser.parse_value("keyvalue@vnext").unwrap_err();
    assert_eq!(bad.value, "keyvalue@vnext");
    assert!(parser.parse_value("keyvalue@v").is_err());
    assert!(parser.parse_value("keyvalue@v01.0.0").is_err());
    let at = InterfaceAtRelease::new("blob", "2.0.0");
    assert_eq!(at.name, "blob");
    assert_eq!(parts(&at.version), (2, 0, 0, String::new(), String::new()));
    assert!(InterfaceAtRelease::try_new("blob", "two").is_none());
    assert!(InterfaceAtRelease::try_new("blob", "").is_none());
    assert!(InterfaceAtRelease::try_new("blob", "1.0.0").is_some());
}

#[test]
fn interface_text_round_trip() {
    let parser = InterfaceParser;
    for text in ["keyvalue@v0.1.0", "kv@v10.20.30-rc.1+build.5", "x@v1.0.0+meta"] {
        let parsed = parser.parse_value(text).unwrap();
        assert_eq!(parsed.to_text(), text);
        let again = parser.parse_value(&parsed.to_text()).unwrap();
        assert_eq!(again.name, parsed.name);
        assert_eq!(parts(&again.version), parts(&parsed.version));
    }
    // the text agrees with the version crate's own display
    let v = semver::Version::parse("3.4.5-alpha+b1").unwrap();
    let at = InterfaceAtRelease::new("cap", "3.4.5-alpha+b1");
    assert_eq!(at.to_text(), format!("cap@v{v}"));
}

#[test]
fn wasm_modules_need_the_wasm_extension() {
    let parser = WasmModuleParser;
    assert_eq!(parser.parse_value("app.wasm").unwrap().unwrap().path, "app.wasm");
    assert_eq!(parser.parse_value("dir/app.wasm").unwrap().unwrap().path, "dir/app.wasm");
    assert_eq!(parser.parse_value("app.wat").unwrap().unwrap_err().value, "app.wat");
    assert!(parser.parse_value("app").is_none());
    assert!(parser.parse_value("app.tar.gz").unwrap().is_err());
    assert_eq!(parser.parse_with_extension("app.wasm", "wasm").unwrap().path, "app.wasm");
    assert_eq!(parser.parse_with_extension("app.wat", "wat").unwrap_err().value, "app.wat");
    assert!(parser.parse_with_extension("app.WASM", "WASM").is_err());
}

#[test]
fn blob_store_names_and_state() {
    assert_eq!(BlobStoreImplementors::default(), BlobStoreImplementors::Unset);
    assert_eq!(
        BlobStoreImplementors::from_name("blobstore.aws_s3"),
        Some(BlobStoreImplementors::S3)
    );
    assert_eq!(BlobStoreImplementors::from_name("blobstore.azblob"), None);
    assert_eq!(BlobStoreImplementors::S3.name(), "blobstore.aws_s3");
    let store = BlobStore::new(
        "blobstore.aws_s3".to_string(),
        vec![
            ("blobstore.aws_s3".to_string(), state("blobstore.aws_s3", "default")),
            ("photos".to_string(), state("blobstore.aws_s3", "photos")),
        ],
    );
    assert_eq!(store.fetch_state("photos").name, "photos");
    assert_eq!(store.fetch_state("other").name, "default");
    assert_eq!(store.container_implementor("photos"), BlobStoreImplementors::S3);
}

#[test]
fn blob_store_answers() {
    let md = ContainerMetadata::from_bucket(Some("b".to_string()), Some(42));
    assert_eq!(md.name, "b");
    assert_eq!(md.created_at, 42);
    let md = ContainerMetadata::from_bucket(None, None);
    assert_eq!(md.name, "");
    assert_eq!(md.created_at, 0);
    let buckets = vec![None, Some("a".to_string()), Some("b".to_string()), Some("a".to_string())];
    assert_eq!(find_bucket(&buckets, "a"), Ok(1));
    assert_eq!(find_bucket(&buckets, ""), Ok(0));
    assert_eq!(find_bucket(&buckets, "z"), Err("container z not found".to_string()));
    assert_eq!(key_exists(Ok(())), Ok(true));
    assert_eq!(key_exists(Err(GetObjectFailure::NoSuchKey)), Ok(false));
    assert_eq!(
        key_exists(Err(GetObjectFailure::Other("denied".to_string()))),
        Err("denied".to_string())
    );
    let body = vec![1u8, 2, 3, 4];
    assert_eq!(read_window(0, 4, body.clone()), Some(vec![]));
    assert_eq!(read_window(10, 4, body.clone()), Some(vec![1, 2, 3, 4]));
    assert_eq!(read_window(2, 4, body.clone()), Some(vec![1, 2]));
    assert_eq!(read_window(4, 4, body.clone()), Some(vec![1, 2, 3, 4]));
    assert_eq!(read_window(3, 9, vec![1, 2]), Some(vec![1, 2]));
}

#[test]
fn configs_open_get_set() {
    let mut configs = Configs::new();
    let rd = configs.configs_open("usersecrets").unwrap();
    assert!(uuid::Uuid::parse_str(&rd).is_ok());
    let read = configs.configs_get(&rd, "TOKEN").unwrap();
    assert_eq!(read.key, "TOKEN");
    let write = configs.configs_set(&rd, "TOKEN", b"abc").unwrap();
    assert_eq!(write.key, "TOKEN");
    assert_eq!(write.value, b"abc".to_vec());
    match configs.configs_open("vault") {
        Err(ConfigsError::ErrorWithDescription(m)) => assert_eq!(
            m,
            "failed to match config name to any known service implementations"
        ),
        Ok(_) => panic!("an unknown store kind was opened"),
    }
    match configs.configs_get("nope", "TOKEN") {
        Err(ConfigsError::ErrorWithDescription(m)) => {
            assert_eq!(m, "failed to parse resource descriptor")
        }
        Ok(_) => panic!("a descriptor that is not a UUID was accepted"),
    }
    let unknown = "67e55044-10b1-426f-9247-bb680e5fe0c8";
    match configs.configs_get(unknown, "TOKEN") {
        Err(ConfigsError::ErrorWithDescription(m)) => {
            assert_eq!(m, format!("failed because key '{unknown}' was not found"))
        }
        Ok(_) => panic!("a descriptor of no store was accepted"),
    }
    assert_eq!(ConfigType::default(), ConfigType::Local);
    assert_eq!(*ConfigType::new(ConfigType::UserSecrets).unwrap(), ConfigType::UserSecrets);
}

#[test]
fn providers_choose_the_source() {
    assert_eq!(ConfigProvider::from_name("envvars"), Some(ConfigProvider::EnvVars));
    assert_eq!(ConfigProvider::from_name("usersecrets"), Some(ConfigProvider::UserSecrets));
    assert_eq!(ConfigProvider::from_name("local"), None);
    assert!(matches!(slight::configs::get("envvars", "HOME", "f.toml"), ConfigSource::EnvVar { name } if name == "HOME"));
    assert!(matches!(
        slight::configs::get("usersecrets", "KEY", "f.toml"),
        ConfigSource::UserSecret { key, toml_file_path } if key == "KEY" && toml_file_path == "f.toml"
    ));
    assert!(matches!(
        slight::configs::set("envvars", "A", b"1", "f.toml"),
        ConfigTarget::EnvVar { name, value } if name == "A" && value == b"1".to_vec()
    ));
    assert!(matches!(
        slight::configs::set("usersecrets", "A", b"1", "f.toml"),
        ConfigTarget::UserSecret { key, value, toml_file_path }
            if key == "A" && value == b"1".to_vec() && toml_file_path == "f.toml"
    ));
}

#[test]
fn user_secrets_are_decrypted() {
    let sc = ShortCrypt::new("magickey");
    let token = sc.encrypt_to_url_component("articles");
    let secrets = vec![
        ("OTHER".to_string(), sc.encrypt_to_url_component("x")),
        ("TOKEN".to_string(), token.clone()),
        ("TOKEN".to_string(), "garbage".to_string()),
    ];
    assert_eq!(
        usersecrets_get(Some("magickey".to_string()), Ok(Some(secrets.clone())), "TOKEN"),
        Ok(b"articles".to_vec())
    );
    assert_eq!(
        usersecrets_get(None, Ok(Some(secrets.clone())), "TOKEN"),
        Err("failed because user secrets has never been initialized".to_string())
    );
    assert_eq!(
        usersecrets_get(Some("k".to_string()), Err("no file".to_string()), "TOKEN"),
        Err("no file".to_string())
    );
    assert_eq!(
        usersecrets_get(Some("k".to_string()), Ok(None), "TOKEN"),
        Err("failed because toml file has no secrets".to_string())
    );
    assert_eq!(
        usersecrets_get(Some("magickey".to_string()), Ok(Some(secrets.clone())), "MISSING"),
        Err("failed because this secret isn't encrypted in the toml file".to_string())
    );
    assert_eq!(
        usersecrets_get(
            Some("magickey".to_string()),
            Ok(Some(vec![("T".to_string(), "!!".to_string())])),
            "T"
        ),
        Err("The URL component is incorrect.".to_string())
    );
}

#[test]
fn user_secrets_read_after_write() {
    let secrets = vec![
        ("A".to_string(), "x".to_string()),
        ("TOKEN".to_string(), "old".to_string()),
        ("B".to_string(), "y".to_string()),
        ("TOKEN".to_string(), "older".to_string()),
    ];
    let written = usersecrets_set("magickey", &secrets, "TOKEN", b"fresh");
    assert_eq!(written.len(), 3);
    assert_eq!(written[0], ("A".to_string(), "x".to_string()));
    assert_eq!(written[1], ("B".to_string(), "y".to_string()));
    assert_eq!(written[2].0, "TOKEN");
    assert_eq!(
        written[2].1,
        ShortCrypt::new("magickey").encrypt_to_url_component("fresh")
    );
    assert_eq!(
        usersecrets_get(Some("magickey".to_string()), Ok(Some(written)), "TOKEN"),
        Ok(b"fresh".to_vec())
    );
}

#[test]
fn locking_opens_etcd() {
    let dl = DistributedLocking::new(
        "distributed_locking.etcd".to_string(),
        vec![("distributed_locking.etcd".to_string(), state("lockd.etcd", "x"))],
    );
    assert_eq!(
        dl.distributed_locking_open("anything").distributed_locking_implementor,
        DistributedLockingImplementor::Etcd
    );
    assert_eq!(
        DistributedLockingImplementor::from_name("distributed_locking.etcd"),
        Some(DistributedLockingImplementor::Etcd)
    );
    assert_eq!(DistributedLockingImplementor::from_name("lockd.redis"), None);
    let mut lockd = Lockd::new("lockd.etcd".to_string());
    let a = lockd.lockd_open();
    let b = lockd.lockd_open();
    assert_eq!(a.lockd_implementor, DistributedLockingImplementor::Etcd);
    assert!(uuid::Uuid::parse_str(&a.resource_descriptor).is_ok());
    assert_ne!(a.resource_descriptor, b.resource_descriptor);
    assert!(matches!(lease_lock_next(1, Err("expired".to_string())), LeaseLockStep::Retry));
    assert!(matches!(lease_lock_next(2, Err("expired".to_string())), LeaseLockStep::Done(Err(_))));
    assert!(matches!(lease_lock_next(1, Ok(vec![9])), LeaseLockStep::Done(Ok(k)) if k == vec![9]));
}
