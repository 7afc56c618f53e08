use chunked_uploader::config::{Config, ConfigError, Environment, StorageBackendType};

fn empty() -> Environment {
    Environment {
        api_key: None,
        jwt_secret: None,
        storage_backend: None,
        local_storage_path: None,
        temp_storage_path: None,
        smb_host: None,
        smb_port: None,
        smb_user: None,
        smb_pass: None,
        smb_share: None,
        smb_path: None,
        smb_mount_point: None,
        s3_endpoint: None,
        s3_bucket: None,
        s3_region: None,
        chunk_size_mb: None,
        upload_ttl_hours: None,
        max_concurrent_finalizations: None,
        database_path: None,
        server_port: None,
        system_temp_dir: "/tmp".to_string(),
    }
}

fn minimal() -> Environment {
    Environment {
        api_key: Some("key".to_string()),
        jwt_secret: Some("jwt".to_string()),
        ..empty()
    }
}

#[test]
fn defaults_fill_what_is_not_set() {
    let config = Config::from_env(&minimal()).unwrap();
    assert_eq!(config.api_key, "key");
    assert_eq!(config.jwt_secret, "jwt");
    assert_eq!(config.storage_backend, StorageBackendType::Local);
    assert_eq!(config.local_storage_path, "./uploads");
    assert_eq!(config.temp_storage_path, "/tmp/chunked-uploads");
    assert_eq!(config.smb_host, "localhost");
    assert_eq!(config.smb_port, 445);
    assert_eq!(config.smb_user, "");
    assert_eq!(config.smb_pass, "");
    assert_eq!(config.smb_share, "share");
    assert_eq!(config.smb_path, "");
    assert_eq!(config.smb_mount_point, "/Volumes/uploads");
    assert_eq!(config.s3_endpoint, None);
    assert_eq!(config.s3_bucket, "uploads");
    assert_eq!(config.s3_region, "us-east-1");
    assert_eq!(config.chunk_size_mb, 50);
    assert_eq!(config.chunk_size_bytes, 52428800);
    assert_eq!(config.upload_ttl_hours, 24);
    assert_eq!(config.max_concurrent_finalizations, 4);
    assert_eq!(config.database_path, "./uploads.db");
    assert_eq!(config.server_port, 3000);
    assert_eq!(config.body_limit(), 53477376);
}

#[test]
fn set_variables_are_taken_over() {
    let vars = Environment {
        storage_backend: Some("SMB".to_string()),
        local_storage_path: Some("/data".to_string()),
        temp_storage_path: Some("/fast".to_string()),
        smb_host: Some("nas".to_string()),
        smb_port: Some("+1445".to_string()),
        smb_user: Some("u".to_string()),
        smb_pass: Some("p".to_string()),
        smb_share: Some("s".to_string()),
        smb_path: Some("/videos/".to_string()),
        smb_mount_point: Some("/mnt".to_string()),
        s3_endpoint: Some("http://minio".to_string()),
        s3_bucket: Some("b".to_string()),
        s3_region: Some("eu".to_string()),
        chunk_size_mb: Some("8".to_string()),
        upload_ttl_hours: Some("1".to_string()),
        max_concurrent_finalizations: Some("9".to_string()),
        database_path: Some("/db".to_string()),
        server_port: Some("80".to_string()),
        ..minimal()
    };
    let config = Config::from_env(&vars).unwrap();
    assert_eq!(config.storage_backend, StorageBackendType::Smb);
    assert_eq!(config.local_storage_path, "/data");
    assert_eq!(config.temp_storage_path, "/fast");
    assert_eq!(config.smb_host, "nas");
    assert_eq!(config.smb_port, 1445);
    assert_eq!(config.smb_path, "/videos/");
    assert_eq!(config.s3_endpoint, Some("http://minio".to_string()));
    assert_eq!(config.s3_bucket, "b");
    assert_eq!(config.chunk_size_bytes, 8388608);
    assert_eq!(config.upload_ttl_hours, 1);
    assert_eq!(config.max_concurrent_finalizations, 9);
    assert_eq!(config.database_path, "/db");
    assert_eq!(config.server_port, 80);
}

#[test]
fn backend_names_are_read_in_any_case() {
    for (name, backend) in [
        ("s3", StorageBackendType::S3),
        ("S3", StorageBackendType::S3),
        ("smb", StorageBackendType::Smb),
        ("Smb", StorageBackendType::Smb),
        ("local", StorageBackendType::Local),
        ("ftp", StorageBackendType::Local),
        ("", StorageBackendType::Local),
        ("\u{17f}3", StorageBackendType::Local),
    ] {
        let vars = Environment { storage_backend: Some(name.to_string()), ..minimal() };
        assert_eq!(Config::from_env(&vars).unwrap().storage_backend, backend, "{name:?}");
    }
}

#[test]
fn missing_secrets_are_reported_first() {
    let error = Config::from_env(&empty()).unwrap_err();
    assert_eq!(error, ConfigError::MissingApiKey);
    assert_eq!(error.message(), "API_KEY must be set");

    let vars = Environment { jwt_secret: None, smb_port: Some("x".to_string()), ..minimal() };
    let error = Config::from_env(&vars).unwrap_err();
    assert_eq!(error, ConfigError::MissingJwtSecret);
    assert_eq!(error.message(), "JWT_SECRET must be set");
}

#[test]
fn wrong_numbers_are_reported() {
    let bad = Some("x".to_string());
    let cases = [
        (Environment { smb_port: Some("65536".to_string()), ..minimal() }, "Invalid SMB_PORT"),
        (Environment { chunk_size_mb: bad.clone(), ..minimal() }, "Invalid CHUNK_SIZE_MB"),
        (Environment { upload_ttl_hours: Some("-1".to_string()), ..minimal() }, "Invalid UPLOAD_TTL_HOURS"),
        (
            Environment { max_concurrent_finalizations: bad.clone(), ..minimal() },
            "Invalid MAX_CONCURRENT_FINALIZATIONS",
        ),
        (Environment { server_port: Some("".to_string()), ..minimal() }, "Invalid SERVER_PORT"),
    ];
    for (vars, message) in cases {
        assert!(vars.has_chunk_size_in_range());
        assert_eq!(Config::from_env(&vars).unwrap_err().message(), message);
    }
}

#[test]
fn largest_chunk_size_is_recognised() {
    let vars = Environment { chunk_size_mb: Some("17592186044415".to_string()), ..minimal() };
    assert!(vars.has_chunk_size_in_range());
    assert_eq!(Config::from_env(&vars).unwrap().chunk_size_bytes, 18446744073708503040);
    let vars = Environment { chunk_size_mb: Some("17592186044416".to_string()), ..minimal() };
    assert!(!vars.has_chunk_size_in_range());
}
