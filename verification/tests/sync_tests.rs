use twopass::sync::{
    aliyun_object_url, generate_aliyun_signature, generate_tencent_signature, http_date,
    not_found_message, remote_version_from, tencent_object_url, update_available, upload_result,
    OssConfig, SyncManager, SyncProvider, SyncResult,
};

struct MockProvider {
    remote_version: Option<i64>,
}

impl SyncProvider for MockProvider {
    fn name(&self) -> &str {
        "mock"
    }

    fn test_connection(&self, _config: &str) -> Result<(), String> {
        Ok(())
    }

    fn upload(&self, data: &[u8], _config: &str) -> Result<SyncResult, String> {
        Ok(SyncResult {
            success: true,
            message: format!("stored {} bytes", data.len()),
            version: Some(7),
            timestamp: Some(7),
        })
    }

    fn download(&self, _config: &str) -> Result<Vec<u8>, String> {
        match self.remote_version {
            Some(_) => Ok(vec![1, 2, 3]),
            None => Err("File not found on server".to_string()),
        }
    }

    fn get_remote_version(&self, config: &str) -> Result<Option<i64>, String> {
        match self.download(config) {
            Ok(_) => Ok(self.remote_version),
            Err(e) if e.contains("not found") => Ok(None),
            Err(e) => Err(e),
        }
    }

    fn check_update(&self, local_version: i64, config: &str) -> Result<bool, String> {
        let remote = self.get_remote_version(config)?;
        Ok(update_available(remote, local_version))
    }
}

#[test]
fn check_update_is_true_exactly_when_remote_is_newer() {
    assert!(update_available(Some(5), 3));
    assert!(!update_available(Some(3), 3));
    assert!(!update_available(Some(2), 3));
    assert!(!update_available(None, 3));
}

#[test]
fn check_update_through_a_provider() {
    let newer = MockProvider {
        remote_version: Some(10),
    };
    assert!(newer.check_update(3, "{}").unwrap());
    assert!(!newer.check_update(10, "{}").unwrap());
    let absent = MockProvider {
        remote_version: None,
    };
    assert!(!absent.check_update(0, "{}").unwrap());
    assert_eq!(absent.get_remote_version("{}").unwrap(), None);
}

#[test]
fn upload_results_and_missing_blobs_use_the_fixed_texts() {
    let r = upload_result(123);
    assert!(r.success);
    assert_eq!(r.message, "Upload successful");
    assert_eq!(r.version, Some(123));
    assert_eq!(r.timestamp, Some(123));
    let msg = not_found_message();
    assert_eq!(msg, "File not found on server");
    let probe: Result<Vec<u8>, String> = Err(msg);
    assert_eq!(remote_version_from(&probe, 1).unwrap(), None);
}

#[test]
fn download_outcomes_map_to_version_probes() {
    let ok: Result<Vec<u8>, String> = Ok(vec![1]);
    assert_eq!(remote_version_from(&ok, 99).unwrap(), Some(99));
    let missing: Result<Vec<u8>, String> = Err("File not found on server".to_string());
    assert_eq!(remote_version_from(&missing, 99).unwrap(), None);
    let broken: Result<Vec<u8>, String> = Err("connection reset".to_string());
    assert_eq!(remote_version_from(&broken, 99).unwrap_err(), "connection reset");
}

#[test]
fn the_default_registry_carries_the_stock_backend() {
    let m = SyncManager::with_default(MockProvider {
        remote_version: Some(2),
    });
    assert_eq!(m.list_providers(), vec!["oss".to_string()]);
    let p = m.get_provider("oss").expect("the stock backend is registered");
    assert_eq!(p.name(), "mock");
    assert!(m.get_provider("webdav").is_none());
    assert!(m.check_update("oss", 1, "{}").unwrap());
}

#[test]
fn get_provider_returns_the_backend_registered_under_the_name() {
    let mut m: SyncManager<MockProvider> = SyncManager::new();
    m.register(
        "first".to_string(),
        MockProvider {
            remote_version: Some(1),
        },
    );
    m.register(
        "second".to_string(),
        MockProvider {
            remote_version: Some(2),
        },
    );
    let p1 = m.get_provider("first").unwrap();
    assert_eq!(p1.remote_version, Some(1));
    let p2 = m.get_provider("second").unwrap();
    assert_eq!(p2.remote_version, Some(2));
}

#[test]
fn the_manager_dispatches_by_name() {
    let mut m: SyncManager<MockProvider> = SyncManager::new();
    assert!(m.list_providers().is_empty());
    m.register(
        "mock".to_string(),
        MockProvider {
            remote_version: Some(4),
        },
    );
    assert_eq!(m.list_providers(), vec!["mock".to_string()]);
    assert!(m.get_provider("mock").is_some());
    assert!(m.get_provider("oss").is_none());
    assert!(m.test_connection("mock", "{}").is_ok());
    assert!(m.check_update("mock", 1, "{}").unwrap());
    assert_eq!(m.get_remote_version("mock", "{}").unwrap(), Some(4));
    assert!(m.upload("mock", b"blob", "{}").unwrap().success);
    assert_eq!(m.download("mock", "{}").unwrap(), vec![1, 2, 3]);
    assert_eq!(
        m.test_connection("webdav", "{}").unwrap_err(),
        "Provider 'webdav' not found"
    );
    assert_eq!(
        m.download("webdav", "{}").unwrap_err(),
        "Provider 'webdav' not found"
    );
}

fn hmac_b64(secret: &str, msg: &str) -> String {
    let mut mac =
        <hmac::Hmac<sha1::Sha1> as hmac::Mac>::new_from_slice(secret.as_bytes()).unwrap();
    hmac::Mac::update(&mut mac, msg.as_bytes());
    base64::Engine::encode(
        &base64::engine::general_purpose::STANDARD,
        hmac::Mac::finalize(mac).into_bytes(),
    )
}

#[test]
fn aliyun_signature_signs_the_canonical_string() {
    let headers = vec![
        ("Content-Type".to_string(), "application/json".to_string()),
        ("Date".to_string(), "Mon, 01 Jan 2024 00:00:00 GMT".to_string()),
    ];
    let sig = generate_aliyun_signature(
        "PUT",
        "bucket",
        "2pass/data.kdbx",
        "SECRET-REDACTED",
        &headers,
        "Mon, 01 Jan 2024 00:00:00 GMT",
    );
    let string_to_sign = "PUT\nMon, 01 Jan 2024 00:00:00 GMT\n\napplication/json\n/bucket/2pass/data.kdbx";
    let expected = format!("OSS :{}", hmac_b64("SECRET-REDACTED", string_to_sign));
    assert_eq!(sig, expected);
}

#[test]
fn aliyun_signature_canonicalizes_provider_headers_in_sorted_order() {
    let headers = vec![
        ("X-OSS-Meta-B".to_string(), " two ".to_string()),
        ("x-oss-meta-a".to_string(), "one".to_string()),
        ("Date".to_string(), "D".to_string()),
    ];
    let sig = generate_aliyun_signature("GET", "b", "p", "s", &headers, "D");
    let canon = "x-oss-meta-a:one\nx-oss-meta-b:two\n";
    let string_to_sign = format!("GET\nD\n\napplication/json\n{}/b/p", canon);
    let expected = format!("OSS :{}", hmac_b64("s", &string_to_sign));
    assert_eq!(sig, expected);
}

#[test]
fn tencent_signature_embeds_the_validity_window() {
    let sig = generate_tencent_signature("put", "2pass/data.kdbx", "sk", "ak", 1700000000);
    let expire = 1700000000 + 3600;
    let sign_string = format!("put/2pass/data.kdbx/{}", expire);
    let expected = format!(
        "q-sign-algorithm=sha1&q-ak=ak&q-sign-time=1700000000;{e}&q-key-time=1700000000;{e}&q-header-list=&q-url-param-list=&q-signature={s}",
        e = expire,
        s = hmac_b64("sk", &sign_string)
    );
    assert_eq!(sig, expected);
}

#[test]
fn object_urls_follow_the_provider_conventions() {
    assert_eq!(
        aliyun_object_url("oss-cn-hangzhou.aliyuncs.com", "b", "k"),
        "https://b.oss-cn-hangzhou.aliyuncs.com/k"
    );
    assert_eq!(
        aliyun_object_url("http://localhost:9000", "b", "k"),
        "http://localhost:9000/b/k"
    );
    assert_eq!(
        tencent_object_url("b", &Some("ap-shanghai".to_string()), "k"),
        "https://b.cos.ap-shanghai.myqcloud.com/k"
    );
    assert_eq!(
        tencent_object_url("b", &None, "k"),
        "https://b.cos.ap-beijing.myqcloud.com/k"
    );
}

#[test]
fn http_dates_follow_the_rfc_shape() {
    assert_eq!(http_date(0), "Thu, 01 Jan 1970 00:00:00 GMT");
    assert_eq!(http_date(1700000000), "Tue, 14 Nov 2023 22:13:20 GMT");
}

#[test]
fn oss_config_validation_names_the_first_missing_field() {
    let full = OssConfig {
        provider: "aliyun".to_string(),
        endpoint: "e".to_string(),
        bucket: "b".to_string(),
        access_key_id: "i".to_string(),
        access_key_secret: "s".to_string(),
        region: None,
        path: "p".to_string(),
    };
    assert!(full.validate().is_ok());
    let mut c = OssConfig {
        endpoint: String::new(),
        ..full
    };
    assert_eq!(c.validate().unwrap_err(), "Endpoint must not be empty");
    c.endpoint = "e".to_string();
    c.bucket = String::new();
    assert_eq!(c.validate().unwrap_err(), "Bucket must not be empty");
    c.bucket = "b".to_string();
    c.access_key_id = String::new();
    assert_eq!(c.validate().unwrap_err(), "AccessKey ID must not be empty");
    c.access_key_id = "i".to_string();
    c.access_key_secret = String::new();
    assert_eq!(
        c.validate().unwrap_err(),
        "AccessKey Secret must not be empty"
    );
    c.access_key_secret = "s".to_string();
    c.path = String::new();
    assert_eq!(c.validate().unwrap_err(), "Storage path must not be empty");
}
