use dfns_sdk_rust::json::{complete_request_body, init_request_body, set_field, upload_data, write_object, JsonField};
use dfns_sdk_rust::signer::{CredentialAssertion, CredentialAssertionData};
use dfns_sdk_rust::text::{
    canonical_request_path, is_loopback_name, key_less, strip_crlf, trim_end_slashes, upload_file_name,
};

fn field(key: &str, value: &str) -> JsonField {
    JsonField { key: key.to_string(), value: value.to_string() }
}

fn keys(fields: &[JsonField]) -> Vec<String> {
    fields.iter().map(|f| f.key.clone()).collect()
}

#[test]
fn canonical_path_drops_the_query() {
    assert_eq!(canonical_request_path("/test/endpoint?page=1"), "/test/endpoint");
    assert_eq!(canonical_request_path("/a?b?c"), "/a");
    assert_eq!(canonical_request_path("/wallets"), "/wallets");
    assert_eq!(canonical_request_path("?x"), "");
    assert_eq!(canonical_request_path(""), "");
    // Canonicalizing twice changes nothing.
    let once = canonical_request_path("/é/ü?q=1");
    assert_eq!(once, "/é/ü");
    assert_eq!(canonical_request_path(&once), once);
}

#[test]
fn trailing_slashes_are_trimmed() {
    assert_eq!(trim_end_slashes("https://h/"), "https://h");
    assert_eq!(trim_end_slashes("https://h///"), "https://h");
    assert_eq!(trim_end_slashes("https://h"), "https://h");
    assert_eq!(trim_end_slashes("///"), "");
    assert_eq!(trim_end_slashes(&trim_end_slashes("a//")), "a");
}

#[test]
fn loopback_names() {
    assert!(is_loopback_name("localhost"));
    assert!(is_loopback_name("127.0.0.1"));
    assert!(is_loopback_name("127.255.10.200"));
    assert!(!is_loopback_name("128.0.0.1"));
    assert!(!is_loopback_name("127.0.0"));
    assert!(!is_loopback_name("127.0.0.1.5"));
    assert!(!is_loopback_name("127.0.0.256"));
    assert!(!is_loopback_name("127.0.0.01"));
    assert!(!is_loopback_name("0127.0.0.1"));
    assert!(!is_loopback_name("[::1]"));
    assert!(!is_loopback_name("localhost."));
    assert!(!is_loopback_name("LOCALHOST"));
    assert!(!is_loopback_name(""));
    assert!(!is_loopback_name("127.a.0.1"));
}

#[test]
fn file_names_lose_line_breaks() {
    assert_eq!(strip_crlf("a\r\nb.bin"), "ab.bin");
    assert_eq!(strip_crlf("line\nbreak\r"), "linebreak");
    assert_eq!(strip_crlf("plain.txt"), "plain.txt");
    assert_eq!(upload_file_name("a\r\nb.bin"), "ab.bin");
    assert_eq!(upload_file_name(""), "upload.bin");
    assert_eq!(upload_file_name("\n\r\n"), "upload.bin");
    assert_eq!(upload_file_name("ünï.pdf"), "ünï.pdf");
}

#[test]
fn keys_order_like_strings() {
    let words = ["", "a", "ab", "b", "fileChecksum", "file", "fileChecksumX", "Z", "é", "z"];
    for a in words.iter() {
        for b in words.iter() {
            assert_eq!(key_less(a, b), a < b, "{:?} < {:?}", a, b);
        }
    }
}

#[test]
fn init_body_escapes_every_field() {
    assert_eq!(
        init_request_body("POST", "/p?q=\"1\"", "{\"a\":\"b\\n\"}"),
        "{\"userActionHttpMethod\":\"POST\",\"userActionHttpPath\":\"/p\",\"userActionPayload\":\"{\\\"a\\\":\\\"b\\\\n\\\"}\",\"userActionServerKind\":\"Api\"}"
    );
    let text = init_request_body("PUT", "/x\u{1}", "tab\there");
    let value: serde_json::Value = serde_json::from_str(&text).unwrap();
    assert_eq!(value["userActionHttpPath"], "/x\u{1}");
    assert_eq!(value["userActionPayload"], "tab\there");
    assert!(text.contains("\\u0001"));
}

fn string(s: &str) -> serde_json::Value {
    serde_json::Value::String(s.to_string())
}

#[test]
fn complete_body_matches_serde() {
    let a = CredentialAssertion {
        kind: "Fido2".to_string(),
        credential_assertion: CredentialAssertionData {
            cred_id: "c\"1".to_string(),
            client_data: "cd".to_string(),
            signature: "sig".to_string(),
        },
    };
    let text = complete_request_body("id-1", &a);
    let mut data = serde_json::Map::new();
    data.insert("credId".to_string(), string("c\"1"));
    data.insert("clientData".to_string(), string("cd"));
    data.insert("signature".to_string(), string("sig"));
    let mut factor = serde_json::Map::new();
    factor.insert("kind".to_string(), string("Fido2"));
    factor.insert("credentialAssertion".to_string(), serde_json::Value::Object(data));
    let mut body = serde_json::Map::new();
    body.insert("firstFactor".to_string(), serde_json::Value::Object(factor));
    body.insert("challengeIdentifier".to_string(), string("id-1"));
    assert_eq!(text, serde_json::to_string(&serde_json::Value::Object(body)).unwrap());
}

#[test]
fn set_field_keeps_key_order() {
    let fields = vec![field("amount", "1"), field("zeta", "true")];
    let merged = set_field(&fields, "fileChecksum", "\"ab\"");
    assert_eq!(keys(&merged), vec!["amount", "fileChecksum", "zeta"]);
    assert_eq!(merged[1].value, "\"ab\"");

    // An existing member with the key is replaced.
    let fields = vec![field("a", "1"), field("fileChecksum", "\"old\""), field("z", "2")];
    let merged = set_field(&fields, "fileChecksum", "\"new\"");
    assert_eq!(keys(&merged), vec!["a", "fileChecksum", "z"]);
    assert_eq!(merged[1].value, "\"new\"");

    let merged = set_field(&Vec::new(), "k", "null");
    assert_eq!(keys(&merged), vec!["k"]);
}

#[test]
fn objects_are_written_compactly() {
    assert_eq!(write_object(&Vec::new()), "{}");
    assert_eq!(write_object(&vec![field("a", "1")]), "{\"a\":1}");
    assert_eq!(write_object(&vec![field("a", "1"), field("b\"", "[2]")]), "{\"a\":1,\"b\\\"\":[2]}");
}

#[test]
fn upload_data_matches_serde_map() {
    let fields = vec![field("network", "\"Eth\""), field("tags", "[\"x\",1]")];
    let text = upload_data(&fields, b"hello-file-contents");
    let checksum = hex::encode(<sha2::Sha256 as sha2::Digest>::digest(b"hello-file-contents"));
    assert_eq!(checksum.len(), 64);
    let mut map = serde_json::Map::new();
    map.insert("network".to_string(), string("Eth"));
    map.insert(
        "tags".to_string(),
        serde_json::Value::Array(vec![string("x"), serde_json::Value::from(1)]),
    );
    map.insert("fileChecksum".to_string(), serde_json::Value::String(checksum));
    assert_eq!(text, serde_json::to_string(&serde_json::Value::Object(map)).unwrap());
}
