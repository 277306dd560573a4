use pantheon_store::json::manifest_references_of;

fn refs(doc: &str) -> Option<Vec<Vec<u8>>> {
    manifest_references_of(doc.as_bytes())
}

#[test]
fn every_before_and_after_blob_is_referenced_in_order() {
    let a = "ab".repeat(32);
    let b = "0f".repeat(32);
    let doc = format!(
        "{{\"entries\":[{{\"after\":{{\"blob\":\"{a}\",\"state\":\"present\"}},\"operation\":\"add\",\"path\":\"x\"}},\
         {{\"before\":{{\"blob\":\"{b}\"}},\"after\":{{\"state\":\"absent\"}},\"path\":\"y\"}}],\"schemaVersion\":1}}"
    );
    let got = refs(&doc).expect("parses");
    assert_eq!(got, vec![vec![0xab; 32], vec![0x0f; 32]]);
}

#[test]
fn a_manifest_without_blobs_references_nothing() {
    assert_eq!(refs("{\"entries\":[],\"schemaVersion\":1}"), Some(vec![]));
    assert_eq!(refs(" { \"entries\" : [ { \"after\" : { } } ] } "), Some(vec![]));
    assert_eq!(refs("{\"entries\":[1,true,null,-2.5e3,\"s\",[]]}"), Some(vec![]));
}

#[test]
fn escaped_member_names_are_read_decoded() {
    let a = "12".repeat(32);
    let doc = format!("{{\"\\u0065ntries\":[{{\"after\":{{\"bl\\u006fb\":\"{a}\"}}}}]}}");
    assert_eq!(refs(&doc), Some(vec![vec![0x12; 32]]));
}

#[test]
fn the_last_repeated_member_is_the_one_read() {
    let a = "01".repeat(32);
    let b = "02".repeat(32);
    let doc = format!("{{\"entries\":[{{\"after\":{{\"blob\":\"{a}\",\"blob\":\"{b}\"}}}}]}}");
    assert_eq!(refs(&doc), Some(vec![vec![0x02; 32]]));
}

#[test]
fn unreadable_manifests_are_refused() {
    assert_eq!(refs("{}"), None, "no entries");
    assert_eq!(refs("{\"entries\":{}}"), None, "entries is not an array");
    assert_eq!(refs("[]"), None, "the root is not an object");
    assert_eq!(refs("{\"entries\":[]"), None, "unterminated");
    assert_eq!(refs("{\"entries\":[]} x"), None, "trailing content");
    assert_eq!(refs("{\"entries\":[01]}"), None, "a leading zero");
    assert_eq!(refs("{\"entries\":[{\"after\":{\"blob\":\"abc\"}}]}"), None, "a blob that is not a digest");
    let upper = "AB".repeat(32);
    assert_eq!(refs(&format!("{{\"entries\":[{{\"after\":{{\"blob\":\"{upper}\"}}}}]}}")), None, "uppercase hex");
}

#[test]
fn a_blob_that_is_not_a_string_is_not_a_reference() {
    assert_eq!(refs("{\"entries\":[{\"after\":{\"blob\":7}}]}"), Some(vec![]));
    assert_eq!(refs("{\"entries\":[{\"after\":\"present\"}]}"), Some(vec![]));
}
