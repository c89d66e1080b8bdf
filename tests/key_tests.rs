use infera::key::{artifact_path, derive_key, key_hex, temp_path, token_path};
use infera::text::{decimal_text, join, same_text};

const ABC_SHA256: &str = "ba7816bf8f01cfea414140de5dae2223b00361a396177a9cb410ff61f20015ad";

#[test]
fn key_is_sha256_of_url_bytes() {
    let k = derive_key("abc");
    assert_eq!(k.len(), 32);
    assert_eq!(k[0], 0xba);
    assert_eq!(k[31], 0xad);
    assert_eq!(key_hex("abc"), ABC_SHA256);
}

#[test]
fn key_is_stable_and_distinct() {
    let urls = [
        "http://example.com/model.onnx",
        "http://example.com/model.onnx?v=2",
        "https://example.com/model.onnx",
        "http://example.com/other.onnx",
        "",
    ];
    for u in urls {
        assert_eq!(derive_key(u), derive_key(u));
        assert_eq!(artifact_path("/c", u), artifact_path("/c", u));
    }
    for (i, a) in urls.iter().enumerate() {
        for b in urls.iter().skip(i + 1) {
            assert_ne!(derive_key(a), derive_key(b));
            assert_ne!(artifact_path("/c", a), artifact_path("/c", b));
        }
    }
}

#[test]
fn paths_follow_the_layout() {
    assert_eq!(
        artifact_path("/cache", "abc"),
        format!("/cache/{}.artifact", ABC_SHA256)
    );
    assert_eq!(
        artifact_path("/cache/", "abc"),
        format!("/cache/{}.artifact", ABC_SHA256)
    );
    assert_eq!(token_path("/cache", "abc"), format!("/cache/{}.etag", ABC_SHA256));
    assert_eq!(temp_path("/c/x.artifact", "r-2"), "/c/x.artifact.part-r-2");
}

#[test]
fn text_helpers() {
    assert_eq!(decimal_text(0), "0");
    assert_eq!(decimal_text(7), "7");
    assert_eq!(decimal_text(4294967295), "4294967295");
    assert_eq!(join("", "a"), "a");
    assert_eq!(join("d", "a"), "d/a");
    assert!(same_text("x", "x"));
    assert!(!same_text("x", "X"));
}
