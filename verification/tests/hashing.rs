use ioc_probe::data::{HashType, Hashed};
use ioc_probe::hasher::{HashError, Hasher};

#[test]
fn test_md5() {
    let hashed = Hasher::new(HashType::Md5).hash(b"hello world");
    let text = hashed.value;
    assert_eq!(text.as_str(), "5eb63bbbe01eeed093cb22bb8f5acdc3");
}

#[test]
fn sha1_of_hello_world() {
    let hashed = Hasher::new(HashType::Sha1).hash(b"hello world");
    assert_eq!(hashed.algorithm, HashType::Sha1);
    assert_eq!(hashed.value, "2aae6c35c94fcfb415dbe95f408b9ce91ee846ed");
}

#[test]
fn sha256_of_hello_world() {
    let hashed = Hasher::new(HashType::Sha256).hash(b"hello world");
    assert_eq!(
        hashed.value,
        "b94d27b9934d3e08a52e52d7da7dabfac484efe37a5380ee9088f7ace2efcde9"
    );
}

#[test]
fn md5_of_nothing() {
    assert_eq!(Hasher::new(HashType::Md5).hash(b"").value, "d41d8cd98f00b204e9800998ecf8427e");
}

#[test]
fn digests_are_equal_whatever_the_case_of_their_letters() {
    let lower = Hashed { algorithm: HashType::Md5, value: "5eb63bbbe01eeed0".to_string() };
    let upper = Hashed { algorithm: HashType::Md5, value: "5EB63BBBE01EEED0".to_string() };
    let other = Hashed { algorithm: HashType::Sha1, value: "5eb63bbbe01eeed0".to_string() };
    assert!(lower == upper);
    assert!(lower != other);
    assert!(lower != Hashed { algorithm: HashType::Md5, value: "5eb63bbbe01eeed1".to_string() });
}

#[test]
fn hash_errors_as_text() {
    let error = HashError::cannot_open("C:\\x", "denied");
    assert_eq!(error.kind, "IO Error");
    assert_eq!(error.message, "Cannot open file \"C:\\x\": denied");
    assert_eq!(
        error.to_string(),
        "HashError(kind: IO Error, message: Cannot open file \"C:\\x\": denied)"
    );
    assert_eq!(HashError::utf8("bad".to_string()).kind, "UTF-8 conversion");
    assert_eq!(HashError::io("gone".to_string()).message, "gone");
    assert_eq!(HashType::Sha256.to_string(), "Sha256");
}
