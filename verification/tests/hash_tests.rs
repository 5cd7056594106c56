use repomirror::hash::MyHash;

#[test]
fn md5_matches_known_digest() {
    let h = MyHash::MD5(String::from("900150983cd24fb0d6963f7d28e17f72"));
    assert!(h.validate(&b"abc".to_vec()));
}

#[test]
fn md5_mismatch_is_rejected() {
    let h = MyHash::MD5(String::from("900150983cd24fb0d6963f7d28e17f72"));
    assert!(!h.validate(&b"abd".to_vec()));
}

#[test]
fn md5_comparison_is_case_insensitive() {
    let h = MyHash::MD5(String::from("900150983CD24FB0D6963F7D28E17F72"));
    assert!(h.validate(&b"abc".to_vec()));
}

#[test]
fn sha1_matches_known_digest() {
    let h = MyHash::SHA1(String::from("a9993e364706816aba3e25717850c26c9cd0d89d"));
    assert!(h.validate(&b"abc".to_vec()));
}

#[test]
fn sha1_wrong_length_expected_is_rejected() {
    let h = MyHash::SHA1(String::from("a9993e36"));
    assert!(!h.validate(&b"abc".to_vec()));
}

#[test]
fn sha256_matches_known_digest() {
    let h = MyHash::SHA256(String::from(
        "ba7816bf8f01cfea414140de5dae2223b00361a396177a9cb410ff61f20015ad",
    ));
    assert!(h.validate(&b"abc".to_vec()));
}

#[test]
fn sha256_mismatch_is_rejected() {
    let h = MyHash::SHA256(String::from(
        "ba7816bf8f01cfea414140de5dae2223b00361a396177a9cb410ff61f20015ae",
    ));
    assert!(!h.validate(&b"abc".to_vec()));
}

#[test]
fn no_checksum_never_matches() {
    let h = MyHash::NoChecksum;
    assert!(!h.validate(&Vec::new()));
    assert!(!h.validate(&b"anything".to_vec()));
}

#[test]
fn empty_input_md5() {
    let h = MyHash::MD5(String::from("d41d8cd98f00b204e9800998ecf8427e"));
    assert!(h.validate(&Vec::new()));
}
