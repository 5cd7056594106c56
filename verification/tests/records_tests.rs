use repomirror::hash::MyHash;
use repomirror::records::{lookup, Field, PackageRecord, ParseError};

fn field(name: &str, value: &str) -> Field {
    Field {
        name: String::from(name),
        value: String::from(value),
    }
}

#[test]
fn full_record_is_built() {
    let fields = vec![
        field("Package", "com.example.tweak"),
        field("Name", "Example Tweak"),
        field("Filename", "pool/example.deb"),
        field("MD5sum", "900150983cd24fb0d6963f7d28e17f72"),
    ];
    let rec = PackageRecord::from_fields(&fields).unwrap();
    assert_eq!(rec.bundle_id.as_str(), "com.example.tweak");
    assert_eq!(rec.display_name.as_str(), "Example Tweak");
    assert_eq!(rec.dest_path.as_str(), "pool/example.deb");
    match rec.checksum {
        MyHash::MD5(e) => assert_eq!(e.as_str(), "900150983cd24fb0d6963f7d28e17f72"),
        _ => panic!("md5 field must select the MD5 checksum"),
    }
}

#[test]
fn checksum_priority_md5_over_sha1_over_sha256() {
    let base = vec![
        field("Package", "p"),
        field("Name", "n"),
        field("Filename", "f"),
    ];

    let mut all = base.clone_fields();
    all.push(field("SHA256", "cc"));
    all.push(field("SHA1", "bb"));
    all.push(field("MD5sum", "aa"));
    let rec = PackageRecord::from_fields(&all).unwrap();
    assert!(matches!(rec.checksum, MyHash::MD5(_)));

    let mut sha_only = base.clone_fields();
    sha_only.push(field("SHA256", "cc"));
    sha_only.push(field("SHA1", "bb"));
    let rec = PackageRecord::from_fields(&sha_only).unwrap();
    assert!(matches!(rec.checksum, MyHash::SHA1(_)));

    let mut sha256_only = base.clone_fields();
    sha256_only.push(field("SHA256", "cc"));
    let rec = PackageRecord::from_fields(&sha256_only).unwrap();
    assert!(matches!(rec.checksum, MyHash::SHA256(_)));

    let rec = PackageRecord::from_fields(&base).unwrap();
    assert!(matches!(rec.checksum, MyHash::NoChecksum));
}

trait CloneFields {
    fn clone_fields(&self) -> Vec<Field>;
}

impl CloneFields for Vec<Field> {
    fn clone_fields(&self) -> Vec<Field> {
        self.iter()
            .map(|f| Field {
                name: f.name.clone(),
                value: f.value.clone(),
            })
            .collect()
    }
}

#[test]
fn missing_filename_is_fatal() {
    let fields = vec![field("Package", "p"), field("Name", "n")];
    let err = PackageRecord::from_fields(&fields).unwrap_err();
    assert_eq!(err, ParseError::MissingFilename);
}

#[test]
fn missing_package_is_fatal() {
    let fields = vec![field("Filename", "f"), field("Name", "n")];
    let err = PackageRecord::from_fields(&fields).unwrap_err();
    assert_eq!(err, ParseError::MissingPackage);
}

#[test]
fn missing_name_is_fatal() {
    let fields = vec![field("Filename", "f"), field("Package", "p")];
    let err = PackageRecord::from_fields(&fields).unwrap_err();
    assert_eq!(err, ParseError::MissingName);
}

#[test]
fn field_names_match_case_insensitively() {
    let fields = vec![
        field("PACKAGE", "p"),
        field("name", "n"),
        field("FileName", "f"),
    ];
    let rec = PackageRecord::from_fields(&fields).unwrap();
    assert_eq!(rec.bundle_id.as_str(), "p");
    assert_eq!(rec.display_name.as_str(), "n");
    assert_eq!(rec.dest_path.as_str(), "f");
}

#[test]
fn later_duplicate_field_overwrites_earlier() {
    let fields = vec![
        field("Filename", "first"),
        field("Package", "p"),
        field("Name", "n"),
        field("Filename", "second"),
    ];
    let rec = PackageRecord::from_fields(&fields).unwrap();
    assert_eq!(rec.dest_path.as_str(), "second");
}

#[test]
fn lookup_misses_absent_keys() {
    let fields = vec![field("Package", "p")];
    assert!(lookup(&fields, "filename").is_none());
    assert_eq!(lookup(&fields, "package").unwrap().as_str(), "p");
}
