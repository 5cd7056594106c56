use repomirror::decompress::{detect_format, extract_file, ContainerFormat, ExtractError};

const BZ2_SAMPLE: [u8; 73] = [
    66, 90, 104, 57, 49, 65, 89, 38, 83, 89, 153, 152, 0, 49, 0, 0, 5, 89, 128, 0, 16, 64, 0, 16,
    0, 55, 103, 220, 112, 32, 0, 34, 35, 65, 144, 12, 16, 160, 105, 161, 145, 147, 17, 174, 65,
    100, 68, 81, 60, 175, 83, 92, 105, 198, 35, 14, 110, 37, 30, 16, 98, 143, 139, 185, 34, 156,
    40, 72, 76, 204, 0, 24, 128,
];

const GZ_SAMPLE: [u8; 40] = [
    31, 139, 8, 0, 0, 0, 0, 0, 2, 3, 75, 175, 202, 44, 80, 40, 78, 204, 45, 200, 73, 85, 40, 72,
    172, 204, 201, 79, 76, 225, 2, 0, 191, 175, 240, 22, 20, 0, 0, 0,
];

#[test]
fn release_is_returned_unchanged() {
    let input = b"Origin: repo\nLabel: repo\n".to_vec();
    let out = extract_file("Release", &input).unwrap();
    assert_eq!(out, input);
}

#[test]
fn unknown_suffix_is_an_invalid_filename() {
    let input = b"whatever".to_vec();
    let err = extract_file("pkg/foo.tar", &input).unwrap_err();
    assert_eq!(err, ExtractError::InvalidFilename);
}

#[test]
fn multi_dot_names_dispatch_on_the_last_suffix() {
    let original = b"Package: com.example.nested\n".to_vec();
    let mut source = &original[..];
    let mut compressed: Vec<u8> = Vec::new();
    lzma_rs::xz_compress(&mut source, &mut compressed).unwrap();
    let out = extract_file("a.b.xz", &compressed).unwrap();
    assert_eq!(out, original);
}

#[test]
fn no_dot_names_other_than_release_are_invalid() {
    let err = extract_file("Packages", &b"x".to_vec()).unwrap_err();
    assert_eq!(err, ExtractError::InvalidFilename);
}

#[test]
fn release_with_suffix_is_invalid() {
    let err = extract_file("Release.txt", &b"x".to_vec()).unwrap_err();
    assert_eq!(err, ExtractError::InvalidFilename);
}

#[test]
fn xz_round_trip() {
    let original = b"Package: com.example.tweak\nName: Tweak\n".to_vec();
    let mut source = &original[..];
    let mut compressed: Vec<u8> = Vec::new();
    lzma_rs::xz_compress(&mut source, &mut compressed).unwrap();
    let out = extract_file("pkg/foo.xz", &compressed).unwrap();
    assert_eq!(out, original);
}

#[test]
fn lzma_round_trip() {
    let original = b"Package: com.example.other\n".to_vec();
    let mut source = &original[..];
    let mut compressed: Vec<u8> = Vec::new();
    lzma_rs::lzma_compress(&mut source, &mut compressed).unwrap();
    let out = extract_file("Packages.lzma", &compressed).unwrap();
    assert_eq!(out, original);
}

#[test]
fn bz2_full_stream_decode() {
    let input = BZ2_SAMPLE.to_vec();
    let out = extract_file("Packages.bz2", &input).unwrap();
    assert_eq!(out, b"bzip2 sample payload for the index\n".to_vec());
}

#[test]
fn gz_member_matches_direct_decode() {
    let input = GZ_SAMPLE.to_vec();
    let out = extract_file("Packages.gz", &input);
    let mut reader = gzip::GzipReader::new(&input[..]);
    match reader.read_member() {
        Ok(member) => assert_eq!(out.unwrap(), member.data),
        Err(_) => assert_eq!(out.unwrap_err(), ExtractError::DecodeFailed),
    }
}

#[test]
fn corrupt_xz_fails_to_decode() {
    let err = extract_file("Packages.xz", &b"not an xz stream".to_vec()).unwrap_err();
    assert_eq!(err, ExtractError::DecodeFailed);
}

#[test]
fn corrupt_bz2_fails_to_decode() {
    let err = extract_file("Packages.bz2", &b"junk".to_vec()).unwrap_err();
    assert_eq!(err, ExtractError::DecodeFailed);
}

#[test]
fn format_detection() {
    assert_eq!(detect_format("Release"), ContainerFormat::Plain);
    assert_eq!(detect_format("Packages.bz2"), ContainerFormat::Bzip2);
    assert_eq!(detect_format("Packages.gz"), ContainerFormat::Gzip);
    assert_eq!(detect_format("Packages.lzma"), ContainerFormat::Lzma);
    assert_eq!(detect_format("pkg/foo.xz"), ContainerFormat::Xz);
    assert_eq!(detect_format("Packages"), ContainerFormat::Invalid);
    assert_eq!(detect_format(".bz2"), ContainerFormat::Bzip2);
    assert_eq!(detect_format("a.b.xz"), ContainerFormat::Xz);
    assert_eq!(detect_format("Packages.tar.gz"), ContainerFormat::Gzip);
    assert_eq!(detect_format("pkg/foo.tar"), ContainerFormat::Invalid);
    assert_eq!(detect_format(""), ContainerFormat::Invalid);
}

#[test]
fn truncated_gzip_member_fails_without_panicking() {
    // A valid 10-byte gzip header with fewer than 8 trailing bytes: the
    // reader would underflow on it, so the pre-check must turn it into
    // a plain decode failure.
    let input = vec![31, 139, 8, 0, 0, 0, 0, 0, 0, 3, 1, 2, 3];
    let err = extract_file("Packages.gz", &input).unwrap_err();
    assert_eq!(err, ExtractError::DecodeFailed);
}

#[test]
fn empty_gzip_name_field_fails_without_panicking() {
    // Name flag set (bit 8) but the field is empty: the first byte
    // after the fixed header is the NUL terminator. The reader would
    // underflow slicing the empty name, so the pre-check rejects it.
    let mut input = vec![31, 139, 8, 8, 0, 0, 0, 0, 0, 3, 0];
    input.extend_from_slice(&[0u8; 12]);
    let err = extract_file("Packages.gz", &input).unwrap_err();
    assert_eq!(err, ExtractError::DecodeFailed);
}

#[test]
fn gzip_with_name_field_is_accepted() {
    // Same gzip payload as the sample, with the name flag set and a
    // one-byte name spliced in: the pre-check must admit it and the
    // result must equal the reader's own answer.
    let mut input = vec![31, 139, 8, 8, 0, 0, 0, 0, 2, 3];
    input.extend_from_slice(&[b'x', 0]);
    input.extend_from_slice(&GZ_SAMPLE[10..]);
    let out = extract_file("Packages.gz", &input);
    let mut reader = gzip::GzipReader::new(&input[..]);
    match reader.read_member() {
        Ok(member) => assert_eq!(out.unwrap(), member.data),
        Err(_) => assert_eq!(out.unwrap_err(), ExtractError::DecodeFailed),
    }
}
