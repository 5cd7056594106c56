//! The multi-format decompression dispatcher for the metadata index.
//!
//! A candidate file is decoded according to its name: the exact name
//! `Release` is returned unchanged, and any other name is dispatched on
//! the suffix after its last dot to one of four container decoders. A
//! name with no supported suffix is an invalid filename. The whole input
//! is decoded in memory.
use vstd::prelude::*;

verus! {

/// The content a full-stream bzip2 decode yields for these bytes, or
/// `None` where the stream does not decode.
pub uninterp spec fn bzip2_decoded(bytes: Seq<u8>) -> Option<Seq<u8>>;

/// What gzip::GzipReader::read_member yields for the first member of
/// these bytes, or `None` where it rejects the stream. A word of
/// caution: that crate parses the member's framing but runs the
/// member's raw payload through deflate *compression* rather than
/// inflating it, so this value is a deterministic function of the input
/// bytes, not the member's uncompressed content.
pub uninterp spec fn gzip_member(bytes: Seq<u8>) -> Option<Seq<u8>>;

/// The content a legacy LZMA stream decode yields for these bytes, or
/// `None` where the stream does not decode.
pub uninterp spec fn lzma_decoded(bytes: Seq<u8>) -> Option<Seq<u8>>;

/// The content an xz container decode yields for these bytes, or `None`
/// where the container does not decode.
pub uninterp spec fn xz_decoded(bytes: Seq<u8>) -> Option<Seq<u8>>;

/// Relies on bzip2_rs::DecoderReader: decoding the full stream is a
/// function of the input bytes alone.
#[verifier::external_body]
fn bzip2_decode(input: &Vec<u8>) -> (r: Option<Vec<u8>>)
    ensures
        r is Some <==> bzip2_decoded(input@) is Some,
        r matches Some(v) ==> bzip2_decoded(input@) == Some(v@),
{
    let mut out: Vec<u8> = Vec::new();
    let mut reader = bzip2_rs::DecoderReader::new(input.as_slice());
    match std::io::Read::read_to_end(&mut reader, &mut out) {
        Ok(_) => Some(out),
        Err(_) => None,
    }
}

/// Index of the first zero byte at or after `i`, or -1 where none
/// exists.
pub open spec fn spec_find_zero(b: Seq<u8>, i: int) -> int
    decreases b.len() - i,
    when 0 <= i
{
    if i < 0 || i >= b.len() {
        -1
    } else if b[i] == 0 {
        i
    } else {
        spec_find_zero(b, i + 1)
    }
}

/// The first zero at or after `start` is the zero with none before it.
pub proof fn lemma_find_zero(b: Seq<u8>, start: int, k: int)
    requires
        0 <= start <= k < b.len(),
        b[k] == 0,
        forall|j: int| start <= j < k ==> b[j] != 0,
    ensures
        spec_find_zero(b, start) == k,
    decreases k - start,
{
    if start < k {
        lemma_find_zero(b, start + 1, k)
    }
}

/// A range without any zero byte has no first zero.
pub proof fn lemma_find_zero_none(b: Seq<u8>, start: int)
    requires
        0 <= start,
        forall|j: int| start <= j < b.len() ==> b[j] != 0,
    ensures
        spec_find_zero(b, start) == -1,
    decreases b.len() - start,
{
    if start < b.len() {
        lemma_find_zero_none(b, start + 1)
    }
}

/// End of a NUL-terminated field that starts at `start`: one past its
/// terminating zero. -1 where the field would make the reader panic
/// (it is empty: a zero right at `start`) or fail (no zero at all, or
/// `start` already past the end).
pub open spec fn gzip_field_end(b: Seq<u8>, start: int) -> int {
    if start < b.len() && b[start] != 0 {
        let z = spec_find_zero(b, start);
        if z == -1 {
            -1
        } else {
            z + 1
        }
    } else {
        -1
    }
}

/// End of the optional extra field: the fixed 10-byte header is
/// followed, when the extra flag (bit 4 of the flags byte) is set, by a
/// 2-byte length, a 2-byte subfield id, a 2-byte little-endian data
/// length and that many data bytes. -1 where the bytes run out first.
pub open spec fn gzip_after_extra(b: Seq<u8>) -> int {
    if b[3] & 4 != 0 {
        if b.len() < 16 {
            -1
        } else {
            let dlen = b[14] + 256 * (b[15] as int);
            if 16 + dlen <= b.len() {
                16 + dlen
            } else {
                -1
            }
        }
    } else {
        10
    }
}

/// Whether gzip::GzipReader::read_member consumes these bytes without
/// panicking: the 10-byte fixed header parses (magic 31,139; method
/// byte at most 8; only the two defined compression-flag bits; a known
/// operating-system byte), each flagged optional field is complete and
/// — for the NUL-terminated name and comment — non-empty, and at least
/// 8 bytes (checksum and size) remain after the header. The reader
/// underflows on an empty name or comment and on fewer than 8 trailing
/// bytes, so those inputs are inadmissible, not merely rejected.
pub open spec fn gzip_accepted(b: Seq<u8>) -> bool {
    let n = b.len() as int;
    if n < 10 {
        false
    } else if !(b[0] == 31 && b[1] == 139) {
        false
    } else if b[2] > 8 {
        false
    } else if b[8] & 0xf9 != 0 {
        false
    } else if !(b[9] <= 13 || b[9] == 155) {
        false
    } else {
        let after_extra = gzip_after_extra(b);
        if after_extra == -1 {
            false
        } else {
            let after_name = if b[3] & 8 != 0 {
                gzip_field_end(b, after_extra)
            } else {
                after_extra
            };
            if after_name == -1 {
                false
            } else {
                let after_comment = if b[3] & 16 != 0 {
                    gzip_field_end(b, after_name)
                } else {
                    after_name
                };
                if after_comment == -1 {
                    false
                } else {
                    let after_crc = if b[3] & 2 != 0 {
                        after_comment + 2
                    } else {
                        after_comment
                    };
                    after_crc + 8 <= n
                }
            }
        }
    }
}

/// Finds the first zero byte at or after `start`.
fn find_zero(b: &Vec<u8>, start: usize) -> (r: Option<usize>)
    requires
        start <= b@.len(),
    ensures
        r is Some <==> spec_find_zero(b@, start as int) != -1,
        r matches Some(z) ==> z as int == spec_find_zero(b@, start as int) && z < b@.len(),
{
    let mut i: usize = start;
    while i < b.len()
        invariant
            start <= i <= b@.len(),
            forall|j: int| start <= j < i ==> b@[j] != 0,
        decreases b@.len() - i,
    {
        if b[i] == 0 {
            proof {
                lemma_find_zero(b@, start as int, i as int);
            }
            return Some(i);
        }
        i = i + 1;
    }
    proof {
        lemma_find_zero_none(b@, start as int);
    }
    None
}

/// Decides [`gzip_accepted`]: whether the gzip reader can be handed
/// these bytes without panicking.
pub fn gzip_precheck(input: &Vec<u8>) -> (r: bool)
    ensures
        r == gzip_accepted(input@),
{
    let n = input.len();
    if n < 10 {
        return false;
    }
    if !(input[0] == 31 && input[1] == 139) {
        return false;
    }
    if input[2] > 8 {
        return false;
    }
    if input[8] & 0xf9 != 0 {
        return false;
    }
    if !(input[9] <= 13 || input[9] == 155) {
        return false;
    }
    let flags = input[3];
    let after_extra: usize = if flags & 4 != 0 {
        if n < 16 {
            return false;
        }
        let dlen: usize = input[14] as usize + 256 * (input[15] as usize);
        if 16 + dlen <= n {
            16 + dlen
        } else {
            return false;
        }
    } else {
        10
    };
    assert(after_extra == gzip_after_extra(input@));
    let after_name: usize = if flags & 8 != 0 {
        if after_extra < n && input[after_extra] != 0 {
            match find_zero(input, after_extra) {
                Option::Some(z) => z + 1,
                Option::None => {
                    return false;
                },
            }
        } else {
            return false;
        }
    } else {
        after_extra
    };
    assert(after_name as int == if input@[3] & 8 != 0 {
        gzip_field_end(input@, after_extra as int)
    } else {
        after_extra as int
    });
    let after_comment: usize = if flags & 16 != 0 {
        if after_name < n && input[after_name] != 0 {
            match find_zero(input, after_name) {
                Option::Some(z) => z + 1,
                Option::None => {
                    return false;
                },
            }
        } else {
            return false;
        }
    } else {
        after_name
    };
    assert(after_comment <= n);
    let need: usize = if flags & 2 != 0 {
        10
    } else {
        8
    };
    n - after_comment >= need
}

/// Relies on gzip::GzipReader::read_member: what it yields for the
/// first member is a function of the input bytes alone (see
/// [`gzip_member`] for what that is and is not). The reader panics on
/// some malformed headers, so only pre-checked inputs are admitted.
#[verifier::external_body]
fn gzip_decode(input: &Vec<u8>) -> (r: Option<Vec<u8>>)
    requires
        gzip_accepted(input@),
    ensures
        r is Some <==> gzip_member(input@) is Some,
        r matches Some(v) ==> gzip_member(input@) == Some(v@),
{
    let mut reader = gzip::GzipReader::new(input.as_slice());
    match reader.read_member() {
        Ok(member) => Some(member.data),
        Err(_) => None,
    }
}

/// Relies on lzma_rs::lzma_decompress: decoding the legacy LZMA stream
/// is a function of the input bytes alone.
#[verifier::external_body]
fn lzma_decode(input: &Vec<u8>) -> (r: Option<Vec<u8>>)
    ensures
        r is Some <==> lzma_decoded(input@) is Some,
        r matches Some(v) ==> lzma_decoded(input@) == Some(v@),
{
    let mut source = input.as_slice();
    let mut out: Vec<u8> = Vec::new();
    match lzma_rs::lzma_decompress(&mut source, &mut out) {
        Ok(()) => Some(out),
        Err(_) => None,
    }
}

/// Relies on lzma_rs::xz_decompress: decoding the xz container is a
/// function of the input bytes alone.
#[verifier::external_body]
fn xz_decode(input: &Vec<u8>) -> (r: Option<Vec<u8>>)
    ensures
        r is Some <==> xz_decoded(input@) is Some,
        r matches Some(v) ==> xz_decoded(input@) == Some(v@),
{
    let mut source = input.as_slice();
    let mut out: Vec<u8> = Vec::new();
    match lzma_rs::xz_decompress(&mut source, &mut out) {
        Ok(()) => Some(out),
        Err(_) => None,
    }
}

/// The container format a candidate filename names.
#[derive(PartialEq, Eq, Structural, Clone, Copy, Debug)]
pub enum ContainerFormat {
    Plain,
    Bzip2,
    Gzip,
    Lzma,
    Xz,
    Invalid,
}

/// Index of the last `.` in `s`, or -1 where there is none.
pub open spec fn spec_last_dot(s: Seq<char>) -> int
    decreases s.len(),
{
    if s.len() == 0 {
        -1
    } else if s[s.len() - 1] == '.' {
        s.len() - 1
    } else {
        spec_last_dot(s.drop_last())
    }
}

/// A sequence has no dot exactly when its last dot does not exist; and
/// where it does, it is a dot within range.
pub proof fn lemma_last_dot_none(s: Seq<char>)
    ensures
        spec_last_dot(s) == -1 <==> (forall|j: int| 0 <= j < s.len() ==> s[j] != '.'),
        spec_last_dot(s) == -1 || (0 <= spec_last_dot(s) < s.len() && s[spec_last_dot(s)] == '.'),
    decreases s.len(),
{
    if s.len() > 0 {
        let rest = s.drop_last();
        lemma_last_dot_none(rest);
        assert(forall|j: int| 0 <= j < rest.len() ==> rest[j] == s[j]);
        if s[s.len() - 1] != '.' && spec_last_dot(rest) == -1 {
            assert(forall|j: int| 0 <= j < s.len() ==> s[j] != '.') by {
                assert(forall|j: int| 0 <= j < s.len() - 1 ==> s[j] == rest[j]);
            }
        }
        if forall|j: int| 0 <= j < s.len() ==> s[j] != '.' {
            assert(forall|j: int| 0 <= j < rest.len() ==> rest[j] != '.');
            assert(spec_last_dot(rest) == -1);
        }
    }
}

/// The last dot is the dot with no dot after it.
pub proof fn lemma_last_dot_at(s: Seq<char>, k: int)
    requires
        0 <= k < s.len(),
        s[k] == '.',
        forall|j: int| k < j < s.len() ==> s[j] != '.',
    ensures
        spec_last_dot(s) == k,
    decreases s.len(),
{
    if k < s.len() - 1 {
        let rest = s.drop_last();
        assert(forall|j: int| 0 <= j < rest.len() ==> rest[j] == s[j]);
        lemma_last_dot_at(rest, k);
    }
}

/// The format the dispatcher chooses for a filename: the exact name
/// `Release` is returned as it is; any other name is dispatched on the
/// suffix after its last dot; a name without a dot, or with an
/// unsupported suffix, is invalid.
pub open spec fn spec_format(name: Seq<char>) -> ContainerFormat {
    if name == "Release"@ {
        ContainerFormat::Plain
    } else {
        let i = spec_last_dot(name);
        if i == -1 {
            ContainerFormat::Invalid
        } else {
            let suffix = name.subrange(i + 1, name.len() as int);
            if suffix == "bz2"@ {
                ContainerFormat::Bzip2
            } else if suffix == "gz"@ {
                ContainerFormat::Gzip
            } else if suffix == "lzma"@ {
                ContainerFormat::Lzma
            } else if suffix == "xz"@ {
                ContainerFormat::Xz
            } else {
                ContainerFormat::Invalid
            }
        }
    }
}

/// Compares two strings character by character.
pub fn str_eq(a: &str, b: &str) -> (r: bool)
    ensures
        r == (a@ == b@),
{
    let an = a.unicode_len();
    let bn = b.unicode_len();
    if an != bn {
        return false;
    }
    let mut i: usize = 0;
    while i < an
        invariant
            an == a@.len(),
            an == b@.len(),
            i <= an,
            forall|j: int| 0 <= j < i ==> a@[j] == b@[j],
        decreases an - i,
    {
        if a.get_char(i) != b.get_char(i) {
            return false;
        }
        i = i + 1;
    }
    assert(a@ =~= b@);
    true
}

/// Determines the container format of a candidate filename, exactly as
/// [`spec_format`] states it.
pub fn detect_format(name: &str) -> (f: ContainerFormat)
    ensures
        f == spec_format(name@),
{
    if str_eq(name, "Release") {
        return ContainerFormat::Plain;
    }
    let n = name.unicode_len();
    let mut last_dot: usize = 0;
    let mut have_dot: bool = false;
    let mut i: usize = 0;
    while i < n
        invariant
            n == name@.len(),
            i <= n,
            have_dot ==> last_dot < i && name@[last_dot as int] == '.',
            have_dot ==> forall|j: int| last_dot < j < i ==> name@[j] != '.',
            !have_dot ==> forall|j: int| 0 <= j < i ==> name@[j] != '.',
        decreases n - i,
    {
        if name.get_char(i) == '.' {
            have_dot = true;
            last_dot = i;
        }
        i = i + 1;
    }
    if !have_dot {
        proof {
            lemma_last_dot_none(name@);
        }
        return ContainerFormat::Invalid;
    }
    proof {
        lemma_last_dot_at(name@, last_dot as int);
    }
    let sfx = name.substring_char(last_dot + 1, n);
    if str_eq(sfx, "bz2") {
        ContainerFormat::Bzip2
    } else if str_eq(sfx, "gz") {
        ContainerFormat::Gzip
    } else if str_eq(sfx, "lzma") {
        ContainerFormat::Lzma
    } else if str_eq(sfx, "xz") {
        ContainerFormat::Xz
    } else {
        ContainerFormat::Invalid
    }
}

/// Why decoding a candidate file failed.
#[derive(PartialEq, Eq, Structural, Clone, Copy, Debug)]
pub enum ExtractError {
    /// The filename names no supported container format.
    InvalidFilename,
    /// The named decoder rejected the bytes.
    DecodeFailed,
}

/// The decoded content of a candidate file, or `None` where the name is
/// invalid or the named decoder rejects the bytes. The gzip reader is
/// only consulted on bytes it accepts without panicking.
pub open spec fn spec_extract(name: Seq<char>, input: Seq<u8>) -> Option<Seq<u8>> {
    match spec_format(name) {
        ContainerFormat::Plain => Some(input),
        ContainerFormat::Bzip2 => bzip2_decoded(input),
        ContainerFormat::Gzip => if gzip_accepted(input) {
            gzip_member(input)
        } else {
            None
        },
        ContainerFormat::Lzma => lzma_decoded(input),
        ContainerFormat::Xz => xz_decoded(input),
        ContainerFormat::Invalid => None,
    }
}

/// Decodes one candidate metadata file held in memory, dispatching on
/// the filename. Fails with `InvalidFilename` exactly on names that fit
/// no supported format, and with `DecodeFailed` exactly where the named
/// decoder rejects the bytes (for gzip: also where the reader cannot be
/// handed the bytes safely).
pub fn extract_file(filename: &str, input: &Vec<u8>) -> (r: Result<Vec<u8>, ExtractError>)
    ensures
        r is Ok <==> spec_extract(filename@, input@) is Some,
        r matches Ok(v) ==> spec_extract(filename@, input@) == Some(v@),
        r matches Err(e) ==> (e == ExtractError::InvalidFilename <==> spec_format(filename@)
            is Invalid),
{
    let decoded: Option<Vec<u8>> = match detect_format(filename) {
        ContainerFormat::Plain => Some(input.clone()),
        ContainerFormat::Bzip2 => bzip2_decode(input),
        ContainerFormat::Gzip => {
            if gzip_precheck(input) {
                gzip_decode(input)
            } else {
                None
            }
        },
        ContainerFormat::Lzma => lzma_decode(input),
        ContainerFormat::Xz => xz_decode(input),
        ContainerFormat::Invalid => {
            return Err(ExtractError::InvalidFilename);
        },
    };
    match decoded {
        Option::Some(v) => Ok(v),
        Option::None => Err(ExtractError::DecodeFailed),
    }
}

} // verus!
