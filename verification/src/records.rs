//! Package records, built from the decoded index's paragraphs.
//!
//! The index grammar itself is an external collaborator: it hands the
//! library each paragraph as a sequence of name/value fields. Building a
//! record from those fields is this module's job: field names are looked
//! up ASCII-case-insensitively with the last occurrence winning, the
//! three required fields must be present or the whole parse fails, and
//! the checksum is chosen with fixed priority MD5 > SHA1 > SHA256 > none.
use vstd::prelude::*;

use crate::hash::MyHash;
use crate::text::lower_codes;
use crate::text::lower_eq;

verus! {

/// One field of an index paragraph, as the external grammar hands it in.
#[derive(Debug)]
pub struct Field {
    pub name: String,
    pub value: String,
}

/// The value of the last field whose name equals `key` under
/// ASCII-lowercase folding, or `None` when no field matches.
pub open spec fn spec_lookup(fields: Seq<Field>, key: Seq<char>) -> Option<Seq<char>>
    decreases fields.len(),
{
    if fields.len() == 0 {
        Option::None
    } else if lower_codes(fields.last().name@) == lower_codes(key) {
        Option::Some(fields.last().value@)
    } else {
        spec_lookup(fields.drop_last(), key)
    }
}

/// Looks a field up by name, case-insensitively, the last occurrence
/// winning — later duplicates of a field overwrite earlier ones.
pub fn lookup(fields: &Vec<Field>, key: &str) -> (r: Option<String>)
    ensures
        r is Some <==> spec_lookup(fields@, key@) is Some,
        r matches Some(v) ==> spec_lookup(fields@, key@) == Some(v@),
{
    let mut i: usize = fields.len();
    proof {
        assert(fields@.subrange(0, fields@.len() as int) =~= fields@);
    }
    while i > 0
        invariant
            i <= fields@.len(),
            spec_lookup(fields@.subrange(0, i as int), key@) == spec_lookup(fields@, key@),
        decreases i,
    {
        proof {
            assert(fields@.subrange(0, i as int).last() == fields@[i - 1]);
            assert(fields@.subrange(0, i as int).drop_last() =~= fields@.subrange(0, i - 1));
        }
        if lower_eq(fields[i - 1].name.as_str(), key) {
            return Some(fields[i - 1].value.clone());
        }
        i = i - 1;
    }
    proof {
        assert(fields@.subrange(0, 0) =~= Seq::<Field>::empty());
    }
    None
}

/// One entry of the metadata index: what to download and where to put
/// it, with the checksum that gates a re-download.
#[derive(Debug)]
pub struct PackageRecord {
    /// The package's bundle identifier.
    pub bundle_id: String,
    /// The package's human-readable name.
    pub display_name: String,
    /// Destination path, relative to the save root; also the path
    /// requested from the repository.
    pub dest_path: String,
    /// The checksum specification, fixed at parse time.
    pub checksum: MyHash,
}

/// A required field is missing: the paragraph is unusable and the whole
/// run fails, rather than the record being silently dropped.
#[derive(PartialEq, Eq, Structural, Clone, Copy, Debug)]
pub enum ParseError {
    MissingFilename,
    MissingPackage,
    MissingName,
}

/// The error a paragraph earns: required fields are demanded in the
/// order destination path, bundle identifier, display name.
pub open spec fn spec_parse_error(fields: Seq<Field>) -> ParseError {
    if spec_lookup(fields, "filename"@) is None {
        ParseError::MissingFilename
    } else if spec_lookup(fields, "package"@) is None {
        ParseError::MissingPackage
    } else {
        ParseError::MissingName
    }
}

/// Which checksum a paragraph selects: the first of `md5sum`, `sha1`,
/// `sha256` that is present, in that fixed priority, with its value as
/// the expected digest; none of them present means no checksum, so the
/// package is downloaded unconditionally.
pub open spec fn checksum_selected(c: MyHash, fields: Seq<Field>) -> bool {
    if spec_lookup(fields, "md5sum"@) is Some {
        c matches MyHash::MD5(e) && Some(e@) == spec_lookup(fields, "md5sum"@)
    } else if spec_lookup(fields, "sha1"@) is Some {
        c matches MyHash::SHA1(e) && Some(e@) == spec_lookup(fields, "sha1"@)
    } else if spec_lookup(fields, "sha256"@) is Some {
        c matches MyHash::SHA256(e) && Some(e@) == spec_lookup(fields, "sha256"@)
    } else {
        c is NoChecksum
    }
}

/// A record faithfully built from a paragraph's fields.
pub open spec fn record_wf(rec: PackageRecord, fields: Seq<Field>) -> bool {
    &&& spec_lookup(fields, "filename"@) == Some(rec.dest_path@)
    &&& spec_lookup(fields, "package"@) == Some(rec.bundle_id@)
    &&& spec_lookup(fields, "name"@) == Some(rec.display_name@)
    &&& checksum_selected(rec.checksum, fields)
}

impl PackageRecord {
    /// Builds the record for one paragraph. Fails exactly when a
    /// required field — destination path, bundle identifier or display
    /// name — is absent, naming the first one missing.
    pub fn from_fields(fields: &Vec<Field>) -> (r: Result<PackageRecord, ParseError>)
        ensures
            r is Ok <==> spec_lookup(fields@, "filename"@) is Some && spec_lookup(
                fields@,
                "package"@,
            ) is Some && spec_lookup(fields@, "name"@) is Some,
            r matches Ok(rec) ==> record_wf(rec, fields@),
            r matches Err(e) ==> e == spec_parse_error(fields@),
    {
        let dest_path = match lookup(fields, "filename") {
            Option::Some(v) => v,
            Option::None => {
                return Err(ParseError::MissingFilename);
            },
        };
        let bundle_id = match lookup(fields, "package") {
            Option::Some(v) => v,
            Option::None => {
                return Err(ParseError::MissingPackage);
            },
        };
        let display_name = match lookup(fields, "name") {
            Option::Some(v) => v,
            Option::None => {
                return Err(ParseError::MissingName);
            },
        };
        let checksum = if let Option::Some(v) = lookup(fields, "md5sum") {
            MyHash::MD5(v)
        } else if let Option::Some(v) = lookup(fields, "sha1") {
            MyHash::SHA1(v)
        } else if let Option::Some(v) = lookup(fields, "sha256") {
            MyHash::SHA256(v)
        } else {
            MyHash::NoChecksum
        };
        Ok(PackageRecord { bundle_id, display_name, dest_path, checksum })
    }
}

} // verus!
