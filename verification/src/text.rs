//! Character-level helpers shared by the checksum comparison and the
//! record-field lookup: ASCII-lowercase folding, expressed over the
//! numeric code of each character.
use vstd::prelude::*;

verus! {

/// The code point of `c` with an ASCII uppercase letter folded to its
/// lowercase counterpart; every other character is left as it is.
pub open spec fn lower_code(c: char) -> int {
    if 65 <= c as u32 && c as u32 <= 90 {
        c as u32 + 32
    } else {
        c as u32 as int
    }
}

/// ASCII-lowercase folding of a whole character sequence, as code points.
pub open spec fn lower_codes(s: Seq<char>) -> Seq<int> {
    s.map_values(|c: char| lower_code(c))
}

/// Computes `lower_code` of one character.
pub fn lower_code_exec(c: char) -> (r: u32)
    ensures
        r as int == lower_code(c),
{
    let u = c as u32;
    if 65 <= u && u <= 90 {
        u + 32
    } else {
        u
    }
}

/// Compares two strings under ASCII-lowercase folding.
pub fn lower_eq(a: &str, b: &str) -> (r: bool)
    ensures
        r == (lower_codes(a@) == lower_codes(b@)),
{
    let an = a.unicode_len();
    let bn = b.unicode_len();
    if an != bn {
        assert(lower_codes(a@).len() != lower_codes(b@).len());
        return false;
    }
    let mut i: usize = 0;
    while i < an
        invariant
            an == a@.len(),
            an == b@.len(),
            i <= an,
            forall|j: int| 0 <= j < i ==> lower_codes(a@)[j] == lower_codes(b@)[j],
        decreases an - i,
    {
        let ca = a.get_char(i);
        let cb = b.get_char(i);
        if lower_code_exec(ca) != lower_code_exec(cb) {
            assert(lower_codes(a@)[i as int] != lower_codes(b@)[i as int]);
            return false;
        }
        assert(lower_codes(a@)[i as int] == lower_codes(b@)[i as int]);
        i = i + 1;
    }
    assert(lower_codes(a@) =~= lower_codes(b@));
    true
}

} // verus!
