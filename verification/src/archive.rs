//! Archive planning: which files the optional final archive holds, under
//! which names.
//!
//! The directory walk and the archive writer are external collaborators;
//! the library turns the walked entries into a plan: every regular file,
//! exactly once, under its path relative to the save root. Directories
//! and other non-files are left out.
use vstd::prelude::*;

verus! {

/// One entry the directory walk reports.
#[derive(Debug)]
pub struct WalkEntry {
    /// The entry's full path.
    pub path: String,
    /// Whether the entry is a regular file.
    pub is_file: bool,
}

/// One planned archive member: the file to read and the name it gets
/// inside the archive.
#[derive(Debug)]
pub struct ArchiveEntry {
    /// Full path of the file to archive.
    pub source_path: String,
    /// The file's path relative to the save root.
    pub rel_path: String,
}

/// `path` relative to the root `prefix`: the remainder after the prefix,
/// with one separating `/` dropped; `None` where `path` does not start
/// with `prefix`.
pub open spec fn strip_prefix_spec(prefix: Seq<char>, path: Seq<char>) -> Option<Seq<char>> {
    if path.len() >= prefix.len() && path.subrange(0, prefix.len() as int) == prefix {
        let rest = path.subrange(prefix.len() as int, path.len() as int);
        if rest.len() > 0 && rest[0] == '/' {
            Option::Some(rest.subrange(1, rest.len() as int))
        } else {
            Option::Some(rest)
        }
    } else {
        Option::None
    }
}

/// Computes [`strip_prefix_spec`].
pub fn strip_prefix(prefix: &str, path: &str) -> (r: Option<String>)
    ensures
        r is Some <==> strip_prefix_spec(prefix@, path@) is Some,
        r matches Some(v) ==> strip_prefix_spec(prefix@, path@) == Some(v@),
{
    let pn = prefix.unicode_len();
    let n = path.unicode_len();
    if n < pn {
        return None;
    }
    let mut i: usize = 0;
    while i < pn
        invariant
            pn == prefix@.len(),
            n == path@.len(),
            pn <= n,
            i <= pn,
            forall|j: int| 0 <= j < i ==> path@[j] == prefix@[j],
        decreases pn - i,
    {
        if path.get_char(i) != prefix.get_char(i) {
            assert(path@.subrange(0, pn as int)[i as int] != prefix@[i as int]);
            return None;
        }
        i = i + 1;
    }
    assert(path@.subrange(0, pn as int) =~= prefix@);
    let start = if pn < n && path.get_char(pn) == '/' {
        pn + 1
    } else {
        pn
    };
    let rel = path.substring_char(start, n).to_owned();
    proof {
        let rest = path@.subrange(pn as int, n as int);
        if rest.len() > 0 && rest[0] == '/' {
            assert(rest[0] == path@[pn as int]);
            assert(rel@ =~= rest.subrange(1, rest.len() as int));
        } else {
            assert(rel@ =~= rest);
        }
    }
    Some(rel)
}

/// The planned archive content for a walked sequence of entries, as
/// (source path, relative path) pairs: every regular file in walk order,
/// each under its path relative to `prefix`.
pub open spec fn spec_plan(prefix: Seq<char>, entries: Seq<WalkEntry>) -> Seq<(Seq<char>, Seq<
    char,
>)>
    decreases entries.len(),
{
    if entries.len() == 0 {
        Seq::empty()
    } else {
        let rest = spec_plan(prefix, entries.drop_last());
        let e = entries.last();
        if e.is_file {
            rest.push((e.path@, strip_prefix_spec(prefix, e.path@)->Some_0))
        } else {
            rest
        }
    }
}

/// Every regular file the walk reported lies under the save root.
pub open spec fn all_under(prefix: Seq<char>, entries: Seq<WalkEntry>) -> bool {
    forall|i: int|
        0 <= i < entries.len() ==> ((#[trigger] entries[i]).is_file ==> strip_prefix_spec(
            prefix,
            entries[i].path@,
        ) is Some)
}

/// A walked regular file lies outside the save root, so no relative
/// archive name exists for it.
#[derive(PartialEq, Eq, Structural, Clone, Copy, Debug)]
pub enum ArchiveError {
    OutsideRoot,
}

/// Turns the walked entries into the archive plan: exactly the regular
/// files, in walk order, each under its path relative to `prefix`. Fails
/// exactly when some regular file does not lie under `prefix`.
pub fn plan_archive(prefix: &str, entries: &Vec<WalkEntry>) -> (r: Result<
    Vec<ArchiveEntry>,
    ArchiveError,
>)
    ensures
        r is Ok <==> all_under(prefix@, entries@),
        r matches Ok(plan) ==> plan@.map_values(|e: ArchiveEntry| (e.source_path@, e.rel_path@))
            == spec_plan(prefix@, entries@),
        r is Err ==> r->Err_0 == ArchiveError::OutsideRoot,
{
    let mut plan: Vec<ArchiveEntry> = Vec::new();
    let mut i: usize = 0;
    proof {
        assert(entries@.subrange(0, 0) =~= Seq::<WalkEntry>::empty());
        assert(plan@.map_values(|e: ArchiveEntry| (e.source_path@, e.rel_path@)) =~= spec_plan(
            prefix@,
            entries@.subrange(0, 0),
        ));
    }
    while i < entries.len()
        invariant
            i <= entries@.len(),
            all_under(prefix@, entries@.subrange(0, i as int)),
            plan@.map_values(|e: ArchiveEntry| (e.source_path@, e.rel_path@)) == spec_plan(
                prefix@,
                entries@.subrange(0, i as int),
            ),
        decreases entries@.len() - i,
    {
        proof {
            assert(entries@.subrange(0, i + 1).last() == entries@[i as int]);
            assert(entries@.subrange(0, i + 1).drop_last() =~= entries@.subrange(0, i as int));
        }
        if entries[i].is_file {
            match strip_prefix(prefix, entries[i].path.as_str()) {
                Option::Some(rel) => {
                    let entry = ArchiveEntry {
                        source_path: entries[i].path.clone(),
                        rel_path: rel,
                    };
                    plan.push(entry);
                    proof {
                        assert(plan@.map_values(|e: ArchiveEntry| (e.source_path@, e.rel_path@))
                            =~= spec_plan(prefix@, entries@.subrange(0, i + 1)));
                    }
                },
                Option::None => {
                    proof {
                        assert(!all_under(prefix@, entries@));
                    }
                    return Err(ArchiveError::OutsideRoot);
                },
            }
        }
        i = i + 1;
        proof {
            assert(forall|j: int|
                0 <= j < i ==> entries@.subrange(0, i as int)[j] == entries@[j]);
        }
    }
    proof {
        assert(entries@.subrange(0, i as int) =~= entries@);
    }
    Ok(plan)
}

/// How often `path` occurs as a source among the planned pairs.
pub open spec fn count_path(plan: Seq<(Seq<char>, Seq<char>)>, path: Seq<char>) -> nat
    decreases plan.len(),
{
    if plan.len() == 0 {
        0
    } else {
        count_path(plan.drop_last(), path) + if plan.last().0 == path {
            1nat
        } else {
            0nat
        }
    }
}

/// No two walked entries share a path.
pub open spec fn distinct_paths(entries: Seq<WalkEntry>) -> bool {
    forall|i: int, j: int|
        0 <= i < j < entries.len() ==> (#[trigger] entries[i]).path@ != (#[trigger] entries[j]).path@
}

/// A path reported by no walked entry is planned under no pair.
pub proof fn lemma_count_path_zero(prefix: Seq<char>, entries: Seq<WalkEntry>, path: Seq<char>)
    requires
        forall|i: int| 0 <= i < entries.len() ==> (#[trigger] entries[i]).path@ != path,
    ensures
        count_path(spec_plan(prefix, entries), path) == 0,
    decreases entries.len(),
{
    if entries.len() > 0 {
        let rest = entries.drop_last();
        assert(forall|i: int| 0 <= i < rest.len() ==> (#[trigger] rest[i]) == entries[i]);
        lemma_count_path_zero(prefix, rest, path);
        if entries.last().is_file {
            let pair = (entries.last().path@, strip_prefix_spec(prefix, entries.last().path@)->Some_0);
            let plan = spec_plan(prefix, rest).push(pair);
            assert(plan.drop_last() =~= spec_plan(prefix, rest));
            assert(entries[entries.len() - 1].path@ != path);
            assert(plan.last().0 != path);
        }
    }
}

/// Every regular file the walk reported exactly once appears exactly
/// once in the plan, under its path relative to the save root.
pub proof fn lemma_file_archived_exactly_once(
    prefix: Seq<char>,
    entries: Seq<WalkEntry>,
    k: int,
)
    requires
        distinct_paths(entries),
        0 <= k < entries.len(),
        entries[k].is_file,
    ensures
        count_path(spec_plan(prefix, entries), entries[k].path@) == 1,
    decreases entries.len(),
{
    let rest = entries.drop_last();
    let rest_plan = spec_plan(prefix, rest);
    assert(forall|i: int| 0 <= i < rest.len() ==> (#[trigger] rest[i]) == entries[i]);
    if k == entries.len() - 1 {
        lemma_count_path_zero(prefix, rest, entries[k].path@);
        let pair = (entries.last().path@, strip_prefix_spec(prefix, entries.last().path@)->Some_0);
        let plan = rest_plan.push(pair);
        assert(plan.drop_last() =~= rest_plan);
        assert(plan.last().0 == entries[k].path@);
    } else {
        lemma_file_archived_exactly_once(prefix, rest, k);
        if entries.last().is_file {
            assert(entries.last().path@ != entries[k].path@);
            let pair = (entries.last().path@, strip_prefix_spec(prefix, entries.last().path@)->Some_0);
            let plan = rest_plan.push(pair);
            assert(plan.drop_last() =~= rest_plan);
            assert(plan.last().0 != entries[k].path@);
        }
    }
}

/// Every planned pair names a walked regular file as its source, under
/// that file's path relative to the save root.
pub proof fn lemma_plan_entry_shape(prefix: Seq<char>, entries: Seq<WalkEntry>, j: int)
    requires
        0 <= j < spec_plan(prefix, entries).len(),
    ensures
        spec_plan(prefix, entries)[j].1 == strip_prefix_spec(
            prefix,
            spec_plan(prefix, entries)[j].0,
        )->Some_0,
        exists|i: int|
            0 <= i < entries.len() && (#[trigger] entries[i]).is_file && entries[i].path@
                == spec_plan(prefix, entries)[j].0,
    decreases entries.len(),
{
    let rest = entries.drop_last();
    let rest_plan = spec_plan(prefix, rest);
    if entries.last().is_file && j == rest_plan.len() {
        assert(entries[entries.len() - 1].is_file);
    } else {
        lemma_plan_entry_shape(prefix, rest, j);
        let i = choose|i: int|
            0 <= i < rest.len() && (#[trigger] rest[i]).is_file && rest[i].path@ == spec_plan(
                prefix,
                rest,
            )[j].0;
        assert(entries[i].is_file && entries[i].path@ == spec_plan(prefix, entries)[j].0);
    }
}

} // verus!
