//! The reconciliation engine: diffing the local manifest against the remote
//! target, finding missing files, planning the post-sync sweep, and summing
//! the sizes of files already on disk.
//!
//! Disk access stays with the caller: it reports which names exist or which
//! children a directory holds, and performs the deletions these functions
//! plan.

use vstd::prelude::*;
use vstd::string::StrSliceExecFns;

use crate::manifest::{FileDetails, FileRec, GameManifestLocal, GameManifestRemote, LocalRec,
    views_of};
use crate::strutil::{names_contain, str_eq, views_of_strings};

verus! {

/// The fixed file name under which the local manifest is persisted inside
/// the install directory.
pub open spec fn manifest_file_name() -> Seq<char> {
    "manifest_local.json"@
}

/// Executable counterpart of [`manifest_file_name`].
pub fn manifest_file_name_str() -> (r: &'static str)
    ensures
        r@ == manifest_file_name(),
{
    "manifest_local.json"
}

/// Filtering a sequence extended by one element keeps the filtered prefix
/// and appends the element exactly when it satisfies the predicate.
proof fn lemma_filter_push<A>(s: Seq<A>, pred: spec_fn(A) -> bool, x: A)
    ensures
        s.push(x).filter(pred) == (if pred(x) {
            s.filter(pred).push(x)
        } else {
            s.filter(pred)
        }),
{
    reveal(Seq::filter);
    assert(s.push(x).drop_last() =~= s);
    assert(s.push(x).last() == x);
}

/// Filtering an empty sequence yields an empty sequence.
proof fn lemma_filter_empty<A>(s: Seq<A>, pred: spec_fn(A) -> bool)
    requires
        s.len() == 0,
    ensures
        s.filter(pred) == s,
{
    reveal(Seq::filter);
}

/// Whether the remote manifest still declares exactly this entry: same name,
/// same size, same hash.
pub open spec fn in_remote(f: FileRec, remote: Seq<FileRec>) -> bool {
    exists|i: int|
        0 <= i < remote.len() && remote[i].name == f.name && remote[i].size == f.size
            && remote[i].hash == f.hash
}

/// Executable counterpart of [`in_remote`].
fn entry_in_remote(f: &FileDetails, remote: &Vec<FileDetails>) -> (r: bool)
    ensures
        r == in_remote(f@, views_of(remote@)),
{
    let mut i: usize = 0;
    while i < remote.len()
        invariant
            i <= remote.len(),
            forall|j: int|
                0 <= j < i ==> !(views_of(remote@)[j].name == f@.name && views_of(remote@)[j].size
                    == f@.size && views_of(remote@)[j].hash == f@.hash),
        decreases remote.len() - i,
    {
        if remote[i].name == f.name && remote[i].size == f.size && remote[i].hash == f.hash {
            proof {
                assert(views_of(remote@)[i as int].name == f@.name);
            }
            return true;
        }
        i += 1;
    }
    false
}

/// Drops from the local manifest every entry whose `(name, size, hash)`
/// triple the remote manifest no longer declares, and returns the names of
/// the dropped entries so that the caller can delete their backing paths.
/// Kept entries stay in order; the manifest's metadata is untouched.
pub fn remove_obsolete_files(
    local_manifest: &mut GameManifestLocal,
    remote_manifest: &GameManifestRemote,
) -> (to_delete: Vec<String>)
    ensures
        final(local_manifest)@ == (LocalRec {
            files: old(local_manifest)@.files.filter(
                |f: FileRec| in_remote(f, remote_manifest@.files),
            ),
            ..old(local_manifest)@
        }),
        views_of_strings(to_delete@) == old(local_manifest)@.files.filter(
            |f: FileRec| !in_remote(f, remote_manifest@.files),
        ).map_values(|f: FileRec| f.name),
{
    let ghost full: Seq<FileRec> = views_of(local_manifest.files@);
    let ghost remote: Seq<FileRec> = remote_manifest@.files;
    let ghost keep = |f: FileRec| in_remote(f, remote);
    let ghost obsolete = |f: FileRec| !in_remote(f, remote);
    let mut kept: Vec<FileDetails> = Vec::new();
    let mut to_delete: Vec<String> = Vec::new();
    let mut i: usize = 0;
    proof {
        lemma_filter_empty(full.take(0), keep);
        lemma_filter_empty(full.take(0), obsolete);
        assert(views_of(kept@) =~= full.take(0).filter(keep));
        assert(views_of_strings(to_delete@) =~= full.take(0).filter(obsolete).map_values(
            |f: FileRec| f.name,
        ));
    }
    while i < local_manifest.files.len()
        invariant
            i <= local_manifest.files.len(),
            views_of(local_manifest.files@) == full,
            remote == remote_manifest@.files,
            keep == (|f: FileRec| in_remote(f, remote)),
            obsolete == (|f: FileRec| !in_remote(f, remote)),
            views_of(kept@) == full.take(i as int).filter(keep),
            views_of_strings(to_delete@) == full.take(i as int).filter(obsolete).map_values(
                |f: FileRec| f.name,
            ),
        decreases local_manifest.files.len() - i,
    {
        let ghost pre_kept = views_of(kept@);
        let ghost pre_del = views_of_strings(to_delete@);
        proof {
            assert(full.take(i as int + 1) =~= full.take(i as int).push(full[i as int]));
            lemma_filter_push(full.take(i as int), keep, full[i as int]);
            lemma_filter_push(full.take(i as int), obsolete, full[i as int]);
        }
        if entry_in_remote(&local_manifest.files[i], &remote_manifest.files) {
            kept.push(local_manifest.files[i].clone());
            proof {
                assert(views_of(kept@) =~= pre_kept.push(full[i as int]));
            }
        } else {
            to_delete.push(local_manifest.files[i].name.clone());
            proof {
                assert(views_of_strings(to_delete@) =~= pre_del.push(full[i as int].name));
                assert(full.take(i as int).filter(obsolete).push(full[i as int]).map_values(
                    |f: FileRec| f.name,
                ) =~= full.take(i as int).filter(obsolete).map_values(|f: FileRec| f.name).push(
                    full[i as int].name,
                ));
            }
        }
        i += 1;
    }
    proof {
        assert(full.take(full.len() as int) =~= full);
    }
    local_manifest.files = kept;
    to_delete
}

/// Returns every manifest entry whose backing file the caller did not find
/// on disk, in manifest order. `present_names` holds the names (relative
/// paths) that do exist; nothing is mutated.
pub fn check_missing_files(
    present_names: &Vec<String>,
    local_manifest: &GameManifestLocal,
) -> (missing: Vec<FileDetails>)
    ensures
        views_of(missing@) == local_manifest@.files.filter(
            |f: FileRec| !views_of_strings(present_names@).contains(f.name),
        ),
{
    let ghost full: Seq<FileRec> = views_of(local_manifest.files@);
    let ghost absent = |f: FileRec| !views_of_strings(present_names@).contains(f.name);
    let mut missing: Vec<FileDetails> = Vec::new();
    let mut i: usize = 0;
    proof {
        lemma_filter_empty(full.take(0), absent);
        assert(views_of(missing@) =~= full.take(0).filter(absent));
    }
    while i < local_manifest.files.len()
        invariant
            i <= local_manifest.files.len(),
            views_of(local_manifest.files@) == full,
            absent == (|f: FileRec| !views_of_strings(present_names@).contains(f.name)),
            views_of(missing@) == full.take(i as int).filter(absent),
        decreases local_manifest.files.len() - i,
    {
        let ghost pre = views_of(missing@);
        proof {
            assert(full.take(i as int + 1) =~= full.take(i as int).push(full[i as int]));
            lemma_filter_push(full.take(i as int), absent, full[i as int]);
        }
        if !names_contain(present_names, &local_manifest.files[i].name) {
            missing.push(local_manifest.files[i].clone());
            proof {
                assert(views_of(missing@) =~= pre.push(full[i as int]));
            }
        }
        i += 1;
    }
    proof {
        assert(full.take(full.len() as int) =~= full);
    }
    missing
}

/// Whether the manifest entry named `entry_name` accounts for the direct
/// child `child` of the install directory: either the entry is exactly that
/// child, or it lies underneath it (its path continues with a separator).
pub open spec fn covers(entry_name: Seq<char>, child: Seq<char>) -> bool {
    entry_name == child || (entry_name.len() > child.len() && entry_name.take(child.len() as int)
        == child && entry_name[child.len() as int] == '/')
}

/// Whether the post-sync sweep removes `child`: it is not the persisted
/// manifest file and no manifest entry accounts for it.
pub open spec fn swept(child: Seq<char>, files: Seq<FileRec>) -> bool {
    child != manifest_file_name() && !(exists|i: int| 0 <= i < files.len() && covers(files[i].name, child))
}

/// Executable counterpart of [`covers`].
fn entry_covers(entry_name: &str, child: &str) -> (r: bool)
    ensures
        r == covers(entry_name@, child@),
{
    let e_len = entry_name.unicode_len();
    let c_len = child.unicode_len();
    if e_len == c_len {
        str_eq(entry_name, child)
    } else if e_len > c_len {
        let head = entry_name.substring_char(0, c_len);
        str_eq(head, child) && entry_name.get_char(c_len) == '/'
    } else {
        proof {
            assert(entry_name@.len() < child@.len());
        }
        false
    }
}

/// Executable counterpart of the existential in [`swept`].
fn some_entry_covers(files: &Vec<FileDetails>, child: &String) -> (r: bool)
    ensures
        r == exists|i: int| 0 <= i < views_of(files@).len() && covers(views_of(files@)[i].name, child@),
{
    let mut i: usize = 0;
    while i < files.len()
        invariant
            i <= files.len(),
            forall|j: int| 0 <= j < i ==> !covers(views_of(files@)[j].name, child@),
        decreases files.len() - i,
    {
        if entry_covers(files[i].name.as_str(), child.as_str()) {
            proof {
                assert(covers(views_of(files@)[i as int].name, child@));
            }
            return true;
        }
        i += 1;
    }
    false
}

/// Plans the post-sync sweep: of the install directory's direct children,
/// returns those that are neither the persisted manifest file nor accounted
/// for by any manifest entry, in directory order. The caller deletes them.
pub fn clean_up_directory(
    directory_children: &Vec<String>,
    game_manifest: &GameManifestLocal,
) -> (to_delete: Vec<String>)
    ensures
        views_of_strings(to_delete@) == views_of_strings(directory_children@).filter(
            |c: Seq<char>| swept(c, game_manifest@.files),
        ),
{
    let ghost children: Seq<Seq<char>> = views_of_strings(directory_children@);
    let ghost gone = |c: Seq<char>| swept(c, game_manifest@.files);
    let mut to_delete: Vec<String> = Vec::new();
    let mut i: usize = 0;
    proof {
        lemma_filter_empty(children.take(0), gone);
        assert(views_of_strings(to_delete@) =~= children.take(0).filter(gone));
    }
    while i < directory_children.len()
        invariant
            i <= directory_children.len(),
            children == views_of_strings(directory_children@),
            gone == (|c: Seq<char>| swept(c, game_manifest@.files)),
            views_of_strings(to_delete@) == children.take(i as int).filter(gone),
        decreases directory_children.len() - i,
    {
        let ghost pre = views_of_strings(to_delete@);
        proof {
            assert(children.take(i as int + 1) =~= children.take(i as int).push(
                children[i as int],
            ));
            lemma_filter_push(children.take(i as int), gone, children[i as int]);
        }
        let child = &directory_children[i];
        let is_manifest = str_eq(child.as_str(), manifest_file_name_str());
        if !is_manifest && !some_entry_covers(&game_manifest.files, child) {
            to_delete.push(child.clone());
            proof {
                assert(views_of_strings(to_delete@) =~= pre.push(children[i as int]));
            }
        }
        i += 1;
    }
    proof {
        assert(children.take(children.len() as int) =~= children);
    }
    to_delete
}

/// The byte total of the manifest entries whose names are in `present`,
/// taken over declared sizes.
pub open spec fn present_size_sum(files: Seq<FileRec>, present: Seq<Seq<char>>) -> nat
    decreases files.len(),
{
    if files.len() == 0 {
        0
    } else {
        present_size_sum(files.drop_last(), present) + if present.contains(files.last().name) {
            files.last().size as nat
        } else {
            0
        }
    }
}

/// A mathematical total clamped to what a `u64` can carry.
pub open spec fn clamp_u64(n: nat) -> nat {
    if n > u64::MAX {
        u64::MAX as nat
    } else {
        n
    }
}

/// Sums the declared sizes of the manifest entries whose backing files the
/// caller found on disk: the "already downloaded" baseline that a resumed
/// session starts from. The sum saturates at the largest `u64`.
pub fn calculate_real_total_downloaded(
    present_names: &Vec<String>,
    manifest: &GameManifestLocal,
) -> (r: u64)
    ensures
        r as nat == clamp_u64(present_size_sum(manifest@.files, views_of_strings(present_names@))),
{
    let ghost full: Seq<FileRec> = views_of(manifest.files@);
    let ghost present: Seq<Seq<char>> = views_of_strings(present_names@);
    let mut total: u64 = 0;
    let mut i: usize = 0;
    proof {
        assert(full.take(0) =~= Seq::<FileRec>::empty());
    }
    while i < manifest.files.len()
        invariant
            i <= manifest.files.len(),
            views_of(manifest.files@) == full,
            present == views_of_strings(present_names@),
            total as nat == clamp_u64(present_size_sum(full.take(i as int), present)),
        decreases manifest.files.len() - i,
    {
        proof {
            assert(full.take(i as int + 1).drop_last() =~= full.take(i as int));
            assert(full.take(i as int + 1).last() == full[i as int]);
        }
        if names_contain(present_names, &manifest.files[i].name) {
            total = total.saturating_add(manifest.files[i].size);
        }
        i += 1;
    }
    proof {
        assert(full.take(full.len() as int) =~= full);
    }
    total
}

} // verus!
