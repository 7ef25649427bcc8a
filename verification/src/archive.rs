//! Reading zip archives held in memory. The zip container format is decoded
//! by an outside implementation; its results are named here — the entries'
//! bytes, their relative paths, and whether the whole payload decodes — so
//! that the pipeline's contracts can say both what an archive holds and
//! when reading it is owed to succeed.

use vstd::prelude::*;

verus! {

#[verifier::external_type_specification]
#[verifier::external_body]
#[verifier::reject_recursive_types(R)]
pub struct ExZipArchive<R>(zip::ZipArchive<R>);

#[verifier::external_type_specification]
#[verifier::external_body]
#[verifier::reject_recursive_types(T)]
pub struct ExCursor<T>(std::io::Cursor<T>);

/// The byte contents of each entry of an opened archive, in index order.
pub uninterp spec fn archive_contents(z: zip::ZipArchive<std::io::Cursor<Vec<u8>>>) -> Seq<Seq<u8>>;

/// The declared relative path of each entry of an opened archive, in index
/// order.
pub uninterp spec fn archive_names(z: zip::ZipArchive<std::io::Cursor<Vec<u8>>>) -> Seq<Seq<char>>;

/// Whether every entry of an opened archive decompresses without error.
pub uninterp spec fn archive_ok(z: zip::ZipArchive<std::io::Cursor<Vec<u8>>>) -> bool;

/// The entry contents that the zip format assigns to a byte buffer, in
/// index order: a function of the bytes alone.
pub uninterp spec fn zip_entries(data: Seq<u8>) -> Seq<Seq<u8>>;

/// The entries' declared relative paths, in index order: a function of the
/// bytes alone.
pub uninterp spec fn zip_entry_names(data: Seq<u8>) -> Seq<Seq<char>>;

/// Whether the buffer decodes fully as a zip archive: the container opens
/// and every entry decompresses. A function of the bytes alone.
pub uninterp spec fn zip_wf(data: Seq<u8>) -> bool;

/// Relies on `zip::ZipArchive::new` over an in-memory cursor: parsing the
/// central directory is deterministic in the bytes; on success the opened
/// archive holds exactly the entries encoded in `data`, each with its
/// declared path, and decompresses fully exactly when the buffer does.
#[verifier::external_body]
pub(crate) fn open_archive(data: &Vec<u8>) -> (r: Result<
    zip::ZipArchive<std::io::Cursor<Vec<u8>>>,
    String,
>)
    ensures
        r matches Ok(z) ==> {
            &&& archive_contents(z) == zip_entries(data@)
            &&& archive_names(z) == zip_entry_names(data@)
            &&& archive_names(z).len() == archive_contents(z).len()
            &&& archive_ok(z) == zip_wf(data@)
        },
        r is Err ==> !zip_wf(data@),
{
    let cursor = std::io::Cursor::new(data.clone());
    zip::ZipArchive::new(cursor).map_err(|e| format!("Failed to read zip archive: {}", e))
}

/// Relies on `zip::ZipArchive::len`: the number of entries in the archive.
#[verifier::external_body]
pub(crate) fn archive_len(z: &zip::ZipArchive<std::io::Cursor<Vec<u8>>>) -> (r: usize)
    ensures
        r == archive_contents(*z).len(),
{
    z.len()
}

/// Relies on `zip::ZipArchive::by_index`, `ZipFile::name` and
/// `std::io::Read::read_to_end`: on success yields entry `i`'s declared
/// path and decompressed bytes; a fully decoding archive never fails; the
/// archive's entries are unchanged either way (`by_index` re-seeks the
/// in-memory cursor on every access).
#[verifier::external_body]
pub(crate) fn read_entry(z: &mut zip::ZipArchive<std::io::Cursor<Vec<u8>>>, i: usize) -> (r: Result<
    (String, Vec<u8>),
    String,
>)
    requires
        i < archive_contents(*old(z)).len(),
    ensures
        archive_contents(*final(z)) == archive_contents(*old(z)),
        archive_names(*final(z)) == archive_names(*old(z)),
        archive_ok(*final(z)) == archive_ok(*old(z)),
        r matches Ok(p) ==> p.0@ == archive_names(*old(z))[i as int] && p.1@ == archive_contents(
            *old(z),
        )[i as int],
        archive_ok(*old(z)) ==> r is Ok,
{
    let mut f = match z.by_index(i) {
        Ok(f) => f,
        Err(e) => {
            return Err(format!("Failed to access file in zip: {}", e));
        },
    };
    let name = f.name().to_string();
    let mut buf = Vec::new();
    match std::io::Read::read_to_end(&mut f, &mut buf) {
        Ok(_) => Ok((name, buf)),
        Err(e) => Err(format!("Failed to read zip file: {}", e)),
    }
}

/// One archive entry as handed to the pipeline: its declared relative path
/// and its decompressed bytes.
pub struct ArchiveEntry {
    pub name: String,
    pub data: Vec<u8>,
}

/// Opens `data` as a zip archive and reads every entry's path and bytes, in
/// index order. Succeeds on every buffer that decodes fully; a corrupt
/// container or entry is reported as the decoder's message.
pub fn read_all_entries(data: &Vec<u8>) -> (r: Result<Vec<ArchiveEntry>, String>)
    ensures
        r matches Ok(v) ==> {
            &&& v@.len() == zip_entries(data@).len()
            &&& v@.map_values(|e: ArchiveEntry| e.data@) == zip_entries(data@)
            &&& v@.map_values(|e: ArchiveEntry| e.name@) == zip_entry_names(data@)
        },
        zip_wf(data@) ==> r is Ok,
{
    let mut z = match open_archive(data) {
        Ok(z) => z,
        Err(e) => {
            return Err(e);
        },
    };
    let n = archive_len(&z);
    let mut out: Vec<ArchiveEntry> = Vec::new();
    let mut i: usize = 0;
    while i < n
        invariant
            i <= n,
            n == archive_contents(z).len(),
            archive_contents(z) == zip_entries(data@),
            archive_names(z) == zip_entry_names(data@),
            archive_names(z).len() == archive_contents(z).len(),
            archive_ok(z) == zip_wf(data@),
            out@.len() == i,
            forall|k: int|
                0 <= k < i ==> (#[trigger] out@[k]).data@ == zip_entries(data@)[k] && out@[k].name@
                    == zip_entry_names(data@)[k],
        decreases n - i,
    {
        match read_entry(&mut z, i) {
            Ok(p) => {
                out.push(ArchiveEntry { name: p.0, data: p.1 });
            },
            Err(e) => {
                return Err(e);
            },
        }
        i += 1;
    }
    proof {
        assert(out@.map_values(|e: ArchiveEntry| e.data@) =~= zip_entries(data@));
        assert(out@.map_values(|e: ArchiveEntry| e.name@) =~= zip_entry_names(data@));
    }
    Ok(out)
}

} // verus!
