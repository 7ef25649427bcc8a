//! The sync pipeline: the decisions of one download-and-update run, from
//! the first control check to the completion event.
//!
//! The embedding program performs the outside work — HTTP fetches, disk
//! writes and renames, clock reads — and hands the results back as plain
//! values; every decision over those values is made and verified here.
//! Per file the discipline is: check the control flags, fetch, accumulate
//! chunks, then either expand an archive payload or write the bytes to a
//! temporary sibling path, rename into place, and verify the digest before
//! the manifest learns about the file.

use vstd::prelude::*;
use vstd::string::StringExecFns;

use crate::archive::{read_all_entries, zip_entries, zip_entry_names, zip_wf, ArchiveEntry};
use crate::codec::{encode_manifest, manifest_to_json};
use crate::hashing::{calculate_file_hash, hex_of, sha256_of};
use crate::manifest::{FileDetails, FileRec, GameManifestLocal, LocalRec, dedup_files,
    remove_duplicates, views_of};
use crate::reconcile::clamp_u64;

verus! {

/// Why a sync run stopped.
#[derive(Debug)]
pub enum SyncError {
    /// A directory, file or rename operation failed.
    IOError(String),
    /// The persisted manifest could not be understood.
    FormatError(String),
    /// The remote answered with a non-success status.
    TransferError(String),
    /// A downloaded payload's digest differs from the declared hash.
    HashMismatch { file_name: String, expected: String, actual: String },
    /// Cancellation was requested and observed at a check point.
    Cancelled,
    /// A pause was requested and observed at a check point.
    Paused,
    /// An archive payload could not be opened or read.
    ArchiveError(String),
}

/// The byte total declared by a list of entries.
pub open spec fn size_sum(files: Seq<FileRec>) -> nat
    decreases files.len(),
{
    if files.len() == 0 {
        0
    } else {
        size_sum(files.drop_last()) + files.last().size as nat
    }
}

/// The state of one sync run over an explicit fetch list.
pub struct SyncRun {
    /// The local manifest, mutated as files are committed.
    pub manifest: GameManifestLocal,
    /// The files still to fetch, in order; `next_index` points at the next.
    pub files_to_download: Vec<FileDetails>,
    pub next_index: usize,
    /// The byte total of the fetch list, saturated.
    pub total_size_to_download: u64,
    /// Bytes accounted as downloaded, including the prior-session baseline.
    pub total_downloaded: u64,
    /// Bytes received during this run, for the throughput estimate.
    pub bytes_downloaded: u64,
    /// The in-memory accumulation of the current file's chunks.
    pub buffer: Vec<u8>,
    /// The run's start and the last progress emission, in caller clock
    /// milliseconds.
    pub start_ms: u64,
    pub last_emit_ms: u64,
    pub bucket_name: String,
    pub path_filename: String,
    pub os_architecture: String,
    pub api_url: String,
    pub file_location_download: String,
    pub game_title: String,
    pub game_version: String,
    pub game_binary_size: u64,
    pub game_id: u64,
    pub user_id: u64,
}

/// The run parameters that no pipeline step changes.
pub open spec fn same_config(a: SyncRun, b: SyncRun) -> bool {
    &&& a.files_to_download == b.files_to_download
    &&& a.total_size_to_download == b.total_size_to_download
    &&& a.bucket_name == b.bucket_name
    &&& a.path_filename == b.path_filename
    &&& a.os_architecture == b.os_architecture
    &&& a.api_url == b.api_url
    &&& a.file_location_download == b.file_location_download
    &&& a.game_title == b.game_title
    &&& a.game_version == b.game_version
    &&& a.game_binary_size == b.game_binary_size
    &&& a.game_id == b.game_id
    &&& a.user_id == b.user_id
    &&& a.start_ms == b.start_ms
}

/// One progress emission. The throughput estimate is left to the consumer
/// as the cumulative `bytes_downloaded` over `elapsed_ms` — an average for
/// the whole run, not an instantaneous rate.
pub struct ProgressEvent {
    pub user_id: u64,
    pub path_install_location: String,
    pub game_id: u64,
    pub game_title: String,
    pub game_version: String,
    pub bytes_downloaded: u64,
    pub elapsed_ms: u64,
    pub total_downloaded: u64,
    pub total_size_to_download: u64,
    pub game_binary_size: u64,
}

/// The terminal completion event of a successful run.
pub struct CompletionEvent {
    pub game_title: String,
    pub game_id: u64,
    pub user_id: u64,
    pub file_location_download: String,
    pub game_version: String,
    pub game_binary_size: u64,
}

/// One file fetch: the entry to download and the request URL built for it.
pub struct FetchRequest {
    pub file: FileDetails,
    pub url: String,
}

/// A planned atomic write: the caller writes the current buffer to
/// `temp_path`, then renames it onto `final_path`.
pub struct WritePlan {
    pub temp_path: String,
    pub final_path: String,
}

/// What a successful plain-file commit hands back: the payload's computed
/// digest and the manifest text the caller persists before the next fetch.
pub struct CommitOutcome {
    pub hash: String,
    pub manifest_json: String,
}

/// A planned write of one archive entry: the target path derived from the
/// entry's own relative path, the entry's bytes, and the manifest text the
/// caller persists once this entry's write is done.
pub struct ArchiveWrite {
    pub path: String,
    pub data: Vec<u8>,
    pub manifest_json: String,
}

/// What the end of a successful run hands back: the completion event and
/// the final manifest text the caller persists before the sweep.
pub struct RunOutcome {
    pub completion: CompletionEvent,
    pub manifest_json: String,
}

/// The manifest record for one archive entry: its declared relative path,
/// the hex digest of its bytes, and its byte count.
pub open spec fn archive_entry_rec(name: Seq<char>, data: Seq<u8>) -> FileRec {
    FileRec { name: name, hash: hex_of(sha256_of(data)), size: data.len() as u64 }
}

/// The records of every entry of an archive payload, in index order.
pub open spec fn archive_entry_recs(data: Seq<u8>) -> Seq<FileRec> {
    Seq::new(
        zip_entries(data).len(),
        |k: int| archive_entry_rec(zip_entry_names(data)[k], zip_entries(data)[k]),
    )
}

/// The manifest entry list after committing the first `k` records in
/// order, deduplicating by name after each.
pub open spec fn files_after_commits(files: Seq<FileRec>, recs: Seq<FileRec>, k: int) -> Seq<
    FileRec,
>
    decreases k,
{
    if k <= 0 {
        files
    } else {
        dedup_files(files_after_commits(files, recs, k - 1).push(recs[k - 1]))
    }
}

/// The target path of a file inside the install directory.
pub open spec fn joined_path(dir: Seq<char>, name: Seq<char>) -> Seq<char> {
    dir + "/"@ + name
}

/// The URL a file is fetched from, assembled from the run's parameters.
pub open spec fn request_url_of(
    api_url: Seq<char>,
    bucket_name: Seq<char>,
    path_filename: Seq<char>,
    game_version: Seq<char>,
    os_architecture: Seq<char>,
    file_name: Seq<char>,
) -> Seq<char> {
    api_url + "?bucketName="@ + bucket_name + "&pathFilename="@ + path_filename + game_version
        + "/"@ + os_architecture + "/"@ + file_name
}

/// Observes the cooperative control flags: cancellation wins over pause,
/// and the run proceeds only when neither is requested.
pub fn check_control(cancel: bool, pause: bool) -> (r: Result<(), SyncError>)
    ensures
        cancel ==> r == Err::<(), SyncError>(SyncError::Cancelled),
        !cancel && pause ==> r == Err::<(), SyncError>(SyncError::Paused),
        !cancel && !pause ==> r == Ok::<(), SyncError>(()),
{
    if cancel {
        Err(SyncError::Cancelled)
    } else if pause {
        Err(SyncError::Paused)
    } else {
        Ok(())
    }
}

/// Stamps the run's metadata — version, title, declared binary size — onto
/// the local manifest, leaving its entries alone.
pub fn update_run_metadata(
    manifest: &mut GameManifestLocal,
    game_title: &String,
    game_version: &String,
    game_binary_size: u64,
)
    ensures
        final(manifest)@ == (LocalRec {
            game_title: game_title@,
            version: game_version@,
            game_binary_size: game_binary_size,
            ..old(manifest)@
        }),
{
    manifest.gameTitle = game_title.clone();
    manifest.version = game_version.clone();
    manifest.gameBinarySize = game_binary_size;
}

/// Sums the declared sizes of a fetch list, saturating at the largest
/// `u64`: the run's "total to download".
pub fn total_size_of(files: &Vec<FileDetails>) -> (r: u64)
    ensures
        r as nat == clamp_u64(size_sum(views_of(files@))),
{
    let ghost full: Seq<FileRec> = views_of(files@);
    let mut total: u64 = 0;
    let mut i: usize = 0;
    proof {
        assert(full.take(0) =~= Seq::<FileRec>::empty());
    }
    while i < files.len()
        invariant
            i <= files.len(),
            views_of(files@) == full,
            total as nat == clamp_u64(size_sum(full.take(i as int))),
        decreases files.len() - i,
    {
        proof {
            assert(full.take(i as int + 1).drop_last() =~= full.take(i as int));
            assert(full.take(i as int + 1).last() == full[i as int]);
        }
        total = total.saturating_add(files[i].size);
        i += 1;
    }
    proof {
        assert(full.take(full.len() as int) =~= full);
    }
    total
}

impl SyncRun {
    /// Starts a run: the fetch list's byte total becomes the amount to
    /// download, `already_downloaded` (the resumed-session baseline, see
    /// [`crate::reconcile::calculate_real_total_downloaded`]) seeds the
    /// progress counter, and the first file is up next.
    pub fn new(
        manifest: GameManifestLocal,
        files_to_download: Vec<FileDetails>,
        already_downloaded: u64,
        start_ms: u64,
        bucket_name: String,
        path_filename: String,
        os_architecture: String,
        api_url: String,
        file_location_download: String,
        game_title: String,
        game_version: String,
        game_binary_size: u64,
        game_id: u64,
        user_id: u64,
    ) -> (r: SyncRun)
        ensures
            r.manifest == manifest,
            r.files_to_download == files_to_download,
            r.next_index == 0,
            r.total_size_to_download as nat == clamp_u64(size_sum(views_of(files_to_download@))),
            r.total_downloaded == already_downloaded,
            r.bytes_downloaded == 0,
            r.buffer@ == Seq::<u8>::empty(),
            r.start_ms == start_ms,
            r.last_emit_ms == start_ms,
            r.bucket_name == bucket_name,
            r.path_filename == path_filename,
            r.os_architecture == os_architecture,
            r.api_url == api_url,
            r.file_location_download == file_location_download,
            r.game_title == game_title,
            r.game_version == game_version,
            r.game_binary_size == game_binary_size,
            r.game_id == game_id,
            r.user_id == user_id,
    {
        let total_size_to_download = total_size_of(&files_to_download);
        SyncRun {
            manifest,
            files_to_download,
            next_index: 0,
            total_size_to_download,
            total_downloaded: already_downloaded,
            bytes_downloaded: 0,
            buffer: Vec::new(),
            start_ms,
            last_emit_ms: start_ms,
            bucket_name,
            path_filename,
            os_architecture,
            api_url,
            file_location_download,
            game_title,
            game_version,
            game_binary_size,
            game_id,
            user_id,
        }
    }

    /// The entry the pipeline fetches next, with its request URL — or
    /// nothing, when every file of the list has been processed.
    pub fn next_file_request(&self) -> (r: Option<FetchRequest>)
        ensures
            (r is Some) == (self.next_index < self.files_to_download@.len()),
            r matches Some(req) ==> {
                &&& req.file@ == views_of(self.files_to_download@)[self.next_index as int]
                &&& req.url@ == request_url_of(
                    self.api_url@,
                    self.bucket_name@,
                    self.path_filename@,
                    self.game_version@,
                    self.os_architecture@,
                    views_of(self.files_to_download@)[self.next_index as int].name,
                )
            },
    {
        if self.next_index >= self.files_to_download.len() {
            return None;
        }
        let file = self.files_to_download[self.next_index].clone();
        let mut url = self.api_url.clone();
        url.append("?bucketName=");
        url.append(self.bucket_name.as_str());
        url.append("&pathFilename=");
        url.append(self.path_filename.as_str());
        url.append(self.game_version.as_str());
        url.append("/");
        url.append(self.os_architecture.as_str());
        url.append("/");
        url.append(file.name.as_str());
        Some(FetchRequest { file, url })
    }

    /// Turns a non-success response status into the run's fatal transfer
    /// error; a success status lets the run proceed.
    pub fn check_response_status(&self, success: bool, status_text: &String) -> (r: Result<
        (),
        SyncError,
    >)
        requires
            self.next_index < self.files_to_download@.len(),
        ensures
            success ==> r == Ok::<(), SyncError>(()),
            !success ==> (r matches Err(e) && e matches SyncError::TransferError(m) && m@
                == "Failed to download file: "@ + views_of(self.files_to_download@)[
                self.next_index as int
            ].name + " received "@ + status_text@ + " response"@),
    {
        if success {
            Ok(())
        } else {
            let mut m = "Failed to download file: ".to_owned();
            m.append(self.files_to_download[self.next_index].name.as_str());
            m.append(" received ");
            m.append(status_text.as_str());
            m.append(" response");
            Err(SyncError::TransferError(m))
        }
    }

    /// Takes one received chunk: after the control check the chunk joins
    /// the buffer, the byte counters grow (saturating), and a progress
    /// event is emitted when at least the emission interval — 50
    /// milliseconds — has passed since the last one.
    pub fn on_chunk(&mut self, chunk: &Vec<u8>, cancel: bool, pause: bool, now_ms: u64) -> (r:
        Result<Option<ProgressEvent>, SyncError>)
        ensures
            same_config(*final(self), *old(self)),
            final(self).manifest == old(self).manifest,
            final(self).next_index == old(self).next_index,
            cancel ==> r == Err::<Option<ProgressEvent>, SyncError>(SyncError::Cancelled)
                && *final(self) == *old(self),
            !cancel && pause ==> r == Err::<Option<ProgressEvent>, SyncError>(SyncError::Paused)
                && *final(self) == *old(self),
            !cancel && !pause ==> {
                &&& final(self).buffer@ == old(self).buffer@ + chunk@
                &&& final(self).bytes_downloaded as nat == clamp_u64(
                    old(self).bytes_downloaded as nat + chunk@.len(),
                )
                &&& final(self).total_downloaded as nat == clamp_u64(
                    old(self).total_downloaded as nat + chunk@.len(),
                )
                &&& if now_ms >= old(self).last_emit_ms + 50 {
                    &&& final(self).last_emit_ms == now_ms
                    &&& r matches Ok(Some(ev))
                    &&& ev.user_id == old(self).user_id
                    &&& ev.path_install_location@ == old(self).file_location_download@
                    &&& ev.game_id == old(self).game_id
                    &&& ev.game_title@ == old(self).game_title@
                    &&& ev.game_version@ == old(self).game_version@
                    &&& ev.bytes_downloaded == final(self).bytes_downloaded
                    &&& ev.elapsed_ms as int == if now_ms >= old(self).start_ms {
                        now_ms - old(self).start_ms
                    } else {
                        0
                    }
                    &&& ev.total_downloaded == final(self).total_downloaded
                    &&& ev.total_size_to_download == old(self).total_size_to_download
                    &&& ev.game_binary_size == old(self).game_binary_size
                } else {
                    &&& final(self).last_emit_ms == old(self).last_emit_ms
                    &&& r == Ok::<Option<ProgressEvent>, SyncError>(None)
                }
            },
    {
        if cancel {
            return Err(SyncError::Cancelled);
        }
        if pause {
            return Err(SyncError::Paused);
        }
        let ghost pre_buffer = self.buffer@;
        let mut i: usize = 0;
        while i < chunk.len()
            invariant
                i <= chunk.len(),
                self.buffer@ == pre_buffer + chunk@.take(i as int),
                pre_buffer == old(self).buffer@,
                same_config(*self, *old(self)),
                self.manifest == old(self).manifest,
                self.next_index == old(self).next_index,
                self.bytes_downloaded == old(self).bytes_downloaded,
                self.total_downloaded == old(self).total_downloaded,
                self.last_emit_ms == old(self).last_emit_ms,
            decreases chunk.len() - i,
        {
            self.buffer.push(chunk[i]);
            proof {
                assert(pre_buffer + chunk@.take(i as int + 1) =~= (pre_buffer + chunk@.take(
                    i as int,
                )).push(chunk@[i as int]));
            }
            i += 1;
        }
        proof {
            assert(chunk@.take(chunk@.len() as int) =~= chunk@);
        }
        let added = chunk.len() as u64;
        self.bytes_downloaded = self.bytes_downloaded.saturating_add(added);
        self.total_downloaded = self.total_downloaded.saturating_add(added);
        if now_ms >= 50 && now_ms - 50 >= self.last_emit_ms {
            self.last_emit_ms = now_ms;
            let elapsed_ms = if now_ms >= self.start_ms {
                now_ms - self.start_ms
            } else {
                0
            };
            Ok(
                Some(
                    ProgressEvent {
                        user_id: self.user_id,
                        path_install_location: self.file_location_download.clone(),
                        game_id: self.game_id,
                        game_title: self.game_title.clone(),
                        game_version: self.game_version.clone(),
                        bytes_downloaded: self.bytes_downloaded,
                        elapsed_ms,
                        total_downloaded: self.total_downloaded,
                        total_size_to_download: self.total_size_to_download,
                        game_binary_size: self.game_binary_size,
                    },
                ),
            )
        } else {
            Ok(None)
        }
    }

    /// Plans the atomic write of the current file: the buffer goes to a
    /// temporary sibling first, and the temporary name always differs from
    /// the final name, so the final path never holds partial content.
    pub fn plain_file_plan(&self) -> (r: WritePlan)
        requires
            self.next_index < self.files_to_download@.len(),
        ensures
            r.final_path@ == joined_path(
                self.file_location_download@,
                views_of(self.files_to_download@)[self.next_index as int].name,
            ),
            r.temp_path@ == r.final_path@ + ".tmp"@,
            r.temp_path@ != r.final_path@,
    {
        let mut final_path = self.file_location_download.clone();
        final_path.append("/");
        final_path.append(self.files_to_download[self.next_index].name.as_str());
        let mut temp_path = final_path.clone();
        temp_path.append(".tmp");
        proof {
            reveal_strlit(".tmp");
            assert(temp_path@.len() == final_path@.len() + 4);
        }
        WritePlan { temp_path, final_path }
    }

    /// Commits the current file after its atomic write: a failed write is
    /// the run's I/O error, a digest that differs from the declared hash is
    /// a `HashMismatch` — and in both cases the run, manifest included, is
    /// exactly as it was. Only a verified payload is appended; the pipeline
    /// then moves to the next file and hands back the digest together with
    /// the manifest text the caller persists before the next fetch.
    pub fn finish_plain_file(&mut self, write_result: Result<Vec<u8>, String>) -> (r: Result<
        CommitOutcome,
        SyncError,
    >)
        requires
            old(self).next_index < old(self).files_to_download@.len(),
        ensures
            same_config(*final(self), *old(self)),
            r is Err ==> *final(self) == *old(self),
            match write_result {
                Err(e) => r matches Err(err) && err matches SyncError::IOError(m) && m@ == e@,
                Ok(bytes) => {
                    let file = views_of(old(self).files_to_download@)[old(self).next_index as int];
                    let actual = hex_of(sha256_of(bytes@));
                    if actual != file.hash {
                        &&& r matches Err(err)
                        &&& err matches SyncError::HashMismatch { file_name, expected, actual: a }
                        &&& file_name@ == file.name
                        &&& expected@ == file.hash
                        &&& a@ == actual
                    } else {
                        &&& r matches Ok(out)
                        &&& out.hash@ == actual
                        &&& out.manifest_json@ == encode_manifest(final(self).manifest@)
                        &&& final(self).manifest@ == (LocalRec {
                            files: old(self).manifest@.files.push(file),
                            ..old(self).manifest@
                        })
                        &&& final(self).next_index == old(self).next_index + 1
                        &&& final(self).buffer@ == Seq::<u8>::empty()
                        &&& final(self).bytes_downloaded == old(self).bytes_downloaded
                        &&& final(self).total_downloaded == old(self).total_downloaded
                        &&& final(self).last_emit_ms == old(self).last_emit_ms
                    }
                },
            },
    {
        let bytes = match write_result {
            Ok(b) => b,
            Err(e) => {
                return Err(SyncError::IOError(e));
            },
        };
        let actual = calculate_file_hash(&bytes);
        let _list_len = self.files_to_download.len();
        let file = self.files_to_download[self.next_index].clone();
        if !(actual == file.hash) {
            return Err(
                SyncError::HashMismatch {
                    file_name: file.name,
                    expected: file.hash,
                    actual,
                },
            );
        }
        self.manifest.files.push(file);
        proof {
            assert(views_of(self.manifest.files@) =~= old(self).manifest@.files.push(
                views_of(old(self).files_to_download@)[old(self).next_index as int],
            ));
        }
        let manifest_json = manifest_to_json(&self.manifest);
        self.next_index = self.next_index + 1;
        self.buffer = Vec::new();
        Ok(CommitOutcome { hash: actual, manifest_json })
    }

    /// Expands the buffered payload as a zip archive. Each entry is planned
    /// as a write under its own declared relative path inside the install
    /// directory, and the manifest records each entry under that path with
    /// the digest computed from its bytes and its byte count — entry by
    /// entry, deduplicating after each, with the manifest text to persist
    /// attached to each planned write. A payload that decodes fully always
    /// succeeds; one that does not leaves the run exactly as it was, with
    /// the decoder's message.
    pub fn process_archive(&mut self) -> (r: Result<Vec<ArchiveWrite>, SyncError>)
        requires
            old(self).next_index < old(self).files_to_download@.len(),
        ensures
            same_config(*final(self), *old(self)),
            r matches Err(e) ==> e matches SyncError::ArchiveError(_) && *final(self) == *old(
                self,
            ),
            zip_wf(old(self).buffer@) ==> r is Ok,
            r matches Ok(plans) ==> {
                let data = old(self).buffer@;
                let recs = archive_entry_recs(data);
                &&& plans@.len() == zip_entries(data).len()
                &&& forall|k: int|
                    0 <= k < plans@.len() ==> {
                        &&& (#[trigger] plans@[k]).path@ == joined_path(
                            old(self).file_location_download@,
                            zip_entry_names(data)[k],
                        )
                        &&& plans@[k].data@ == zip_entries(data)[k]
                        &&& plans@[k].manifest_json@ == encode_manifest(
                            (LocalRec {
                                files: files_after_commits(old(self).manifest@.files, recs, k + 1),
                                ..old(self).manifest@
                            }),
                        )
                    }
                &&& final(self).manifest@ == (LocalRec {
                    files: files_after_commits(
                        old(self).manifest@.files,
                        recs,
                        plans@.len() as int,
                    ),
                    ..old(self).manifest@
                })
                &&& final(self).next_index == old(self).next_index + 1
                &&& final(self).buffer@ == Seq::<u8>::empty()
                &&& final(self).bytes_downloaded == old(self).bytes_downloaded
                &&& final(self).total_downloaded == old(self).total_downloaded
                &&& final(self).last_emit_ms == old(self).last_emit_ms
            },
    {
        let entries = match read_all_entries(&self.buffer) {
            Ok(v) => v,
            Err(e) => {
                return Err(SyncError::ArchiveError(e));
            },
        };
        let _list_len = self.files_to_download.len();
        let ghost data = self.buffer@;
        let ghost recs = archive_entry_recs(data);
        let ghost files0 = self.manifest@.files;
        let mut plans: Vec<ArchiveWrite> = Vec::new();
        let mut i: usize = 0;
        while i < entries.len()
            invariant
                i <= entries.len(),
                data == old(self).buffer@,
                recs == archive_entry_recs(data),
                files0 == old(self).manifest@.files,
                entries@.len() == zip_entries(data).len(),
                entries@.map_values(|e: ArchiveEntry| e.data@) == zip_entries(data),
                entries@.map_values(|e: ArchiveEntry| e.name@) == zip_entry_names(data),
                plans@.len() == i,
                forall|k: int|
                    0 <= k < i ==> {
                        &&& (#[trigger] plans@[k]).path@ == joined_path(
                            old(self).file_location_download@,
                            zip_entry_names(data)[k],
                        )
                        &&& plans@[k].data@ == zip_entries(data)[k]
                        &&& plans@[k].manifest_json@ == encode_manifest(
                            (LocalRec {
                                files: files_after_commits(files0, recs, k + 1),
                                ..old(self).manifest@
                            }),
                        )
                    },
                views_of(self.manifest.files@) == files_after_commits(files0, recs, i as int),
                self.manifest@ == (LocalRec {
                    files: views_of(self.manifest.files@),
                    ..old(self).manifest@
                }),
                same_config(*self, *old(self)),
                self.next_index == old(self).next_index,
                self.buffer == old(self).buffer,
                self.bytes_downloaded == old(self).bytes_downloaded,
                self.total_downloaded == old(self).total_downloaded,
                self.last_emit_ms == old(self).last_emit_ms,
                self.files_to_download@.len() == old(self).files_to_download@.len(),
            decreases entries.len() - i,
        {
            let name = entries[i].name.clone();
            let bytes = entries[i].data.clone();
            let digest = calculate_file_hash(&bytes);
            let size = bytes.len() as u64;
            proof {
                assert(entries@.map_values(|e: ArchiveEntry| e.data@)[i as int] == zip_entries(
                    data,
                )[i as int]);
                assert(entries@.map_values(|e: ArchiveEntry| e.name@)[i as int] == zip_entry_names(
                    data,
                )[i as int]);
            }
            let rec = FileDetails::new(name.clone(), digest, size);
            proof {
                assert(recs[i as int] == archive_entry_rec(
                    zip_entry_names(data)[i as int],
                    zip_entries(data)[i as int],
                ));
                assert(bytes@.len() == zip_entries(data)[i as int].len());
                assert(rec@ == recs[i as int]);
            }
            let ghost pre = views_of(self.manifest.files@);
            self.manifest.files.push(rec);
            proof {
                assert(views_of(self.manifest.files@) =~= pre.push(recs[i as int]));
            }
            remove_duplicates(&mut self.manifest);
            proof {
                assert(files_after_commits(files0, recs, i as int + 1) == dedup_files(
                    files_after_commits(files0, recs, i as int).push(recs[i as int]),
                ));
            }
            let manifest_json = manifest_to_json(&self.manifest);
            let mut path = self.file_location_download.clone();
            path.append("/");
            path.append(name.as_str());
            plans.push(ArchiveWrite { path, data: bytes, manifest_json });
            i += 1;
        }
        self.next_index = self.next_index + 1;
        self.buffer = Vec::new();
        Ok(plans)
    }

    /// Ends a successful run: the manifest is deduplicated one last time
    /// and handed back as the text to persist, together with the completion
    /// event assembled from the run's parameters. The caller persists the
    /// text, sweeps the directory with
    /// [`crate::reconcile::clean_up_directory`], and delivers the event.
    pub fn finish_run(&mut self) -> (r: RunOutcome)
        ensures
            same_config(*final(self), *old(self)),
            final(self).manifest@ == (LocalRec {
                files: dedup_files(old(self).manifest@.files),
                ..old(self).manifest@
            }),
            final(self).next_index == old(self).next_index,
            final(self).buffer == old(self).buffer,
            final(self).bytes_downloaded == old(self).bytes_downloaded,
            final(self).total_downloaded == old(self).total_downloaded,
            final(self).last_emit_ms == old(self).last_emit_ms,
            r.manifest_json@ == encode_manifest(final(self).manifest@),
            r.completion.game_title@ == old(self).game_title@,
            r.completion.game_id == old(self).game_id,
            r.completion.user_id == old(self).user_id,
            r.completion.file_location_download@ == old(self).file_location_download@,
            r.completion.game_version@ == old(self).game_version@,
            r.completion.game_binary_size == old(self).game_binary_size,
    {
        remove_duplicates(&mut self.manifest);
        let manifest_json = manifest_to_json(&self.manifest);
        let completion = CompletionEvent {
            game_title: self.game_title.clone(),
            game_id: self.game_id,
            user_id: self.user_id,
            file_location_download: self.file_location_download.clone(),
            game_version: self.game_version.clone(),
            game_binary_size: self.game_binary_size,
        };
        RunOutcome { completion, manifest_json }
    }
}

} // verus!
