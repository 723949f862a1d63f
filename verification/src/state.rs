//! What is remembered between runs: ingest progress and the last scan.

use crate::text;
use crate::text_map::TextMap;
use vstd::prelude::*;

verus! {

broadcast use vstd::string::group_string_axioms;

/// What identifies the contents of a source file.
#[derive(Debug, PartialEq, Eq)]
pub struct FileIdentity {
    /// Stable filesystem identity when the platform exposes one.
    pub device: Option<u64>,
    pub inode: Option<u64>,
    /// Hash of a bounded prefix, used to detect in-place replacement without rescanning a file.
    pub prefix_sha256: Option<String>,
    /// Number of leading bytes covered by `prefix_sha256`. Keeping this stable across appends
    /// prevents a short file's fingerprint from changing merely because its prefix grew.
    pub prefix_bytes: u64,
    /// Nanosecond-resolution modification marker for detecting same-size rewrites.
    pub modified_ns: Option<i64>,
}

impl Clone for FileIdentity {
    fn clone(&self) -> (r: Self)
        ensures
            r == *self,
    {
        FileIdentity {
            device: self.device,
            inode: self.inode,
            prefix_sha256: text::copy_opt(&self.prefix_sha256),
            prefix_bytes: self.prefix_bytes,
            modified_ns: self.modified_ns,
        }
    }
}

impl Default for FileIdentity {
    fn default() -> (r: Self)
        ensures
            r == (FileIdentity {
                device: None,
                inode: None,
                prefix_sha256: None,
                prefix_bytes: 0,
                modified_ns: None,
            }),
    {
        FileIdentity {
            device: None,
            inode: None,
            prefix_sha256: None,
            prefix_bytes: 0,
            modified_ns: None,
        }
    }
}

/// A tool call whose result has not been seen yet.
#[derive(Debug, PartialEq, Eq)]
pub struct PendingToolCall {
    pub tool_name: Option<String>,
    pub tool_use_event_id: Option<String>,
    pub tool_use_doc_id: Option<u64>,
    pub timestamp: u64,
    pub argument_sha256: Option<String>,
    pub argument_bytes: Option<u64>,
    /// Source-native parent event for formats whose result event does not repeat it.
    pub parent_event_id: Option<String>,
    pub session_id: Option<String>,
    pub source_tool_use_id: Option<String>,
    pub source_tool_assistant_uuid: Option<String>,
}

/// The model of [`PendingToolCall`].
#[verifier::ext_equal]
pub struct PendingModel {
    pub tool_name: Option<Seq<char>>,
    pub tool_use_event_id: Option<Seq<char>>,
    pub tool_use_doc_id: Option<u64>,
    pub timestamp: u64,
    pub argument_sha256: Option<Seq<char>>,
    pub argument_bytes: Option<u64>,
    pub parent_event_id: Option<Seq<char>>,
    pub session_id: Option<Seq<char>>,
    pub source_tool_use_id: Option<Seq<char>>,
    pub source_tool_assistant_uuid: Option<Seq<char>>,
}

impl View for PendingToolCall {
    type V = PendingModel;

    open spec fn view(&self) -> PendingModel {
        PendingModel {
            tool_name: text::opt_text(self.tool_name),
            tool_use_event_id: text::opt_text(self.tool_use_event_id),
            tool_use_doc_id: self.tool_use_doc_id,
            timestamp: self.timestamp,
            argument_sha256: text::opt_text(self.argument_sha256),
            argument_bytes: self.argument_bytes,
            parent_event_id: text::opt_text(self.parent_event_id),
            session_id: text::opt_text(self.session_id),
            source_tool_use_id: text::opt_text(self.source_tool_use_id),
            source_tool_assistant_uuid: text::opt_text(self.source_tool_assistant_uuid),
        }
    }
}

/// The pending calls of a source, by call id.
pub open spec fn pending_model(calls: TextMap<PendingToolCall>) -> Map<Seq<char>, PendingModel> {
    calls@.map_values(|call: PendingToolCall| call@)
}

impl Clone for PendingToolCall {
    fn clone(&self) -> (r: Self)
        ensures
            r == *self,
    {
        PendingToolCall {
            tool_name: text::copy_opt(&self.tool_name),
            tool_use_event_id: text::copy_opt(&self.tool_use_event_id),
            tool_use_doc_id: self.tool_use_doc_id,
            timestamp: self.timestamp,
            argument_sha256: text::copy_opt(&self.argument_sha256),
            argument_bytes: self.argument_bytes,
            parent_event_id: text::copy_opt(&self.parent_event_id),
            session_id: text::copy_opt(&self.session_id),
            source_tool_use_id: text::copy_opt(&self.source_tool_use_id),
            source_tool_assistant_uuid: text::copy_opt(&self.source_tool_assistant_uuid),
        }
    }
}

impl Default for PendingToolCall {
    fn default() -> (r: Self)
        ensures
            r == (PendingToolCall {
                tool_name: None,
                tool_use_event_id: None,
                tool_use_doc_id: None,
                timestamp: 0,
                argument_sha256: None,
                argument_bytes: None,
                parent_event_id: None,
                session_id: None,
                source_tool_use_id: None,
                source_tool_assistant_uuid: None,
            }),
    {
        PendingToolCall {
            tool_name: None,
            tool_use_event_id: None,
            tool_use_doc_id: None,
            timestamp: 0,
            argument_sha256: None,
            argument_bytes: None,
            parent_event_id: None,
            session_id: None,
            source_tool_use_id: None,
            source_tool_assistant_uuid: None,
        }
    }
}

/// How far a source file has been ingested.
#[derive(Debug)]
pub struct FileState {
    pub size: u64,
    pub mtime: i64,
    pub offset: u64,
    pub turn_id: u32,
    pub parser_version: u32,
    /// Source-specific invalidation generation. Append-only sources leave this at zero;
    /// SQLite-backed sources can advance it when prior rows may have changed.
    pub source_generation: u64,
    pub pending_tool_calls: TextMap<PendingToolCall>,
    pub identity: FileIdentity,
}

impl Clone for FileState {
    fn clone(&self) -> (r: Self)
        ensures
            r.same_as(*self),
            r.size == self.size && r.mtime == self.mtime && r.offset == self.offset,
            r.turn_id == self.turn_id && r.parser_version == self.parser_version,
            r.source_generation == self.source_generation && r.identity == self.identity,
            r.pending_tool_calls@ == self.pending_tool_calls@,
    {
        let r = FileState {
            size: self.size,
            mtime: self.mtime,
            offset: self.offset,
            turn_id: self.turn_id,
            parser_version: self.parser_version,
            source_generation: self.source_generation,
            pending_tool_calls: self.pending_tool_calls.clone(),
            identity: self.identity.clone(),
        };
        assert(r.pending_tool_calls@ =~= self.pending_tool_calls@);
        r
    }
}

impl FileState {
    /// Two states say the same, whatever the order in which they list the pending calls.
    pub open spec fn same_as(self, other: FileState) -> bool {
        &&& self.size == other.size
        &&& self.mtime == other.mtime
        &&& self.offset == other.offset
        &&& self.turn_id == other.turn_id
        &&& self.parser_version == other.parser_version
        &&& self.source_generation == other.source_generation
        &&& self.pending_tool_calls@ == other.pending_tool_calls@
        &&& self.identity == other.identity
    }
}

/// Tracks when we last scanned for changes, allowing us to skip redundant scans if called again
/// within a short time.
#[derive(Debug, PartialEq, Eq)]
pub struct ScanCache {
    /// Unix timestamp (seconds) of the last successful scan.
    pub last_scan_ts: u64,
    /// Number of files found in the last scan.
    pub file_count: usize,
    /// Total bytes across all source files.
    pub total_bytes: u64,
}

impl Clone for ScanCache {
    fn clone(&self) -> (r: Self)
        ensures
            r == *self,
    {
        ScanCache {
            last_scan_ts: self.last_scan_ts,
            file_count: self.file_count,
            total_bytes: self.total_bytes,
        }
    }
}

impl Default for ScanCache {
    fn default() -> (r: Self)
        ensures
            r == (ScanCache { last_scan_ts: 0, file_count: 0, total_bytes: 0 }),
    {
        ScanCache { last_scan_ts: 0, file_count: 0, total_bytes: 0 }
    }
}

/// Calls `SystemTime::elapsed` on the Unix epoch: the whole seconds since then, or `None` when the
/// clock stands before it. Nothing is said of the result, which depends on the clock.
#[verifier::external_body]
fn seconds_since_epoch() -> (r: Option<u64>)
{
    std::time::UNIX_EPOCH.elapsed().ok().map(|elapsed| elapsed.as_secs())
}

/// The Unix timestamp of a clock that shows `elapsed` seconds since the epoch.
pub open spec fn timestamp_of(elapsed: Option<u64>) -> u64 {
    match elapsed {
        Some(seconds) => seconds,
        None => 0,
    }
}

/// The Unix timestamp of a clock that shows `elapsed` seconds since the epoch, 0 for one that
/// stands before it (`None`).
pub fn unix_timestamp(elapsed: Option<u64>) -> (r: u64)
    ensures
        r == timestamp_of(elapsed),
        elapsed matches Some(seconds) ==> r == seconds,
        elapsed is None ==> r == 0,
{
    match elapsed {
        Some(seconds) => seconds,
        None => 0,
    }
}

/// The current Unix timestamp in seconds, 0 for a clock before the epoch: what [`unix_timestamp`]
/// makes of [`seconds_since_epoch`]. The clock may show any number of seconds, so nothing more is
/// said of the result.
fn unix_now() -> (r: u64)
{
    unix_timestamp(seconds_since_epoch())
}

/// Whether a scan at `scanned` is younger than `ttl_seconds` at `now`. A scan in the future counts
/// as one made now.
pub open spec fn fresh(scanned: u64, ttl_seconds: u64, now: u64) -> bool {
    if now < scanned {
        0 < ttl_seconds
    } else {
        now - scanned < ttl_seconds
    }
}

impl ScanCache {
    /// Whether the cache is still valid (within `ttl_seconds`) at `now`.
    pub fn is_fresh_at(&self, ttl_seconds: u64, now: u64) -> (r: bool)
        ensures
            r == fresh(self.last_scan_ts, ttl_seconds, now),
            self.last_scan_ts <= now ==> (r <==> now < self.last_scan_ts + ttl_seconds),
            now < self.last_scan_ts ==> (r <==> ttl_seconds > 0),
    {
        now.saturating_sub(self.last_scan_ts) < ttl_seconds
    }

    /// Whether the cache is still valid (within `ttl_seconds`) now.
    pub fn is_fresh(&self, ttl_seconds: u64) -> (r: bool)
        ensures
            exists|now: u64| r == #[trigger] fresh(self.last_scan_ts, ttl_seconds, now),
            ttl_seconds == 0 ==> !r,
            u64::MAX - self.last_scan_ts < ttl_seconds ==> r,
    {
        let now = unix_now();
        self.is_fresh_at(ttl_seconds, now)
    }

    /// Takes over the results of a scan made at `now`.
    pub fn update_at(&mut self, file_count: usize, total_bytes: u64, now: u64)
        ensures
            *final(self) == (ScanCache { last_scan_ts: now, file_count, total_bytes }),
    {
        self.last_scan_ts = now;
        self.file_count = file_count;
        self.total_bytes = total_bytes;
    }

    /// Takes over the results of a scan made now.
    pub fn update(&mut self, file_count: usize, total_bytes: u64)
        ensures
            final(self).file_count == file_count,
            final(self).total_bytes == total_bytes,
    {
        let now = unix_now();
        self.update_at(file_count, total_bytes, now);
    }
}

/// A scan stays fresh for exactly `ttl_seconds`: up to then it is fresh, from then on it is not.
pub proof fn law_fresh_for_its_ttl(scanned: u64, ttl_seconds: u64, now: u64)
    requires
        scanned <= now,
    ensures
        fresh(scanned, ttl_seconds, now) <==> now < scanned + ttl_seconds,
{
}

/// Once a scan is stale it stays stale.
pub proof fn law_stale_stays_stale(scanned: u64, ttl_seconds: u64, now: u64, later: u64)
    requires
        now <= later,
        !fresh(scanned, ttl_seconds, now),
    ensures
        !fresh(scanned, ttl_seconds, later),
{
}

/// The progress of ingest over all source files.
#[derive(Debug)]
pub struct IngestState {
    pub next_doc_id: u64,
    pub files: TextMap<FileState>,
}

impl Default for IngestState {
    fn default() -> (r: Self)
        ensures
            r.next_doc_id == 1,
            r.files@ == Map::<Seq<char>, FileState>::empty(),
    {
        IngestState { next_doc_id: 1, files: TextMap::new() }
    }
}

impl Clone for IngestState {
    fn clone(&self) -> (r: Self)
        ensures
            r.next_doc_id == self.next_doc_id,
            r.files@.dom() == self.files@.dom(),
            forall|path: Seq<char>| #[trigger]
                r.files@.dom().contains(path) ==> r.files@[path].same_as(self.files@[path]),
    {
        IngestState { next_doc_id: self.next_doc_id, files: self.files.clone() }
    }
}

/// A scan that seems to lie in the future counts as one made now: it is fresh for any time at all.
pub proof fn law_scans_from_the_future_are_fresh(scanned: u64, ttl_seconds: u64, now: u64)
    requires
        now < scanned,
    ensures
        fresh(scanned, ttl_seconds, now) <==> ttl_seconds > 0,
{
}

} // verus!
