//! The active-download store: every known download's record and its
//! cooperative cancellation token. Records move
//! `pending → starting → downloading → {completed | failed | cancelled}`;
//! terminal states never change, progress is monotonic while downloading,
//! and a startup sweep fails whatever a crash left mid-flight.
use vstd::prelude::*;
use tokio_util::sync::CancellationToken;
use crate::text::str_eq;

verus! {

/// tokio_util's one-shot cooperative cancellation signal, opaque to the
/// verifier; the store only keys and counts them.
#[verifier::external_type_specification]
#[verifier::external_body]
pub struct ExCancellationToken(CancellationToken);

/// Relies on tokio_util::sync::CancellationToken::new: a fresh token,
/// shared by nobody else and not yet signalled.
#[verifier::external_body]
fn token_new() -> (t: CancellationToken) {
    CancellationToken::new()
}

/// Relies on tokio_util::sync::CancellationToken::clone: the clone shares
/// the original's cancel state.
#[verifier::external_body]
fn token_clone(t: &CancellationToken) -> (r: CancellationToken) {
    t.clone()
}

/// Relies on tokio_util::sync::CancellationToken::cancel: signals the
/// token and all its clones.
#[verifier::external_body]
fn token_cancel(t: &CancellationToken) {
    t.cancel()
}

/// Relies on chrono::Utc::now and chrono::DateTime::to_rfc3339: the
/// current UTC wall clock rendered in RFC 3339 form. The clock is
/// nondeterministic, so nothing is assumed of the text beyond being
/// non-empty, which the RFC 3339 format guarantees.
#[verifier::external_body]
fn now_rfc3339() -> (r: String)
    ensures
        r@.len() > 0,
{
    chrono::Utc::now().to_rfc3339()
}

/// Lifecycle of one download.
#[derive(Clone, Copy, Debug, PartialEq, Eq, Structural)]
pub enum DownloadStatus {
    Pending,
    Starting,
    Downloading,
    Completed,
    Failed,
    Cancelled,
    Unknown,
}

/// Lifecycle of one extraction, attached to a download record.
#[derive(Clone, Copy, Debug, PartialEq, Eq, Structural)]
pub enum ExtractionStatus {
    Idle,
    Extracting,
    Completed,
    Failed,
}

/// A status from which a record never moves again.
pub open spec fn is_terminal(s: DownloadStatus) -> bool {
    s is Completed || s is Failed || s is Cancelled
}

/// Executable counterpart of `is_terminal`.
pub fn is_terminal_status(s: DownloadStatus) -> (r: bool)
    ensures
        r == is_terminal(s),
{
    matches!(s, DownloadStatus::Completed | DownloadStatus::Failed | DownloadStatus::Cancelled)
}

/// One tracked download. Progress values are percentages in `0..=100`.
#[derive(Debug)]
pub struct DownloadInfo {
    pub id: String,
    pub filename: String,
    pub url: String,
    pub progress: u8,
    pub status: DownloadStatus,
    pub path: Option<String>,
    pub error: Option<String>,
    pub provider: Option<String>,
    pub downloaded_at: Option<String>,
    pub extracted: bool,
    pub extracted_path: Option<String>,
    pub extraction_status: ExtractionStatus,
    pub extraction_progress: u8,
}

/// Progress percentages stay within `0..=100`.
pub open spec fn wf_record(r: DownloadInfo) -> bool {
    r.progress <= 100 && r.extraction_progress <= 100
}

impl Clone for DownloadInfo {
    fn clone(&self) -> (r: Self)
        ensures
            r == *self,
    {
        DownloadInfo {
            id: self.id.clone(),
            filename: self.filename.clone(),
            url: self.url.clone(),
            progress: self.progress,
            status: self.status,
            path: crate::manifest::clone_opt_string(&self.path),
            error: crate::manifest::clone_opt_string(&self.error),
            provider: crate::manifest::clone_opt_string(&self.provider),
            downloaded_at: crate::manifest::clone_opt_string(&self.downloaded_at),
            extracted: self.extracted,
            extracted_path: crate::manifest::clone_opt_string(&self.extracted_path),
            extraction_status: self.extraction_status,
            extraction_progress: self.extraction_progress,
        }
    }
}

/// The fixed reason written into records that a restart found mid-flight.
pub open spec fn interrupted_message() -> Seq<char> {
    "Download interrupted due to application restart"@
}

/// The user-facing reason written into cancelled records.
pub open spec fn cancelled_message() -> Seq<char> {
    "Download cancelled by user"@
}

/// Record ids are pairwise distinct.
pub open spec fn unique_ids(s: Seq<DownloadInfo>) -> bool {
    forall|i: int, j: int|
        0 <= i < j < s.len() ==> (#[trigger] s[i].id)@ != (#[trigger] s[j].id)@
}

/// Every record keeps its percentages in range.
pub open spec fn all_wf_records(s: Seq<DownloadInfo>) -> bool {
    forall|i: int| 0 <= i < s.len() ==> wf_record(#[trigger] s[i])
}

/// Replacing a record with one of the same id keeps the store well formed.
proof fn lemma_update_keeps_wf(s: Seq<DownloadInfo>, i: int, rec: DownloadInfo)
    requires
        unique_ids(s),
        all_wf_records(s),
        0 <= i < s.len(),
        rec.id@ == s[i].id@,
        wf_record(rec),
    ensures
        unique_ids(s.update(i, rec)),
        all_wf_records(s.update(i, rec)),
{
    let t = s.update(i, rec);
    assert forall|a: int, b: int| 0 <= a < b < t.len() implies (#[trigger] t[a].id)@
        != (#[trigger] t[b].id)@ by {
        assert(t[a].id@ == s[a].id@);
        assert(t[b].id@ == s[b].id@);
    }
    assert forall|a: int| 0 <= a < t.len() implies wf_record(#[trigger] t[a]) by {
        if a != i {
            assert(t[a] == s[a]);
        }
    }
}

/// Appending a record with a fresh id keeps the store well formed.
proof fn lemma_push_keeps_wf(s: Seq<DownloadInfo>, rec: DownloadInfo)
    requires
        unique_ids(s),
        all_wf_records(s),
        !has_record(s, rec.id@),
        wf_record(rec),
    ensures
        unique_ids(s.push(rec)),
        all_wf_records(s.push(rec)),
{
    let t = s.push(rec);
    assert forall|a: int, b: int| 0 <= a < b < t.len() implies (#[trigger] t[a].id)@
        != (#[trigger] t[b].id)@ by {
        if b < s.len() {
            assert(t[a].id@ == s[a].id@);
            assert(t[b].id@ == s[b].id@);
        } else {
            assert(t[a] == s[a]);
            assert(t[b] == rec);
        }
    }
    assert forall|a: int| 0 <= a < t.len() implies wf_record(#[trigger] t[a]) by {
        if a < s.len() {
            assert(t[a] == s[a]);
        }
    }
}

/// Some record carries this id.
pub open spec fn has_record(s: Seq<DownloadInfo>, id: Seq<char>) -> bool {
    exists|i: int| 0 <= i < s.len() && (#[trigger] s[i].id)@ == id
}

/// The index of the record carrying the id (meaningful only under
/// `has_record` and id uniqueness).
pub open spec fn record_index(s: Seq<DownloadInfo>, id: Seq<char>) -> int {
    choose|i: int| 0 <= i < s.len() && (#[trigger] s[i].id)@ == id
}

/// Under unique ids, the record index of a witnessed id is that witness.
proof fn lemma_record_index_unique(s: Seq<DownloadInfo>, i: int, id: Seq<char>)
    requires
        unique_ids(s),
        0 <= i < s.len(),
        s[i].id@ == id,
    ensures
        has_record(s, id),
        record_index(s, id) == i,
{
    assert(has_record(s, id));
    let k = record_index(s, id);
    assert(0 <= k < s.len() && s[k].id@ == id);
    if k != i {
        if k < i {
            assert(s[k].id@ != s[i].id@);
        } else {
            assert(s[i].id@ != s[k].id@);
        }
    }
}

/// `b` is `a` with only the fields that a sweep touches changed.
pub open spec fn same_but_status_error(a: DownloadInfo, b: DownloadInfo) -> bool {
    b.id == a.id && b.filename == a.filename && b.url == a.url && b.progress == a.progress
        && b.path == a.path && b.provider == a.provider && b.downloaded_at == a.downloaded_at
        && b.extracted == a.extracted && b.extracted_path == a.extracted_path
        && b.extraction_status == a.extraction_status && b.extraction_progress
        == a.extraction_progress
}

/// `b` is `a` with only status, progress and error possibly changed.
pub open spec fn same_but_outcome(a: DownloadInfo, b: DownloadInfo) -> bool {
    b.id == a.id && b.filename == a.filename && b.url == a.url && b.path == a.path
        && b.provider == a.provider && b.downloaded_at == a.downloaded_at && b.extracted
        == a.extracted && b.extracted_path == a.extracted_path && b.extraction_status
        == a.extraction_status && b.extraction_progress == a.extraction_progress
}

/// `b` is `a` with only status, progress, result path and timestamp
/// possibly changed.
pub open spec fn same_but_result(a: DownloadInfo, b: DownloadInfo) -> bool {
    b.id == a.id && b.filename == a.filename && b.url == a.url && b.error == a.error
        && b.provider == a.provider && b.extracted == a.extracted && b.extracted_path
        == a.extracted_path && b.extraction_status == a.extraction_status
        && b.extraction_progress == a.extraction_progress
}

/// `b` is `a` with only the extraction fields possibly changed.
pub open spec fn same_but_extraction(a: DownloadInfo, b: DownloadInfo) -> bool {
    b.id == a.id && b.filename == a.filename && b.url == a.url && b.progress == a.progress
        && b.status == a.status && b.path == a.path && b.error == a.error && b.provider
        == a.provider && b.downloaded_at == a.downloaded_at
}

/// Cancelling an untracked id.
#[derive(Clone, Copy, Debug, PartialEq, Eq, Structural)]
pub enum CancelError {
    UnknownDownload,
}

/// Every known download and the cancellation tokens of the in-flight
/// ones. The records are persisted by the embedding application after
/// every mutation; the tokens never are.
pub struct ActiveDownloads {
    records: Vec<DownloadInfo>,
    tokens: Vec<(String, CancellationToken)>,
}

impl ActiveDownloads {
    /// The tracked records, in tracking order.
    pub closed spec fn records(&self) -> Seq<DownloadInfo> {
        self.records@
    }

    /// The ids that still hold a cancellation token.
    pub closed spec fn token_ids(&self) -> Seq<Seq<char>> {
        Seq::new(self.tokens@.len(), |i: int| self.tokens@[i].0@)
    }

    /// Record ids unique, token ids unique, percentages in range.
    pub open spec fn wf(&self) -> bool {
        &&& unique_ids(self.records())
        &&& forall|i: int, j: int|
            0 <= i < j < self.token_ids().len() ==> #[trigger] self.token_ids()[i]
                != #[trigger] self.token_ids()[j]
        &&& all_wf_records(self.records())
    }

    /// An empty store.
    pub fn new() -> (r: Self)
        ensures
            r.records() =~= Seq::<DownloadInfo>::empty(),
            r.token_ids() =~= Seq::<Seq<char>>::empty(),
            r.wf(),
    {
        let r = ActiveDownloads { records: Vec::new(), tokens: Vec::new() };
        proof {
            assert(r.token_ids() =~= Seq::<Seq<char>>::empty());
        }
        r
    }

    /// A store rebuilt from a persisted snapshot; no download is in
    /// flight, so no tokens exist.
    pub fn from_records(records: Vec<DownloadInfo>) -> (r: Self)
        requires
            forall|i: int, j: int|
                0 <= i < j < records@.len() ==> (#[trigger] records@[i].id)@
                    != (#[trigger] records@[j].id)@,
            forall|i: int| 0 <= i < records@.len() ==> wf_record(#[trigger] records@[i]),
        ensures
            r.records() == records@,
            r.token_ids() =~= Seq::<Seq<char>>::empty(),
            r.wf(),
    {
        let r = ActiveDownloads { records, tokens: Vec::new() };
        proof {
            assert(r.token_ids() =~= Seq::<Seq<char>>::empty());
        }
        r
    }

    /// The index of the record carrying `id`, if any.
    fn record_position(&self, id: &str) -> (r: Option<usize>)
        requires
            self.wf(),
        ensures
            match r {
                Some(i) => i < self.records().len() && self.records()[i as int].id@ == id@ && i
                    == record_index(self.records(), id@),
                None => !has_record(self.records(), id@),
            },
    {
        let mut i: usize = 0;
        while i < self.records.len()
            invariant
                self.wf(),
                0 <= i <= self.records().len(),
                forall|j: int| 0 <= j < i ==> (#[trigger] self.records()[j].id)@ != id@,
            decreases self.records().len() - i,
        {
            if str_eq(self.records[i].id.as_str(), id) {
                return Some(i);
            }
            i = i + 1;
        }
        None
    }

    /// The index of the token held for `id`, if any.
    fn token_position(&self, id: &str) -> (r: Option<usize>)
        requires
            self.wf(),
        ensures
            match r {
                Some(i) => i < self.token_ids().len() && self.token_ids()[i as int] == id@,
                None => !self.token_ids().contains(id@),
            },
    {
        let mut i: usize = 0;
        while i < self.tokens.len()
            invariant
                self.wf(),
                0 <= i <= self.token_ids().len(),
                self.token_ids().len() == self.tokens@.len(),
                forall|j: int| 0 <= j < i ==> #[trigger] self.token_ids()[j] != id@,
            decreases self.token_ids().len() - i,
        {
            if str_eq(self.tokens[i].0.as_str(), id) {
                assert(self.token_ids()[i as int] == id@);
                return Some(i);
            }
            i = i + 1;
        }
        proof {
            if self.token_ids().contains(id@) {
                let w = choose|j: int|
                    0 <= j < self.token_ids().len() && self.token_ids()[j] == id@;
                assert(self.token_ids()[w] != id@);
            }
        }
        None
    }

    /// The record tracked under `id`, if any.
    pub fn get(&self, id: &str) -> (r: Option<&DownloadInfo>)
        requires
            self.wf(),
        ensures
            match r {
                Some(rec) => has_record(self.records(), id@) && *rec == self.records()[
                    record_index(self.records(), id@)],
                None => !has_record(self.records(), id@),
            },
    {
        match self.record_position(id) {
            Some(i) => Some(&self.records[i]),
            None => None,
        }
    }

    /// Whether a cancellation token is still held for `id`.
    pub fn has_token(&self, id: &str) -> (r: bool)
        requires
            self.wf(),
        ensures
            r == self.token_ids().contains(id@),
    {
        match self.token_position(id) {
            Some(_) => true,
            None => false,
        }
    }

    /// An owned snapshot of every record, decoupled from the store.
    pub fn get_active_downloads(&self) -> (r: Vec<DownloadInfo>)
        ensures
            r@ =~= self.records(),
    {
        let mut out: Vec<DownloadInfo> = Vec::new();
        let mut i: usize = 0;
        while i < self.records.len()
            invariant
                0 <= i <= self.records().len(),
                out@.len() == i,
                forall|j: int| 0 <= j < i ==> out@[j] == self.records()[j],
            decreases self.records().len() - i,
        {
            out.push(self.records[i].clone());
            i = i + 1;
        }
        out
    }

    /// Start tracking a download: a fresh record in `Pending` and a fresh
    /// cancellation token keyed by the id. The returned token is the
    /// executor's handle; cancelling the id signals it. Re-tracking an id
    /// replaces its record and token.
    pub fn track_new(
        &mut self,
        download_id: &str,
        filename: &str,
        url: &str,
        provider: Option<&str>,
    ) -> (t: CancellationToken)
        requires
            old(self).wf(),
        ensures
            final(self).wf(),
            final(self).records().len() == if has_record(old(self).records(), download_id@) {
                old(self).records().len()
            } else {
                old(self).records().len() + 1
            },
            has_record(final(self).records(), download_id@),
            ({
                let rec = final(self).records()[record_index(final(self).records(), download_id@)];
                rec.id@ == download_id@ && rec.filename@ == filename@ && rec.url@ == url@
                    && rec.progress == 0 && rec.status is Pending && rec.path is None
                    && rec.error is None && rec.downloaded_at is None && rec.extracted == false
                    && rec.extracted_path is None && rec.extraction_status is Idle
                    && rec.extraction_progress == 0 && (match (rec.provider, provider) {
                    (Some(p), Some(q)) => p@ == q@,
                    (None, None) => true,
                    _ => false,
                })
            }),
            forall|j: int|
                0 <= j < final(self).records().len() && (#[trigger] final(self).records()[j].id)@
                    != download_id@ ==> has_record(old(self).records(), final(self).records()[j].id@)
                    && final(self).records()[j] == old(self).records()[
                    record_index(old(self).records(), final(self).records()[j].id@)],
            final(self).token_ids().contains(download_id@),
    {
        let rec = DownloadInfo {
            id: String::from_str(download_id),
            filename: String::from_str(filename),
            url: String::from_str(url),
            progress: 0,
            status: DownloadStatus::Pending,
            path: None,
            error: None,
            provider: match provider {
                Some(p) => Some(String::from_str(p)),
                None => None,
            },
            downloaded_at: None,
            extracted: false,
            extracted_path: None,
            extraction_status: ExtractionStatus::Idle,
            extraction_progress: 0,
        };
        let ghost old_records = self.records();
        match self.record_position(download_id) {
            Some(i) => {
                proof {
                    lemma_update_keeps_wf(old_records, i as int, rec);
                }
                self.records.set(i, rec);
                proof {
                    assert(self.records() =~= old_records.update(i as int, rec));
                    lemma_record_index_unique(self.records(), i as int, download_id@);
                    assert forall|j: int|
                        0 <= j < self.records().len() && (#[trigger] self.records()[j].id)@
                            != download_id@ implies has_record(old_records, self.records()[j].id@)
                        && self.records()[j] == old_records[record_index(
                        old_records,
                        self.records()[j].id@,
                    )] by {
                        assert(self.records()[j] == old_records[j]);
                        lemma_record_index_unique(old_records, j, old_records[j].id@);
                    }
                }
            },
            None => {
                self.records.push(rec);
                proof {
                    assert(self.records() =~= old_records.push(rec));
                    lemma_push_keeps_wf(old_records, rec);
                    assert(unique_ids(self.records()));
                    lemma_record_index_unique(
                        self.records(),
                        self.records().len() - 1,
                        download_id@,
                    );
                    assert forall|j: int|
                        0 <= j < self.records().len() && (#[trigger] self.records()[j].id)@
                            != download_id@ implies has_record(old_records, self.records()[j].id@)
                        && self.records()[j] == old_records[record_index(
                        old_records,
                        self.records()[j].id@,
                    )] by {
                        assert(j < old_records.len());
                        assert(self.records()[j] == old_records[j]);
                        lemma_record_index_unique(old_records, j, old_records[j].id@);
                    }
                }
            },
        }
        let token = token_new();
        let handle = token_clone(&token);
        proof {
            assert(self.token_ids() =~= old(self).token_ids());
        }
        let ghost old_token_ids = self.token_ids();
        match self.token_position(download_id) {
            Some(i) => {
                self.tokens.set(i, (String::from_str(download_id), token));
                proof {
                    assert(self.token_ids() =~= old_token_ids);
                    assert(self.token_ids()[i as int] == download_id@);
                    assert(self.token_ids().contains(download_id@));
                }
            },
            None => {
                self.tokens.push((String::from_str(download_id), token));
                proof {
                    assert(self.token_ids() =~= old_token_ids.push(download_id@));
                    assert(self.token_ids()[self.token_ids().len() - 1] == download_id@);
                    assert forall|a: int, b: int|
                        0 <= a < b < self.token_ids().len() implies #[trigger] self.token_ids()[a]
                        != #[trigger] self.token_ids()[b] by {
                        if b < old_token_ids.len() {
                            assert(self.token_ids()[a] == old_token_ids[a]);
                            assert(self.token_ids()[b] == old_token_ids[b]);
                        } else {
                            assert(self.token_ids()[a] == old_token_ids[a]);
                            assert(self.token_ids()[b] == download_id@);
                            if old_token_ids[a] == download_id@ {
                                assert(old_token_ids.contains(download_id@));
                                assert(false);
                            }
                        }
                    }
                    assert(self.token_ids().contains(download_id@));
                }
            },
        }
        handle
    }

    /// Store a progress report: accepted only while the record is
    /// downloading and the value is strictly greater than the stored one
    /// (and at most 100); anything else — late, stale or out-of-range — is
    /// silently dropped. The accepted sequence is therefore strictly
    /// increasing, and the stored value never decreases.
    pub fn apply_progress(&mut self, id: &str, value: u8) -> (accepted: bool)
        requires
            old(self).wf(),
        ensures
            final(self).wf(),
            final(self).token_ids() == old(self).token_ids(),
            !has_record(old(self).records(), id@) ==> !accepted && final(self).records() == old(self).records(),
            has_record(old(self).records(), id@) ==> ({
                let i = record_index(old(self).records(), id@);
                let rec = old(self).records()[i];
                if rec.status is Downloading && rec.progress < value && value <= 100 {
                    accepted && final(self).records() =~= old(self).records().update(
                        i,
                        DownloadInfo { progress: value, ..rec },
                    )
                } else {
                    !accepted && final(self).records() == old(self).records()
                }
            }),
            has_record(old(self).records(), id@) ==> final(self).records()[record_index(
                old(self).records(),
                id@,
            )].progress >= old(self).records()[record_index(old(self).records(), id@)].progress,
    {
        match self.record_position(id) {
            None => false,
            Some(i) => {
                let downloading = matches!(self.records[i].status, DownloadStatus::Downloading);
                if downloading && self.records[i].progress < value && value <= 100 {
                    let mut rec = self.records[i].clone();
                    rec.progress = value;
                    let ghost pre = self.records();
                    proof {
                        lemma_update_keeps_wf(self.records(), i as int, rec);
                    }
                    self.records.set(i, rec);
                    proof {
                        assert(self.records() =~= pre.update(i as int, rec));
                        assert(self.token_ids() =~= old(self).token_ids());
                    }
                    true
                } else {
                    false
                }
            },
        }
    }

    /// Move a non-terminal record to a new lifecycle status. A terminal
    /// record is never changed; the report says whether the move took.
    pub fn set_status(&mut self, id: &str, status: DownloadStatus) -> (moved: bool)
        requires
            old(self).wf(),
        ensures
            final(self).wf(),
            final(self).token_ids() == old(self).token_ids(),
            !has_record(old(self).records(), id@) ==> !moved && final(self).records() == old(self).records(),
            has_record(old(self).records(), id@) ==> ({
                let i = record_index(old(self).records(), id@);
                let rec = old(self).records()[i];
                if is_terminal(rec.status) {
                    !moved && final(self).records() == old(self).records()
                } else {
                    moved && final(self).records() =~= old(self).records().update(
                        i,
                        DownloadInfo { status, ..rec },
                    )
                }
            }),
    {
        match self.record_position(id) {
            None => false,
            Some(i) => {
                if is_terminal_status(self.records[i].status) {
                    false
                } else {
                    let mut rec = self.records[i].clone();
                    rec.status = status;
                    let ghost pre = self.records();
                    proof {
                        lemma_update_keeps_wf(self.records(), i as int, rec);
                    }
                    self.records.set(i, rec);
                    proof {
                        assert(self.records() =~= pre.update(i as int, rec));
                        assert(self.token_ids() =~= old(self).token_ids());
                    }
                    true
                }
            },
        }
    }

    /// Remove the token held for `id`, if any.
    fn drop_token(&mut self, id: &str)
        requires
            old(self).wf(),
        ensures
            final(self).wf(),
            final(self).records() == old(self).records(),
            !old(self).token_ids().contains(id@) ==> final(self).token_ids() == old(self).token_ids(),
            old(self).token_ids().contains(id@) ==> exists|i: int|
                0 <= i < old(self).token_ids().len() && old(self).token_ids()[i] == id@ && final(self).token_ids() =~= old(self).token_ids().remove(i),
            !final(self).token_ids().contains(id@),
    {
        let ghost old_ids = self.token_ids();
        match self.token_position(id) {
            Some(i) => {
                self.tokens.remove(i);
                proof {
                    assert(self.token_ids() =~= old_ids.remove(i as int));
                    assert forall|a: int, b: int|
                        0 <= a < b < self.token_ids().len() implies #[trigger] self.token_ids()[a]
                        != #[trigger] self.token_ids()[b] by {
                        let a0 = if a < i { a } else { a + 1 };
                        let b0 = if b < i { b } else { b + 1 };
                        assert(self.token_ids()[a] == old_ids[a0]);
                        assert(self.token_ids()[b] == old_ids[b0]);
                    }
                    if self.token_ids().contains(id@) {
                        let w = choose|j: int|
                            0 <= j < self.token_ids().len() && self.token_ids()[j] == id@;
                        if w < i {
                            assert(old_ids[w] == id@);
                        } else {
                            assert(old_ids[w + 1] == id@);
                        }
                    }
                }
            },
            None => {},
        }
    }

    /// Cancel a tracked download: signal and drop its token, and, unless
    /// the record already reached a terminal state, mark the record
    /// cancelled with progress 0 and a user-facing reason. An id with no
    /// token is reported unknown, and nothing changes.
    pub fn cancel_download(&mut self, id: &str) -> (r: Result<(), CancelError>)
        requires
            old(self).wf(),
        ensures
            final(self).wf(),
            !old(self).token_ids().contains(id@) <==> r == Err::<(), CancelError>(
                CancelError::UnknownDownload,
            ),
            r is Err ==> final(self).records() == old(self).records() && final(self).token_ids()
                == old(self).token_ids(),
            r is Ok ==> !final(self).token_ids().contains(id@) && exists|i: int|
                0 <= i < old(self).token_ids().len() && old(self).token_ids()[i] == id@ && final(self).token_ids() =~= old(self).token_ids().remove(i),
            r is Ok && !has_record(old(self).records(), id@) ==> final(self).records() == old(self).records(),
            r is Ok && has_record(old(self).records(), id@) ==> ({
                let i = record_index(old(self).records(), id@);
                let rec = old(self).records()[i];
                if is_terminal(rec.status) {
                    final(self).records() == old(self).records()
                } else {
                    final(self).records() =~= old(self).records().update(
                        i,
                        DownloadInfo {
                            status: DownloadStatus::Cancelled,
                            progress: 0,
                            error: final(self).records()[i].error,
                            ..rec
                        },
                    ) && (final(self).records()[i].error matches Some(e) && e@
                        == cancelled_message())
                }
            }),
    {
        let pos = self.token_position(id);
        match pos {
            None => Err(CancelError::UnknownDownload),
            Some(i) => {
                token_cancel(&self.tokens[i].1);
                self.drop_token(id);
                match self.record_position(id) {
                    None => Ok(()),
                    Some(k) => {
                        if is_terminal_status(self.records[k].status) {
                            Ok(())
                        } else {
                            let mut rec = self.records[k].clone();
                            rec.status = DownloadStatus::Cancelled;
                            rec.progress = 0;
                            rec.error = Some(String::from_str("Download cancelled by user"));
                            let ghost pre = self.records();
                            proof {
                                lemma_update_keeps_wf(self.records(), k as int, rec);
                            }
                            self.records.set(k, rec);
                            proof {
                                assert(self.records() =~= pre.update(k as int, rec));
                            }
                            Ok(())
                        }
                    },
                }
            },
        }
    }

    /// The startup sweep: every record a crash left `Starting` or
    /// `Downloading` becomes `Failed` with the fixed interrupted reason;
    /// every other record is untouched.
    pub fn cleanup_active_downloads(&mut self)
        requires
            old(self).wf(),
        ensures
            final(self).wf(),
            final(self).token_ids() == old(self).token_ids(),
            final(self).records().len() == old(self).records().len(),
            forall|i: int|
                0 <= i < old(self).records().len() ==> {
                    let rec = #[trigger] old(self).records()[i];
                    if rec.status is Starting || rec.status is Downloading {
                        same_but_status_error(rec, final(self).records()[i]) && final(self).records()[i].status is Failed && (final(self).records()[i].error
                            matches Some(e) && e@ == interrupted_message())
                    } else {
                        final(self).records()[i] == rec
                    }
                },
    {
        let ghost old_records = self.records();
        let mut i: usize = 0;
        while i < self.records.len()
            invariant
                old(self).wf(),
                self.records().len() == old_records.len(),
                self.token_ids() == old(self).token_ids(),
                old_records == old(self).records(),
                0 <= i <= self.records().len(),
                forall|j: int|
                    i <= j < old_records.len() ==> #[trigger] self.records()[j] == old_records[j],
                forall|j: int|
                    0 <= j < i ==> {
                        let rec = #[trigger] old_records[j];
                        if rec.status is Starting || rec.status is Downloading {
                            same_but_status_error(rec, self.records()[j]) && self.records()[
                                j].status is Failed && (self.records()[j].error matches Some(e)
                                && e@ == interrupted_message())
                        } else {
                            self.records()[j] == rec
                        }
                    },
            decreases self.records().len() - i,
        {
            let interrupted = matches!(
                self.records[i].status,
                DownloadStatus::Starting | DownloadStatus::Downloading
            );
            if interrupted {
                let mut rec = self.records[i].clone();
                rec.status = DownloadStatus::Failed;
                rec.error = Some(
                    String::from_str("Download interrupted due to application restart"),
                );
                self.records.set(i, rec);
            }
            i = i + 1;
        }
        proof {
            assert forall|a: int|
                0 <= a < self.records().len() implies (#[trigger] self.records()[a]).id
                == old_records[a].id && wf_record(self.records()[a]) by {
                let rec = old_records[a];
                assert(wf_record(rec));
                if rec.status is Starting || rec.status is Downloading {
                    assert(same_but_status_error(rec, self.records()[a]));
                } else {
                    assert(self.records()[a] == rec);
                }
            }
            assert forall|i2: int, j2: int|
                0 <= i2 < j2 < self.records().len() implies (#[trigger] self.records()[i2].id)@
                != (#[trigger] self.records()[j2].id)@ by {
                assert(self.records()[i2].id == old_records[i2].id);
                assert(self.records()[j2].id == old_records[j2].id);
                assert(old_records[i2].id@ != old_records[j2].id@);
            }
        }
    }

    /// Replace the record at `i` with one carrying the same id.
    fn replace_record(&mut self, i: usize, rec: DownloadInfo)
        requires
            old(self).wf(),
            i < old(self).records().len(),
            rec.id@ == old(self).records()[i as int].id@,
            wf_record(rec),
        ensures
            final(self).wf(),
            final(self).token_ids() == old(self).token_ids(),
            final(self).records() =~= old(self).records().update(i as int, rec),
    {
        proof {
            lemma_update_keeps_wf(self.records(), i as int, rec);
        }
        self.records.set(i, rec);
        proof {
            assert(self.records() =~= old(self).records().update(i as int, rec));
            assert(self.token_ids() =~= old(self).token_ids());
        }
    }

    /// Record a successful download: unless the record is already
    /// terminal, it becomes `Completed` at progress 100 with the result
    /// path and a completion timestamp; the id's token, being a terminal
    /// outcome, is dropped.
    pub fn complete_download(&mut self, id: &str, path: &str) -> (updated: bool)
        requires
            old(self).wf(),
        ensures
            final(self).wf(),
            !final(self).token_ids().contains(id@),
            !old(self).token_ids().contains(id@) ==> final(self).token_ids() == old(self).token_ids(),
            old(self).token_ids().contains(id@) ==> exists|i: int|
                0 <= i < old(self).token_ids().len() && old(self).token_ids()[i] == id@ && final(self).token_ids() =~= old(self).token_ids().remove(i),
            !has_record(old(self).records(), id@) ==> !updated && final(self).records() == old(self).records(),
            has_record(old(self).records(), id@) ==> ({
                let i = record_index(old(self).records(), id@);
                let rec = old(self).records()[i];
                if is_terminal(rec.status) {
                    !updated && final(self).records() == old(self).records()
                } else {
                    updated && final(self).records().len() == old(self).records().len() && (forall|j: int|
                        0 <= j < old(self).records().len() && j != i ==> final(self).records()[j]
                            == old(self).records()[j]) && same_but_result(
                        rec,
                        final(self).records()[i],
                    ) && final(self).records()[i].status is Completed && final(self).records()[i].progress == 100 && (final(self).records()[i].path matches Some(p) && p@ == path@) && final(self).records()[i].downloaded_at is Some
                }
            }),
    {
        self.drop_token(id);
        match self.record_position(id) {
            None => false,
            Some(i) => {
                if is_terminal_status(self.records[i].status) {
                    false
                } else {
                    let mut rec = self.records[i].clone();
                    rec.status = DownloadStatus::Completed;
                    rec.progress = 100;
                    rec.path = Some(String::from_str(path));
                    rec.downloaded_at = Some(now_rfc3339());
                    self.replace_record(i, rec);
                    true
                }
            },
        }
    }

    /// Record a failed download: unless the record is already terminal,
    /// it becomes `Failed` with the reported reason; the id's token, being
    /// a terminal outcome, is dropped.
    pub fn fail_download(&mut self, id: &str, error: &str) -> (updated: bool)
        requires
            old(self).wf(),
        ensures
            final(self).wf(),
            !final(self).token_ids().contains(id@),
            !has_record(old(self).records(), id@) ==> !updated && final(self).records() == old(self).records(),
            has_record(old(self).records(), id@) ==> ({
                let i = record_index(old(self).records(), id@);
                let rec = old(self).records()[i];
                if is_terminal(rec.status) {
                    !updated && final(self).records() == old(self).records()
                } else {
                    updated && final(self).records().len() == old(self).records().len() && (forall|j: int|
                        0 <= j < old(self).records().len() && j != i ==> final(self).records()[j]
                            == old(self).records()[j]) && same_but_outcome(
                        rec,
                        final(self).records()[i],
                    ) && final(self).records()[i].status is Failed && final(self).records()[i].progress == rec.progress && (final(self).records()[i].error
                        matches Some(e) && e@ == error@)
                }
            }),
    {
        self.drop_token(id);
        match self.record_position(id) {
            None => false,
            Some(i) => {
                if is_terminal_status(self.records[i].status) {
                    false
                } else {
                    let mut rec = self.records[i].clone();
                    rec.status = DownloadStatus::Failed;
                    rec.error = Some(String::from_str(error));
                    self.replace_record(i, rec);
                    true
                }
            },
        }
    }

    /// Track a download that the user completed by hand: a `Completed`
    /// record at progress 100, provider `manual`, source url `manual`,
    /// with a completion timestamp. Re-registering an id replaces its
    /// record.
    pub fn register_manual_download(&mut self, download_id: &str, filename: &str, path: &str)
        requires
            old(self).wf(),
        ensures
            final(self).wf(),
            final(self).token_ids() == old(self).token_ids(),
            has_record(final(self).records(), download_id@),
            final(self).records().len() == if has_record(old(self).records(), download_id@) {
                old(self).records().len()
            } else {
                old(self).records().len() + 1
            },
            ({
                let rec = final(self).records()[record_index(final(self).records(), download_id@)];
                rec.id@ == download_id@ && rec.filename@ == filename@ && rec.url@ == "manual"@
                    && rec.progress == 100 && rec.status is Completed && (rec.path matches Some(p)
                    && p@ == path@) && rec.error is None && (rec.provider matches Some(q) && q@
                    == "manual"@) && rec.downloaded_at is Some && rec.extracted == false
                    && rec.extracted_path is None && rec.extraction_status is Idle
                    && rec.extraction_progress == 0
            }),
            forall|j: int|
                0 <= j < final(self).records().len() && (#[trigger] final(self).records()[j].id)@
                    != download_id@ ==> has_record(old(self).records(), final(self).records()[j].id@)
                    && final(self).records()[j] == old(self).records()[
                    record_index(old(self).records(), final(self).records()[j].id@)],
    {
        let rec = DownloadInfo {
            id: String::from_str(download_id),
            filename: String::from_str(filename),
            url: String::from_str("manual"),
            progress: 100,
            status: DownloadStatus::Completed,
            path: Some(String::from_str(path)),
            error: None,
            provider: Some(String::from_str("manual")),
            downloaded_at: Some(now_rfc3339()),
            extracted: false,
            extracted_path: None,
            extraction_status: ExtractionStatus::Idle,
            extraction_progress: 0,
        };
        let ghost old_records = self.records();
        match self.record_position(download_id) {
            Some(i) => {
                self.replace_record(i, rec);
                proof {
                    lemma_record_index_unique(self.records(), i as int, download_id@);
                    assert forall|j: int|
                        0 <= j < self.records().len() && (#[trigger] self.records()[j].id)@
                            != download_id@ implies has_record(old_records, self.records()[j].id@)
                        && self.records()[j] == old_records[record_index(
                        old_records,
                        self.records()[j].id@,
                    )] by {
                        assert(self.records()[j] == old_records[j]);
                        lemma_record_index_unique(old_records, j, old_records[j].id@);
                    }
                }
            },
            None => {
                self.records.push(rec);
                proof {
                    assert(self.records() =~= old_records.push(rec));
                    lemma_push_keeps_wf(old_records, rec);
                    assert(self.token_ids() =~= old(self).token_ids());
                    lemma_record_index_unique(
                        self.records(),
                        self.records().len() - 1,
                        download_id@,
                    );
                    assert forall|j: int|
                        0 <= j < self.records().len() && (#[trigger] self.records()[j].id)@
                            != download_id@ implies has_record(old_records, self.records()[j].id@)
                        && self.records()[j] == old_records[record_index(
                        old_records,
                        self.records()[j].id@,
                    )] by {
                        assert(j < old_records.len());
                        assert(self.records()[j] == old_records[j]);
                        lemma_record_index_unique(old_records, j, old_records[j].id@);
                    }
                }
            },
        }
    }

    /// Mark a record's extraction as running, at progress 0. Nothing
    /// happens for an unknown id.
    pub fn begin_extraction(&mut self, id: &str) -> (updated: bool)
        requires
            old(self).wf(),
        ensures
            final(self).wf(),
            final(self).token_ids() == old(self).token_ids(),
            !has_record(old(self).records(), id@) ==> !updated && final(self).records() == old(self).records(),
            has_record(old(self).records(), id@) ==> updated && ({
                let i = record_index(old(self).records(), id@);
                let rec = old(self).records()[i];
                final(self).records().len() == old(self).records().len() && (forall|j: int|
                    0 <= j < old(self).records().len() && j != i ==> final(self).records()[j]
                        == old(self).records()[j]) && same_but_extraction(
                    rec,
                    final(self).records()[i],
                ) && final(self).records()[i].extraction_status is Extracting && final(self).records()[i].extraction_progress == 0 && final(self).records()[i].extracted
                    == rec.extracted && final(self).records()[i].extracted_path
                    == rec.extracted_path
            }),
    {
        match self.record_position(id) {
            None => false,
            Some(i) => {
                let mut rec = self.records[i].clone();
                rec.extraction_status = ExtractionStatus::Extracting;
                rec.extraction_progress = 0;
                self.replace_record(i, rec);
                true
            },
        }
    }

    /// Mark a record's extraction as finished into `extracted_path`:
    /// extraction completed at progress 100, the record extracted.
    /// Nothing happens for an unknown id.
    pub fn finish_extraction(&mut self, id: &str, extracted_path: &str) -> (updated: bool)
        requires
            old(self).wf(),
        ensures
            final(self).wf(),
            final(self).token_ids() == old(self).token_ids(),
            !has_record(old(self).records(), id@) ==> !updated && final(self).records() == old(self).records(),
            has_record(old(self).records(), id@) ==> updated && ({
                let i = record_index(old(self).records(), id@);
                let rec = old(self).records()[i];
                final(self).records().len() == old(self).records().len() && (forall|j: int|
                    0 <= j < old(self).records().len() && j != i ==> final(self).records()[j]
                        == old(self).records()[j]) && same_but_extraction(
                    rec,
                    final(self).records()[i],
                ) && final(self).records()[i].extraction_status is Completed && final(self).records()[i].extraction_progress == 100 && final(self).records()[i].extracted
                    == true && (final(self).records()[i].extracted_path matches Some(p) && p@
                    == extracted_path@)
            }),
    {
        match self.record_position(id) {
            None => false,
            Some(i) => {
                let mut rec = self.records[i].clone();
                rec.extraction_status = ExtractionStatus::Completed;
                rec.extraction_progress = 100;
                rec.extracted = true;
                rec.extracted_path = Some(String::from_str(extracted_path));
                self.replace_record(i, rec);
                true
            },
        }
    }

    /// Mark a record's extraction as failed, at progress 0, before the
    /// error is propagated: a caller never observes a dangling
    /// `Extracting` state. Nothing happens for an unknown id.
    pub fn fail_extraction(&mut self, id: &str) -> (updated: bool)
        requires
            old(self).wf(),
        ensures
            final(self).wf(),
            final(self).token_ids() == old(self).token_ids(),
            !has_record(old(self).records(), id@) ==> !updated && final(self).records() == old(self).records(),
            has_record(old(self).records(), id@) ==> updated && ({
                let i = record_index(old(self).records(), id@);
                let rec = old(self).records()[i];
                final(self).records().len() == old(self).records().len() && (forall|j: int|
                    0 <= j < old(self).records().len() && j != i ==> final(self).records()[j]
                        == old(self).records()[j]) && same_but_extraction(
                    rec,
                    final(self).records()[i],
                ) && final(self).records()[i].extraction_status is Failed && final(self).records()[i].extraction_progress == 0 && final(self).records()[i].extracted
                    == rec.extracted && final(self).records()[i].extracted_path
                    == rec.extracted_path
            }),
    {
        match self.record_position(id) {
            None => false,
            Some(i) => {
                let mut rec = self.records[i].clone();
                rec.extraction_status = ExtractionStatus::Failed;
                rec.extraction_progress = 0;
                self.replace_record(i, rec);
                true
            },
        }
    }
}

} // verus!
