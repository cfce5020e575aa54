//! Sending files to another computer and receiving them.
//!
//! The sender writes the size of the file in eight bytes, the length of its name in
//! two, the name, the content, and the SHA-256 digest of the content. Numbers have
//! their least significant byte first.

use crate::bytes::{push_le, read_le};
use crate::digest::{absorb, finish, new_hasher, DIGEST_LIMIT};
use crate::number::push_decimal;
use crate::paths::{file_name_of, save_name, SaveName};
use crate::text::strict_text;
use vstd::prelude::*;
use vstd::slice::slice_subrange;
use vstd::string::StringExecFns;

#[allow(unused_imports)]
use crate::bytes::{
    law_le_digit, law_le_round_trip, law_spans, le_bytes, le_value, lemma_le_bound, lemma_le_len,
    lemma_spans, span,
};
#[allow(unused_imports)]
use crate::digest::{absorbed, sha256};
#[allow(unused_imports)]
use crate::number::decimal;
#[allow(unused_imports)]
use crate::paths::{
    begins_with_two, has_both, has_drive, is_last_of, is_refused, is_saved_as, is_usable,
    last_component, law_last_component, law_own_name, saved_name,
};
#[allow(unused_imports)]
use vstd::utf8::{
    decode_utf8, encode_utf8, encode_utf8_decode_utf8, encode_utf8_valid_utf8, valid_utf8,
};

verus! {

/// How many bytes are read at a time.
pub const CHUNK: usize = 65536;

/// How many milliseconds lie between two reports of progress.
pub const REPORT_INTERVAL: u128 = 200;

/// How much of a transfer is done: nothing, `done` of `total` bytes, or all of it. The
/// part is never more than the whole, and the whole is never nothing.
#[derive(Clone, Copy, Debug, PartialEq, Eq, Structural)]
pub enum Progress {
    Start,
    Part { done: u64, total: u64 },
    Full,
}

impl Progress {
    /// The share that is done is `numerator` of `denominator`.
    pub open spec fn numerator(&self) -> nat {
        match self {
            Progress::Start => 0,
            Progress::Part { done, .. } => *done as nat,
            Progress::Full => 1,
        }
    }

    pub open spec fn denominator(&self) -> nat {
        match self {
            Progress::Start => 1,
            Progress::Part { total, .. } => *total as nat,
            Progress::Full => 1,
        }
    }

    /// Whether the share lies between nothing and the whole.
    pub open spec fn wf(&self) -> bool {
        self.denominator() > 0 && self.numerator() <= self.denominator()
    }

    /// Whether the share is no more than another one.
    pub open spec fn at_most(&self, other: Progress) -> bool {
        self.numerator() * other.denominator() <= other.numerator() * self.denominator()
    }
}

/// The share of `total` bytes that `done` bytes are. A file that has grown since it was
/// announced is through when the announced bytes are; of a file that was announced as
/// empty there is no share.
pub open spec fn share(done: u64, total: u64) -> Progress {
    if total == 0 {
        Progress::Start
    } else if done <= total {
        Progress::Part { done, total }
    } else {
        Progress::Part { done: total, total }
    }
}

/// How fast a transfer goes: not at all, or this many bytes since it began.
#[derive(Clone, Copy, Debug, PartialEq, Eq, Structural)]
pub enum Speed {
    Zero,
    Bytes(u64),
}

/// What the user interface is told about a transfer. `status` is "starting",
/// "processing", "completed", "error" or "cancelled".
#[derive(Clone, Debug, PartialEq, Eq)]
pub struct FileProgressUpdate {
    pub transfer_id: String,
    pub status: String,
    pub file_name: String,
    pub progress: Progress,
    pub speed: Speed,
    pub error: Option<String>,
    pub sha256_matches: Option<bool>,
}

/// `FileProgressUpdate` over mathematical values.
pub struct Update {
    pub transfer_id: Seq<char>,
    pub status: Seq<char>,
    pub file_name: Seq<char>,
    pub progress: Progress,
    pub speed: Speed,
    pub error: Option<Seq<char>>,
    pub sha256_matches: Option<bool>,
}

impl View for FileProgressUpdate {
    type V = Update;

    open spec fn view(&self) -> Update {
        Update {
            transfer_id: self.transfer_id@,
            status: self.status@,
            file_name: self.file_name@,
            progress: self.progress,
            speed: self.speed,
            error: crate::paths::viewed(self.error),
            sha256_matches: self.sha256_matches,
        }
    }
}

/// The news that a transfer begins.
pub open spec fn starting(id: Seq<char>, name: Seq<char>) -> Update {
    Update {
        transfer_id: id,
        status: "starting"@,
        file_name: name,
        progress: Progress::Start,
        speed: Speed::Zero,
        error: None,
        sha256_matches: None,
    }
}

/// The news that `done` of `total` bytes are through.
pub open spec fn processing(id: Seq<char>, name: Seq<char>, done: u64, total: u64) -> Update {
    Update {
        transfer_id: id,
        status: "processing"@,
        file_name: name,
        progress: share(done, total),
        speed: Speed::Bytes(done),
        error: None,
        sha256_matches: None,
    }
}

/// The news that the user has stopped a transfer.
pub open spec fn cancelled(id: Seq<char>, name: Seq<char>, done: u64, total: u64) -> Update {
    Update {
        transfer_id: id,
        status: "cancelled"@,
        file_name: name,
        progress: share(done, total),
        speed: Speed::Zero,
        error: Some("Transfer cancelled by user"@),
        sha256_matches: None,
    }
}

/// The news that a transfer is over, `total` bytes long; with the outcome of the
/// check of its digest, where there was one.
pub open spec fn completed(
    id: Seq<char>,
    name: Seq<char>,
    total: u64,
    sha256_matches: Option<bool>,
) -> Update {
    let failed = sha256_matches == Some(false);
    Update {
        transfer_id: id,
        status: if failed {
            "error"@
        } else {
            "completed"@
        },
        file_name: name,
        progress: Progress::Full,
        speed: Speed::Bytes(total),
        error: if failed {
            Some("SHA-256 hash mismatch"@)
        } else {
            None
        },
        sha256_matches,
    }
}

fn share_of(done: u64, total: u64) -> (progress: Progress)
    ensures
        progress == share(done, total),
{
    if total == 0 {
        Progress::Start
    } else if done <= total {
        Progress::Part { done, total }
    } else {
        Progress::Part { done: total, total }
    }
}

/// Makes the news that a transfer begins.
pub fn starting_update(id: &str, name: &str) -> (u: FileProgressUpdate)
    ensures
        u@ == starting(id@, name@),
{
    FileProgressUpdate {
        transfer_id: id.to_owned(),
        status: "starting".to_owned(),
        file_name: name.to_owned(),
        progress: Progress::Start,
        speed: Speed::Zero,
        error: None,
        sha256_matches: None,
    }
}

/// Makes the news that `done` of `total` bytes are through, if enough time has passed
/// since the last such news.
pub fn processing_update(id: &str, name: &str, done: u64, total: u64, since_last: u128) -> (u:
    Option<FileProgressUpdate>)
    ensures
        u is Some <==> since_last >= REPORT_INTERVAL,
        u matches Some(u) ==> u@ == processing(id@, name@, done, total),
{
    if since_last < REPORT_INTERVAL {
        return None;
    }
    Some(
        FileProgressUpdate {
            transfer_id: id.to_owned(),
            status: "processing".to_owned(),
            file_name: name.to_owned(),
            progress: share_of(done, total),
            speed: Speed::Bytes(done),
            error: None,
            sha256_matches: None,
        },
    )
}

/// Makes the news that the user has stopped a transfer.
pub fn cancelled_update(id: &str, name: &str, done: u64, total: u64) -> (u: FileProgressUpdate)
    ensures
        u@ == cancelled(id@, name@, done, total),
{
    FileProgressUpdate {
        transfer_id: id.to_owned(),
        status: "cancelled".to_owned(),
        file_name: name.to_owned(),
        progress: share_of(done, total),
        speed: Speed::Zero,
        error: Some("Transfer cancelled by user".to_owned()),
        sha256_matches: None,
    }
}

/// Makes the news that a transfer is over.
pub fn completed_update(id: &str, name: &str, total: u64, sha256_matches: Option<bool>) -> (u:
    FileProgressUpdate)
    ensures
        u@ == completed(id@, name@, total, sha256_matches),
{
    let failed = match sha256_matches {
        Some(matches) => !matches,
        None => false,
    };
    FileProgressUpdate {
        transfer_id: id.to_owned(),
        status: if failed {
            "error".to_owned()
        } else {
            "completed".to_owned()
        },
        file_name: name.to_owned(),
        progress: Progress::Full,
        speed: Speed::Bytes(total),
        error: if failed {
            Some("SHA-256 hash mismatch".to_owned())
        } else {
            None
        },
        sha256_matches,
    }
}

/// The three ways in which a file travels.
#[derive(Clone, Copy, Debug, PartialEq, Eq, Structural)]
pub enum TransferKind {
    Receive,
    Send,
    Upload,
}

/// What the identifier of a transfer begins with.
pub open spec fn id_prefix(kind: TransferKind) -> Seq<char> {
    match kind {
        TransferKind::Receive => "recv_"@,
        TransferKind::Send => "send_"@,
        TransferKind::Upload => "web_recv_"@,
    }
}

/// The identifier of a transfer, from a reading of a clock.
pub fn transfer_id(kind: TransferKind, nanos: u128) -> (id: String)
    ensures
        id@ == id_prefix(kind) + decimal(nanos as nat),
{
    let mut id = match kind {
        TransferKind::Receive => "recv_".to_owned(),
        TransferKind::Send => "send_".to_owned(),
        TransferKind::Upload => "web_recv_".to_owned(),
    };
    push_decimal(&mut id, nanos);
    id
}

/// The network address at which a computer receives files.
pub fn file_address(ip: &str) -> (address: String)
    ensures
        address@ == ip@ + ":53202"@,
{
    let mut address = ip.to_owned();
    address.append(":53202");
    address
}

/// Whether the user has asked to stop the transfers.
#[derive(Clone, Copy, Debug, PartialEq, Eq, Structural)]
pub struct CancelFlag {
    pub cancelled: bool,
}

/// Stops the transfers under way.
pub fn cancel_file_transfer(flag: &mut CancelFlag) -> (r: Result<String, String>)
    ensures
        final(flag).cancelled,
        r matches Ok(reply) && reply@ == "cancelled"@,
{
    flag.cancelled = true;
    Ok("cancelled".to_owned())
}

/// Forgets an earlier wish to stop: a new transfer begins.
pub fn clear_cancellation(flag: &mut CancelFlag)
    ensures
        !final(flag).cancelled,
{
    flag.cancelled = false;
}

/// What stands in front of the name of a file.
#[derive(Clone, Copy, Debug, PartialEq, Eq, Structural)]
pub struct FileHeader {
    pub file_size: u64,
    pub name_len: u16,
}

/// What the sender writes before the content. Of the length of the name only the
/// lowest two bytes are written.
pub open spec fn header(file_size: u64, name: Seq<u8>) -> Seq<u8> {
    le_bytes(file_size as nat, 8) + le_bytes(name.len(), 2) + name
}

/// What ten bytes say about the file that follows.
pub open spec fn header_read(bytes: Seq<u8>) -> FileHeader {
    FileHeader {
        file_size: le_value(bytes.subrange(0, 8)) as u64,
        name_len: le_value(bytes.subrange(8, 10)) as u16,
    }
}

/// All that the sender writes for a file.
pub open spec fn stream(name: Seq<u8>, content: Seq<u8>) -> Seq<u8> {
    header(content.len() as u64, name) + content + sha256(content)
}

/// Makes what the sender writes before the content.
pub fn encode_header(file_size: u64, file_name: &str) -> (bytes: Vec<u8>)
    ensures
        bytes@ == header(file_size, encode_utf8(file_name@)),
{
    let name = file_name.as_bytes();
    let mut out: Vec<u8> = Vec::new();
    push_le(&mut out, file_size, 8);
    push_le(&mut out, name.len() as u64, 2);
    out.extend_from_slice(name);
    assert(out@ == header(file_size, name@));
    out
}

/// Reads what stands in front of the name of a file.
pub fn parse_header(buf: &[u8; 10]) -> (h: FileHeader)
    ensures
        h == header_read(buf@),
{
    let size = slice_subrange(buf.as_slice(), 0, 8);
    let len = slice_subrange(buf.as_slice(), 8, 10);
    proof {
        lemma_le_bound(len@);
        lemma_spans();
    }
    FileHeader { file_size: read_le(size), name_len: read_le(len) as u16 }
}

/// Why a received file name cannot be used. `backslash` says whether the system, which
/// finds no name to save the file under, reads backslashes and drives.
#[derive(Clone, Copy, Debug, PartialEq, Eq, Structural)]
pub enum NameError {
    NotUtf8,
    InvalidFileName { backslash: bool },
}

impl NameError {
    /// What the error says.
    pub fn message(&self) -> (text: &'static str)
        ensures
            text@ == match self {
                NameError::NotUtf8 => "The file name is not UTF-8"@,
                NameError::InvalidFileName { .. } => "Invalid file name"@,
            },
    {
        match self {
            NameError::NotUtf8 => "The file name is not UTF-8",
            NameError::InvalidFileName { .. } => "Invalid file name",
        }
    }
}

/// The name under which to save a received file, from the bytes of its name.
pub fn received_name(bytes: Vec<u8>) -> (r: Result<SaveName, NameError>)
    ensures
        r == Err::<SaveName, NameError>(NameError::NotUtf8) <==> !valid_utf8(bytes@),
        r matches Ok(name) ==> is_saved_as(name, decode_utf8(bytes@)),
        r matches Err(NameError::InvalidFileName { backslash }) ==> is_refused(
            decode_utf8(bytes@),
            backslash,
        ),
        valid_utf8(bytes@) && is_usable(decode_utf8(bytes@)) ==> r is Ok,
{
    let raw = match strict_text(bytes) {
        Some(raw) => raw,
        None => return Err(NameError::NotUtf8),
    };
    match save_name(raw.as_str()) {
        (Some(name), _) => Ok(name),
        (None, backslash) => Err(NameError::InvalidFileName { backslash }),
    }
}

/// The name under which a local file is sent, the last component of its path, or an
/// error where it has none; and whether the system reads backslashes and drives.
pub fn sent_name(file_path: &str) -> (r: (Result<String, String>, bool))
    ensures
        match r.0 {
            Ok(name) => is_last_of(Some(name@), file_path@, r.1),
            Err(e) => is_last_of(None, file_path@, r.1) && e@ == "Invalid file name"@,
        },
        has_both(file_path@) ==> r.0 is Ok,
{
    match file_name_of(file_path) {
        (Some(name), backslash) => (Ok(name), backslash),
        (None, backslash) => (Err("Invalid file name".to_owned()), backslash),
    }
}

/// Whether two byte sequences are the same.
fn same_bytes(a: &[u8], b: &[u8]) -> (r: bool)
    ensures
        r == (a@ == b@),
{
    if a.len() != b.len() {
        return false;
    }
    let mut i: usize = 0;
    while i < a.len()
        invariant
            i <= a.len(),
            a.len() == b.len(),
            forall|j: int| 0 <= j < i ==> a@[j] == b@[j],
        decreases a.len() - i,
    {
        if a[i] != b[i] {
            return false;
        }
        i += 1;
    }
    assert(a@ == b@);
    true
}

/// What the receiver does next: read this many bytes of the content, stop because the
/// user said so, with this error, or go on to the digest.
#[derive(Clone, Debug, PartialEq, Eq)]
pub enum IncomingStep {
    Read(usize),
    Cancelled { update: FileProgressUpdate, error: String },
    Finished,
}

/// A file that is being received.
pub struct Incoming {
    pub transfer_id: String,
    pub file_name: String,
    pub file_size: u64,
    pub received: u64,
    pub hasher: sha2::Sha256,
}

impl Incoming {
    /// The content received so far.
    pub open spec fn content(&self) -> Seq<u8> {
        absorbed(self.hasher)
    }

    /// Whether the count fits the content, and the content the announced size.
    pub open spec fn wf(&self) -> bool {
        self.received == self.content().len() && self.received <= self.file_size
    }

    /// A file of which nothing has been received yet.
    pub fn new(transfer_id: String, file_name: String, file_size: u64) -> (f: Incoming)
        ensures
            f.wf(),
            f.transfer_id == transfer_id && f.file_name == file_name && f.file_size == file_size,
            f.received == 0,
            f.content() == Seq::<u8>::empty(),
    {
        Incoming { transfer_id, file_name, file_size, received: 0, hasher: new_hasher() }
    }

    /// The news that the transfer begins.
    pub fn start(&self) -> (u: FileProgressUpdate)
        ensures
            u@ == starting(self.transfer_id@, self.file_name@),
    {
        starting_update(self.transfer_id.as_str(), self.file_name.as_str())
    }

    /// Decides what to do next.
    pub fn next(&self, flag: &CancelFlag) -> (step: IncomingStep)
        requires
            self.wf(),
        ensures
            self.received == self.file_size ==> step is Finished,
            self.received < self.file_size && !flag.cancelled ==> step == IncomingStep::Read(
                chunk_size(self.received, self.file_size),
            ),
            self.received < self.file_size && flag.cancelled ==> (step matches
                IncomingStep::Cancelled { update, error } && update@ == cancelled(
                self.transfer_id@,
                self.file_name@,
                self.received,
                self.file_size,
            ) && error@ == "cancelled"@),
    {
        if self.received >= self.file_size {
            return IncomingStep::Finished;
        }
        if flag.cancelled {
            return IncomingStep::Cancelled {
                update: cancelled_update(
                    self.transfer_id.as_str(),
                    self.file_name.as_str(),
                    self.received,
                    self.file_size,
                ),
                error: "cancelled".to_owned(),
            };
        }
        IncomingStep::Read(next_chunk(self.received, self.file_size))
    }

    /// Takes in the next bytes of the content.
    pub fn accept(&mut self, chunk: &[u8])
        requires
            old(self).wf(),
            old(self).received + chunk@.len() <= old(self).file_size,
            old(self).received + chunk@.len() < DIGEST_LIMIT,
        ensures
            final(self).wf(),
            final(self).content() == old(self).content() + chunk@,
            final(self).received == old(self).received + chunk@.len(),
            final(self).transfer_id == old(self).transfer_id,
            final(self).file_name == old(self).file_name,
            final(self).file_size == old(self).file_size,
    {
        absorb(&mut self.hasher, chunk);
        self.received += chunk.len() as u64;
    }

    /// The news of the progress, if enough milliseconds have passed since the last.
    pub fn progress(&self, since_last: u128) -> (u: Option<FileProgressUpdate>)
        ensures
            u is Some <==> since_last >= REPORT_INTERVAL,
            u matches Some(u) ==> u@ == processing(
                self.transfer_id@,
                self.file_name@,
                self.received,
                self.file_size,
            ),
    {
        processing_update(
            self.transfer_id.as_str(),
            self.file_name.as_str(),
            self.received,
            self.file_size,
            since_last,
        )
    }

    /// Compares the content with the digest that the sender gave, and tells how the
    /// transfer ended.
    pub fn conclude(self, remote: &[u8]) -> (u: FileProgressUpdate)
        requires
            self.wf(),
            self.received < DIGEST_LIMIT,
        ensures
            u@ == completed(
                self.transfer_id@,
                self.file_name@,
                self.file_size,
                Some(sha256(self.content()) == remote@),
            ),
    {
        let local = finish(self.hasher);
        let matches = same_bytes(&local, remote);
        completed_update(
            self.transfer_id.as_str(),
            self.file_name.as_str(),
            self.file_size,
            Some(matches),
        )
    }
}

/// How many bytes to read next: what is left, but no more than a chunk.
pub open spec fn chunk_size(done: u64, total: u64) -> usize {
    if total - done < CHUNK {
        (total - done) as usize
    } else {
        CHUNK
    }
}

/// How many bytes to read next.
pub fn next_chunk(done: u64, total: u64) -> (n: usize)
    requires
        done <= total,
    ensures
        n == chunk_size(done, total),
{
    if total - done < CHUNK as u64 {
        (total - done) as usize
    } else {
        CHUNK
    }
}

/// What the sender does next: read up to this many bytes of the file, or stop because
/// the user said so, with this error.
#[derive(Clone, Debug, PartialEq, Eq)]
pub enum OutgoingStep {
    Read(usize),
    Cancelled { update: FileProgressUpdate, error: String },
}

/// The end of a sent file: the digest to write, the news, and the answer to the user.
#[derive(Clone, Debug, PartialEq, Eq)]
pub struct SentFile {
    pub digest: Vec<u8>,
    pub update: FileProgressUpdate,
    pub reply: String,
}

/// A file that is being sent.
pub struct Outgoing {
    pub transfer_id: String,
    pub file_name: String,
    pub file_size: u64,
    pub sent: u64,
    pub hasher: sha2::Sha256,
}

impl Outgoing {
    /// The content sent so far.
    pub open spec fn content(&self) -> Seq<u8> {
        absorbed(self.hasher)
    }

    /// Whether the count fits the content.
    pub open spec fn wf(&self) -> bool {
        self.sent == self.content().len()
    }

    /// A file of which nothing has been sent yet.
    pub fn new(transfer_id: String, file_name: String, file_size: u64) -> (f: Outgoing)
        ensures
            f.wf(),
            f.transfer_id == transfer_id && f.file_name == file_name && f.file_size == file_size,
            f.sent == 0,
            f.content() == Seq::<u8>::empty(),
    {
        Outgoing { transfer_id, file_name, file_size, sent: 0, hasher: new_hasher() }
    }

    /// What to write before the content.
    pub fn head(&self) -> (bytes: Vec<u8>)
        ensures
            bytes@ == header(self.file_size, encode_utf8(self.file_name@)),
    {
        encode_header(self.file_size, self.file_name.as_str())
    }

    /// The news that the transfer begins.
    pub fn start(&self) -> (u: FileProgressUpdate)
        ensures
            u@ == starting(self.transfer_id@, self.file_name@),
    {
        starting_update(self.transfer_id.as_str(), self.file_name.as_str())
    }

    /// Decides what to do next.
    pub fn next(&self, flag: &CancelFlag) -> (step: OutgoingStep)
        ensures
            !flag.cancelled ==> step == OutgoingStep::Read(CHUNK),
            flag.cancelled ==> (step matches OutgoingStep::Cancelled { update, error } && update@
                == cancelled(self.transfer_id@, self.file_name@, self.sent, self.file_size)
                && error@ == "cancelled"@),
    {
        if flag.cancelled {
            return OutgoingStep::Cancelled {
                update: cancelled_update(
                    self.transfer_id.as_str(),
                    self.file_name.as_str(),
                    self.sent,
                    self.file_size,
                ),
                error: "cancelled".to_owned(),
            };
        }
        OutgoingStep::Read(CHUNK)
    }

    /// Records the next bytes of the content.
    pub fn record(&mut self, chunk: &[u8])
        requires
            old(self).wf(),
            old(self).sent + chunk@.len() < DIGEST_LIMIT,
        ensures
            final(self).wf(),
            final(self).content() == old(self).content() + chunk@,
            final(self).sent == old(self).sent + chunk@.len(),
            final(self).transfer_id == old(self).transfer_id,
            final(self).file_name == old(self).file_name,
            final(self).file_size == old(self).file_size,
    {
        absorb(&mut self.hasher, chunk);
        self.sent += chunk.len() as u64;
    }

    /// The news of the progress, if enough milliseconds have passed since the last.
    pub fn progress(&self, since_last: u128) -> (u: Option<FileProgressUpdate>)
        ensures
            u is Some <==> since_last >= REPORT_INTERVAL,
            u matches Some(u) ==> u@ == processing(
                self.transfer_id@,
                self.file_name@,
                self.sent,
                self.file_size,
            ),
    {
        processing_update(
            self.transfer_id.as_str(),
            self.file_name.as_str(),
            self.sent,
            self.file_size,
            since_last,
        )
    }

    /// Ends the transfer with the digest of the content.
    pub fn conclude(self) -> (end: SentFile)
        requires
            self.wf(),
            self.sent < DIGEST_LIMIT,
        ensures
            end.digest@ == sha256(self.content()),
            end.digest@.len() == 32,
            end.update@ == completed(self.transfer_id@, self.file_name@, self.file_size, None),
            end.reply@ == "file_sent_successfully"@,
    {
        let digest = finish(self.hasher);
        SentFile {
            digest,
            update: completed_update(
                self.transfer_id.as_str(),
                self.file_name.as_str(),
                self.file_size,
                None,
            ),
            reply: "file_sent_successfully".to_owned(),
        }
    }
}

/// The progress that is told of over one transfer of `total` bytes: at its start, after
/// each of the counts of bytes that were through when a report was due, and at its end,
/// which is either the whole or, where the user stopped it, what the last count says.
pub open spec fn told(total: u64, counts: Seq<u64>, stopped: Option<u64>) -> Seq<Progress> {
    let id = Seq::<char>::empty();
    let reports = counts.map_values(|done: u64| processing(id, id, done, total).progress);
    let end = match stopped {
        Some(done) => cancelled(id, id, done, total).progress,
        None => completed(id, id, total, None).progress,
    };
    seq![starting(id, id).progress] + reports + seq![end]
}

/// Over one transfer the progress always lies between nothing and the whole and never
/// falls, whatever the size of the file and whenever the user stops it; at the end of
/// one that was not stopped it is the whole.
pub proof fn law_progress_never_falls(total: u64, counts: Seq<u64>, stopped: Option<u64>)
    requires
        forall|i: int, j: int| 0 <= i <= j < counts.len() ==> counts[i] <= counts[j],
        stopped matches Some(done) ==> forall|i: int|
            0 <= i < counts.len() ==> #[trigger] counts[i] <= done,
    ensures
        forall|i: int|
            0 <= i < told(total, counts, stopped).len() ==> (#[trigger] told(
                total,
                counts,
                stopped,
            )[i]).wf(),
        forall|i: int, j: int|
            0 <= i <= j < told(total, counts, stopped).len() ==> (#[trigger] told(
                total,
                counts,
                stopped,
            )[i]).at_most(#[trigger] told(total, counts, stopped)[j]),
        stopped is None ==> told(total, counts, stopped).last() == Progress::Full,
{
    let all = told(total, counts, stopped);
    let n = counts.len() as int;
    // Each entry is the share of a count, the whole at the end.
    assert forall|i: int| 1 <= i <= n implies all[i] == share(counts[i - 1], total) by {}
    assert(all[0] == Progress::Start);
    assert(all[n + 1] == match stopped {
        Some(done) => share(done, total),
        None => Progress::Full,
    });
    assert forall|i: int, j: int| 0 <= i <= j < all.len() implies (#[trigger] all[i]).at_most(
        #[trigger] all[j],
    ) by {
        if 1 <= i && 1 <= j <= n {
            lemma_share_grows(counts[i - 1], counts[j - 1], total);
        } else if 1 <= i <= n {
            if let Some(done) = stopped {
                lemma_share_grows(counts[i - 1], done, total);
            }
        }
    }
}

/// More bytes are no smaller share.
proof fn lemma_share_grows(a: u64, b: u64, total: u64)
    requires
        a <= b,
    ensures
        share(a, total).at_most(share(b, total)),
{
    let x = share(a, total).numerator();
    let y = share(b, total).numerator();
    assert(x * total <= y * total) by (nonlinear_arith)
        requires
            x <= y,
    ;
}

/// What was written in front of a file is read back: its size, the length of its name,
/// and behind these ten bytes the name.
pub proof fn law_header_round_trip(file_size: u64, name: Seq<u8>)
    requires
        name.len() <= u16::MAX,
    ensures
        ({
            let h = header(file_size, name);
            &&& header_read(h.take(10)) == (FileHeader { file_size, name_len: name.len() as u16 })
            &&& h.skip(10) == name
            &&& h.len() == 10 + name.len()
        }),
{
    lemma_spans();
    lemma_le_len(file_size as nat, 8);
    lemma_le_len(name.len(), 2);
    law_le_round_trip(file_size as nat, 8);
    law_le_round_trip(name.len(), 2);
    let h = header(file_size, name);
    assert(h.take(10).subrange(0, 8) == le_bytes(file_size as nat, 8));
    assert(h.take(10).subrange(8, 10) == le_bytes(name.len(), 2));
    assert(h.skip(10) == name);
}

/// The receiver takes a stream apart into what the sender put in: the name, the
/// content, and behind it the digest of that content.
pub proof fn law_stream_round_trip(name: Seq<u8>, content: Seq<u8>)
    requires
        name.len() <= u16::MAX,
        content.len() <= u64::MAX,
    ensures
        ({
            let s = stream(name, content);
            let h = header_read(s.take(10));
            let at_content = 10 + h.name_len;
            let at_digest = at_content + h.file_size;
            &&& s.subrange(10, at_content) == name
            &&& s.subrange(at_content, at_digest) == content
            &&& s.skip(at_digest) == sha256(content)
        }),
{
    let s = stream(name, content);
    let head = header(content.len() as u64, name);
    law_header_round_trip(content.len() as u64, name);
    assert(s.take(10) == head.take(10));
    let at_content: int = 10 + name.len() as int;
    let at_digest: int = at_content + content.len();
    assert(s.subrange(10, at_content) == head.skip(10));
    assert(s.subrange(at_content, at_digest) == content);
    assert(s.skip(at_digest) == sha256(content));
}

/// Whether a name that holds in one way of reading paths also holds in the other: a
/// system that reads backslashes and drives takes a name with either for more than a
/// name.
pub open spec fn is_carried_over(name: Seq<char>, backslash: bool) -> bool {
    backslash ==> !name.contains('\\') && !has_drive(name)
}

/// A file is saved under the name under which it was sent: the last component of the
/// sender's path comes through as it is, however the two systems read paths.
pub proof fn law_name_arrives(path: Seq<char>, sender: bool, receiver: bool)
    requires
        last_component(path, sender) is Some,
        is_carried_over(last_component(path, sender)->0, receiver),
    ensures
        ({
            let name = last_component(path, sender)->0;
            let bytes = encode_utf8(name);
            &&& valid_utf8(bytes)
            &&& decode_utf8(bytes) == name
            &&& !(receiver && begins_with_two(name))
            &&& saved_name(name, receiver) == Some(name)
        }),
{
    let name = last_component(path, sender)->0;
    law_last_component(path, sender);
    law_own_name(name, receiver);
    encode_utf8_valid_utf8(name);
    encode_utf8_decode_utf8(name);
    if begins_with_two(name) {
        assert(name.contains(name[0]));
    }
}

/// A file that is sent arrives: from what the sender writes for it the receiver takes
/// its name and its content, and reports it as completed under that name.
pub proof fn law_file_arrives(
    path: Seq<char>,
    sender: bool,
    receiver: bool,
    content: Seq<u8>,
    id: Seq<char>,
)
    requires
        last_component(path, sender) is Some,
        is_carried_over(last_component(path, sender)->0, receiver),
        encode_utf8(last_component(path, sender)->0).len() <= u16::MAX,
        content.len() <= u64::MAX,
    ensures
        ({
            let name = last_component(path, sender)->0;
            let s = stream(encode_utf8(name), content);
            let h = header_read(s.take(10));
            let at_content = 10 + h.name_len;
            let at_digest = at_content + h.file_size;
            let name_bytes = s.subrange(10, at_content);
            let arrived = s.subrange(at_content, at_digest);
            let u = completed(id, name, h.file_size, Some(sha256(arrived) == s.skip(at_digest)));
            &&& valid_utf8(name_bytes)
            &&& saved_name(decode_utf8(name_bytes), receiver) == Some(name)
            &&& arrived == content
            &&& u.status == "completed"@ && u.error is None && u.sha256_matches == Some(true)
                && u.progress == Progress::Full
        }),
{
    law_name_arrives(path, sender, receiver);
    law_stream_round_trip(encode_utf8(last_component(path, sender)->0), content);
}

/// A file that arrives as it was sent is reported as completed, and one whose digest
/// differs as an error.
pub proof fn law_verdict_follows_digest(
    id: Seq<char>,
    name: Seq<char>,
    total: u64,
    sent: Seq<u8>,
    arrived: Seq<u8>,
)
    ensures
        ({
            let u = completed(id, name, total, Some(sha256(arrived) == sha256(sent)));
            &&& arrived == sent ==> u.status == "completed"@ && u.error is None
                && u.sha256_matches == Some(true)
            &&& sha256(arrived) != sha256(sent) ==> u.status == "error"@ && u.error
                == Some("SHA-256 hash mismatch"@) && u.sha256_matches == Some(false)
        }),
{
}

/// A chunk is never empty while bytes are missing, and never reaches past the end: the
/// transfer comes to its end.
pub proof fn law_chunks_reach_the_end(done: u64, total: u64)
    requires
        done < total,
    ensures
        0 < chunk_size(done, total) <= CHUNK,
        done + chunk_size(done, total) <= total,
{
}

/// The share of a transfer is what is done of the whole, no more than all of it; of an
/// announced file of no bytes it is nothing.
pub proof fn law_share(done: u64, total: u64)
    ensures
        0 < total && done <= total ==> share(done, total) == (Progress::Part { done, total }),
        0 < total < done ==> share(done, total) == (Progress::Part { done: total, total }),
        total == 0 ==> share(done, total) == Progress::Start,
{
}

/// What each kind of news says of a transfer.
pub proof fn law_news(
    id: Seq<char>,
    name: Seq<char>,
    done: u64,
    total: u64,
    sha256_matches: Option<bool>,
)
    ensures
        ({
            let first = starting(id, name);
            let report = processing(id, name, done, total);
            let stop = cancelled(id, name, done, total);
            let end = completed(id, name, total, sha256_matches);
            &&& first.transfer_id == id && report.transfer_id == id
            &&& stop.transfer_id == id && end.transfer_id == id
            &&& first.file_name == name && report.file_name == name
            &&& stop.file_name == name && end.file_name == name
            &&& first.status == "starting"@ && report.status == "processing"@
            &&& stop.status == "cancelled"@
            &&& end.status == if sha256_matches == Some(false) {
                "error"@
            } else {
                "completed"@
            }
            &&& first.progress == Progress::Start && end.progress == Progress::Full
            &&& report.progress == share(done, total) && stop.progress == share(done, total)
            &&& first.speed == Speed::Zero && stop.speed == Speed::Zero
            &&& report.speed == Speed::Bytes(done) && end.speed == Speed::Bytes(total)
            &&& first.error is None && report.error is None
            &&& stop.error == Some("Transfer cancelled by user"@)
            &&& end.error == if sha256_matches == Some(false) {
                Some("SHA-256 hash mismatch"@)
            } else {
                None
            }
            &&& first.sha256_matches is None && report.sha256_matches is None
            &&& stop.sha256_matches is None && end.sha256_matches == sha256_matches
        }),
{
}

/// News is seen with all that it says.
pub proof fn law_update_view(u: FileProgressUpdate)
    ensures
        u@.transfer_id == u.transfer_id@,
        u@.status == u.status@,
        u@.file_name == u.file_name@,
        u@.progress == u.progress,
        u@.speed == u.speed,
        u.error is None <==> u@.error is None,
        u.error matches Some(e) ==> u@.error == Some(e@),
        u@.sha256_matches == u.sha256_matches,
{
}

/// What stands in front of a file byte by byte: the size in eight bytes and the length of
/// the name in two, the lowest byte first, and the name.
pub proof fn law_header_layout(file_size: u64, name: Seq<u8>, i: int)
    ensures
        ({
            let h = header(file_size, name);
            &&& h.len() == 10 + name.len()
            &&& 0 <= i < 8 ==> h[i] == (file_size as nat / span(i as nat)) % 256
            &&& h[8] == name.len() % 256
            &&& h[9] == name.len() / 256 % 256
            &&& 0 <= i < name.len() ==> h[10 + i] == name[i]
        }),
{
    lemma_le_len(file_size as nat, 8);
    lemma_le_len(name.len(), 2);
    if 0 <= i < 8 {
        law_le_digit(file_size as nat, 8, i as nat);
    }
    law_le_digit(name.len(), 2, 0);
    law_le_digit(name.len(), 2, 1);
    law_spans();
    assert(name.len() / 1 == name.len());
}

/// As much is read at a time as is left, but no more than 65536 bytes.
pub proof fn law_chunk(done: u64, total: u64)
    requires
        done <= total,
    ensures
        total - done <= 65536 ==> chunk_size(done, total) == total - done,
        total - done > 65536 ==> chunk_size(done, total) == 65536,
{
}

/// The identifier of a transfer tells how the file travels.
pub proof fn law_identifiers(a: TransferKind, b: TransferKind, n: nat, m: nat)
    ensures
        id_prefix(TransferKind::Receive) == "recv_"@,
        id_prefix(TransferKind::Send) == "send_"@,
        id_prefix(TransferKind::Upload) == "web_recv_"@,
        a != b ==> id_prefix(a) + decimal(n) != id_prefix(b) + decimal(m),
{
    reveal_strlit("recv_");
    reveal_strlit("send_");
    reveal_strlit("web_recv_");
    let x = id_prefix(a) + decimal(n);
    let y = id_prefix(b) + decimal(m);
    assert(x[0] == id_prefix(a)[0] && y[0] == id_prefix(b)[0]);
}

/// What a transfer counts as its content is what was fed to its hasher.
pub proof fn law_content(incoming: Incoming, outgoing: Outgoing)
    ensures
        incoming.content() == absorbed(incoming.hasher),
        outgoing.content() == absorbed(outgoing.hasher),
        incoming.wf() ==> incoming.received == absorbed(incoming.hasher).len()
            && incoming.received <= incoming.file_size,
        outgoing.wf() ==> outgoing.sent == absorbed(outgoing.hasher).len(),
{
}

} // verus!
