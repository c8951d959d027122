//! File-transfer bookkeeping: transfer descriptions, which chunks of a file
//! have arrived, and checksum comparison.

use sha2::Digest;
use vstd::prelude::*;

verus! {

/// Bytes per transfer chunk (64 KiB).
pub const CHUNK_SIZE: u64 = 65536;

/// Most transfers running at once.
pub const MAX_CONCURRENT_TRANSFERS: usize = 5;

/// Why a transfer failed.
#[derive(Debug)]
pub enum TransferError {
    TransferFailed(String),
    FileNotFound(String),
    TransferNotFound(String),
    Cancelled,
    ChecksumMismatch,
    IoError(String),
}

/// A file offered for transfer.
#[derive(Debug)]
pub struct FileInfo {
    pub id: String,
    pub name: String,
    pub size: u64,
    /// Lower-case hexadecimal SHA-256 of the contents.
    pub checksum: String,
    pub mime_type: Option<String>,
}

/// Progress of a transfer.
#[derive(Debug, Clone, Copy, PartialEq, Eq, Structural)]
pub enum TransferStatus {
    Pending,
    Offered,
    InProgress,
    Completed,
    Failed,
    Cancelled,
}

/// Direction of a transfer.
#[derive(Debug, Clone, Copy, PartialEq, Eq, Structural)]
pub enum TransferDirection {
    Outgoing,
    Incoming,
}

/// The MIME type guessed from a file name's extension.
pub uninterp spec fn mime_of(name: Seq<char>) -> Option<Seq<char>>;

/// Relies on `mime_guess::from_path(..).first()`: the first MIME type
/// registered for the name's extension, as text; it looks at the name only.
#[verifier::external_body]
fn guess_mime(name: &str) -> (r: Option<String>)
    ensures
        match r {
            Some(m) => mime_of(name@) == Some(m@),
            None => mime_of(name@) is None,
        },
{
    mime_guess::from_path(name).first().map(|m| m.to_string())
}

/// The SHA-256 digest of a byte sequence.
pub uninterp spec fn sha256_of(data: Seq<u8>) -> Seq<u8>;

/// Relies on `sha2::Sha256::digest`: the 32-byte SHA-256 digest.
#[verifier::external_body]
fn sha256_digest(data: &[u8]) -> (r: Vec<u8>)
    ensures
        r@ == sha256_of(data@),
        r@.len() == 32,
{
    <sha2::Sha256 as Digest>::digest(data).to_vec()
}

/// The description of a file offered for transfer, with its MIME type
/// guessed from its name.
pub fn file_info(id: String, name: String, size: u64, checksum: String) -> (r: FileInfo)
    ensures
        r.id == id,
        r.name == name,
        r.size == size,
        r.checksum == checksum,
        match r.mime_type {
            Some(m) => mime_of(name@) == Some(m@),
            None => mime_of(name@) is None,
        },
{
    let mime_type = guess_mime(name.as_str());
    FileInfo { id, name, size, checksum, mime_type }
}

/// Lower-case hexadecimal digit of a nibble.
pub open spec fn hex_digit(n: int) -> char {
    if n < 10 {
        ('0' as int + n) as char
    } else {
        ('a' as int + n - 10) as char
    }
}

/// Lower-case hexadecimal text of bytes, two digits per byte.
pub open spec fn hex_text(b: Seq<u8>) -> Seq<char> {
    Seq::new(2 * b.len(), |i: int| if i % 2 == 0 { hex_digit(b[i / 2] as int / 16) } else { hex_digit(b[i / 2] as int % 16) })
}

fn nibble_char(n: u8) -> (c: char)
    requires
        n < 16,
    ensures
        c == hex_digit(n as int),
{
    if n < 10 {
        ((48 + n) as char)
    } else {
        ((87 + n) as char)
    }
}

/// Whether `text` is the lower-case hexadecimal form of `digest`.
pub fn hex_matches(digest: &[u8], text: &str) -> (r: bool)
    ensures
        r == (text@ == hex_text(digest@)),
{
    let n = digest.len();
    let m = text.unicode_len();
    if m / 2 != n || m % 2 != 0 {
        assert(text@.len() != hex_text(digest@).len());
        return false;
    }
    let mut i: usize = 0;
    while i < n
        invariant
            n == digest@.len(),
            m == text@.len(),
            m == 2 * n,
            i <= n,
            forall|k: int| 0 <= k < 2 * i ==> text@[k] == #[trigger] hex_text(digest@)[k],
        decreases n - i,
    {
        let hi = nibble_char(digest[i] / 16);
        let lo = nibble_char(digest[i] % 16);
        if text.get_char(2 * i) != hi || text.get_char(2 * i + 1) != lo {
            assert(hex_text(digest@)[2 * i] == hi);
            assert(hex_text(digest@)[2 * i + 1] == lo);
            return false;
        }
        assert(hex_text(digest@)[2 * i] == hi);
        assert(hex_text(digest@)[2 * i + 1] == lo);
        i = i + 1;
    }
    assert(text@ =~= hex_text(digest@));
    true
}

/// Whether `expected` is the lower-case hexadecimal SHA-256 of `data`.
pub fn checksum_matches(data: &[u8], expected: &str) -> (r: bool)
    ensures
        r == (expected@ == hex_text(sha256_of(data@))),
{
    let digest = sha256_digest(data);
    hex_matches(digest.as_slice(), expected)
}

impl FileInfo {
    /// A field-by-field copy.
    pub fn duplicate(&self) -> (r: Self)
        ensures
            r == *self,
    {
        FileInfo {
            id: self.id.clone(),
            name: self.name.clone(),
            size: self.size,
            checksum: self.checksum.clone(),
            mime_type: match &self.mime_type {
                Some(m) => Some(m.clone()),
                None => None,
            },
        }
    }
}

/// The state of one transfer. Progress is `bytes_transferred` out of
/// `info.size`.
#[derive(Debug)]
pub struct FileTransfer {
    pub info: FileInfo,
    pub status: TransferStatus,
    pub direction: TransferDirection,
    pub bytes_transferred: u64,
    pub peer_id: String,
    /// The file sent, or the destination of a file received.
    pub local_path: Option<String>,
    pub error: Option<String>,
}

fn copy_opt(s: &Option<String>) -> (r: Option<String>)
    ensures
        r == *s,
{
    match s {
        Some(v) => Some(v.clone()),
        None => None,
    }
}

impl FileTransfer {
    /// A field-by-field copy.
    pub fn duplicate(&self) -> (r: Self)
        ensures
            r == *self,
    {
        FileTransfer {
            info: self.info.duplicate(),
            status: self.status,
            direction: self.direction,
            bytes_transferred: self.bytes_transferred,
            peer_id: self.peer_id.clone(),
            local_path: copy_opt(&self.local_path),
            error: copy_opt(&self.error),
        }
    }

    /// A transfer of a local file to a peer, not offered yet.
    pub fn new_outgoing(info: FileInfo, peer_id: &str, local_path: &str) -> (r: Self)
        ensures
            r.info == info,
            r.status == TransferStatus::Pending,
            r.direction == TransferDirection::Outgoing,
            r.bytes_transferred == 0,
            r.peer_id@ == peer_id@,
            r.local_path matches Some(p) && p@ == local_path@,
            r.error is None,
    {
        FileTransfer {
            info,
            status: TransferStatus::Pending,
            direction: TransferDirection::Outgoing,
            bytes_transferred: 0,
            peer_id: peer_id.to_string(),
            local_path: Some(local_path.to_string()),
            error: None,
        }
    }

    /// A transfer offered by a peer, awaiting our answer.
    pub fn new_incoming(info: FileInfo, peer_id: &str) -> (r: Self)
        ensures
            r.info == info,
            r.status == TransferStatus::Offered,
            r.direction == TransferDirection::Incoming,
            r.bytes_transferred == 0,
            r.peer_id@ == peer_id@,
            r.local_path is None,
            r.error is None,
    {
        FileTransfer {
            info,
            status: TransferStatus::Offered,
            direction: TransferDirection::Incoming,
            bytes_transferred: 0,
            peer_id: peer_id.to_string(),
            local_path: None,
            error: None,
        }
    }

    /// Records the bytes moved so far.
    pub fn update_progress(&mut self, bytes: u64)
        ensures
            *final(self) == (FileTransfer { bytes_transferred: bytes, ..*old(self) }),
    {
        self.bytes_transferred = bytes;
    }

    /// Marks the transfer as running.
    pub fn start(&mut self)
        ensures
            *final(self) == (FileTransfer { status: TransferStatus::InProgress, ..*old(self) }),
    {
        self.status = TransferStatus::InProgress;
    }

    /// Marks the transfer as done: every byte moved.
    pub fn complete(&mut self)
        ensures
            *final(self) == (FileTransfer {
                status: TransferStatus::Completed,
                bytes_transferred: old(self).info.size,
                ..*old(self)
            }),
    {
        self.status = TransferStatus::Completed;
        self.bytes_transferred = self.info.size;
    }

    /// Marks the transfer as failed with a reason.
    pub fn fail(&mut self, error: &str)
        ensures
            final(self).status == TransferStatus::Failed,
            final(self).error matches Some(e) && e@ == error@,
            final(self).info == old(self).info,
            final(self).bytes_transferred == old(self).bytes_transferred,
    {
        self.status = TransferStatus::Failed;
        self.error = Some(error.to_string());
    }

    /// Marks the transfer as cancelled.
    pub fn cancel(&mut self)
        ensures
            *final(self) == (FileTransfer { status: TransferStatus::Cancelled, ..*old(self) }),
    {
        self.status = TransferStatus::Cancelled;
    }
}

/// Whether a transfer still needs attention (offered or running).
pub open spec fn is_active(t: FileTransfer) -> bool {
    t.status == TransferStatus::InProgress || t.status == TransferStatus::Offered
}

/// Whether a transfer has not finished (pending, offered or running).
pub open spec fn is_unfinished(t: FileTransfer) -> bool {
    t.status == TransferStatus::Pending || is_active(t)
}

/// The transfers of `s` satisfying `p`, in order.
pub open spec fn transfers_where(s: Seq<FileTransfer>, p: spec_fn(FileTransfer) -> bool) -> Seq<FileTransfer>
    decreases s.len(),
{
    if s.len() == 0 {
        s
    } else if p(s.last()) {
        transfers_where(s.drop_last(), p).push(s.last())
    } else {
        transfers_where(s.drop_last(), p)
    }
}

/// The transfers known to this device, by file id, in order of arrival.
pub struct TransferRegistry {
    transfers: Vec<FileTransfer>,
}

impl View for TransferRegistry {
    type V = Seq<FileTransfer>;

    closed spec fn view(&self) -> Seq<FileTransfer> {
        self.transfers@
    }
}

/// Whether a transfer of `s` has file id `id`.
pub open spec fn has_transfer(s: Seq<FileTransfer>, id: Seq<char>) -> bool {
    exists|i: int| 0 <= i < s.len() && #[trigger] s[i].info.id@ == id
}

impl TransferRegistry {
    /// No transfers.
    pub fn new() -> (r: Self)
        ensures
            r@.len() == 0,
    {
        TransferRegistry { transfers: Vec::new() }
    }

    fn index_of(&self, id: &str) -> (r: Option<usize>)
        ensures
            r matches Some(i) ==> i < self@.len() && self@[i as int].info.id@ == id@,
            r is None ==> !has_transfer(self@, id@),
    {
        let key = id.to_owned();
        let mut i: usize = 0;
        while i < self.transfers.len()
            invariant
                key@ == id@,
                i <= self@.len(),
                forall|j: int| 0 <= j < i ==> (#[trigger] self@[j]).info.id@ != id@,
            decreases self@.len() - i,
        {
            if self.transfers[i].info.id == key {
                return Some(i);
            }
            i = i + 1;
        }
        None
    }

    /// Records a transfer, replacing one with the same file id in place.
    pub fn insert(&mut self, transfer: FileTransfer)
        ensures
            has_transfer(old(self)@, transfer.info.id@) ==> exists|i: int|
                0 <= i < old(self)@.len() && (#[trigger] old(self)@[i]).info.id@ == transfer.info.id@
                    && final(self)@ == old(self)@.update(i, transfer),
            !has_transfer(old(self)@, transfer.info.id@) ==> final(self)@ == old(self)@.push(transfer),
    {
        match self.index_of(transfer.info.id.as_str()) {
            Some(i) => {
                self.transfers.set(i, transfer);
            },
            None => {
                self.transfers.push(transfer);
            },
        }
    }

    /// A copy of the transfer with file id `id`.
    pub fn get_transfer(&self, id: &str) -> (r: Option<FileTransfer>)
        ensures
            r matches Some(t) ==> self@.contains(t) && t.info.id@ == id@,
            r is None ==> !has_transfer(self@, id@),
    {
        match self.index_of(id) {
            Some(i) => Some(self.transfers[i].duplicate()),
            None => None,
        }
    }

    /// Accepts an incoming transfer, to be written to `dest_path`. Fails when
    /// the transfer is unknown or outgoing.
    pub fn accept_transfer(&mut self, id: &str, dest_path: &str) -> (r: Result<(), TransferError>)
        ensures
            !has_transfer(old(self)@, id@) ==> (r matches Err(TransferError::TransferNotFound(_))) && final(self)@ == old(self)@,
            has_transfer(old(self)@, id@) ==> exists|i: int|
                0 <= i < old(self)@.len() && (#[trigger] old(self)@[i]).info.id@ == id@ && if old(self)@[i].direction == TransferDirection::Incoming {
                    &&& r is Ok
                    &&& final(self)@.len() == old(self)@.len()
                    &&& final(self)@[i].status == TransferStatus::InProgress
                    &&& final(self)@[i].local_path matches Some(p) && p@ == dest_path@
                    &&& final(self)@[i].info == old(self)@[i].info
                    &&& forall|j: int| 0 <= j < old(self)@.len() && j != i ==> final(self)@[j] == old(self)@[j]
                } else {
                    (r matches Err(TransferError::TransferFailed(_))) && final(self)@ == old(self)@
                },
    {
        match self.index_of(id) {
            None => Err(TransferError::TransferNotFound(id.to_string())),
            Some(i) => {
                if self.transfers[i].direction != TransferDirection::Incoming {
                    return Err(TransferError::TransferFailed("Cannot accept outgoing transfer".to_string()));
                }
                let mut t = self.transfers[i].duplicate();
                t.local_path = Some(dest_path.to_string());
                t.status = TransferStatus::InProgress;
                self.transfers.set(i, t);
                Ok(())
            },
        }
    }

    /// Sets the status of the transfer with file id `id`; returns whether
    /// it is known.
    fn set_status(&mut self, id: &str, status: TransferStatus) -> (found: bool)
        ensures
            found == has_transfer(old(self)@, id@),
            !found ==> final(self)@ == old(self)@,
            found ==> exists|i: int|
                0 <= i < old(self)@.len() && (#[trigger] old(self)@[i]).info.id@ == id@ && final(self)@ == old(self)@.update(
                    i,
                    FileTransfer { status, ..old(self)@[i] },
                ),
    {
        match self.index_of(id) {
            None => false,
            Some(i) => {
                let mut t = self.transfers[i].duplicate();
                t.status = status;
                self.transfers.set(i, t);
                true
            },
        }
    }

    /// Declines an offered transfer; it counts as cancelled.
    pub fn reject_transfer(&mut self, id: &str) -> (r: Result<(), TransferError>)
        ensures
            !has_transfer(old(self)@, id@) ==> (r matches Err(TransferError::TransferNotFound(_))) && final(self)@ == old(self)@,
            has_transfer(old(self)@, id@) ==> r is Ok && exists|i: int|
                0 <= i < old(self)@.len() && (#[trigger] old(self)@[i]).info.id@ == id@ && final(self)@ == old(self)@.update(
                    i,
                    FileTransfer { status: TransferStatus::Cancelled, ..old(self)@[i] },
                ),
    {
        if self.set_status(id, TransferStatus::Cancelled) {
            Ok(())
        } else {
            Err(TransferError::TransferNotFound(id.to_string()))
        }
    }

    /// Cancels a transfer, if known.
    pub fn cancel_transfer(&mut self, id: &str)
        ensures
            !has_transfer(old(self)@, id@) ==> final(self)@ == old(self)@,
            has_transfer(old(self)@, id@) ==> exists|i: int|
                0 <= i < old(self)@.len() && (#[trigger] old(self)@[i]).info.id@ == id@ && final(self)@ == old(self)@.update(
                    i,
                    FileTransfer { status: TransferStatus::Cancelled, ..old(self)@[i] },
                ),
    {
        let _ = self.set_status(id, TransferStatus::Cancelled);
    }

    /// Marks a transfer as completed with every byte moved, if known.
    pub fn complete_transfer(&mut self, id: &str)
        ensures
            !has_transfer(old(self)@, id@) ==> final(self)@ == old(self)@,
            has_transfer(old(self)@, id@) ==> exists|i: int|
                0 <= i < old(self)@.len() && (#[trigger] old(self)@[i]).info.id@ == id@ && final(self)@ == old(self)@.update(
                    i,
                    FileTransfer {
                        status: TransferStatus::Completed,
                        bytes_transferred: old(self)@[i].info.size,
                        ..old(self)@[i]
                    },
                ),
    {
        if let Some(i) = self.index_of(id) {
            let mut t = self.transfers[i].duplicate();
            t.complete();
            self.transfers.set(i, t);
        }
    }

    /// Records the bytes moved so far for a transfer, if known.
    pub fn update_progress(&mut self, id: &str, bytes: u64)
        ensures
            !has_transfer(old(self)@, id@) ==> final(self)@ == old(self)@,
            has_transfer(old(self)@, id@) ==> exists|i: int|
                0 <= i < old(self)@.len() && (#[trigger] old(self)@[i]).info.id@ == id@ && final(self)@ == old(self)@.update(
                    i,
                    FileTransfer { bytes_transferred: bytes, ..old(self)@[i] },
                ),
    {
        if let Some(i) = self.index_of(id) {
            let mut t = self.transfers[i].duplicate();
            t.update_progress(bytes);
            self.transfers.set(i, t);
        }
    }

    /// Copies of all transfers.
    pub fn get_all_transfers(&self) -> (r: Vec<FileTransfer>)
        ensures
            r@ == self@,
    {
        let mut out: Vec<FileTransfer> = Vec::new();
        let mut i: usize = 0;
        while i < self.transfers.len()
            invariant
                i <= self@.len(),
                out@ == self@.subrange(0, i as int),
            decreases self@.len() - i,
        {
            out.push(self.transfers[i].duplicate());
            i = i + 1;
        }
        out
    }

    /// Copies of the offered and running transfers, in order.
    pub fn get_active_transfers(&self) -> (r: Vec<FileTransfer>)
        ensures
            r@ == transfers_where(self@, |t: FileTransfer| is_active(t)),
    {
        let mut out: Vec<FileTransfer> = Vec::new();
        let mut i: usize = 0;
        while i < self.transfers.len()
            invariant
                i <= self@.len(),
                out@ == transfers_where(self@.subrange(0, i as int), |t: FileTransfer| is_active(t)),
            decreases self@.len() - i,
        {
            proof {
                assert(self@.subrange(0, i + 1).drop_last() =~= self@.subrange(0, i as int));
            }
            let s = self.transfers[i].status;
            if s == TransferStatus::InProgress || s == TransferStatus::Offered {
                out.push(self.transfers[i].duplicate());
            }
            i = i + 1;
        }
        assert(self@.subrange(0, self@.len() as int) =~= self@);
        out
    }

    /// Forgets finished transfers (completed, failed or cancelled).
    pub fn cleanup_finished(&mut self)
        ensures
            final(self)@ == transfers_where(old(self)@, |t: FileTransfer| is_unfinished(t)),
    {
        let ghost before = self@;
        let mut kept: Vec<FileTransfer> = Vec::new();
        let mut i: usize = 0;
        while i < self.transfers.len()
            invariant
                self@ == before,
                i <= before.len(),
                kept@ == transfers_where(before.subrange(0, i as int), |t: FileTransfer| is_unfinished(t)),
            decreases before.len() - i,
        {
            proof {
                assert(before.subrange(0, i + 1).drop_last() =~= before.subrange(0, i as int));
            }
            let s = self.transfers[i].status;
            if s == TransferStatus::Pending || s == TransferStatus::InProgress || s == TransferStatus::Offered {
                kept.push(self.transfers[i].duplicate());
            }
            i = i + 1;
        }
        assert(before.subrange(0, before.len() as int) =~= before);
        self.transfers = kept;
    }
}

/// Number of chunks of a file of `size` bytes (the last may be short).
pub open spec fn chunk_count_of(size: u64) -> int {
    (size as int + CHUNK_SIZE - 1) / CHUNK_SIZE as int
}

/// Number of chunks of a file of `size` bytes.
pub fn chunk_count(size: u64) -> (r: u64)
    ensures
        r == chunk_count_of(size),
{
    let r = size / CHUNK_SIZE + if size % CHUNK_SIZE != 0 { 1 } else { 0 };
    assert(r == (size as int + CHUNK_SIZE - 1) / CHUNK_SIZE as int) by (nonlinear_arith)
        requires r == size / CHUNK_SIZE + if size % CHUNK_SIZE != 0 { 1int } else { 0int }, CHUNK_SIZE == 65536;
    r
}

/// Which chunks of an incoming file have arrived.
pub struct ChunkTracker {
    received: Vec<bool>,
    bytes_received: u64,
}

impl ChunkTracker {
    /// Per-chunk arrival flags.
    pub closed spec fn flags(&self) -> Seq<bool> {
        self.received@
    }

    /// Bytes written so far.
    pub closed spec fn bytes(&self) -> u64 {
        self.bytes_received
    }

    /// Nothing received yet for a file of `size` bytes.
    pub fn new(size: u64) -> (r: Self)
        requires
            chunk_count_of(size) <= usize::MAX,
        ensures
            r.flags().len() == chunk_count_of(size),
            forall|i: int| 0 <= i < r.flags().len() ==> !#[trigger] r.flags()[i],
            r.bytes() == 0,
    {
        let n = chunk_count(size) as usize;
        let mut received: Vec<bool> = Vec::new();
        let mut i: usize = 0;
        while i < n
            invariant
                i <= n,
                received@.len() == i,
                forall|k: int| 0 <= k < i ==> !#[trigger] received@[k],
            decreases n - i,
        {
            received.push(false);
            i = i + 1;
        }
        ChunkTracker { received, bytes_received: 0 }
    }

    /// Records `len` bytes written at `offset`; the chunk containing the
    /// offset counts as received.
    pub fn mark_received(&mut self, offset: u64, len: u64)
        ensures
            (offset / CHUNK_SIZE) < old(self).flags().len() ==> final(self).flags() == old(self).flags().update(
                (offset / CHUNK_SIZE) as int,
                true,
            ),
            (offset / CHUNK_SIZE) >= old(self).flags().len() ==> final(self).flags() == old(self).flags(),
            final(self).bytes() == (if old(self).bytes() as int + len <= u64::MAX { old(self).bytes() + len } else { u64::MAX as int }),
    {
        let idx = offset / CHUNK_SIZE;
        if idx < self.received.len() as u64 {
            self.received.set(idx as usize, true);
        }
        self.bytes_received = self.bytes_received.saturating_add(len);
    }

    /// Bytes written so far.
    pub fn bytes_received(&self) -> (r: u64)
        ensures
            r == self.bytes(),
    {
        self.bytes_received
    }

    /// Whether every chunk has arrived.
    pub fn is_complete(&self) -> (r: bool)
        ensures
            r == forall|i: int| 0 <= i < self.flags().len() ==> #[trigger] self.flags()[i],
    {
        let mut i: usize = 0;
        while i < self.received.len()
            invariant
                i <= self.received@.len(),
                forall|k: int| 0 <= k < i ==> #[trigger] self.received@[k],
            decreases self.received@.len() - i,
        {
            if !self.received[i] {
                assert(!self.flags()[i as int]);
                return false;
            }
            i = i + 1;
        }
        true
    }

    /// Byte offsets of the chunks still missing, in order.
    pub fn missing_chunks(&self) -> (r: Vec<u64>)
        requires
            self.flags().len() * CHUNK_SIZE <= u64::MAX,
        ensures
            forall|k: int| 0 <= k < r@.len() ==> (#[trigger] r@[k]) % CHUNK_SIZE == 0 && r@[k] / CHUNK_SIZE < self.flags().len() && !self.flags()[(r@[k] / CHUNK_SIZE) as int],
            forall|i: int| 0 <= i < self.flags().len() && !#[trigger] self.flags()[i] ==> r@.contains((i * CHUNK_SIZE) as u64),
            forall|a: int, b: int| 0 <= a < b < r@.len() ==> r@[a] < r@[b],
    {
        let mut out: Vec<u64> = Vec::new();
        let mut i: usize = 0;
        while i < self.received.len()
            invariant
                i <= self.received@.len(),
                self.received@.len() * CHUNK_SIZE <= u64::MAX,
                forall|k: int| 0 <= k < out@.len() ==> (#[trigger] out@[k]) % CHUNK_SIZE == 0 && out@[k] / CHUNK_SIZE < i && !self.received@[(out@[k] / CHUNK_SIZE) as int],
                forall|j: int| 0 <= j < i && !#[trigger] self.received@[j] ==> out@.contains((j * CHUNK_SIZE) as u64),
                forall|a: int, b: int| 0 <= a < b < out@.len() ==> out@[a] < out@[b],
            decreases self.received@.len() - i,
        {
            if !self.received[i] {
                assert((i as u64) * CHUNK_SIZE <= u64::MAX) by (nonlinear_arith)
                    requires i < self.received@.len(), self.received@.len() * CHUNK_SIZE <= u64::MAX;
                let off = i as u64 * CHUNK_SIZE;
                assert(off % CHUNK_SIZE == 0 && off / CHUNK_SIZE == i) by (nonlinear_arith)
                    requires off == i * CHUNK_SIZE, CHUNK_SIZE == 65536;
                let ghost before = out@;
                out.push(off);
                proof {
                    assert(out@[before.len() as int] == off);
                    assert forall|a: int| 0 <= a < before.len() implies out@[a] < off by {
                        assert(before[a] / CHUNK_SIZE < i);
                        assert(before[a] < off) by (nonlinear_arith)
                            requires before[a] / CHUNK_SIZE < i, off == i * CHUNK_SIZE, CHUNK_SIZE == 65536, before[a] >= 0;
                    }
                    assert forall|j: int| 0 <= j < i + 1 && !#[trigger] self.received@[j] implies out@.contains((j * CHUNK_SIZE) as u64) by {
                        if j < i {
                            let k = choose|k: int| 0 <= k < before.len() && before[k] == (j * CHUNK_SIZE) as u64;
                            assert(out@[k] == before[k]);
                        } else {
                            assert(out@[before.len() as int] == (j * CHUNK_SIZE) as u64);
                        }
                    }
                }
            }
            i = i + 1;
        }
        out
    }
}

} // verus!
