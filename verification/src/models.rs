//! Persistent data model: chunks, file metadata, and the bot roster.

use vstd::prelude::*;
use crate::chunking::{spec_chunk_count, spec_chunk_len};

verus! {

/// A single chunk of a file stored as one document in the blob tier.
#[derive(Debug)]
pub struct FileChunk {
    /// Zero-based ordinal within its file.
    pub index: u32,
    /// The sender identity that posted this chunk; downloads and deletes use
    /// the recorded bot, never a re-selected one.
    pub bot_id: String,
    /// Opaque blob identifier returned by the backend, used for fetches.
    pub telegram_file_id: String,
    /// Message identifier used for deletes.
    pub message_id: i64,
    /// Byte length of the chunk.
    pub size: u64,
}

impl Clone for FileChunk {
    fn clone(&self) -> (r: FileChunk)
        ensures
            r == *self,
    {
        FileChunk {
            index: self.index,
            bot_id: self.bot_id.clone(),
            telegram_file_id: self.telegram_file_id.clone(),
            message_id: self.message_id,
            size: self.size,
        }
    }
}

/// Metadata for a file stored across one or more blob-tier documents.
/// Immutable once committed, except for `original_name` via rename.
#[derive(Debug)]
pub struct FileMetadata {
    /// Engine-assigned unique identifier, in string form.
    pub file_id: String,
    /// Logical path; unique within the namespace.
    pub original_name: String,
    /// Total file size in bytes.
    pub size: u64,
    /// The chunk ceiling the file was cut with, recorded for audit.
    pub chunk_size: u64,
    /// Number of chunks; at least 1, even for an empty file.
    pub total_chunks: u32,
    /// Lowercase hex SHA-256 digest of the whole plaintext file.
    pub sha256: String,
    /// Chunks ordered by `index`.
    pub chunks: Vec<FileChunk>,
    /// Seconds since the Unix epoch at successful metadata commit.
    pub created_at: i64,
}

/// Field-wise equality of metadata records, with the chunk vectors compared
/// by content.
pub open spec fn meta_eq(a: &FileMetadata, b: &FileMetadata) -> bool {
    &&& a.file_id == b.file_id
    &&& a.original_name == b.original_name
    &&& a.size == b.size
    &&& a.chunk_size == b.chunk_size
    &&& a.total_chunks == b.total_chunks
    &&& a.sha256 == b.sha256
    &&& a.chunks@ == b.chunks@
    &&& a.created_at == b.created_at
}

impl Clone for FileMetadata {
    fn clone(&self) -> (r: FileMetadata)
        ensures
            meta_eq(&r, self),
    {
        let chunks = self.chunks.clone();
        proof {
            assert forall|i: int| 0 <= i < chunks@.len() implies chunks@[i]
                == self.chunks@[i] by {
                assert(vstd::pervasive::cloned::<FileChunk>(self.chunks@[i], chunks@[i]));
            }
            assert(chunks@ =~= self.chunks@);
        }
        FileMetadata {
            file_id: self.file_id.clone(),
            original_name: self.original_name.clone(),
            size: self.size,
            chunk_size: self.chunk_size,
            total_chunks: self.total_chunks,
            sha256: self.sha256.clone(),
            chunks,
            created_at: self.created_at,
        }
    }
}

/// Sum of the byte lengths of the chunks in `s`.
pub open spec fn chunks_size_sum(s: Seq<FileChunk>) -> int
    decreases s.len(),
{
    if s.len() == 0 {
        0
    } else {
        chunks_size_sum(s.drop_last()) + s.last().size
    }
}

/// Structural well-formedness of a metadata record: the chunk count matches
/// the planner, chunks are indexed `0..total_chunks` in order with the
/// planned sizes, the sizes sum to the file size, and the digest has the
/// length of a hex SHA-256.
pub open spec fn meta_wf(m: &FileMetadata) -> bool {
    &&& m.chunk_size >= 1
    &&& m.total_chunks >= 1
    &&& m.total_chunks == spec_chunk_count(m.size, m.chunk_size)
    &&& m.chunks@.len() == m.total_chunks
    &&& forall|i: int|
        0 <= i < m.chunks@.len() ==> (#[trigger] m.chunks@[i]).index == i
    &&& forall|i: int|
        0 <= i < m.chunks@.len() ==> (#[trigger] m.chunks@[i]).size == spec_chunk_len(
            m.size,
            m.chunk_size,
            i,
        )
    &&& chunks_size_sum(m.chunks@) == m.size
    &&& m.sha256@.len() == 64
}

/// An authenticated sender identity in the blob tier.
#[derive(Debug)]
pub struct Bot {
    pub bot_id: String,
    pub token: String,
    /// Advisory monotonic counter of uploads handled.
    pub upload_count: u64,
    pub active: bool,
}

impl Clone for Bot {
    fn clone(&self) -> (r: Bot)
        ensures
            r == *self,
    {
        Bot {
            bot_id: self.bot_id.clone(),
            token: self.token.clone(),
            upload_count: self.upload_count,
            active: self.active,
        }
    }
}

/// A bot as named in the configuration, before registration.
#[derive(Debug)]
pub struct BotConfig {
    pub bot_id: String,
    pub token: String,
}

impl Clone for BotConfig {
    fn clone(&self) -> (r: BotConfig)
        ensures
            r == *self,
    {
        BotConfig { bot_id: self.bot_id.clone(), token: self.token.clone() }
    }
}

} // verus!
