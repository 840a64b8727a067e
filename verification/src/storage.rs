//! The metadata store: file metadata keyed by `file_id` and `original_name`,
//! and the bot roster. Operations are single-record atomic, and the
//! namespace invariants hold in every state: names are unique, file ids are
//! unique, and every record is structurally well-formed.

use vstd::prelude::*;
use crate::errors::TgCloudError;
use crate::models::{meta_eq, meta_wf, Bot, FileMetadata};
use crate::strutil::{is_prefix_of, str_eq, str_has_prefix};
use vstd::string::StringExecFns;

verus! {

/// Some record carries this `original_name`.
pub open spec fn has_name(files: Seq<FileMetadata>, name: Seq<char>) -> bool {
    exists|i: int| 0 <= i < files.len() && (#[trigger] files[i]).original_name@ == name
}

/// Some record carries this `file_id`.
pub open spec fn has_file_id(files: Seq<FileMetadata>, id: Seq<char>) -> bool {
    exists|i: int| 0 <= i < files.len() && (#[trigger] files[i]).file_id@ == id
}

/// Namespace invariants: unique names, unique file ids, well-formed records.
pub open spec fn files_wf(files: Seq<FileMetadata>) -> bool {
    &&& forall|i: int| 0 <= i < files.len() ==> meta_wf(&(#[trigger] files[i]))
    &&& forall|i: int, j: int|
        0 <= i < j < files.len() ==> (#[trigger] files[i]).original_name@ != (
        #[trigger] files[j]).original_name@
    &&& forall|i: int, j: int|
        0 <= i < j < files.len() ==> (#[trigger] files[i]).file_id@ != (
        #[trigger] files[j]).file_id@
}

/// Roster invariant: bot ids are unique.
pub open spec fn roster_wf(bots: Seq<Bot>) -> bool {
    forall|i: int, j: int|
        0 <= i < j < bots.len() ==> (#[trigger] bots[i]).bot_id@ != (#[trigger] bots[j]).bot_id@
}

/// The metadata store: one collection of file records and the bot roster.
#[derive(Debug)]
pub struct MongoStore {
    pub files: Vec<FileMetadata>,
    pub bots: Vec<Bot>,
}

impl MongoStore {
    /// Both collections satisfy their invariants.
    pub open spec fn wf(&self) -> bool {
        files_wf(self.files@) && roster_wf(self.bots@)
    }

    /// An empty store.
    pub fn new() -> (r: MongoStore)
        ensures
            r.wf(),
            r.files@.len() == 0,
            r.bots@.len() == 0,
    {
        MongoStore { files: Vec::new(), bots: Vec::new() }
    }

    /// The index of the record named `path`.
    fn find_by_path(&self, path: &str) -> (r: Option<usize>)
        ensures
            r matches Some(i) ==> i < self.files@.len() && self.files@[i as int].original_name@
                == path@,
            r is None ==> !has_name(self.files@, path@),
    {
        let n = self.files.len();
        let mut i: usize = 0;
        while i < n
            invariant
                0 <= i <= n,
                n == self.files@.len(),
                forall|j: int| 0 <= j < i ==> (#[trigger] self.files@[j]).original_name@ != path@,
            decreases n - i,
        {
            if str_eq(self.files[i].original_name.as_str(), path) {
                return Some(i);
            }
            i = i + 1;
        }
        None
    }

    /// The index of the record with `file_id`.
    fn find_by_id(&self, file_id: &str) -> (r: Option<usize>)
        ensures
            r matches Some(i) ==> i < self.files@.len() && self.files@[i as int].file_id@
                == file_id@,
            r is None ==> !has_file_id(self.files@, file_id@),
    {
        let n = self.files.len();
        let mut i: usize = 0;
        while i < n
            invariant
                0 <= i <= n,
                n == self.files@.len(),
                forall|j: int| 0 <= j < i ==> (#[trigger] self.files@[j]).file_id@ != file_id@,
            decreases n - i,
        {
            if str_eq(self.files[i].file_id.as_str(), file_id) {
                return Some(i);
            }
            i = i + 1;
        }
        None
    }

    /// Insert a new record. The insert is refused when the name or the file
    /// id is already taken, and the store is unchanged.
    pub fn save_file(&mut self, file: FileMetadata) -> (r: Result<(), TgCloudError>)
        requires
            old(self).wf(),
            meta_wf(&file),
        ensures
            final(self).wf(),
            final(self).bots@ == old(self).bots@,
            (r is Ok) == (!has_name(old(self).files@, file.original_name@) && !has_file_id(
                old(self).files@,
                file.file_id@,
            )),
            r is Ok ==> final(self).files@ == old(self).files@.push(file),
            r is Err ==> final(self).files@ == old(self).files@ && (r matches Err(e) && e matches
                TgCloudError::Unknown(m) && m@ == "File already exists at "@
                + file.original_name@),
    {
        if let Some(_) = self.find_by_path(file.original_name.as_str()) {
            return Err(
                TgCloudError::Unknown(
                    String::from_str("File already exists at ").concat(file.original_name.as_str()),
                ),
            );
        }
        if let Some(_) = self.find_by_id(file.file_id.as_str()) {
            return Err(
                TgCloudError::Unknown(
                    String::from_str("File already exists at ").concat(file.original_name.as_str()),
                ),
            );
        }
        self.files.push(file);
        proof {
            let fs = self.files@;
            assert forall|i: int, j: int| 0 <= i < j < fs.len() implies (
            #[trigger] fs[i]).original_name@ != (#[trigger] fs[j]).original_name@ by {
                if j == fs.len() - 1 {
                    assert(!has_name(old(self).files@, fs[j].original_name@));
                }
            }
            assert forall|i: int, j: int| 0 <= i < j < fs.len() implies (#[trigger] fs[i]).file_id@
                != (#[trigger] fs[j]).file_id@ by {
                if j == fs.len() - 1 {
                    assert(!has_file_id(old(self).files@, fs[j].file_id@));
                }
            }
        }
        Ok(())
    }

    /// The record named `path`, if any.
    pub fn get_file_by_path(&self, path: &str) -> (r: Option<&FileMetadata>)
        ensures
            (r is Some) == has_name(self.files@, path@),
            r matches Some(m) ==> m.original_name@ == path@ && self.files@.contains(*m),
    {
        match self.find_by_path(path) {
            Some(i) => {
                proof {
                    assert(self.files@[i as int].original_name@ == path@);
                }
                Some(&self.files[i])
            },
            None => None,
        }
    }

    /// The record with `file_id`, if any.
    pub fn get_file_by_id(&self, file_id: &str) -> (r: Option<&FileMetadata>)
        ensures
            (r is Some) == has_file_id(self.files@, file_id@),
            r matches Some(m) ==> m.file_id@ == file_id@ && self.files@.contains(*m),
    {
        match self.find_by_id(file_id) {
            Some(i) => {
                proof {
                    assert(self.files@[i as int].file_id@ == file_id@);
                }
                Some(&self.files[i])
            },
            None => None,
        }
    }

    /// All records whose name starts with `folder_prefix`, in store order;
    /// the prefix `"root"` (or an empty prefix) means every record.
    pub fn list_files(&self, folder_prefix: &str) -> (r: Vec<FileMetadata>)
        ensures
            folder_prefix@ == "root"@ || folder_prefix@.len() == 0 ==> metas_eq(r@, self.files@),
            folder_prefix@ != "root"@ && folder_prefix@.len() != 0 ==> metas_eq(
                r@,
                self.files@.filter(|m: FileMetadata| is_prefix_of(folder_prefix@, m.original_name@)),
            ),
    {
        let all = str_eq(folder_prefix, "root") || folder_prefix.unicode_len() == 0;
        let mut r: Vec<FileMetadata> = Vec::new();
        let n = self.files.len();
        let mut i: usize = 0;
        proof {
            assert(self.files@.subrange(0, 0).filter(
                |m: FileMetadata| is_prefix_of(folder_prefix@, m.original_name@),
            ) =~= Seq::<FileMetadata>::empty());
        }
        while i < n
            invariant
                0 <= i <= n,
                n == self.files@.len(),
                all == (folder_prefix@ == "root"@ || folder_prefix@.len() == 0),
                all ==> metas_eq(r@, self.files@.subrange(0, i as int)),
                !all ==> metas_eq(
                    r@,
                    self.files@.subrange(0, i as int).filter(
                        |m: FileMetadata| is_prefix_of(folder_prefix@, m.original_name@),
                    ),
                ),
            decreases n - i,
        {
            let ghost prefix_seq = self.files@.subrange(0, i as int);
            let keep = if all {
                true
            } else {
                str_has_prefix(self.files[i].original_name.as_str(), folder_prefix)
            };
            proof {
                reveal_with_fuel(Seq::filter, 3);
                assert(self.files@.subrange(0, i + 1) =~= prefix_seq + seq![self.files@[i as int]]);
                Seq::<FileMetadata>::filter_distributes_over_add(
                    prefix_seq,
                    seq![self.files@[i as int]],
                    |m: FileMetadata| is_prefix_of(folder_prefix@, m.original_name@),
                );
                assert(seq![self.files@[i as int]].drop_last() =~= Seq::<FileMetadata>::empty());
            }
            if keep {
                r.push(self.files[i].clone());
            }
            i = i + 1;
        }
        proof {
            assert(self.files@.subrange(0, n as int) =~= self.files@);
        }
        r
    }

    /// Rename `old_path` to `new_path`: refused when a record already holds
    /// `new_path`; `FileNotFound` when none holds `old_path`; otherwise the
    /// one record named `old_path` gets `new_path` and nothing else changes.
    pub fn rename_file(&mut self, old_path: &str, new_path: &str) -> (r: Result<(), TgCloudError>)
        requires
            old(self).wf(),
        ensures
            final(self).wf(),
            final(self).bots@ == old(self).bots@,
            has_name(old(self).files@, new_path@) ==> (r matches Err(e) && e matches
                TgCloudError::Unknown(m) && m@ == "File already exists at "@ + new_path@ && final(self).files@ == old(self).files@),
            !has_name(old(self).files@, new_path@) && !has_name(old(self).files@, old_path@) ==> (
            r matches Err(e) && e matches TgCloudError::FileNotFound(m) && m@ == old_path@ && final(self).files@ == old(self).files@),
            !has_name(old(self).files@, new_path@) && has_name(old(self).files@, old_path@) ==> (r
                is Ok && final(self).files@.len() == old(self).files@.len() && forall|j: int|
                0 <= j < old(self).files@.len() ==> if (#[trigger] old(self).files@[j]).original_name@
                    == old_path@ {
                    renamed(&old(self).files@[j], &final(self).files@[j], new_path@)
                } else {
                    final(self).files@[j] == old(self).files@[j]
                }),
    {
        if let Some(_) = self.find_by_path(new_path) {
            return Err(
                TgCloudError::Unknown(
                    String::from_str("File already exists at ").concat(new_path),
                ),
            );
        }
        match self.find_by_path(old_path) {
            None => Err(TgCloudError::FileNotFound(new_string(old_path))),
            Some(i) => {
                let mut m = self.files[i].clone();
                m.original_name = new_string(new_path);
                let ghost orig = self.files@;
                self.files.set(i, m);
                proof {
                    assert forall|p: int, q: int| 0 <= p < q < self.files@.len() implies (
                    #[trigger] self.files@[p]).original_name@ != (
                    #[trigger] self.files@[q]).original_name@ by {
                        assert(orig[p].original_name@ != orig[q].original_name@);
                    }
                }
                Ok(())
            },
        }
    }

    /// Rename the record with `file_id` to `new_name`, under the same
    /// uniqueness rule as `rename_file`.
    pub fn rename_file_by_id(&mut self, file_id: &str, new_name: &str) -> (r: Result<
        (),
        TgCloudError,
    >)
        requires
            old(self).wf(),
        ensures
            final(self).wf(),
            final(self).bots@ == old(self).bots@,
            has_name(old(self).files@, new_name@) ==> (r matches Err(e) && e matches
                TgCloudError::Unknown(m) && m@ == "File already exists at "@ + new_name@ && final(self).files@ == old(self).files@),
            !has_name(old(self).files@, new_name@) && !has_file_id(old(self).files@, file_id@)
                ==> (r matches Err(e) && e matches TgCloudError::FileNotFound(m) && m@ == file_id@
                && final(self).files@ == old(self).files@),
            !has_name(old(self).files@, new_name@) && has_file_id(old(self).files@, file_id@) ==> (
            r is Ok && final(self).files@.len() == old(self).files@.len() && forall|j: int|
                0 <= j < old(self).files@.len() ==> if (#[trigger] old(self).files@[j]).file_id@
                    == file_id@ {
                    renamed(&old(self).files@[j], &final(self).files@[j], new_name@)
                } else {
                    final(self).files@[j] == old(self).files@[j]
                }),
    {
        if let Some(_) = self.find_by_path(new_name) {
            return Err(
                TgCloudError::Unknown(
                    String::from_str("File already exists at ").concat(new_name),
                ),
            );
        }
        match self.find_by_id(file_id) {
            None => Err(TgCloudError::FileNotFound(new_string(file_id))),
            Some(i) => {
                let mut m = self.files[i].clone();
                m.original_name = new_string(new_name);
                let ghost orig = self.files@;
                self.files.set(i, m);
                proof {
                    assert forall|p: int, q: int| 0 <= p < q < self.files@.len() implies (
                    #[trigger] self.files@[p]).original_name@ != (
                    #[trigger] self.files@[q]).original_name@ by {
                        assert(orig[p].original_name@ != orig[q].original_name@);
                    }
                }
                Ok(())
            },
        }
    }

    /// Delete the record named `path`; `FileNotFound` when absent.
    pub fn delete_file(&mut self, path: &str) -> (r: Result<(), TgCloudError>)
        requires
            old(self).wf(),
        ensures
            final(self).wf(),
            final(self).bots@ == old(self).bots@,
            (r is Ok) == has_name(old(self).files@, path@),
            r matches Err(e) ==> (e matches TgCloudError::FileNotFound(m) && m@ == path@ && final(self).files@ == old(self).files@),
            r is Ok ==> exists|i: int|
                0 <= i < old(self).files@.len() && (#[trigger] old(self).files@[i]).original_name@
                    == path@ && final(self).files@ == old(self).files@.remove(i),
    {
        match self.find_by_path(path) {
            None => Err(TgCloudError::FileNotFound(new_string(path))),
            Some(i) => {
                let ghost orig = self.files@;
                self.files.remove(i);
                proof {
                    assert(self.files@ =~= orig.remove(i as int));
                }
                Ok(())
            },
        }
    }

    /// Delete the record with `file_id`; `FileNotFound` when absent.
    pub fn delete_file_by_id(&mut self, file_id: &str) -> (r: Result<(), TgCloudError>)
        requires
            old(self).wf(),
        ensures
            final(self).wf(),
            final(self).bots@ == old(self).bots@,
            (r is Ok) == has_file_id(old(self).files@, file_id@),
            r matches Err(e) ==> (e matches TgCloudError::FileNotFound(m) && m@ == file_id@
                && final(self).files@ == old(self).files@),
            r is Ok ==> exists|i: int|
                0 <= i < old(self).files@.len() && (#[trigger] old(self).files@[i]).file_id@
                    == file_id@ && final(self).files@ == old(self).files@.remove(i),
    {
        match self.find_by_id(file_id) {
            None => Err(TgCloudError::FileNotFound(new_string(file_id))),
            Some(i) => {
                let ghost orig = self.files@;
                self.files.remove(i);
                proof {
                    assert(self.files@ =~= orig.remove(i as int));
                }
                Ok(())
            },
        }
    }

    /// Register a bot: a new id is appended; a known id gets the new token
    /// and active flag, keeping its usage counter.
    #[verifier::loop_isolation(false)]
    pub fn add_bot(&mut self, bot: Bot)
        requires
            old(self).wf(),
        ensures
            final(self).wf(),
            final(self).files@ == old(self).files@,
            !roster_has_id(old(self).bots@, bot.bot_id@) ==> final(self).bots@ == old(self).bots@.push(bot),
            roster_has_id(old(self).bots@, bot.bot_id@) ==> final(self).bots@.len() == old(self).bots@.len() && forall|j: int|
                0 <= j < old(self).bots@.len() ==> if (#[trigger] old(self).bots@[j]).bot_id@
                    == bot.bot_id@ {
                    final(self).bots@[j].bot_id@ == bot.bot_id@ && final(self).bots@[j].token
                        == bot.token && final(self).bots@[j].active == bot.active && final(self).bots@[j].upload_count == old(self).bots@[j].upload_count
                } else {
                    final(self).bots@[j] == old(self).bots@[j]
                },
    {
        let n = self.bots.len();
        let mut i: usize = 0;
        while i < n
            invariant
                0 <= i <= n,
                n == self.bots@.len(),
                self.bots@ == old(self).bots@,
                self.files@ == old(self).files@,
                forall|j: int| 0 <= j < i ==> (#[trigger] self.bots@[j]).bot_id@ != bot.bot_id@,
            decreases n - i,
        {
            if str_eq(self.bots[i].bot_id.as_str(), bot.bot_id.as_str()) {
                let old_count = self.bots[i].upload_count;
                let updated = Bot {
                    bot_id: bot.bot_id,
                    token: bot.token,
                    upload_count: old_count,
                    active: bot.active,
                };
                let ghost orig = self.bots@;
                self.bots.set(i, updated);
                proof {
                    assert(orig == old(self).bots@);
                    assert forall|p: int, q: int| 0 <= p < q < self.bots@.len() implies (
                    #[trigger] self.bots@[p]).bot_id@ != (#[trigger] self.bots@[q]).bot_id@ by {
                        assert(orig[p].bot_id@ != orig[q].bot_id@);
                        assert(self.bots@[p].bot_id@ == orig[p].bot_id@);
                        assert(self.bots@[q].bot_id@ == orig[q].bot_id@);
                    }
                }
                return ;
            }
            i = i + 1;
        }
        self.bots.push(bot);
        proof {
            let bs = self.bots@;
            assert forall|p: int, q: int| 0 <= p < q < bs.len() implies (#[trigger] bs[p]).bot_id@
                != (#[trigger] bs[q]).bot_id@ by {
                if q == bs.len() - 1 {
                    assert(bs[p] == old(self).bots@[p]);
                    assert(old(self).bots@[p].bot_id@ != bs[q].bot_id@);
                } else {
                    assert(bs[p] == old(self).bots@[p]);
                    assert(bs[q] == old(self).bots@[q]);
                    assert(old(self).bots@[p].bot_id@ != old(self).bots@[q].bot_id@);
                }
            }
        }
    }

    /// The active bots, in roster order.
    pub fn get_active_bots(&self) -> (r: Vec<Bot>)
        ensures
            r@ == self.bots@.filter(|b: Bot| b.active),
    {
        let mut r: Vec<Bot> = Vec::new();
        let n = self.bots.len();
        let mut i: usize = 0;
        proof {
            assert(self.bots@.subrange(0, 0).filter(|b: Bot| b.active) =~= Seq::<Bot>::empty());
        }
        while i < n
            invariant
                0 <= i <= n,
                n == self.bots@.len(),
                r@ == self.bots@.subrange(0, i as int).filter(|b: Bot| b.active),
            decreases n - i,
        {
            let ghost prefix_seq = self.bots@.subrange(0, i as int);
            proof {
                reveal_with_fuel(Seq::filter, 3);
                assert(self.bots@.subrange(0, i + 1) =~= prefix_seq + seq![self.bots@[i as int]]);
                Seq::<Bot>::filter_distributes_over_add(
                    prefix_seq,
                    seq![self.bots@[i as int]],
                    |b: Bot| b.active,
                );
                assert(seq![self.bots@[i as int]].drop_last() =~= Seq::<Bot>::empty());
            }
            if self.bots[i].active {
                r.push(self.bots[i].clone());
                proof {
                    assert(r@ =~= self.bots@.subrange(0, i + 1).filter(|b: Bot| b.active));
                }
            } else {
                proof {
                    assert(r@ =~= self.bots@.subrange(0, i + 1).filter(|b: Bot| b.active));
                }
            }
            i = i + 1;
        }
        proof {
            assert(self.bots@.subrange(0, n as int) =~= self.bots@);
        }
        r
    }

    /// Bump a bot's advisory usage counter, saturating at the top; unknown
    /// ids change nothing, as the counter is advisory.
    #[verifier::loop_isolation(false)]
    pub fn increment_bot_usage(&mut self, bot_id: &str) -> (r: Result<(), TgCloudError>)
        requires
            old(self).wf(),
        ensures
            final(self).wf(),
            final(self).files@ == old(self).files@,
            r is Ok,
            final(self).bots@.len() == old(self).bots@.len(),
            forall|j: int|
                0 <= j < old(self).bots@.len() ==> if (#[trigger] old(self).bots@[j]).bot_id@
                    == bot_id@ {
                    bumped(&old(self).bots@[j], &final(self).bots@[j])
                } else {
                    final(self).bots@[j] == old(self).bots@[j]
                },
    {
        let n = self.bots.len();
        let mut i: usize = 0;
        while i < n
            invariant
                0 <= i <= n,
                n == self.bots@.len(),
                self.bots@ == old(self).bots@,
                self.files@ == old(self).files@,
                forall|j: int| 0 <= j < i ==> (#[trigger] self.bots@[j]).bot_id@ != bot_id@,
            decreases n - i,
        {
            if str_eq(self.bots[i].bot_id.as_str(), bot_id) {
                let b = &self.bots[i];
                let new_count: u64 = if b.upload_count < u64::MAX {
                    b.upload_count + 1
                } else {
                    b.upload_count
                };
                let updated = Bot {
                    bot_id: b.bot_id.clone(),
                    token: b.token.clone(),
                    upload_count: new_count,
                    active: b.active,
                };
                let ghost orig = self.bots@;
                self.bots.set(i, updated);
                proof {
                    assert(orig == old(self).bots@);
                    assert forall|p: int, q: int| 0 <= p < q < self.bots@.len() implies (
                    #[trigger] self.bots@[p]).bot_id@ != (#[trigger] self.bots@[q]).bot_id@ by {
                        assert(orig[p].bot_id@ != orig[q].bot_id@);
                        assert(self.bots@[p].bot_id@ == orig[p].bot_id@);
                        assert(self.bots@[q].bot_id@ == orig[q].bot_id@);
                    }
                }
                return Ok(());
            }
            i = i + 1;
        }
        Ok(())
    }
}

/// `b` is `a` with `original_name` replaced by `name`.
pub open spec fn renamed(a: &FileMetadata, b: &FileMetadata, name: Seq<char>) -> bool {
    &&& b.original_name@ == name
    &&& b.file_id == a.file_id
    &&& b.size == a.size
    &&& b.chunk_size == a.chunk_size
    &&& b.total_chunks == a.total_chunks
    &&& b.sha256 == a.sha256
    &&& b.chunks@ == a.chunks@
    &&& b.created_at == a.created_at
}

/// `b` is `a` with the usage counter bumped (saturating).
pub open spec fn bumped(a: &Bot, b: &Bot) -> bool {
    &&& b.bot_id == a.bot_id
    &&& b.token == a.token
    &&& b.active == a.active
    &&& b.upload_count == if a.upload_count < u64::MAX {
        a.upload_count + 1
    } else {
        a.upload_count as int
    }
}

/// The roster holds this bot id.
pub open spec fn roster_has_id(bots: Seq<Bot>, id: Seq<char>) -> bool {
    exists|i: int| 0 <= i < bots.len() && (#[trigger] bots[i]).bot_id@ == id
}

/// The roster holds at least one active bot.
pub open spec fn roster_has_active(bots: Seq<Bot>) -> bool {
    exists|i: int| 0 <= i < bots.len() && (#[trigger] bots[i]).active
}

/// Element-wise metadata equality of two sequences.
pub open spec fn metas_eq(a: Seq<FileMetadata>, b: Seq<FileMetadata>) -> bool {
    a.len() == b.len() && forall|i: int| 0 <= i < a.len() ==> meta_eq(&(#[trigger] a[i]), &b[i])
}

/// A fresh `String` with the contents of `s`.
pub fn new_string(s: &str) -> (r: String)
    ensures
        r@ == s@,
{
    String::from_str(s)
}

} // verus!
