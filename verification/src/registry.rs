//! The file registry: the catalog of shareable entries and the
//! bookkeeping of running archive jobs.
//!
//! Entries are keyed by a stable, monotonically increasing index that
//! is handed out once and never again; the catalog keeps insertion
//! order. Removing an entry or clearing the catalog reports which
//! backing archive files are to be deleted — the deletion itself is
//! I/O and happens outside.

use vstd::prelude::*;
use vstd::multiset::Multiset;
use crate::archive::{valid_archive_source, zip_path_for_spec, zip_file_name_spec, file_name_spec,
    zip_path_for, zip_file_name, file_name_of};

verus! {

/// One shareable entry: a backing path, its size in bytes, how often
/// it was downloaded, and whether it is an archive output owned by the
/// registry (whose backing file is deleted with the entry).
#[derive(Debug, Clone)]
pub struct FileInfo {
    pub path: String,
    pub size: usize,
    pub download_count: usize,
    pub is_zip: bool,
}

/// A running archive job: the eagerly-enumerated entry count (0 until
/// the first enumeration report), the entries compressed so far, and
/// when the job started (ms). The abort handle stays with the caller.
#[derive(Debug, Clone, Copy, PartialEq, Eq, Structural)]
pub struct CompressingZip {
    pub num_files: usize,
    pub progress: usize,
    pub start_time: u64,
}

/// Keeps the entries whose index differs from `index`.
pub open spec fn not_index_pred(index: usize) -> spec_fn((usize, FileInfo)) -> bool {
    |e: (usize, FileInfo)| e.0 != index
}

/// Keeps the archive entries.
pub open spec fn is_zip_pred() -> spec_fn((usize, FileInfo)) -> bool {
    |e: (usize, FileInfo)| e.1.is_zip
}

/// One filter step: pushing an element onto a sequence extends the
/// filtered sequence exactly when the element passes.
proof fn lemma_filter_push_one<A>(s: Seq<A>, e: A, pred: spec_fn(A) -> bool)
    ensures
        s.push(e).filter(pred) == if pred(e) {
            s.filter(pred).push(e)
        } else {
            s.filter(pred)
        },
{
    reveal(Seq::filter);
    assert(s.push(e).drop_last() =~= s);
    assert(s.push(e).last() == e);
}

/// Some entry carries the index `index`.
pub open spec fn has_index(s: Seq<(usize, FileInfo)>, index: usize) -> bool {
    exists|i: int| 0 <= i < s.len() && s[i].0 == index
}

/// The position of the entry with index `index` (meaningful when
/// present and indices are distinct).
pub open spec fn index_pos(s: Seq<(usize, FileInfo)>, index: usize) -> int {
    choose|i: int| 0 <= i < s.len() && s[i].0 == index
}

/// Some entry's path reads `path`.
pub open spec fn has_path(s: Seq<(usize, FileInfo)>, path: Seq<char>) -> bool {
    exists|i: int| 0 <= i < s.len() && s[i].1.path@ == path
}

/// Some job's source path reads `path`.
pub open spec fn has_job(s: Seq<(String, CompressingZip)>, path: Seq<char>) -> bool {
    exists|i: int| 0 <= i < s.len() && s[i].0@ == path
}

/// The position of the job for `path` (meaningful when present and
/// job paths are distinct).
pub open spec fn job_pos(s: Seq<(String, CompressingZip)>, path: Seq<char>) -> int {
    choose|i: int| 0 <= i < s.len() && s[i].0@ == path
}

/// The catalog after a download of the entry with index `index` was
/// counted; an absent index changes nothing.
pub open spec fn inc_count_seq(s: Seq<(usize, FileInfo)>, index: usize) -> Seq<(usize, FileInfo)> {
    if has_index(s, index) {
        let i = index_pos(s, index);
        s.update(
            i,
            (
                index,
                FileInfo {
                    download_count: s[i].1.download_count.saturating_add(1),
                    ..s[i].1
                },
            ),
        )
    } else {
        s
    }
}

/// The job table after the enumeration report for `path` arrived.
pub open spec fn set_num_files_seq(
    s: Seq<(String, CompressingZip)>,
    path: Seq<char>,
    num_files: usize,
) -> Seq<(String, CompressingZip)> {
    if has_job(s, path) {
        let i = job_pos(s, path);
        s.update(i, (s[i].0, CompressingZip { num_files, ..s[i].1 }))
    } else {
        s
    }
}

/// The job table after one more entry of `path`'s job was compressed.
pub open spec fn bump_progress_seq(s: Seq<(String, CompressingZip)>, path: Seq<char>) -> Seq<
    (String, CompressingZip),
> {
    if has_job(s, path) {
        let i = job_pos(s, path);
        s.update(
            i,
            (s[i].0, CompressingZip { progress: s[i].1.progress.saturating_add(1), ..s[i].1 }),
        )
    } else {
        s
    }
}

/// The job table with `path`'s job taken out.
pub open spec fn remove_job_seq(s: Seq<(String, CompressingZip)>, path: Seq<char>) -> Seq<
    (String, CompressingZip),
> {
    if has_job(s, path) {
        s.remove(job_pos(s, path))
    } else {
        s
    }
}

/// The sum of the entries' sizes, saturating at `usize::MAX`.
pub open spec fn total_size_spec(s: Seq<(usize, FileInfo)>) -> usize
    decreases s.len(),
{
    if s.len() == 0 {
        0usize
    } else {
        total_size_spec(s.drop_last()).saturating_add(s.last().1.size)
    }
}

/// Sums the entries' sizes for the listing page.
pub fn total_size(entries: &Vec<(usize, FileInfo)>) -> (r: usize)
    ensures
        r == total_size_spec(entries@),
{
    let mut acc: usize = 0;
    let mut i: usize = 0;
    while i < entries.len()
        invariant
            i <= entries@.len(),
            acc == total_size_spec(entries@.take(i as int)),
        decreases entries@.len() - i,
    {
        proof {
            assert(entries@.take(i + 1int).drop_last() =~= entries@.take(i as int));
            assert(entries@.take(i + 1int).last() == entries@[i as int]);
        }
        acc = acc.saturating_add(entries[i].1.size);
        i += 1;
    }
    proof {
        assert(entries@.take(entries@.len() as int) =~= entries@);
    }
    acc
}

/// With distinct indices, any position holding `index` is the position.
pub proof fn lemma_index_pos_unique(s: Seq<(usize, FileInfo)>, index: usize, i: int)
    requires
        forall|a: int, b: int| 0 <= a < b < s.len() ==> s[a].0 != s[b].0,
        0 <= i < s.len(),
        s[i].0 == index,
    ensures
        index_pos(s, index) == i,
        has_index(s, index),
{
    assert(has_index(s, index));
    let k = index_pos(s, index);
    if k < i {
        assert(s[k].0 != s[i].0);
    } else if k > i {
        assert(s[i].0 != s[k].0);
    }
}

/// With distinct job paths, any position holding `path` is the position.
pub proof fn lemma_job_pos_unique(s: Seq<(String, CompressingZip)>, path: Seq<char>, i: int)
    requires
        forall|a: int, b: int| 0 <= a < b < s.len() ==> s[a].0@ != s[b].0@,
        0 <= i < s.len(),
        s[i].0@ == path,
    ensures
        job_pos(s, path) == i,
        has_job(s, path),
{
    assert(has_job(s, path));
    let k = job_pos(s, path);
    if k < i {
        assert(s[k].0@ != s[i].0@);
    } else if k > i {
        assert(s[i].0@ != s[k].0@);
    }
}

/// The catalog of shared entries and the running archive jobs.
pub struct FileManager {
    /// Entries in insertion order, with strictly increasing indices.
    pub entries: Vec<(usize, FileInfo)>,
    /// The next index to hand out; never decreases.
    pub next_index: usize,
    /// Running archive jobs, keyed by their distinct source paths.
    pub compressing_zips: Vec<(String, CompressingZip)>,
}

impl FileManager {
    /// Indices strictly increase along the catalog and stay below the
    /// next index to hand out; job source paths are distinct.
    pub open spec fn wf(&self) -> bool {
        (forall|i: int, j: int|
            0 <= i < j < self.entries@.len() ==> self.entries@[i].0 < self.entries@[j].0)
            && (forall|i: int|
            0 <= i < self.entries@.len() ==> self.entries@[i].0 < self.next_index)
            && (forall|i: int, j: int|
            0 <= i < j < self.compressing_zips@.len() ==> self.compressing_zips@[i].0@
                != self.compressing_zips@[j].0@)
    }

    pub fn new() -> (r: FileManager)
        ensures
            r.wf(),
            r.entries@.len() == 0,
            r.next_index == 0,
            r.compressing_zips@.len() == 0,
    {
        FileManager { entries: Vec::new(), next_index: 0, compressing_zips: Vec::new() }
    }

    /// The catalog in insertion order, for display.
    pub fn get_view(&self) -> (r: &Vec<(usize, FileInfo)>)
        ensures
            r@ == self.entries@,
    {
        &self.entries
    }

    fn find_index(&self, index: usize) -> (r: Option<usize>)
        ensures
            match r {
                Some(i) => i < self.entries@.len() && self.entries@[i as int].0 == index,
                None => !has_index(self.entries@, index),
            },
    {
        let mut i: usize = 0;
        while i < self.entries.len()
            invariant
                i <= self.entries@.len(),
                forall|j: int| 0 <= j < i ==> self.entries@[j].0 != index,
            decreases self.entries@.len() - i,
        {
            if self.entries[i].0 == index {
                return Some(i);
            }
            i += 1;
        }
        None
    }

    fn find_path(&self, path: &String) -> (r: Option<usize>)
        ensures
            match r {
                Some(i) => i < self.entries@.len() && self.entries@[i as int].1.path@ == path@,
                None => !has_path(self.entries@, path@),
            },
    {
        let mut i: usize = 0;
        while i < self.entries.len()
            invariant
                i <= self.entries@.len(),
                forall|j: int| 0 <= j < i ==> self.entries@[j].1.path@ != path@,
            decreases self.entries@.len() - i,
        {
            if self.entries[i].1.path == *path {
                return Some(i);
            }
            i += 1;
        }
        None
    }

    fn find_job(&self, path: &String) -> (r: Option<usize>)
        ensures
            match r {
                Some(i) => i < self.compressing_zips@.len() && self.compressing_zips@[i as int].0@
                    == path@,
                None => !has_job(self.compressing_zips@, path@),
            },
    {
        let mut i: usize = 0;
        while i < self.compressing_zips.len()
            invariant
                i <= self.compressing_zips@.len(),
                forall|j: int| 0 <= j < i ==> self.compressing_zips@[j].0@ != path@,
            decreases self.compressing_zips@.len() - i,
        {
            if self.compressing_zips[i].0 == *path {
                return Some(i);
            }
            i += 1;
        }
        None
    }

    /// Adds an entry for `path` of the given size, handing it the next
    /// index; adding a path already present is a no-op.
    pub fn push(&mut self, path: String, size: usize, is_zip: bool)
        requires
            old(self).wf(),
            old(self).next_index < usize::MAX,
        ensures
            final(self).wf(),
            final(self).compressing_zips@ == old(self).compressing_zips@,
            has_path(old(self).entries@, path@) ==> final(self).entries@ == old(self).entries@
                && final(self).next_index == old(self).next_index,
            !has_path(old(self).entries@, path@) ==> final(self).entries@ == old(self).entries@.push(
                (old(self).next_index, FileInfo { path, size, download_count: 0, is_zip }),
            ) && final(self).next_index == old(self).next_index + 1,
            has_path(final(self).entries@, path@),
    {
        match self.find_path(&path) {
            Some(_) => {},
            None => {
                let idx = self.next_index;
                let ghost p = path@;
                self.entries.push((idx, FileInfo { path, size, download_count: 0, is_zip }));
                self.next_index = idx + 1;
                proof {
                    assert(self.entries@.last().1.path@ == p);
                }
            },
        }
    }

    /// Looks an entry up by index; a copy is returned.
    pub fn get(&self, index: usize) -> (r: Option<FileInfo>)
        requires
            self.wf(),
        ensures
            match r {
                Some(f) => has_index(self.entries@, index) && f == self.entries@[index_pos(
                    self.entries@,
                    index,
                )].1,
                None => !has_index(self.entries@, index),
            },
    {
        match self.find_index(index) {
            Some(i) => {
                proof {
                    lemma_index_pos_unique(self.entries@, index, i as int);
                }
                let f = &self.entries[i].1;
                Some(
                    FileInfo {
                        path: f.path.clone(),
                        size: f.size,
                        download_count: f.download_count,
                        is_zip: f.is_zip,
                    },
                )
            },
            None => None,
        }
    }

    /// Counts one download of the entry with index `index`.
    pub fn increment_download_count(&mut self, index: usize)
        requires
            old(self).wf(),
        ensures
            final(self).wf(),
            final(self).entries@ == inc_count_seq(old(self).entries@, index),
            final(self).next_index == old(self).next_index,
            final(self).compressing_zips@ == old(self).compressing_zips@,
    {
        match self.find_index(index) {
            Some(i) => {
                proof {
                    lemma_index_pos_unique(self.entries@, index, i as int);
                }
                let f = &self.entries[i].1;
                let nf = FileInfo {
                    path: f.path.clone(),
                    size: f.size,
                    download_count: f.download_count.saturating_add(1),
                    is_zip: f.is_zip,
                };
                self.entries[i] = (index, nf);
            },
            None => {},
        }
    }

    /// Removes the entry with index `index`, keeping the others in
    /// order; returns the backing path to delete when the removed
    /// entry was an archive output.
    pub fn remove(&mut self, index: usize) -> (r: Option<String>)
        requires
            old(self).wf(),
        ensures
            final(self).wf(),
            final(self).entries@ == old(self).entries@.filter(
                not_index_pred(index),
            ),
            final(self).next_index == old(self).next_index,
            final(self).compressing_zips@ == old(self).compressing_zips@,
            (r matches Some(p)) <==> (has_index(old(self).entries@, index) && old(self).entries@[index_pos(old(self).entries@, index)].1.is_zip),
            r matches Some(p) ==> p@ == old(self).entries@[index_pos(
                old(self).entries@,
                index,
            )].1.path@,
    {
        let ghost orig = self.entries@;
        let mut result: Option<String> = None;
        match self.find_index(index) {
            Some(i) => {
                proof {
                    lemma_index_pos_unique(self.entries@, index, i as int);
                }
                if self.entries[i].1.is_zip {
                    result = Some(self.entries[i].1.path.clone());
                }
            },
            None => {},
        }
        let ghost pred = not_index_pred(index);
        let mut kept: Vec<(usize, FileInfo)> = Vec::new();
        let mut i: usize = 0;
        while i < self.entries.len()
            invariant
                self.entries@ == orig,
                i <= orig.len(),
                kept@ == orig.take(i as int).filter(pred),
                pred == not_index_pred(index),
            decreases orig.len() - i,
        {
            let keep = self.entries[i].0 != index;
            proof {
                assert(orig.take(i + 1int) =~= orig.take(i as int).push(orig[i as int]));
                lemma_filter_push_one(orig.take(i as int), orig[i as int], pred);
            }
            if keep {
                let e = &self.entries[i];
                let copy = (
                    e.0,
                    FileInfo {
                        path: e.1.path.clone(),
                        size: e.1.size,
                        download_count: e.1.download_count,
                        is_zip: e.1.is_zip,
                    },
                );
                proof {
                    assert(copy == orig[i as int]);
                }
                kept.push(copy);
            }
            i += 1;
        }
        proof {
            assert(orig.take(orig.len() as int) =~= orig);
        }
        self.entries = kept;
        proof {
            assert forall|a: int, b: int|
                0 <= a < b < self.entries@.len() implies self.entries@[a].0
                < self.entries@[b].0 by {
                lemma_filter_ordered(orig, pred, a, b);
            }
            assert forall|a: int|
                0 <= a < self.entries@.len() implies self.entries@[a].0 < self.next_index by {
                let x = self.entries@[a];
                assert(orig.filter(pred).contains(x));
                orig.lemma_filter_contains_rev(pred, x);
                let k = choose|k: int| 0 <= k < orig.len() && orig[k] == x;
                assert(orig[k].0 < self.next_index);
            }
        }
        result
    }

    /// Empties the catalog, returning the backing paths of all archive
    /// entries, in order, for deletion. Indices are not reset: a
    /// cleared catalog keeps handing out fresh indices.
    pub fn clear(&mut self) -> (r: Vec<String>)
        requires
            old(self).wf(),
        ensures
            final(self).wf(),
            final(self).entries@.len() == 0,
            final(self).next_index == old(self).next_index,
            final(self).compressing_zips@ == old(self).compressing_zips@,
            ({
                let zips = old(self).entries@.filter(is_zip_pred());
                r@.len() == zips.len() && (forall|j: int|
                    0 <= j < zips.len() ==> r@[j]@ == zips[j].1.path@)
            }),
    {
        let ghost orig = self.entries@;
        let ghost pred = is_zip_pred();
        let mut r: Vec<String> = Vec::new();
        let mut i: usize = 0;
        while i < self.entries.len()
            invariant
                self.entries@ == orig,
                i <= orig.len(),
                r@.len() == orig.take(i as int).filter(pred).len(),
                forall|j: int|
                    0 <= j < r@.len() ==> r@[j]@ == orig.take(i as int).filter(pred)[j].1.path@,
                pred == is_zip_pred(),
            decreases orig.len() - i,
        {
            proof {
                assert(orig.take(i + 1int) =~= orig.take(i as int).push(orig[i as int]));
                lemma_filter_push_one(orig.take(i as int), orig[i as int], pred);
            }
            if self.entries[i].1.is_zip {
                r.push(self.entries[i].1.path.clone());
            }
            i += 1;
        }
        proof {
            assert(orig.take(orig.len() as int) =~= orig);
        }
        self.entries.clear();
        r
    }

    /// Notes a new archive job for `path`, restarting the bookkeeping
    /// when a job for the same source is already noted.
    pub fn add_new_zip_compressing(&mut self, path: String, start_time: u64)
        requires
            old(self).wf(),
        ensures
            final(self).wf(),
            final(self).entries@ == old(self).entries@,
            final(self).next_index == old(self).next_index,
            has_job(old(self).compressing_zips@, path@) ==> final(self).compressing_zips@ == old(self).compressing_zips@.update(
                job_pos(old(self).compressing_zips@, path@),
                (path, CompressingZip { num_files: 0, progress: 0, start_time }),
            ),
            !has_job(old(self).compressing_zips@, path@) ==> final(self).compressing_zips@ == old(self).compressing_zips@.push(
                (path, CompressingZip { num_files: 0, progress: 0, start_time }),
            ),
    {
        let z = CompressingZip { num_files: 0, progress: 0, start_time };
        match self.find_job(&path) {
            Some(i) => {
                proof {
                    lemma_job_pos_unique(self.compressing_zips@, path@, i as int);
                }
                self.compressing_zips[i] = (path, z);
            },
            None => {
                self.compressing_zips.push((path, z));
            },
        }
    }

    /// Records the enumeration report of `path`'s job.
    pub fn set_zip_num_files(&mut self, path: &String, num_files: usize)
        requires
            old(self).wf(),
        ensures
            final(self).wf(),
            final(self).entries@ == old(self).entries@,
            final(self).next_index == old(self).next_index,
            final(self).compressing_zips@ == set_num_files_seq(
                old(self).compressing_zips@,
                path@,
                num_files,
            ),
    {
        match self.find_job(path) {
            Some(i) => {
                proof {
                    lemma_job_pos_unique(self.compressing_zips@, path@, i as int);
                }
                let s = self.compressing_zips[i].0.clone();
                let z = self.compressing_zips[i].1;
                self.compressing_zips[i] = (s, CompressingZip { num_files, ..z });
            },
            None => {},
        }
    }

    /// Records one more compressed entry of `path`'s job.
    pub fn update_zip_compressing(&mut self, path: &String)
        requires
            old(self).wf(),
        ensures
            final(self).wf(),
            final(self).entries@ == old(self).entries@,
            final(self).next_index == old(self).next_index,
            final(self).compressing_zips@ == bump_progress_seq(old(self).compressing_zips@, path@),
    {
        match self.find_job(path) {
            Some(i) => {
                proof {
                    lemma_job_pos_unique(self.compressing_zips@, path@, i as int);
                }
                let s = self.compressing_zips[i].0.clone();
                let z = self.compressing_zips[i].1;
                self.compressing_zips[i] = (
                    s,
                    CompressingZip { progress: z.progress.saturating_add(1), ..z },
                );
            },
            None => {},
        }
    }

    /// Cancels `path`'s job: the job leaves the table, and the partial
    /// output file's path is returned for deletion (the caller also
    /// aborts the background task through the handle it kept).
    pub fn zip_compressing_canceld(&mut self, path: &String) -> (r: Option<String>)
        requires
            old(self).wf(),
            valid_archive_source(path@),
        ensures
            final(self).wf(),
            final(self).entries@ == old(self).entries@,
            final(self).next_index == old(self).next_index,
            final(self).compressing_zips@ == remove_job_seq(old(self).compressing_zips@, path@),
            !has_job(final(self).compressing_zips@, path@),
            (r matches Some(p)) <==> has_job(old(self).compressing_zips@, path@),
            r matches Some(p) ==> p@ == zip_path_for_spec(path@),
    {
        match self.find_job(path) {
            Some(i) => {
                proof {
                    lemma_job_pos_unique(self.compressing_zips@, path@, i as int);
                }
                let ghost before = self.compressing_zips@;
                self.compressing_zips.remove(i);
                proof {
                    before.remove_ensures(i as int);
                    assert forall|j: int|
                        0 <= j < self.compressing_zips@.len() implies self.compressing_zips@[j].0@
                        != path@ by {
                        if j < i {
                            assert(self.compressing_zips@[j] == before[j]);
                        } else {
                            assert(self.compressing_zips@[j] == before[j + 1]);
                        }
                    }
                }
                Some(zip_path_for(path))
            },
            None => None,
        }
    }

    /// Whether an archive request for `path` must be rejected: a job
    /// for it is already running, or the catalog already holds an entry
    /// whose file name is the archive's output name.
    pub fn already_compressed(&self, path: &String) -> (r: bool)
        ensures
            r == (has_job(self.compressing_zips@, path@) || exists|i: int|
                0 <= i < self.entries@.len() && file_name_spec(#[trigger] self.entries@[i].1.path@)
                    == zip_file_name_spec(path@)),
    {
        match self.find_job(path) {
            Some(_) => true,
            None => {
                let target = zip_file_name(path);
                let mut i: usize = 0;
                while i < self.entries.len()
                    invariant
                        i <= self.entries@.len(),
                        target@ == zip_file_name_spec(path@),
                        forall|j: int|
                            0 <= j < i ==> file_name_spec(#[trigger] self.entries@[j].1.path@)
                                != zip_file_name_spec(path@),
                    decreases self.entries@.len() - i,
                {
                    let name = file_name_of(&self.entries[i].1.path);
                    if name == target {
                        return true;
                    }
                    i += 1;
                }
                false
            },
        }
    }

    /// Finishes `path`'s job: the job leaves the table and the output
    /// file of the given size joins the catalog as an archive entry,
    /// unless an entry with that path is already present.
    pub fn zip_compressing_done(&mut self, path: &String, size: usize)
        requires
            old(self).wf(),
            valid_archive_source(path@),
            old(self).next_index < usize::MAX,
        ensures
            final(self).wf(),
            final(self).compressing_zips@ == remove_job_seq(old(self).compressing_zips@, path@),
            !has_job(final(self).compressing_zips@, path@),
            has_path(old(self).entries@, zip_path_for_spec(path@)) ==> final(self).entries@ == old(self).entries@ && final(self).next_index == old(self).next_index,
            !has_path(old(self).entries@, zip_path_for_spec(path@)) ==> final(self).entries@.len() == old(self).entries@.len() + 1 && final(self).entries@.take(
                old(self).entries@.len() as int,
            ) == old(self).entries@ && final(self).entries@.last().0 == old(self).next_index
                && final(self).entries@.last().1.path@ == zip_path_for_spec(path@) && final(self).entries@.last().1.size == size && final(self).entries@.last().1.download_count == 0
                && final(self).entries@.last().1.is_zip == true && final(self).next_index == old(self).next_index + 1,
            has_path(final(self).entries@, zip_path_for_spec(path@)),
    {
        match self.find_job(path) {
            Some(i) => {
                proof {
                    lemma_job_pos_unique(self.compressing_zips@, path@, i as int);
                }
                let ghost before = self.compressing_zips@;
                self.compressing_zips.remove(i);
                proof {
                    before.remove_ensures(i as int);
                    assert forall|j: int|
                        0 <= j < self.compressing_zips@.len() implies self.compressing_zips@[j].0@
                        != path@ by {
                        if j < i {
                            assert(self.compressing_zips@[j] == before[j]);
                        } else {
                            assert(self.compressing_zips@[j] == before[j + 1]);
                        }
                    }
                }
            },
            None => {},
        }
        let zp = zip_path_for(path);
        let ghost before_entries = self.entries@;
        self.push(zp, size, true);
        proof {
            if !has_path(before_entries, zip_path_for_spec(path@)) {
                assert(self.entries@.take(before_entries.len() as int) =~= before_entries);
            }
        }
    }

    /// The running jobs ordered by their start times, earliest first.
    pub fn get_zip_compressing(&self) -> (r: Vec<(String, CompressingZip)>)
        ensures
            r@.len() == self.compressing_zips@.len(),
            forall|i: int, j: int|
                0 <= i < j < r@.len() ==> r@[i].1.start_time <= r@[j].1.start_time,
            r@.to_multiset() == self.compressing_zips@.to_multiset(),
    {
        broadcast use vstd::seq_lib::group_to_multiset_ensures;

        let mut pending: Vec<(String, CompressingZip)> = Vec::new();
        let mut i: usize = 0;
        while i < self.compressing_zips.len()
            invariant
                i <= self.compressing_zips@.len(),
                pending@ == self.compressing_zips@.take(i as int),
            decreases self.compressing_zips@.len() - i,
        {
            let e = &self.compressing_zips[i];
            pending.push((e.0.clone(), e.1));
            proof {
                assert(pending@ =~= self.compressing_zips@.take(i + 1int));
            }
            i += 1;
        }
        proof {
            assert(self.compressing_zips@.take(self.compressing_zips@.len() as int)
                =~= self.compressing_zips@);
        }
        let ghost all = self.compressing_zips@;
        let mut r: Vec<(String, CompressingZip)> = Vec::new();
        while pending.len() > 0
            invariant
                r@.len() + pending@.len() == all.len(),
                forall|a: int, b: int|
                    0 <= a < b < r@.len() ==> r@[a].1.start_time <= r@[b].1.start_time,
                forall|a: int, b: int|
                    0 <= a < r@.len() && 0 <= b < pending@.len() ==> r@[a].1.start_time
                        <= pending@[b].1.start_time,
                r@.to_multiset().add(pending@.to_multiset()) =~= all.to_multiset(),
            decreases pending@.len(),
        {
            let mut m: usize = 0;
            let mut k: usize = 1;
            while k < pending.len()
                invariant
                    m < k <= pending@.len(),
                    pending@.len() > 0,
                    forall|j: int|
                        0 <= j < k ==> pending@[m as int].1.start_time
                            <= #[trigger] pending@[j].1.start_time,
                decreases pending@.len() - k,
            {
                if pending[k].1.start_time < pending[m].1.start_time {
                    m = k;
                }
                k += 1;
            }
            let ghost before = pending@;
            let e = pending.remove(m);
            proof {
                broadcast use vstd::multiset::group_multiset_axioms;

                before.remove_ensures(m as int);
                assert(e == before[m as int]);
                vstd::seq_lib::to_multiset_remove(before, m as int);
                assert(before.contains(e));
                vstd::seq_lib::to_multiset_contains(before, e);
                assert(before.to_multiset().count(e) > 0);
                vstd::seq_lib::to_multiset_build(r@, e);
                assert(r@.push(e).to_multiset() =~= r@.to_multiset().insert(e));
                assert(r@.push(e).to_multiset().add(pending@.to_multiset()) =~= all.to_multiset());
                assert forall|b: int|
                    0 <= b < pending@.len() implies e.1.start_time
                    <= pending@[b].1.start_time by {
                    if b < m {
                        assert(pending@[b] == before[b]);
                    } else {
                        assert(pending@[b] == before[b + 1]);
                    }
                }
            }
            r.push(e);
        }
        proof {
            broadcast use vstd::multiset::group_multiset_axioms;

            assert forall|x: (String, CompressingZip)|
                pending@.to_multiset().count(x) == 0 by {
                vstd::seq_lib::to_multiset_contains(pending@, x);
            }
            assert(pending@.to_multiset() =~= Multiset::<(String, CompressingZip)>::empty());
            assert(r@.to_multiset() =~= all.to_multiset());
        }
        r
    }
}

/// Index freshness: in a well-formed registry every entry has a
/// distinct index below the next one to hand out, so the index a new
/// entry would get is not in the catalog — and since removals and
/// clears never lower the next index, no index is ever handed out
/// twice.
pub proof fn lemma_index_never_reused(fm: FileManager)
    requires
        fm.wf(),
    ensures
        !has_index(fm.entries@, fm.next_index),
        forall|i: int, j: int|
            0 <= i < j < fm.entries@.len() ==> fm.entries@[i].0 != fm.entries@[j].0,
{
    if has_index(fm.entries@, fm.next_index) {
        let i = choose|i: int|
            0 <= i < fm.entries@.len() && fm.entries@[i].0 == fm.next_index;
        assert(fm.entries@[i].0 < fm.next_index);
    }
}

/// A finished archive stays known: once the catalog holds the archive
/// output of `path`, a request to archive `path` again is rejected as
/// already compressed, because that entry's file name is the output
/// name the request would produce.
pub proof fn lemma_done_rejects_rearchive(fm: FileManager, path: Seq<char>)
    requires
        has_path(fm.entries@, zip_path_for_spec(path)),
    ensures
        exists|i: int|
            0 <= i < fm.entries@.len() && file_name_spec(#[trigger] fm.entries@[i].1.path@)
                == zip_file_name_spec(path),
{
    let i = choose|i: int|
        0 <= i < fm.entries@.len() && fm.entries@[i].1.path@ == zip_path_for_spec(path);
    crate::archive::lemma_zip_path_file_name(path);
    assert(file_name_spec(fm.entries@[i].1.path@) == zip_file_name_spec(path));
}

/// Elements kept by a filter keep their relative order; for the
/// catalog's strictly increasing indices that order is strict.
proof fn lemma_filter_ordered(
    s: Seq<(usize, FileInfo)>,
    pred: spec_fn((usize, FileInfo)) -> bool,
    a: int,
    b: int,
)
    requires
        forall|i: int, j: int| 0 <= i < j < s.len() ==> s[i].0 < s[j].0,
        0 <= a < b < s.filter(pred).len(),
    ensures
        s.filter(pred)[a].0 < s.filter(pred)[b].0,
    decreases s.len(),
{
    reveal(Seq::filter);
    if s.len() > 0 {
        let rest = s.drop_last();
        let f = s.filter(pred);
        if pred(s.last()) {
            assert(f == rest.filter(pred).push(s.last()));
            if b < f.len() - 1 {
                lemma_filter_ordered(rest, pred, a, b);
            } else {
                // f[b] is s's last element; f[a] comes from the prefix
                let x = f[a];
                assert(rest.filter(pred)[a] == x);
                assert(rest.filter(pred).contains(x));
                rest.lemma_filter_contains_rev(pred, x);
                let k = choose|k: int| 0 <= k < rest.len() && rest[k] == x;
                assert(s[k] == x);
                assert(s[k].0 < s[s.len() - 1].0);
                assert(f[b] == s.last());
            }
        } else {
            assert(f == rest.filter(pred));
            lemma_filter_ordered(rest, pred, a, b);
        }
    }
}

} // verus!
