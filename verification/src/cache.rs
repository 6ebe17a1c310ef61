//! The cache manager: per-file fingerprints in a sidecar, staleness
//! answers, and the incremental update sweep that drives the index
//! writer.
//!
//! All filesystem work stays with the caller: a sweep is handed each
//! candidate file's path, its on-disk stat (or none, when it has
//! vanished) and its text (none when unreadable). The effect of a
//! sweep on the fingerprints and on the index writer's op counters is
//! a spec-level function of those inputs.

use vstd::prelude::*;
use crate::indexer::{IndexError, SearchIndexer};
use crate::parser::{JsonlParser, ParserLimits, kept_lines, logical_lines, opt_view};
use crate::strings::all_ws;

verus! {

/// Size and modification time of a file on disk.
#[derive(Clone, Copy, Debug, PartialEq, Eq, Structural)]
pub struct FileStat {
    pub size: u64,
    pub modified_ms: i64,
}

/// One fingerprint of the sidecar: what the file looked like when it
/// was last indexed.
#[derive(Clone, Copy, Debug, PartialEq, Eq, Structural)]
pub struct FileMetadata {
    pub size: u64,
    pub modified_ms: i64,
    pub indexed_at_ms: i64,
    pub entry_count: usize,
}

/// One candidate file of a sweep: its path, its stat on disk (none
/// when it has vanished), and its text (none when unreadable).
#[derive(Clone, Debug)]
pub struct SweepFile {
    pub path: String,
    pub stat: Option<FileStat>,
    pub content: Option<String>,
}

/// The sidecar state: fingerprints keyed by absolute path, plus the
/// scan clock and a rolling record counter.
#[derive(Clone, Debug)]
pub struct CacheMetadata {
    pub indexed_files: Vec<(String, FileMetadata)>,
    pub last_full_scan_ms: Option<i64>,
    pub index_version: u32,
    pub total_entries: u64,
}

/// Each path occurs at most once.
pub open spec fn files_wf(s: Seq<(String, FileMetadata)>) -> bool {
    forall|p: int, q: int| 0 <= p < q < s.len() ==> (#[trigger] s[p]).0@ != (#[trigger] s[q]).0@
}

/// The fingerprint stored for `key`, if any (first occurrence).
pub open spec fn find_fm(s: Seq<(String, FileMetadata)>, key: Seq<char>) -> Option<FileMetadata>
    decreases s.len(),
{
    if s.len() == 0 {
        None
    } else if s[0].0@ == key {
        Some(s[0].1)
    } else {
        find_fm(s.drop_first(), key)
    }
}

proof fn lemma_find_fm_at(s: Seq<(String, FileMetadata)>, key: Seq<char>, i: int)
    requires
        0 <= i < s.len(),
        s[i].0@ == key,
        forall|j: int| 0 <= j < i ==> (#[trigger] s[j]).0@ != key,
    ensures
        find_fm(s, key) == Some(s[i].1),
    decreases i,
{
    if i > 0 {
        lemma_find_fm_at(s.drop_first(), key, i - 1);
    }
}

proof fn lemma_find_fm_none(s: Seq<(String, FileMetadata)>, key: Seq<char>)
    requires
        forall|j: int| 0 <= j < s.len() ==> (#[trigger] s[j]).0@ != key,
    ensures
        find_fm(s, key) is None,
    decreases s.len(),
{
    if s.len() > 0 {
        lemma_find_fm_none(s.drop_first(), key);
    }
}

proof fn lemma_find_fm_push(
    s: Seq<(String, FileMetadata)>,
    e: (String, FileMetadata),
    k: Seq<char>,
)
    ensures
        find_fm(s.push(e), k) == if find_fm(s, k) is Some {
            find_fm(s, k)
        } else if k == e.0@ {
            Some(e.1)
        } else {
            None
        },
    decreases s.len(),
{
    if s.len() == 0 {
        assert(s.push(e) =~= seq![e]);
        assert(s.push(e)[0] == e);
        assert(s.push(e).drop_first() =~= Seq::<(String, FileMetadata)>::empty());
        assert(find_fm(s, k) is None);
        assert(find_fm(s.push(e).drop_first(), k) is None);
    } else {
        lemma_find_fm_push(s.drop_first(), e, k);
        assert(s.push(e)[0] == s[0]);
        assert(s.push(e).drop_first() =~= s.drop_first().push(e));
    }
}

proof fn lemma_find_fm_update(
    s: Seq<(String, FileMetadata)>,
    i: int,
    e: (String, FileMetadata),
    k: Seq<char>,
)
    requires
        files_wf(s),
        0 <= i < s.len(),
        e.0@ == s[i].0@,
    ensures
        find_fm(s.update(i, e), k) == if k == s[i].0@ {
            Some(e.1)
        } else {
            find_fm(s, k)
        },
    decreases i,
{
    let t = s.update(i, e);
    if i == 0 {
        assert(t[0] == e);
        if k == s[0].0@ {
        } else {
            assert(t.drop_first() =~= s.drop_first());
        }
    } else {
        assert(t[0] == s[0]);
        assert(t.drop_first() =~= s.drop_first().update(i - 1, e));
        lemma_find_fm_update(s.drop_first(), i - 1, e, k);
        if k == s[i].0@ {
            assert(s[0].0@ != s[i].0@);
        }
    }
}

proof fn lemma_find_fm_remove(s: Seq<(String, FileMetadata)>, i: int, k: Seq<char>)
    requires
        files_wf(s),
        0 <= i < s.len(),
    ensures
        find_fm(s.remove(i), k) == if k == s[i].0@ {
            None
        } else {
            find_fm(s, k)
        },
    decreases i,
{
    let t = s.remove(i);
    if i == 0 {
        assert(t =~= s.drop_first());
        if k == s[0].0@ {
            assert(forall|j: int|
                0 <= j < s.drop_first().len() ==> (#[trigger] s.drop_first()[j]).0@ != k);
            lemma_find_fm_none(s.drop_first(), k);
        }
    } else {
        assert(t[0] == s[0]);
        assert(t.drop_first() =~= s.drop_first().remove(i - 1));
        lemma_find_fm_remove(s.drop_first(), i - 1, k);
        if k == s[i].0@ {
            assert(s[0].0@ != s[i].0@);
        }
    }
}

/// First index whose path matches, if any.
fn find_idx(v: &Vec<(String, FileMetadata)>, path: &str) -> (r: Option<usize>)
    ensures
        r is Some ==> r.unwrap() < v@.len() && v@[r.unwrap() as int].0@ == path@ && find_fm(
            v@,
            path@,
        ) == Some(v@[r.unwrap() as int].1),
        r is None ==> find_fm(v@, path@) is None,
{
    let n = v.len();
    let mut i: usize = 0;
    while i < n
        invariant
            n == v@.len(),
            i <= n,
            forall|j: int| 0 <= j < i ==> (#[trigger] v@[j]).0@ != path@,
        decreases n - i,
    {
        if crate::strings::str_eq(v[i].0.as_str(), path) {
            proof {
                lemma_find_fm_at(v@, path@, i as int);
            }
            return Some(i);
        }
        i = i + 1;
    }
    proof {
        lemma_find_fm_none(v@, path@);
    }
    None
}

/// Does the fingerprint call for (re)indexing against this stat?
pub open spec fn needs_of(fm: Option<FileMetadata>, st: FileStat) -> bool {
    match fm {
        None => true,
        Some(fm) => fm.size != st.size || fm.modified_ms != st.modified_ms,
    }
}

/// Number of records the parser derives from this file text.
pub open spec fn file_entry_count(text: Seq<char>, limits: ParserLimits) -> int {
    kept_lines(logical_lines(text), limits).len() as int
}

/// The view of one sweep candidate.
pub open spec fn sweep_view(f: SweepFile) -> (Seq<char>, Option<FileStat>, Option<Seq<char>>) {
    (f.path@, f.stat, opt_view(f.content))
}

/// The fingerprint stored for one path after one file of a sweep is
/// processed against it: vanished files are evicted; current files
/// are untouched; changed files that parse to records, and empty
/// files, are fingerprinted; unreadable files and files yielding no
/// records are left for the next sweep.
pub open spec fn step_fm(
    fm: Option<FileMetadata>,
    f: (Seq<char>, Option<FileStat>, Option<Seq<char>>),
    now_ms: i64,
    limits: ParserLimits,
) -> Option<FileMetadata> {
    match f.1 {
        None => None,
        Some(st) => if !needs_of(fm, st) {
            fm
        } else {
            match f.2 {
                None => fm,
                Some(text) => {
                    let cnt = file_entry_count(text, limits);
                    if cnt > 0 || all_ws(text) {
                        Some(
                            FileMetadata {
                                size: st.size,
                                modified_ms: st.modified_ms,
                                indexed_at_ms: now_ms,
                                entry_count: cnt as usize,
                            },
                        )
                    } else {
                        fm
                    }
                },
            }
        },
    }
}

/// Number of records a sweep appends for this file.
pub open spec fn step_added(
    fm: Option<FileMetadata>,
    f: (Seq<char>, Option<FileStat>, Option<Seq<char>>),
    limits: ParserLimits,
) -> int {
    match f.1 {
        None => 0,
        Some(st) => if !needs_of(fm, st) {
            0
        } else {
            match f.2 {
                None => 0,
                Some(text) => {
                    let cnt = file_entry_count(text, limits);
                    if cnt > 0 {
                        cnt
                    } else {
                        0
                    }
                },
            }
        },
    }
}

/// Number of session deletions a sweep queues for this file: one,
/// exactly when it appends records.
pub open spec fn step_dels(
    fm: Option<FileMetadata>,
    f: (Seq<char>, Option<FileStat>, Option<Seq<char>>),
    limits: ParserLimits,
) -> int {
    if step_added(fm, f, limits) > 0 {
        1
    } else {
        0
    }
}

/// The session id of the first record a file text parses to (the
/// id whose first segment a reindex deletes), empty when it parses
/// to none.
pub open spec fn first_session_of(text: Seq<char>, limits: ParserLimits) -> Seq<char> {
    let kept = kept_lines(logical_lines(text), limits);
    if kept.len() > 0 {
        match crate::json::json_str_field_of(kept[0], "sessionId"@) {
            Some(s) => s,
            None => Seq::empty(),
        }
    } else {
        Seq::empty()
    }
}

/// The session-deletion terms a sweep queues for this file: the
/// first hyphen-separated segment of its first record's session id,
/// exactly when it appends records.
pub open spec fn step_del_terms(
    fm: Option<FileMetadata>,
    f: (Seq<char>, Option<FileStat>, Option<Seq<char>>),
    limits: ParserLimits,
) -> Seq<Seq<char>> {
    if step_added(fm, f, limits) > 0 {
        seq![crate::indexer::first_segment(first_session_of(f.2.unwrap(), limits))]
    } else {
        Seq::empty()
    }
}

/// The session-deletion terms of the whole sweep, in order.
pub open spec fn sweep_del_terms(
    s: Seq<(String, FileMetadata)>,
    fs: Seq<SweepFile>,
    now_ms: i64,
    limits: ParserLimits,
) -> Seq<Seq<char>>
    decreases fs.len(),
{
    if fs.len() == 0 {
        Seq::empty()
    } else {
        let f = sweep_view(fs.last());
        sweep_del_terms(s, fs.drop_last(), now_ms, limits) + step_del_terms(
            sweep_find(s, fs.drop_last(), f.0, now_ms, limits),
            f,
            limits,
        )
    }
}

/// The fingerprint stored for `k` after the whole sweep.
pub open spec fn sweep_find(
    s: Seq<(String, FileMetadata)>,
    fs: Seq<SweepFile>,
    k: Seq<char>,
    now_ms: i64,
    limits: ParserLimits,
) -> Option<FileMetadata>
    decreases fs.len(),
{
    if fs.len() == 0 {
        find_fm(s, k)
    } else {
        let prev = sweep_find(s, fs.drop_last(), k, now_ms, limits);
        let f = sweep_view(fs.last());
        if f.0 == k {
            step_fm(prev, f, now_ms, limits)
        } else {
            prev
        }
    }
}

/// Total number of records the whole sweep appends.
pub open spec fn sweep_added(
    s: Seq<(String, FileMetadata)>,
    fs: Seq<SweepFile>,
    now_ms: i64,
    limits: ParserLimits,
) -> int
    decreases fs.len(),
{
    if fs.len() == 0 {
        0
    } else {
        let f = sweep_view(fs.last());
        sweep_added(s, fs.drop_last(), now_ms, limits) + step_added(
            sweep_find(s, fs.drop_last(), f.0, now_ms, limits),
            f,
            limits,
        )
    }
}

/// Total number of session deletions the whole sweep queues.
pub open spec fn sweep_dels(
    s: Seq<(String, FileMetadata)>,
    fs: Seq<SweepFile>,
    now_ms: i64,
    limits: ParserLimits,
) -> int
    decreases fs.len(),
{
    if fs.len() == 0 {
        0
    } else {
        let f = sweep_view(fs.last());
        sweep_dels(s, fs.drop_last(), now_ms, limits) + step_dels(
            sweep_find(s, fs.drop_last(), f.0, now_ms, limits),
            f,
            limits,
        )
    }
}

/// `a + b` clamped to `u64::MAX`.
pub open spec fn sat_add_u64(a: int, b: int) -> int {
    if a + b > u64::MAX {
        u64::MAX as int
    } else {
        a + b
    }
}

/// The cache manager: owns the sidecar state for one index directory.
pub struct CacheManager {
    pub metadata: CacheMetadata,
    pub cache_dir: String,
}

impl CacheManager {
    /// The sidecar key set is well-formed.
    pub open spec fn wf(&self) -> bool {
        files_wf(self.metadata.indexed_files@)
    }

    /// A manager over loaded sidecar state (or a fresh one). A
    /// corrupted sidecar with duplicate paths is sanitized by keeping
    /// each path's first fingerprint.
    pub fn new(cache_dir: String, loaded: Option<CacheMetadata>) -> (r: CacheManager)
        ensures
            r.wf(),
            r.cache_dir@ == cache_dir@,
            match loaded {
                Some(m) => {
                    &&& forall|k: Seq<char>|
                        find_fm(r.metadata.indexed_files@, k) == find_fm(m.indexed_files@, k)
                    &&& r.metadata.last_full_scan_ms == m.last_full_scan_ms
                    &&& r.metadata.index_version == m.index_version
                    &&& r.metadata.total_entries == m.total_entries
                },
                None => {
                    &&& r.metadata.indexed_files@.len() == 0
                    &&& r.metadata.last_full_scan_ms is None
                    &&& r.metadata.total_entries == 0
                },
            },
    {
        match loaded {
            Some(m) => {
                let mut clean: Vec<(String, FileMetadata)> = Vec::new();
                let n = m.indexed_files.len();
                let mut i: usize = 0;
                while i < n
                    invariant
                        n == m.indexed_files@.len(),
                        i <= n,
                        files_wf(clean@),
                        forall|k: Seq<char>|
                            find_fm(clean@, k) == find_fm(m.indexed_files@.take(i as int), k),
                    decreases n - i,
                {
                    let ghost pre = clean@;
                    let e = (m.indexed_files[i].0.clone(), m.indexed_files[i].1);
                    match find_idx(&clean, e.0.as_str()) {
                        Some(_) => {
                            proof {
                                assert forall|k: Seq<char>|
                                    find_fm(clean@, k) == find_fm(
                                        m.indexed_files@.take(i + 1),
                                        k,
                                    ) by {
                                    lemma_find_fm_push(
                                        m.indexed_files@.take(i as int),
                                        m.indexed_files@[i as int],
                                        k,
                                    );
                                    assert(m.indexed_files@.take(i + 1)
                                        =~= m.indexed_files@.take(i as int).push(
                                        m.indexed_files@[i as int],
                                    ));
                                }
                            }
                        },
                        None => {
                            let ghost ev = e.0@;
                            clean.push(e);
                            proof {
                                assert forall|k: Seq<char>|
                                    find_fm(clean@, k) == find_fm(
                                        m.indexed_files@.take(i + 1),
                                        k,
                                    ) by {
                                    lemma_find_fm_push(pre, clean@.last(), k);
                                    lemma_find_fm_push(
                                        m.indexed_files@.take(i as int),
                                        m.indexed_files@[i as int],
                                        k,
                                    );
                                    assert(m.indexed_files@.take(i + 1)
                                        =~= m.indexed_files@.take(i as int).push(
                                        m.indexed_files@[i as int],
                                    ));
                                    assert(clean@.last().0@ == m.indexed_files@[i as int].0@);
                                    assert(clean@.last().1 == m.indexed_files@[i as int].1);
                                }
                                assert forall|p: int, q: int|
                                    0 <= p < q < clean@.len() implies (#[trigger] clean@[p]).0@
                                    != (#[trigger] clean@[q]).0@ by {
                                    if q == clean@.len() - 1 {
                                        lemma_find_fm_at(pre, pre[p].0@, p);
                                    }
                                }
                            }
                        },
                    }
                    i = i + 1;
                }
                proof {
                    assert(m.indexed_files@.take(n as int) =~= m.indexed_files@);
                }
                CacheManager {
                    metadata: CacheMetadata {
                        indexed_files: clean,
                        last_full_scan_ms: m.last_full_scan_ms,
                        index_version: m.index_version,
                        total_entries: m.total_entries,
                    },
                    cache_dir,
                }
            },
            None => CacheManager {
                metadata: CacheMetadata {
                    indexed_files: Vec::new(),
                    last_full_scan_ms: None,
                    index_version: crate::indexer::SCHEMA_VERSION,
                    total_entries: 0,
                },
                cache_dir,
            },
        }
    }

    /// Is this file absent from the fingerprints, or changed in size
    /// or modification time?
    pub fn needs_indexing(&self, path: &str, size: u64, modified_ms: i64) -> (r: bool)
        ensures
            r == needs_of(
                find_fm(self.metadata.indexed_files@, path@),
                FileStat { size, modified_ms },
            ),
    {
        match find_idx(&self.metadata.indexed_files, path) {
            Some(i) => {
                let fm = self.metadata.indexed_files[i].1;
                fm.size != size || fm.modified_ms != modified_ms
            },
            None => true,
        }
    }

    /// Drop the fingerprint of one path, if present.
    fn remove_fingerprint(&mut self, path: &str)
        requires
            old(self).wf(),
        ensures
            final(self).wf(),
            forall|k: Seq<char>|
                find_fm(final(self).metadata.indexed_files@, k) == if k == path@ {
                    None
                } else {
                    find_fm(old(self).metadata.indexed_files@, k)
                },
            final(self).metadata.last_full_scan_ms == old(self).metadata.last_full_scan_ms,
            final(self).metadata.index_version == old(self).metadata.index_version,
            final(self).metadata.total_entries == old(self).metadata.total_entries,
            final(self).cache_dir == old(self).cache_dir,
    {
        let ghost pre = self.metadata.indexed_files@;
        match find_idx(&self.metadata.indexed_files, path) {
            Some(i) => {
                self.metadata.indexed_files.remove(i);
                proof {
                    assert forall|k: Seq<char>|
                        find_fm(self.metadata.indexed_files@, k) == (if k == path@ {
                            None
                        } else {
                            find_fm(pre, k)
                        }) by {
                        lemma_find_fm_remove(pre, i as int, k);
                    }
                    assert forall|p: int, q: int|
                        0 <= p < q < self.metadata.indexed_files@.len() implies (
                        #[trigger] self.metadata.indexed_files@[p]).0@ != (
                        #[trigger] self.metadata.indexed_files@[q]).0@ by {
                        assert(self.metadata.indexed_files@ =~= pre.remove(i as int));
                        if p < i && q < i {
                            assert(pre[p].0@ != pre[q].0@);
                        } else if p < i {
                            assert(pre[p].0@ != pre[q + 1].0@);
                        } else {
                            assert(pre[p + 1].0@ != pre[q + 1].0@);
                        }
                    }
                }
            },
            None => {},
        }
    }

    /// Store or replace the fingerprint of one path.
    fn put_fingerprint(&mut self, path: &str, fm: FileMetadata)
        requires
            old(self).wf(),
        ensures
            final(self).wf(),
            forall|k: Seq<char>|
                find_fm(final(self).metadata.indexed_files@, k) == if k == path@ {
                    Some(fm)
                } else {
                    find_fm(old(self).metadata.indexed_files@, k)
                },
            final(self).metadata.last_full_scan_ms == old(self).metadata.last_full_scan_ms,
            final(self).metadata.index_version == old(self).metadata.index_version,
            final(self).metadata.total_entries == old(self).metadata.total_entries,
            final(self).cache_dir == old(self).cache_dir,
    {
        let ghost pre = self.metadata.indexed_files@;
        match find_idx(&self.metadata.indexed_files, path) {
            Some(i) => {
                let e = (path.to_owned(), fm);
                let ghost ev = e;
                self.metadata.indexed_files.set(i, e);
                proof {
                    assert forall|k: Seq<char>|
                        find_fm(self.metadata.indexed_files@, k) == (if k == path@ {
                            Some(fm)
                        } else {
                            find_fm(pre, k)
                        }) by {
                        lemma_find_fm_update(pre, i as int, ev, k);
                    }
                    assert forall|p: int, q: int|
                        0 <= p < q < self.metadata.indexed_files@.len() implies (
                        #[trigger] self.metadata.indexed_files@[p]).0@ != (
                        #[trigger] self.metadata.indexed_files@[q]).0@ by {
                        assert(pre[p].0@ != pre[q].0@);
                    }
                }
            },
            None => {
                let e = (path.to_owned(), fm);
                let ghost ev = e;
                self.metadata.indexed_files.push(e);
                proof {
                    assert forall|k: Seq<char>|
                        find_fm(self.metadata.indexed_files@, k) == (if k == path@ {
                            Some(fm)
                        } else {
                            find_fm(pre, k)
                        }) by {
                        lemma_find_fm_push(pre, ev, k);
                    }
                    assert forall|p: int, q: int|
                        0 <= p < q < self.metadata.indexed_files@.len() implies (
                        #[trigger] self.metadata.indexed_files@[p]).0@ != (
                        #[trigger] self.metadata.indexed_files@[q]).0@ by {
                        if q == self.metadata.indexed_files@.len() - 1 {
                            lemma_find_fm_at(pre, pre[p].0@, p);
                        } else {
                            assert(pre[p].0@ != pre[q].0@);
                        }
                    }
                }
            },
        }
    }

    /// One incremental sweep: for each candidate file, evict vanished
    /// fingerprints, skip current files, and parse and reindex
    /// changed ones (session deletion queued before the appends);
    /// fingerprints are updated per file, one commit covers the whole
    /// batch, and the scan clock is set last.
    pub fn update_incremental(
        &mut self,
        indexer: &mut SearchIndexer,
        files: &Vec<SweepFile>,
        now_ms: i64,
        limits: &ParserLimits,
    ) -> (r: Result<(), IndexError>)
        requires
            old(self).wf(),
            limits.tool_input_max_chars >= 1,
            limits.tool_result_max_chars >= 1,
        ensures
            final(self).wf(),
            final(self).cache_dir == old(self).cache_dir,
            final(self).metadata.index_version == old(self).metadata.index_version,
            final(indexer).fields == old(indexer).fields,
            old(indexer).adds() <= final(indexer).adds(),
            old(indexer).dels() <= final(indexer).dels(),
            !(r is Ok) ==> final(self).metadata.last_full_scan_ms == old(
                self,
            ).metadata.last_full_scan_ms && final(self).metadata.total_entries == old(
                self,
            ).metadata.total_entries,
            exists|i: int|
                0 <= i <= files@.len() && (forall|k: Seq<char>|
                    find_fm(final(self).metadata.indexed_files@, k) == sweep_find(
                        old(self).metadata.indexed_files@,
                        #[trigger] files@.take(i),
                        k,
                        now_ms,
                        *limits,
                    )),
            r is Ok ==> {
                &&& forall|k: Seq<char>|
                    find_fm(final(self).metadata.indexed_files@, k) == sweep_find(
                        old(self).metadata.indexed_files@,
                        files@,
                        k,
                        now_ms,
                        *limits,
                    )
                &&& final(indexer).adds() == old(indexer).adds() + sweep_added(
                    old(self).metadata.indexed_files@,
                    files@,
                    now_ms,
                    *limits,
                )
                &&& final(indexer).dels() == old(indexer).dels() + sweep_dels(
                    old(self).metadata.indexed_files@,
                    files@,
                    now_ms,
                    *limits,
                )
                &&& final(indexer).del_terms() == old(indexer).del_terms() + sweep_del_terms(
                    old(self).metadata.indexed_files@,
                    files@,
                    now_ms,
                    *limits,
                ).map_values(
                    |term: Seq<char>| (old(indexer).fields.session_field, term),
                )
                &&& final(self).metadata.last_full_scan_ms == Some(now_ms)
                &&& final(self).metadata.total_entries == sat_add_u64(
                    old(self).metadata.total_entries as int,
                    sweep_added(old(self).metadata.indexed_files@, files@, now_ms, *limits),
                )
            },
    {
        let ghost old_files = self.metadata.indexed_files@;
        let ghost old_adds = old(indexer).adds();
        let ghost old_dels = old(indexer).dels();
        let parser = JsonlParser::new();
        let n = files.len();
        let mut added_acc: u64 = 0;
        let mut i: usize = 0;
        while i < n
            invariant
                self.wf(),
                self.cache_dir == old(self).cache_dir,
                self.metadata.index_version == old(self).metadata.index_version,
                self.metadata.total_entries == old(self).metadata.total_entries,
                self.metadata.last_full_scan_ms == old(self).metadata.last_full_scan_ms,
                old_files == old(self).metadata.indexed_files@,
                old_adds == old(indexer).adds(),
                old_dels == old(indexer).dels(),
                limits.tool_input_max_chars >= 1,
                limits.tool_result_max_chars >= 1,
                n == files@.len(),
                i <= n,
                forall|k: Seq<char>|
                    find_fm(self.metadata.indexed_files@, k) == sweep_find(
                        old_files,
                        files@.take(i as int),
                        k,
                        now_ms,
                        *limits,
                    ),
                indexer.adds() == old_adds + sweep_added(
                    old_files,
                    files@.take(i as int),
                    now_ms,
                    *limits,
                ),
                indexer.dels() == old_dels + sweep_dels(
                    old_files,
                    files@.take(i as int),
                    now_ms,
                    *limits,
                ),
                indexer.fields == old(indexer).fields,
                indexer.del_terms() == old(indexer).del_terms() + sweep_del_terms(
                    old_files,
                    files@.take(i as int),
                    now_ms,
                    *limits,
                ).map_values(
                    |term: Seq<char>| (old(indexer).fields.session_field, term),
                ),
                added_acc == sat_add_u64(
                    0,
                    sweep_added(old_files, files@.take(i as int), now_ms, *limits),
                ),
                sweep_added(old_files, files@.take(i as int), now_ms, *limits) >= 0,
            decreases n - i,
        {
            let f = &files[i];
            proof {
                assert(files@.take(i + 1).drop_last() =~= files@.take(i as int));
                assert(files@.take(i + 1).last() == files@[i as int]);
            }
            let ghost prev_fm = sweep_find(old_files, files@.take(i as int), f.path@, now_ms, *limits);
            match &f.stat {
                None => {
                    self.remove_fingerprint(f.path.as_str());
                },
                Some(st) => {
                    let needs = self.needs_indexing(f.path.as_str(), st.size, st.modified_ms);
                    if needs {
                        match &f.content {
                            None => {},
                            Some(text) => {
                                let entries = parser.parse_text(
                                    text.as_str(),
                                    f.path.as_str(),
                                    limits,
                                );
                                let cnt = entries.len();
                                proof {
                                    assert(cnt == file_entry_count(text@, *limits));
                                }
                                if cnt > 0 {
                                    let ghost seg = crate::indexer::first_segment(
                                        first_session_of(text@, *limits),
                                    );
                                    proof {
                                        let kept = kept_lines(logical_lines(text@), *limits);
                                        assert(crate::parser::entry_matches(
                                            entries@[0],
                                            kept[0],
                                            0,
                                            f.path@,
                                            *limits,
                                        ));
                                        assert(entries@[0].session_id@ == first_session_of(
                                            text@,
                                            *limits,
                                        ));
                                    }
                                    indexer.delete_session(entries[0].session_id.as_str());
                                    proof {
                                        let sf = old(indexer).fields.session_field;
                                        let pre_terms = old(indexer).del_terms()
                                            + sweep_del_terms(
                                            old_files,
                                            files@.take(i as int),
                                            now_ms,
                                            *limits,
                                        ).map_values(|term: Seq<char>| (sf, term));
                                        assert(indexer.del_terms() =~= old(indexer).del_terms()
                                            + sweep_del_terms(
                                            old_files,
                                            files@.take(i as int),
                                            now_ms,
                                            *limits,
                                        ).push(seg).map_values(
                                            |term: Seq<char>| (sf, term),
                                        ));
                                    }
                                    match indexer.append(entries) {
                                        Ok(()) => {},
                                        Err(e) => {
                                            return Err(e);
                                        },
                                    }
                                    let fm = FileMetadata {
                                        size: st.size,
                                        modified_ms: st.modified_ms,
                                        indexed_at_ms: now_ms,
                                        entry_count: cnt,
                                    };
                                    self.put_fingerprint(f.path.as_str(), fm);
                                    added_acc = if added_acc > u64::MAX - (cnt as u64) {
                                        u64::MAX
                                    } else {
                                        added_acc + (cnt as u64)
                                    };
                                } else {
                                    let blank = crate::parser::text_is_blank(text.as_str());
                                    if blank {
                                        let fm = FileMetadata {
                                            size: st.size,
                                            modified_ms: st.modified_ms,
                                            indexed_at_ms: now_ms,
                                            entry_count: 0,
                                        };
                                        self.put_fingerprint(f.path.as_str(), fm);
                                    }
                                }
                            },
                        }
                    }
                },
            }
            i = i + 1;
        }
        proof {
            assert(files@.take(n as int) =~= files@);
        }
        match indexer.commit() {
            Ok(()) => {},
            Err(e) => {
                return Err(e);
            },
        }
        let added64: u64 = added_acc;
        self.metadata.total_entries = if self.metadata.total_entries > u64::MAX - added64 {
            u64::MAX
        } else {
            self.metadata.total_entries + added64
        };
        self.metadata.last_full_scan_ms = Some(now_ms);
        Ok(())
    }

    /// Reset the sidecar state; the caller clears the index directory
    /// itself.
    pub fn clear_cache(&mut self)
        ensures
            final(self).wf(),
            final(self).metadata.indexed_files@.len() == 0,
            final(self).metadata.last_full_scan_ms is None,
            final(self).metadata.total_entries == 0,
            final(self).metadata.index_version == crate::indexer::SCHEMA_VERSION,
            final(self).cache_dir == old(self).cache_dir,
    {
        self.metadata = CacheMetadata {
            indexed_files: Vec::new(),
            last_full_scan_ms: None,
            index_version: crate::indexer::SCHEMA_VERSION,
            total_entries: 0,
        };
    }

    /// File count, rolling record count and last scan time.
    pub fn get_basic_stats(&self) -> (r: (usize, u64, Option<i64>))
        ensures
            r.0 == self.metadata.indexed_files@.len(),
            r.1 == self.metadata.total_entries,
            r.2 == self.metadata.last_full_scan_ms,
    {
        (
            self.metadata.indexed_files.len(),
            self.metadata.total_entries,
            self.metadata.last_full_scan_ms,
        )
    }
}

/// The stat recorded for `key` in an on-disk listing, if listed
/// (first occurrence).
pub open spec fn find_stat(s: Seq<(String, Option<FileStat>)>, key: Seq<char>) -> Option<
    Option<FileStat>,
>
    decreases s.len(),
{
    if s.len() == 0 {
        None
    } else if s[0].0@ == key {
        Some(s[0].1)
    } else {
        find_stat(s.drop_first(), key)
    }
}

/// A fingerprinted file is stale: it is on disk but its size or
/// modification time changed.
pub open spec fn entry_stale(
    e: (String, FileMetadata),
    files: Seq<(String, Option<FileStat>)>,
) -> bool {
    match find_stat(files, e.0@) {
        Some(Some(st)) => e.1.size != st.size || e.1.modified_ms != st.modified_ms,
        _ => false,
    }
}

/// A fingerprinted file is missing: it is no longer on disk.
pub open spec fn entry_missing(
    e: (String, FileMetadata),
    files: Seq<(String, Option<FileStat>)>,
) -> bool {
    match find_stat(files, e.0@) {
        Some(Some(st)) => false,
        _ => true,
    }
}

/// The paths of the first `k` fingerprints that satisfy `stale`
/// (or, with `!stale`, `missing`).
pub open spec fn flagged_paths(
    s: Seq<(String, FileMetadata)>,
    files: Seq<(String, Option<FileStat>)>,
    k: int,
    stale: bool,
) -> Seq<Seq<char>>
    decreases k,
{
    if k <= 0 {
        Seq::empty()
    } else {
        let pre = flagged_paths(s, files, k - 1, stale);
        if 0 <= k - 1 < s.len() && (if stale {
            entry_stale(s[k - 1], files)
        } else {
            entry_missing(s[k - 1], files)
        }) {
            pre.push(s[k - 1].0@)
        } else {
            pre
        }
    }
}

/// The paths of the first `k` listed files that have no fingerprint.
pub open spec fn new_paths(
    s: Seq<(String, FileMetadata)>,
    files: Seq<(String, Option<FileStat>)>,
    k: int,
) -> Seq<Seq<char>>
    decreases k,
{
    if k <= 0 {
        Seq::empty()
    } else {
        let pre = new_paths(s, files, k - 1);
        if 0 <= k - 1 < files.len() && find_fm(s, files[k - 1].0@) is None {
            pre.push(files[k - 1].0@)
        } else {
            pre
        }
    }
}

/// Overall index health classification.
#[derive(Clone, Copy, Debug, PartialEq, Eq, Structural)]
pub enum IndexHealthStatus {
    Healthy,
    NeedsUpdate,
    NeedsRebuild,
}

/// Result of checking index health against the on-disk corpus.
#[derive(Clone, Debug)]
pub struct IndexHealth {
    pub total_indexed_files: usize,
    pub total_entries: u64,
    pub last_indexed_ms: Option<i64>,
    pub stale_files: Vec<String>,
    pub missing_files: Vec<String>,
    pub new_files: Vec<String>,
    pub status: IndexHealthStatus,
}

impl CacheManager {
    /// Count stale and new files against an on-disk listing, without
    /// reading any file contents.
    pub fn quick_health_check(&self, files: &Vec<(String, Option<FileStat>)>) -> (r: (
        usize,
        usize,
    ))
        ensures
            r.0 as int == flagged_paths(
                self.metadata.indexed_files@,
                files@,
                self.metadata.indexed_files@.len() as int,
                true,
            ).len(),
            r.1 as int == new_paths(
                self.metadata.indexed_files@,
                files@,
                files@.len() as int,
            ).len(),
    {
        let stale = self.flagged_files(files, true);
        let fresh = self.new_file_paths(files);
        (stale.len(), fresh.len())
    }

    /// The fingerprinted paths that are stale (`stale`) or missing
    /// (`!stale`) against the listing.
    fn flagged_files(&self, files: &Vec<(String, Option<FileStat>)>, stale: bool) -> (r: Vec<
        String,
    >)
        ensures
            crate::strings::views_of(r@) == flagged_paths(
                self.metadata.indexed_files@,
                files@,
                self.metadata.indexed_files@.len() as int,
                stale,
            ),
    {
        let cached = &self.metadata.indexed_files;
        let n = cached.len();
        let mut r: Vec<String> = Vec::new();
        let mut k: usize = 0;
        while k < n
            invariant
                n == cached@.len(),
                cached@ == self.metadata.indexed_files@,
                k <= n,
                crate::strings::views_of(r@) == flagged_paths(cached@, files@, k as int, stale),
            decreases n - k,
        {
            let e = &cached[k];
            let st = lookup_stat(files, e.0.as_str());
            let flagged = if stale {
                match st {
                    Some(Some(s)) => e.1.size != s.size || e.1.modified_ms != s.modified_ms,
                    _ => false,
                }
            } else {
                match st {
                    Some(Some(_)) => false,
                    _ => true,
                }
            };
            if flagged {
                let ghost pre = crate::strings::views_of(r@);
                r.push(e.0.clone());
                proof {
                    assert(crate::strings::views_of(r@) =~= pre.push(cached@[k as int].0@));
                }
            }
            k = k + 1;
        }
        r
    }

    /// The listed paths that have no fingerprint yet.
    fn new_file_paths(&self, files: &Vec<(String, Option<FileStat>)>) -> (r: Vec<String>)
        ensures
            crate::strings::views_of(r@) == new_paths(
                self.metadata.indexed_files@,
                files@,
                files@.len() as int,
            ),
    {
        let n = files.len();
        let mut r: Vec<String> = Vec::new();
        let mut k: usize = 0;
        while k < n
            invariant
                n == files@.len(),
                k <= n,
                crate::strings::views_of(r@) == new_paths(
                    self.metadata.indexed_files@,
                    files@,
                    k as int,
                ),
            decreases n - k,
        {
            let known = match find_idx(&self.metadata.indexed_files, files[k].0.as_str()) {
                Some(_) => true,
                None => false,
            };
            if !known {
                let ghost pre = crate::strings::views_of(r@);
                r.push(files[k].0.clone());
                proof {
                    assert(crate::strings::views_of(r@) =~= pre.push(files@[k as int].0@));
                }
            }
            k = k + 1;
        }
        r
    }

    /// Full health report: stale, missing and new files, classified.
    /// A rebuild is called for when more than half the tracked files
    /// have vanished.
    pub fn check_index_health(&self, files: &Vec<(String, Option<FileStat>)>) -> (r: IndexHealth)
        ensures
            r.total_indexed_files == self.metadata.indexed_files@.len(),
            r.total_entries == self.metadata.total_entries,
            r.last_indexed_ms == self.metadata.last_full_scan_ms,
            crate::strings::views_of(r.stale_files@) == flagged_paths(
                self.metadata.indexed_files@,
                files@,
                self.metadata.indexed_files@.len() as int,
                true,
            ),
            crate::strings::views_of(r.missing_files@) == flagged_paths(
                self.metadata.indexed_files@,
                files@,
                self.metadata.indexed_files@.len() as int,
                false,
            ),
            crate::strings::views_of(r.new_files@) == new_paths(
                self.metadata.indexed_files@,
                files@,
                files@.len() as int,
            ),
            r.status == (if r.missing_files@.len() > self.metadata.indexed_files@.len() / 2 {
                IndexHealthStatus::NeedsRebuild
            } else if r.stale_files@.len() > 0 || r.new_files@.len() > 0
                || r.missing_files@.len() > 0 {
                IndexHealthStatus::NeedsUpdate
            } else {
                IndexHealthStatus::Healthy
            }),
    {
        let stale_files = self.flagged_files(files, true);
        let missing_files = self.flagged_files(files, false);
        let new_files = self.new_file_paths(files);
        let status = if missing_files.len() > self.metadata.indexed_files.len() / 2 {
            IndexHealthStatus::NeedsRebuild
        } else if stale_files.len() > 0 || new_files.len() > 0 || missing_files.len() > 0 {
            IndexHealthStatus::NeedsUpdate
        } else {
            IndexHealthStatus::Healthy
        };
        IndexHealth {
            total_indexed_files: self.metadata.indexed_files.len(),
            total_entries: self.metadata.total_entries,
            last_indexed_ms: self.metadata.last_full_scan_ms,
            stale_files,
            missing_files,
            new_files,
            status,
        }
    }
}

/// Aggregate figures of one project's fingerprints.
#[derive(Clone, Debug)]
pub struct ProjectStats {
    pub name: String,
    pub files: u64,
    pub entries: u64,
    pub last_updated_ms: i64,
}

/// Aggregate cache statistics.
#[derive(Clone, Debug)]
pub struct CacheStats {
    pub total_files: usize,
    pub total_entries: u64,
    pub last_updated_ms: Option<i64>,
    pub cache_size_bytes: u64,
    pub projects: Vec<ProjectStats>,
}

/// The view of one project statistics row.
pub open spec fn pstat_view(p: ProjectStats) -> (Seq<char>, int, int, i64) {
    (p.name@, p.files as int, p.entries as int, p.last_updated_ms)
}

/// The view of a project statistics list.
pub open spec fn pstats_views(v: Seq<ProjectStats>) -> Seq<(Seq<char>, int, int, i64)> {
    v.map_values(|p: ProjectStats| pstat_view(p))
}

/// `acc` with one fingerprint folded into its project's row (first
/// occurrence updated, new projects appended).
pub open spec fn pgroup(
    acc: Seq<(Seq<char>, int, int, i64)>,
    name: Seq<char>,
    cnt: int,
    at: i64,
) -> Seq<(Seq<char>, int, int, i64)>
    decreases acc.len(),
{
    if acc.len() == 0 {
        seq![(name, 1int, cnt, at)]
    } else if acc[0].0 == name {
        seq![
            (
                acc[0].0,
                sat_add_u64(acc[0].1, 1),
                sat_add_u64(acc[0].2, cnt),
                if at > acc[0].3 {
                    at
                } else {
                    acc[0].3
                },
            ),
        ] + acc.drop_first()
    } else {
        seq![acc[0]] + pgroup(acc.drop_first(), name, cnt, at)
    }
}

/// The per-project rows over the first `i` fingerprints, grouped by
/// the parent directory name of each path.
pub open spec fn pgroups_upto(s: Seq<(String, FileMetadata)>, i: int) -> Seq<
    (Seq<char>, int, int, i64),
>
    decreases i,
{
    if i <= 0 {
        Seq::empty()
    } else {
        pgroup(
            pgroups_upto(s, i - 1),
            crate::parser::fallback_project_of(s[i - 1].0@),
            s[i - 1].1.entry_count as int,
            s[i - 1].1.indexed_at_ms,
        )
    }
}

proof fn lemma_pgroup_at(acc: Seq<(Seq<char>, int, int, i64)>, name: Seq<char>, cnt: int, at: i64, i: int)
    requires
        0 <= i < acc.len(),
        acc[i].0 == name,
        forall|t: int| 0 <= t < i ==> (#[trigger] acc[t]).0 != name,
    ensures
        pgroup(acc, name, cnt, at) =~= acc.update(
            i,
            (
                acc[i].0,
                sat_add_u64(acc[i].1, 1),
                sat_add_u64(acc[i].2, cnt),
                if at > acc[i].3 {
                    at
                } else {
                    acc[i].3
                },
            ),
        ),
    decreases i,
{
    if i > 0 {
        lemma_pgroup_at(acc.drop_first(), name, cnt, at, i - 1);
        let e = (
            acc[i].0,
            sat_add_u64(acc[i].1, 1),
            sat_add_u64(acc[i].2, cnt),
            if at > acc[i].3 {
                at
            } else {
                acc[i].3
            },
        );
        assert(acc.update(i, e).drop_first() =~= acc.drop_first().update(i - 1, e));
    }
}

proof fn lemma_pgroup_missing(acc: Seq<(Seq<char>, int, int, i64)>, name: Seq<char>, cnt: int, at: i64)
    requires
        forall|t: int| 0 <= t < acc.len() ==> (#[trigger] acc[t]).0 != name,
    ensures
        pgroup(acc, name, cnt, at) =~= acc.push((name, 1int, cnt, at)),
    decreases acc.len(),
{
    if acc.len() > 0 {
        lemma_pgroup_missing(acc.drop_first(), name, cnt, at);
        assert(acc.push((name, 1int, cnt, at)).drop_first() =~= acc.drop_first().push(
            (name, 1int, cnt, at),
        ));
    }
}

/// Fold one fingerprint into the grouped rows.
#[verifier::loop_isolation(false)]
fn pgroup_exec(v: &mut Vec<ProjectStats>, name: &str, cnt: usize, at: i64)
    ensures
        pstats_views(final(v)@) == pgroup(pstats_views(old(v)@), name@, cnt as int, at),
{
    let ghost pre = v@;
    let n = v.len();
    let mut i: usize = 0;
    while i < n
        invariant
            v@ == pre,
            i <= n,
            forall|t: int| 0 <= t < i ==> (#[trigger] v@[t]).name@ != name@,
        decreases n - i,
    {
        if crate::strings::str_eq(v[i].name.as_str(), name) {
            let row = &v[i];
            let files = if row.files == u64::MAX {
                row.files
            } else {
                row.files + 1
            };
            let entries = if row.entries > u64::MAX - (cnt as u64) {
                u64::MAX
            } else {
                row.entries + (cnt as u64)
            };
            let last_updated_ms = if at > row.last_updated_ms {
                at
            } else {
                row.last_updated_ms
            };
            let updated = ProjectStats { name: row.name.clone(), files, entries, last_updated_ms };
            v.set(i, updated);
            proof {
                assert forall|t: int| 0 <= t < i implies (#[trigger] pstats_views(pre)[t]).0
                    != name@ by {
                    assert(pstats_views(pre)[t].0 == pre[t].name@);
                }
                assert(pstats_views(pre)[i as int].0 == pre[i as int].name@);
                lemma_pgroup_at(pstats_views(pre), name@, cnt as int, at, i as int);
                assert(pstats_views(v@) =~= pstats_views(pre).update(
                    i as int,
                    (
                        pre[i as int].name@,
                        sat_add_u64(pre[i as int].files as int, 1),
                        sat_add_u64(pre[i as int].entries as int, cnt as int),
                        if at > pre[i as int].last_updated_ms {
                            at
                        } else {
                            pre[i as int].last_updated_ms
                        },
                    ),
                ));
            }
            return ;
        }
        i = i + 1;
    }
    v.push(
        ProjectStats {
            name: name.to_owned(),
            files: 1,
            entries: cnt as u64,
            last_updated_ms: at,
        },
    );
    proof {
        assert forall|t: int| 0 <= t < pstats_views(pre).len() implies (#[trigger] pstats_views(
            pre,
        )[t]).0 != name@ by {
            assert(pstats_views(pre)[t].0 == pre[t].name@);
        }
        lemma_pgroup_missing(pstats_views(pre), name@, cnt as int, at);
        assert(pstats_views(v@) =~= pstats_views(pre).push((name@, 1int, cnt as int, at)));
    }
}

/// Project rows ordered by descending last-update time.
fn sort_pstats_desc(v: &mut Vec<ProjectStats>)
    ensures
        final(v)@.len() == old(v)@.len(),
        final(v)@.to_multiset() == old(v)@.to_multiset(),
        forall|p: int, q: int|
            0 <= p < q < final(v)@.len() ==> (#[trigger] final(v)@[p]).last_updated_ms >= (
            #[trigger] final(v)@[q]).last_updated_ms,
{
    let n = v.len();
    let mut i: usize = 1;
    while i < n && n > 0
        invariant
            n == v@.len(),
            1 <= i || n == 0,
            i <= n || n == 0,
            v@.to_multiset() == old(v)@.to_multiset(),
            forall|p: int, q: int|
                0 <= p < q < i ==> (#[trigger] v@[p]).last_updated_ms >= (
                #[trigger] v@[q]).last_updated_ms,
        decreases n - i,
    {
        let key = v[i].last_updated_ms;
        let mut j: usize = 0;
        while j < i && v[j].last_updated_ms >= key
            invariant
                i < n == v@.len(),
                j <= i,
                key == v@[i as int].last_updated_ms,
                forall|t: int| 0 <= t < j ==> (#[trigger] v@[t]).last_updated_ms >= key,
            decreases i - j,
        {
            j = j + 1;
        }
        let ghost pre = v@;
        let x = v.remove(i);
        v.insert(j, x);
        proof {
            broadcast use vstd::seq_lib::group_to_multiset_ensures, vstd::seq_lib::to_multiset_insert;

            assert(v@ =~= pre.remove(i as int).insert(j as int, pre[i as int]));
            assert(v@.to_multiset() == pre.to_multiset());
            assert forall|p: int, q: int|
                0 <= p < q < i + 1 implies (#[trigger] v@[p]).last_updated_ms >= (
                #[trigger] v@[q]).last_updated_ms by {
                if j < i {
                    assert(pre[j as int].last_updated_ms < key);
                }
                assert(forall|t: int| 0 <= t < j ==> v@[t] == pre[t]);
                assert(v@[j as int] == pre[i as int]);
                assert(forall|t: int| j < t <= i ==> v@[t] == pre[t - 1]);
            }
        }
        i = i + 1;
    }
}

impl CacheManager {
    /// Aggregate statistics: scalar totals plus per-project rows
    /// grouped by the parent directory name of each fingerprinted
    /// file, newest first. The on-disk size of the cache directory
    /// is measured by the caller.
    pub fn get_stats(&self, cache_size_bytes: u64) -> (r: CacheStats)
        ensures
            r.total_files == self.metadata.indexed_files@.len(),
            r.total_entries == self.metadata.total_entries,
            r.last_updated_ms == self.metadata.last_full_scan_ms,
            r.cache_size_bytes == cache_size_bytes,
            r.projects@.len() == pgroups_upto(
                self.metadata.indexed_files@,
                self.metadata.indexed_files@.len() as int,
            ).len(),
            forall|k: int|
                0 <= k < r.projects@.len() ==> pgroups_upto(
                    self.metadata.indexed_files@,
                    self.metadata.indexed_files@.len() as int,
                ).contains(pstat_view(#[trigger] r.projects@[k])),
            forall|p: int, q: int|
                0 <= p < q < r.projects@.len() ==> (#[trigger] r.projects@[p]).last_updated_ms
                    >= (#[trigger] r.projects@[q]).last_updated_ms,
    {
        let parser = crate::parser::JsonlParser::new();
        let files = &self.metadata.indexed_files;
        let n = files.len();
        let mut projects: Vec<ProjectStats> = Vec::new();
        let mut i: usize = 0;
        proof {
            assert(pstats_views(projects@) =~= Seq::<(Seq<char>, int, int, i64)>::empty());
        }
        while i < n
            invariant
                n == files@.len(),
                files@ == self.metadata.indexed_files@,
                i <= n,
                pstats_views(projects@) == pgroups_upto(files@, i as int),
            decreases n - i,
        {
            let name = parser.extract_project_name(files[i].0.as_str());
            pgroup_exec(&mut projects, name.as_str(), files[i].1.entry_count, files[i].1.indexed_at_ms);
            i = i + 1;
        }
        let ghost pre_sort = projects@;
        sort_pstats_desc(&mut projects);
        proof {
            broadcast use vstd::seq_lib::group_to_multiset_ensures;

            let grouped = pgroups_upto(files@, n as int);
            assert(pstats_views(pre_sort) == grouped);
            assert forall|k: int|
                0 <= k < projects@.len() implies grouped.contains(
                pstat_view(#[trigger] projects@[k]),
            ) by {
                assert(pre_sort.to_multiset().contains(projects@[k]));
                assert(pre_sort.contains(projects@[k]));
                let j = choose|j: int| 0 <= j < pre_sort.len() && pre_sort[j] == projects@[k];
                assert(grouped[j] == pstats_views(pre_sort)[j]);
                assert(grouped[j] == pstat_view(projects@[k]));
            }
        }
        CacheStats {
            total_files: self.metadata.indexed_files.len(),
            total_entries: self.metadata.total_entries,
            last_updated_ms: self.metadata.last_full_scan_ms,
            cache_size_bytes,
            projects,
        }
    }
}

/// The stat recorded for one path in the listing, if listed.
fn lookup_stat(files: &Vec<(String, Option<FileStat>)>, path: &str) -> (r: Option<
    Option<FileStat>,
>)
    ensures
        r == find_stat(files@, path@),
{
    let n = files.len();
    let mut i: usize = 0;
    proof {
        assert(files@.skip(0) =~= files@);
    }
    while i < n
        invariant
            n == files@.len(),
            i <= n,
            find_stat(files@, path@) == find_stat(files@.skip(i as int), path@),
        decreases n - i,
    {
        let ghost rest = files@.skip(i as int);
        proof {
            assert(rest[0] == files@[i as int]);
            assert(rest.drop_first() =~= files@.skip(i + 1));
        }
        if crate::strings::str_eq(files[i].0.as_str(), path) {
            return Some(files[i].1);
        }
        i = i + 1;
    }
    proof {
        assert(files@.skip(n as int) =~= Seq::<(String, Option<FileStat>)>::empty());
    }
    None
}

/// A sweep over only unchanged, present files changes nothing: no
/// index mutation is queued and every fingerprint is kept.
pub proof fn lemma_unchanged_sweep_is_noop(
    s: Seq<(String, FileMetadata)>,
    fs: Seq<SweepFile>,
    now_ms: i64,
    limits: ParserLimits,
)
    requires
        forall|i: int|
            0 <= i < fs.len() ==> {
                &&& (#[trigger] fs[i]).stat is Some
                &&& !needs_of(find_fm(s, fs[i].path@), fs[i].stat.unwrap())
            },
    ensures
        sweep_added(s, fs, now_ms, limits) == 0,
        sweep_dels(s, fs, now_ms, limits) == 0,
        sweep_del_terms(s, fs, now_ms, limits) == Seq::<Seq<char>>::empty(),
        forall|k: Seq<char>| sweep_find(s, fs, k, now_ms, limits) == find_fm(s, k),
    decreases fs.len(),
{
    if fs.len() > 0 {
        assert(forall|i: int| 0 <= i < fs.drop_last().len() ==> fs.drop_last()[i] == fs[i]);
        lemma_unchanged_sweep_is_noop(s, fs.drop_last(), now_ms, limits);
        assert(fs.last() == fs[fs.len() - 1]);
        assert(sweep_del_terms(s, fs, now_ms, limits) =~= Seq::<Seq<char>>::empty());
    }
}

/// A second sweep with the same inputs queues no index mutation and
/// keeps every fingerprint: the incremental update is idempotent.
/// Stated for candidate lists without repeated paths.
pub proof fn lemma_sweep_idempotent(
    s: Seq<(String, FileMetadata)>,
    s2: Seq<(String, FileMetadata)>,
    fs: Seq<SweepFile>,
    now_ms: i64,
    now2_ms: i64,
    limits: ParserLimits,
)
    requires
        forall|p: int, q: int|
            0 <= p < q < fs.len() ==> (#[trigger] fs[p]).path@ != (#[trigger] fs[q]).path@,
        forall|k: Seq<char>| find_fm(s2, k) == sweep_find(s, fs, k, now_ms, limits),
    ensures
        sweep_added(s2, fs, now2_ms, limits) == 0,
        sweep_dels(s2, fs, now2_ms, limits) == 0,
        sweep_del_terms(s2, fs, now2_ms, limits) == Seq::<Seq<char>>::empty(),
        forall|k: Seq<char>| sweep_find(s2, fs, k, now2_ms, limits) == find_fm(s2, k),
{
    assert forall|i: int| 0 <= i < fs.len() implies step_added(
        find_fm(s2, fs[i].path@),
        sweep_view(#[trigger] fs[i]),
        limits,
    ) == 0 && step_fm(find_fm(s2, fs[i].path@), sweep_view(fs[i]), now2_ms, limits) == find_fm(
        s2,
        fs[i].path@,
    ) by {
        let k = fs[i].path@;
        assert(find_fm(s2, k) == sweep_find(s, fs, k, now_ms, limits));
        lemma_sweep_find_localizes(s, fs, i, now_ms, limits);
    }
    lemma_stable_sweep(s2, fs, now2_ms, limits);
}

/// In a sweep without repeated paths, the fingerprint of a listed
/// path is its step result over its pre-sweep fingerprint.
proof fn lemma_sweep_find_localizes(
    s: Seq<(String, FileMetadata)>,
    fs: Seq<SweepFile>,
    i: int,
    now_ms: i64,
    limits: ParserLimits,
)
    requires
        forall|p: int, q: int|
            0 <= p < q < fs.len() ==> (#[trigger] fs[p]).path@ != (#[trigger] fs[q]).path@,
        0 <= i < fs.len(),
    ensures
        sweep_find(s, fs, fs[i].path@, now_ms, limits) == step_fm(
            find_fm(s, fs[i].path@),
            sweep_view(fs[i]),
            now_ms,
            limits,
        ),
    decreases fs.len(),
{
    let k = fs[i].path@;
    if i == fs.len() - 1 {
        lemma_sweep_find_untouched(s, fs.drop_last(), k, now_ms, limits);
    } else {
        assert(forall|p: int, q: int|
            0 <= p < q < fs.drop_last().len() ==> (#[trigger] fs.drop_last()[p]).path@ != (
            #[trigger] fs.drop_last()[q]).path@);
        assert(fs.drop_last()[i] == fs[i]);
        lemma_sweep_find_localizes(s, fs.drop_last(), i, now_ms, limits);
        assert(fs.last().path@ != k);
    }
}

/// A path listed in no candidate keeps its pre-sweep fingerprint.
proof fn lemma_sweep_find_untouched(
    s: Seq<(String, FileMetadata)>,
    fs: Seq<SweepFile>,
    k: Seq<char>,
    now_ms: i64,
    limits: ParserLimits,
)
    requires
        forall|j: int| 0 <= j < fs.len() ==> (#[trigger] fs[j]).path@ != k,
    ensures
        sweep_find(s, fs, k, now_ms, limits) == find_fm(s, k),
    decreases fs.len(),
{
    if fs.len() > 0 {
        assert(forall|j: int| 0 <= j < fs.drop_last().len() ==> fs.drop_last()[j] == fs[j]);
        lemma_sweep_find_untouched(s, fs.drop_last(), k, now_ms, limits);
        assert(fs.last() == fs[fs.len() - 1]);
    }
}

/// A sweep whose every file steps to its current fingerprint with no
/// additions changes nothing.
proof fn lemma_stable_sweep(
    s: Seq<(String, FileMetadata)>,
    fs: Seq<SweepFile>,
    now_ms: i64,
    limits: ParserLimits,
)
    requires
        forall|i: int|
            0 <= i < fs.len() ==> step_added(
                find_fm(s, (#[trigger] fs[i]).path@),
                sweep_view(fs[i]),
                limits,
            ) == 0 && step_fm(find_fm(s, fs[i].path@), sweep_view(fs[i]), now_ms, limits)
                == find_fm(s, fs[i].path@),
    ensures
        sweep_added(s, fs, now_ms, limits) == 0,
        sweep_dels(s, fs, now_ms, limits) == 0,
        sweep_del_terms(s, fs, now_ms, limits) == Seq::<Seq<char>>::empty(),
        forall|k: Seq<char>| sweep_find(s, fs, k, now_ms, limits) == find_fm(s, k),
    decreases fs.len(),
{
    if fs.len() > 0 {
        assert(forall|i: int| 0 <= i < fs.drop_last().len() ==> fs.drop_last()[i] == fs[i]);
        lemma_stable_sweep(s, fs.drop_last(), now_ms, limits);
        assert(fs.last() == fs[fs.len() - 1]);
        assert(sweep_del_terms(s, fs, now_ms, limits) =~= Seq::<Seq<char>>::empty());
    }
}

/// A sweep in which one listed file was touched and every other is
/// present and unchanged reindexes exactly that file: the sweep's
/// additions, deletions and deletion terms are that file's alone,
/// its fingerprint is its step result, and every other fingerprint
/// is kept.
pub proof fn lemma_single_touched_sweep(
    s: Seq<(String, FileMetadata)>,
    fs: Seq<SweepFile>,
    t: int,
    now_ms: i64,
    limits: ParserLimits,
)
    requires
        0 <= t < fs.len(),
        forall|i: int|
            0 <= i < fs.len() && i != t ==> {
                &&& (#[trigger] fs[i]).stat is Some
                &&& !needs_of(find_fm(s, fs[i].path@), fs[i].stat.unwrap())
            },
        forall|p: int, q: int|
            0 <= p < q < fs.len() ==> (#[trigger] fs[p]).path@ != (#[trigger] fs[q]).path@,
    ensures
        sweep_added(s, fs, now_ms, limits) == step_added(
            find_fm(s, fs[t].path@),
            sweep_view(fs[t]),
            limits,
        ),
        sweep_dels(s, fs, now_ms, limits) == step_dels(
            find_fm(s, fs[t].path@),
            sweep_view(fs[t]),
            limits,
        ),
        sweep_del_terms(s, fs, now_ms, limits) == step_del_terms(
            find_fm(s, fs[t].path@),
            sweep_view(fs[t]),
            limits,
        ),
        forall|k: Seq<char>|
            k != fs[t].path@ ==> sweep_find(s, fs, k, now_ms, limits) == find_fm(s, k),
        sweep_find(s, fs, fs[t].path@, now_ms, limits) == step_fm(
            find_fm(s, fs[t].path@),
            sweep_view(fs[t]),
            now_ms,
            limits,
        ),
    decreases fs.len(),
{
    let last = fs.len() - 1;
    let pre = fs.drop_last();
    assert(forall|i: int| 0 <= i < pre.len() ==> pre[i] == fs[i]);
    assert(fs.last() == fs[last]);
    if t == last {
        lemma_unchanged_sweep_is_noop(s, pre, now_ms, limits);
        assert(sweep_del_terms(s, fs, now_ms, limits) =~= step_del_terms(
            find_fm(s, fs[t].path@),
            sweep_view(fs[t]),
            limits,
        ));
    } else {
        lemma_single_touched_sweep(s, pre, t, now_ms, limits);
        assert(fs[last].path@ != fs[t].path@);
        let st = fs[last].stat.unwrap();
        assert(!needs_of(find_fm(s, fs[last].path@), st));
        assert(sweep_find(s, pre, fs[last].path@, now_ms, limits) == find_fm(
            s,
            fs[last].path@,
        ));
        assert(step_added(find_fm(s, fs[last].path@), sweep_view(fs[last]), limits) == 0);
        assert(step_del_terms(find_fm(s, fs[last].path@), sweep_view(fs[last]), limits)
            =~= Seq::<Seq<char>>::empty());
        assert(sweep_del_terms(s, fs, now_ms, limits) =~= sweep_del_terms(
            s,
            pre,
            now_ms,
            limits,
        ));
        assert(step_fm(find_fm(s, fs[last].path@), sweep_view(fs[last]), now_ms, limits)
            == find_fm(s, fs[last].path@));
    }
}

/// An empty (all-whitespace) file is fingerprinted with a record
/// count of zero and causes no index write.
pub proof fn lemma_empty_file_fingerprint(
    fm: Option<FileMetadata>,
    f: SweepFile,
    st: FileStat,
    now_ms: i64,
    limits: ParserLimits,
)
    requires
        f.stat == Some(st),
        f.content is Some,
        all_ws(f.content.unwrap()@),
        needs_of(fm, st),
    ensures
        step_fm(fm, sweep_view(f), now_ms, limits) matches Some(new_fm) && new_fm.entry_count
            == 0,
        step_added(fm, sweep_view(f), limits) == 0,
        step_dels(fm, sweep_view(f), limits) == 0,
{
    let text = f.content.unwrap()@;
    crate::parser::lemma_blank_text_parses_empty(text, limits);
}

/// A non-empty file whose every line is malformed yields no records
/// and keeps its old fingerprint, so it is retried next sweep.
pub proof fn lemma_malformed_file_not_fingerprinted(
    fm: Option<FileMetadata>,
    f: SweepFile,
    st: FileStat,
    now_ms: i64,
    limits: ParserLimits,
)
    requires
        f.stat == Some(st),
        f.content is Some,
        !all_ws(f.content.unwrap()@),
        file_entry_count(f.content.unwrap()@, limits) == 0,
    ensures
        step_fm(fm, sweep_view(f), now_ms, limits) == fm,
        step_added(fm, sweep_view(f), limits) == 0,
        step_dels(fm, sweep_view(f), limits) == 0,
{
}

/// A file vanished from disk is evicted from the sidecar by the next
/// sweep that lists it.
pub proof fn lemma_vanished_file_evicted(
    fm: Option<FileMetadata>,
    f: SweepFile,
    now_ms: i64,
    limits: ParserLimits,
)
    requires
        f.stat is None,
    ensures
        step_fm(fm, sweep_view(f), now_ms, limits) is None,
        step_added(fm, sweep_view(f), limits) == 0,
        step_dels(fm, sweep_view(f), limits) == 0,
{
}

} // verus!
