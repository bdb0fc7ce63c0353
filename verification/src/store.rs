//! The directory-backed store of layout records.
//!
//! The store is the in-memory image of the configuration directory: one
//! entry per file, keyed by file name.  The surrounding process scans the
//! directory once at startup and mirrors every change the store reports
//! back to disk; everything the store itself does is verified here.

use vstd::prelude::*;

use crate::errors::OverlayConfigParseError;
use crate::layout_config::{file_name_of, LayoutConfig};

verus! {

/// One file of the configuration directory as the startup scan hands it
/// over: the file's name and the record parsed from its content, `None`
/// when the file could not be read or parsed.
pub struct ScannedFile {
    pub file_name: String,
    pub record: Option<LayoutConfig>,
}

/// One entry of the store: the record standing in the file named `file_name`.
struct StoreEntry {
    file_name: String,
    record: LayoutConfig,
}

/// The set of persisted layout records, keyed by file name.
pub struct Store {
    entries: Vec<StoreEntry>,
}

/// No two entries share a file name; a directory cannot hold two files of
/// the same name, and every store operation keeps it that way.
pub open spec fn keys_unique(m: Seq<(Seq<char>, LayoutConfig)>) -> bool {
    forall|i: int, j: int| 0 <= i < j < m.len() ==> m[i].0 != m[j].0
}

/// Some entry is stored under the file name `f`.
pub open spec fn has_file(m: Seq<(Seq<char>, LayoutConfig)>, f: Seq<char>) -> bool {
    exists|i: int| 0 <= i < m.len() && m[i].0 == f
}

/// The index of the entry stored under `f`; meaningful when `has_file`
/// holds and the keys are unique.
pub open spec fn file_index(m: Seq<(Seq<char>, LayoutConfig)>, f: Seq<char>) -> int {
    choose|i: int| 0 <= i < m.len() && m[i].0 == f
}

/// The store after a record is written under file name `f`: the entry under
/// `f` is replaced if one exists, appended otherwise.
pub open spec fn store_upsert(
    m: Seq<(Seq<char>, LayoutConfig)>,
    f: Seq<char>,
    r: LayoutConfig,
) -> Seq<(Seq<char>, LayoutConfig)> {
    if has_file(m, f) {
        m.update(file_index(m, f), (f, r))
    } else {
        m.push((f, r))
    }
}

/// The store after the file named `f` is removed; unchanged when no entry
/// carries that name.
pub open spec fn store_remove(
    m: Seq<(Seq<char>, LayoutConfig)>,
    f: Seq<char>,
) -> Seq<(Seq<char>, LayoutConfig)> {
    if has_file(m, f) {
        m.remove(file_index(m, f))
    } else {
        m
    }
}

/// The record stored under the file name `f`; meaningful when `has_file`
/// holds and the keys are unique.
pub open spec fn stored_record(m: Seq<(Seq<char>, LayoutConfig)>, f: Seq<char>) -> LayoutConfig {
    m[file_index(m, f)].1
}

/// The records of the store, in entry order.
pub open spec fn records_of(m: Seq<(Seq<char>, LayoutConfig)>) -> Seq<LayoutConfig> {
    m.map_values(|p: (Seq<char>, LayoutConfig)| p.1)
}

/// The first record called `n`, scanning in entry order.
pub open spec fn find_record(
    m: Seq<(Seq<char>, LayoutConfig)>,
    n: Seq<char>,
) -> Option<LayoutConfig>
    decreases m.len(),
{
    if m.len() == 0 {
        None
    } else if m[0].1.name@ == n {
        Some(m[0].1)
    } else {
        find_record(m.drop_first(), n)
    }
}

/// Every entry sits under the file name derived from its record's name.
/// `save` and `delete` keep a canonical store canonical; a directory edited
/// by hand may not be canonical, which is why lemmas that need this state
/// it explicitly.
pub open spec fn canonical(m: Seq<(Seq<char>, LayoutConfig)>) -> bool {
    forall|i: int| 0 <= i < m.len() ==> (#[trigger] m[i]).0 == file_name_of(m[i].1.name@)
}

/// The entries a directory scan leaves in the store: exactly the files
/// whose record parsed, in scan order, each under its file name.
pub open spec fn listing_model(files: Seq<ScannedFile>) -> Seq<(Seq<char>, LayoutConfig)> {
    files.filter(|f: ScannedFile| f.record is Some).map_values(
        |f: ScannedFile| (f.file_name@, f.record->0),
    )
}

/// The file names a directory scan skips: exactly the files whose record
/// did not parse, in scan order.
pub open spec fn skipped_files(files: Seq<ScannedFile>) -> Seq<Seq<char>> {
    files.filter(|f: ScannedFile| f.record is None).map_values(|f: ScannedFile| f.file_name@)
}

impl View for Store {
    type V = Seq<(Seq<char>, LayoutConfig)>;

    /// The store as the pairs of file name and record it holds.
    closed spec fn view(&self) -> Seq<(Seq<char>, LayoutConfig)> {
        self.entries@.map_values(|e: StoreEntry| (e.file_name@, e.record))
    }
}

impl Store {
    /// The store's invariant: its file names are pairwise distinct.
    pub open spec fn wf(&self) -> bool {
        keys_unique(self@)
    }

    /// An empty store, for a directory with no record files yet.
    pub fn new() -> (r: Store)
        ensures
            r@ == Seq::<(Seq<char>, LayoutConfig)>::empty(),
            r.wf(),
    {
        let r = Store { entries: Vec::new() };
        proof {
            assert(r@ =~= Seq::<(Seq<char>, LayoutConfig)>::empty());
        }
        r
    }

    /// Every stored record, in entry order.
    pub fn list_all(&self) -> (r: Vec<LayoutConfig>)
        ensures
            r@ == records_of(self@),
    {
        let mut r: Vec<LayoutConfig> = Vec::new();
        let mut i: usize = 0;
        while i < self.entries.len()
            invariant
                0 <= i <= self.entries.len(),
                r@.len() == i,
                forall|j: int| 0 <= j < i ==> r@[j] == self@[j].1,
            decreases self.entries.len() - i,
        {
            r.push(self.entries[i].record.duplicate());
            i = i + 1;
        }
        proof {
            assert(r@ =~= records_of(self@));
        }
        r
    }

    /// The index of the entry under file name `fname`, with nothing before
    /// it carrying that name.
    fn index_of_file(&self, fname: &String) -> (r: Option<usize>)
        ensures
            match r {
                Some(i) => {
                    &&& i < self@.len()
                    &&& self@[i as int].0 == fname@
                    &&& forall|j: int| 0 <= j < i ==> self@[j].0 != fname@
                },
                None => !has_file(self@, fname@),
            },
    {
        let mut i: usize = 0;
        while i < self.entries.len()
            invariant
                0 <= i <= self.entries.len(),
                forall|j: int| 0 <= j < i ==> self@[j].0 != fname@,
            decreases self.entries.len() - i,
        {
            if self.entries[i].file_name == *fname {
                return Some(i);
            }
            i = i + 1;
        }
        None
    }

    /// The first record called `name`, or `None` when no stored record
    /// carries that name — a normal outcome, not an error.
    pub fn find_by_name(&self, name: &String) -> (r: Option<LayoutConfig>)
        ensures
            r == find_record(self@, name@),
    {
        let ghost m = self@;
        let mut i: usize = 0;
        while i < self.entries.len()
            invariant
                0 <= i <= self.entries.len(),
                m == self@,
                forall|j: int| 0 <= j < i ==> self@[j].1.name@ != name@,
            decreases self.entries.len() - i,
        {
            if self.entries[i].record.name == *name {
                let r = self.entries[i].record.duplicate();
                proof {
                    lemma_find_record_at(m, name@, i as int);
                }
                return Some(r);
            }
            i = i + 1;
        }
        proof {
            lemma_find_record_absent(m, name@);
        }
        None
    }
    /// Builds the store from one scan of the configuration directory.
    /// Exactly the files whose record parsed become entries; each skipped
    /// file is reported, never failing the listing as a whole.  A
    /// directory cannot hold two files of the same name, hence the
    /// requirement on the scan.
    pub fn from_listing(files: &Vec<ScannedFile>) -> (r: (Store, Vec<OverlayConfigParseError>))
        requires
            forall|i: int, j: int| 0 <= i < j < files@.len() ==> files@[i].file_name@
                != files@[j].file_name@,
        ensures
            r.0@ == listing_model(files@),
            r.0.wf(),
            r.1@.map_values(|e: OverlayConfigParseError| e.0@) == skipped_files(files@),
    {
        let mut entries: Vec<StoreEntry> = Vec::new();
        let mut errors: Vec<OverlayConfigParseError> = Vec::new();
        proof {
            reveal(Seq::filter);
            assert(files@.take(0) =~= Seq::<ScannedFile>::empty());
            assert(listing_model(files@.take(0)) =~= Seq::<(Seq<char>, LayoutConfig)>::empty());
            assert(skipped_files(files@.take(0)) =~= Seq::<Seq<char>>::empty());
            assert(errors@.map_values(|e: OverlayConfigParseError| e.0@) =~= Seq::<
                Seq<char>,
            >::empty());
        }
        let mut i: usize = 0;
        while i < files.len()
            invariant
                0 <= i <= files@.len(),
                entries@.map_values(|e: StoreEntry| (e.file_name@, e.record)) == listing_model(
                    files@.take(i as int),
                ),
                errors@.map_values(|e: OverlayConfigParseError| e.0@) == skipped_files(
                    files@.take(i as int),
                ),
            decreases files@.len() - i,
        {
            let ghost prefix = files@.take(i as int);
            proof {
                assert(files@.take(i + 1) =~= prefix.push(files@[i as int]));
                lemma_listing_step(prefix, files@[i as int]);
            }
            match &files[i].record {
                Some(rec) => {
                    entries.push(
                        StoreEntry { file_name: files[i].file_name.clone(), record: rec.duplicate() },
                    );
                    proof {
                        assert(entries@.map_values(|e: StoreEntry| (e.file_name@, e.record))
                            =~= listing_model(files@.take(i + 1)));
                    }
                },
                None => {
                    errors.push(OverlayConfigParseError(files[i].file_name.clone()));
                    proof {
                        assert(errors@.map_values(|e: OverlayConfigParseError| e.0@)
                            =~= skipped_files(files@.take(i + 1)));
                    }
                },
            }
            i = i + 1;
        }
        proof {
            assert(files@.take(files@.len() as int) =~= files@);
            lemma_listing_keys(files@);
        }
        (Store { entries }, errors)
    }

    /// Writes `record` under the file name derived from its current name,
    /// replacing whatever record that file held before.
    pub fn save(&mut self, record: &LayoutConfig)
        requires
            old(self).wf(),
        ensures
            final(self)@ == store_upsert(old(self)@, file_name_of(record.name@), *record),
            final(self).wf(),
    {
        let fname = record.get_file_name();
        let ghost m = self@;
        let ghost f = file_name_of(record.name@);
        let entry = StoreEntry { file_name: fname.clone(), record: record.duplicate() };
        match self.index_of_file(&fname) {
            Some(i) => {
                self.entries.set(i, entry);
                proof {
                    assert(has_file(m, f));
                    let j = file_index(m, f);
                    assert(m[j].0 == f);
                    assert(j == i);
                    assert(self@ =~= m.update(i as int, (f, *record)));
                    assert forall|p: int, q: int| 0 <= p < q < self@.len() implies self@[p].0
                        != self@[q].0 by {
                        assert(m[p].0 != m[q].0);
                    }
                }
            },
            None => {
                self.entries.push(entry);
                proof {
                    assert(self@ =~= m.push((f, *record)));
                    assert forall|p: int, q: int| 0 <= p < q < self@.len() implies self@[p].0
                        != self@[q].0 by {
                        if q < m.len() {
                            assert(m[p].0 != m[q].0);
                        } else {
                            assert(!has_file(m, f));
                            assert(m[p].0 != f);
                        }
                    }
                }
            },
        }
    }

    /// Removes the file named `file_name` from the store; reports whether
    /// such a file was there, so that a missing file can be logged and the
    /// sequence it is part of can go on.
    pub fn delete(&mut self, file_name: &String) -> (found: bool)
        requires
            old(self).wf(),
        ensures
            final(self)@ == store_remove(old(self)@, file_name@),
            found == has_file(old(self)@, file_name@),
            final(self).wf(),
    {
        let ghost m = self@;
        let ghost f = file_name@;
        match self.index_of_file(file_name) {
            Some(i) => {
                self.entries.remove(i);
                proof {
                    assert(has_file(m, f));
                    let j = file_index(m, f);
                    assert(m[j].0 == f);
                    assert(j == i);
                    assert(self@ =~= m.remove(i as int));
                    assert forall|p: int, q: int| 0 <= p < q < self@.len() implies self@[p].0
                        != self@[q].0 by {
                        let p0 = if p < i { p } else { p + 1 };
                        let q0 = if q < i { q } else { q + 1 };
                        assert(self@[p] == m[p0]);
                        assert(self@[q] == m[q0]);
                        assert(m[p0].0 != m[q0].0);
                    }
                }
                true
            },
            None => false,
        }
    }
}

/// One scanned file more extends the listing by its record when it parsed
/// and by its name in the skip list when it did not.
proof fn lemma_listing_step(s: Seq<ScannedFile>, f: ScannedFile)
    ensures
        listing_model(s.push(f)) == if f.record is Some {
            listing_model(s).push((f.file_name@, f.record->0))
        } else {
            listing_model(s)
        },
        skipped_files(s.push(f)) == if f.record is None {
            skipped_files(s).push(f.file_name@)
        } else {
            skipped_files(s)
        },
{
    reveal(Seq::filter);
    let pushed = s.push(f);
    assert(pushed.drop_last() =~= s);
    assert(pushed.last() == f);
    let kept = pushed.filter(|g: ScannedFile| g.record is Some);
    let skipped = pushed.filter(|g: ScannedFile| g.record is None);
    if f.record is Some {
        assert(kept == s.filter(|g: ScannedFile| g.record is Some).push(f));
        assert(listing_model(pushed) =~= listing_model(s).push((f.file_name@, f.record->0)));
        assert(skipped_files(pushed) =~= skipped_files(s));
    } else {
        assert(skipped == s.filter(|g: ScannedFile| g.record is None).push(f));
        assert(listing_model(pushed) =~= listing_model(s));
        assert(skipped_files(pushed) =~= skipped_files(s).push(f.file_name@));
    }
}

/// A scan of files with pairwise distinct names yields a listing with
/// pairwise distinct keys, each of them one of the scanned names.
proof fn lemma_listing_keys(files: Seq<ScannedFile>)
    requires
        forall|i: int, j: int| 0 <= i < j < files.len() ==> files[i].file_name@
            != files[j].file_name@,
    ensures
        keys_unique(listing_model(files)),
        forall|k: int| 0 <= k < listing_model(files).len() ==> exists|j: int|
            0 <= j < files.len() && (#[trigger] listing_model(files)[k]).0
                == files[j].file_name@,
    decreases files.len(),
{
    if files.len() == 0 {
        reveal(Seq::filter);
    } else {
        let s = files.drop_last();
        let f = files.last();
        assert forall|i: int, j: int| 0 <= i < j < s.len() implies s[i].file_name@
            != s[j].file_name@ by {
            assert(files[i].file_name@ != files[j].file_name@);
        }
        lemma_listing_keys(s);
        lemma_listing_step(s, f);
        assert(s.push(f) =~= files);
        let m = listing_model(files);
        let ms = listing_model(s);
        if f.record is Some {
            assert(m == ms.push((f.file_name@, f.record->0)));
            assert forall|p: int, q: int| 0 <= p < q < m.len() implies m[p].0 != m[q].0 by {
                if q < ms.len() {
                    assert(ms[p].0 != ms[q].0);
                } else {
                    let j = choose|j: int|
                        0 <= j < s.len() && (#[trigger] ms[p]).0 == s[j].file_name@;
                    assert(files[j].file_name@ != files[files.len() - 1].file_name@);
                }
            }
            assert forall|k: int| 0 <= k < m.len() implies exists|j: int|
                0 <= j < files.len() && (#[trigger] m[k]).0 == files[j].file_name@ by {
                if k < ms.len() {
                    let j = choose|j: int|
                        0 <= j < s.len() && (#[trigger] ms[k]).0 == s[j].file_name@;
                    assert(0 <= j < files.len() && m[k].0 == files[j].file_name@);
                } else {
                    assert(m[k].0 == files[files.len() - 1].file_name@);
                }
            }
        } else {
            assert(m == ms);
            assert forall|k: int| 0 <= k < m.len() implies exists|j: int|
                0 <= j < files.len() && (#[trigger] m[k]).0 == files[j].file_name@ by {
                let j = choose|j: int| 0 <= j < s.len() && (#[trigger] ms[k]).0 == s[j].file_name@;
                assert(0 <= j < files.len() && m[k].0 == files[j].file_name@);
            }
        }
    }
}

/// When nothing before index `i` is called `n` and the entry at `i` is,
/// the scan finds exactly that entry.
proof fn lemma_find_record_at(m: Seq<(Seq<char>, LayoutConfig)>, n: Seq<char>, i: int)
    requires
        0 <= i < m.len(),
        m[i].1.name@ == n,
        forall|j: int| 0 <= j < i ==> m[j].1.name@ != n,
    ensures
        find_record(m, n) == Some(m[i].1),
    decreases i,
{
    if i == 0 {
    } else {
        lemma_find_record_at(m.drop_first(), n, i - 1);
    }
}

/// When no entry is called `n`, the scan finds nothing.
proof fn lemma_find_record_absent(m: Seq<(Seq<char>, LayoutConfig)>, n: Seq<char>)
    requires
        forall|j: int| 0 <= j < m.len() ==> m[j].1.name@ != n,
    ensures
        find_record(m, n) is None,
    decreases m.len(),
{
    if m.len() == 0 {
    } else {
        lemma_find_record_absent(m.drop_first(), n);
    }
}

/// After a write under `f`, the store holds exactly the written record
/// under `f`, and its keys stay pairwise distinct.
pub proof fn lemma_upsert_stored(m: Seq<(Seq<char>, LayoutConfig)>, f: Seq<char>, r: LayoutConfig)
    requires
        keys_unique(m),
    ensures
        keys_unique(store_upsert(m, f, r)),
        has_file(store_upsert(m, f, r), f),
        stored_record(store_upsert(m, f, r), f) == r,
        store_upsert(m, f, r).len() == if has_file(m, f) {
            m.len()
        } else {
            m.len() + 1
        },
{
    let m2 = store_upsert(m, f, r);
    if has_file(m, f) {
        let i = file_index(m, f);
        assert(m[i].0 == f);
        assert(m2[i].0 == f);
        assert(has_file(m2, f));
        let j = file_index(m2, f);
        assert(m2[j].0 == f);
        if j != i {
            assert(m[j].0 == f);
            assert(false);
        }
    } else {
        let i = m.len() as int;
        assert(m2[i].0 == f);
        assert(has_file(m2, f));
        assert forall|p: int, q: int| 0 <= p < q < m2.len() implies m2[p].0 != m2[q].0 by {
            if q < m.len() {
                assert(m[p].0 != m[q].0);
            } else {
                assert(m[p].0 != f);
            }
        }
        let j = file_index(m2, f);
        assert(m2[j].0 == f);
        if j != i {
            assert(m[j].0 == f);
            assert(false);
        }
    }
}

/// After a removal of `f`, no entry sits under `f` any more, and the keys
/// stay pairwise distinct.
pub proof fn lemma_remove_removes(m: Seq<(Seq<char>, LayoutConfig)>, f: Seq<char>)
    requires
        keys_unique(m),
    ensures
        keys_unique(store_remove(m, f)),
        !has_file(store_remove(m, f), f),
{
    if has_file(m, f) {
        let i = file_index(m, f);
        assert(m[i].0 == f);
        let m2 = store_remove(m, f);
        assert forall|k: int| 0 <= k < m2.len() implies m2[k].0 != f by {
            let k0 = if k < i { k } else { k + 1 };
            assert(m2[k] == m[k0]);
            if k0 < i {
                assert(m[k0].0 != m[i].0);
            } else {
                assert(m[i].0 != m[k0].0);
            }
        }
        assert forall|p: int, q: int| 0 <= p < q < m2.len() implies m2[p].0 != m2[q].0 by {
            let p0 = if p < i { p } else { p + 1 };
            let q0 = if q < i { q } else { q + 1 };
            assert(m2[p] == m[p0]);
            assert(m2[q] == m[q0]);
            assert(m[p0].0 != m[q0].0);
        }
    }
}

/// Removing one file leaves every other file in place, with its record.
pub proof fn lemma_remove_keeps(
    m: Seq<(Seq<char>, LayoutConfig)>,
    f: Seq<char>,
    g: Seq<char>,
)
    requires
        keys_unique(m),
        g != f,
        has_file(m, g),
    ensures
        has_file(store_remove(m, f), g),
        stored_record(store_remove(m, f), g) == stored_record(m, g),
{
    let i = file_index(m, g);
    assert(m[i].0 == g);
    if has_file(m, f) {
        let j = file_index(m, f);
        assert(m[j].0 == f);
        assert(i != j);
        let m2 = store_remove(m, f);
        let i2 = if i < j { i } else { i - 1 };
        assert(m2[i2] == m[i]);
        assert(has_file(m2, g));
        let k = file_index(m2, g);
        assert(m2[k].0 == g);
        let k0 = if k < j { k } else { k + 1 };
        assert(m2[k] == m[k0]);
        if k0 != i {
            assert(m[k0].0 != m[i].0);
            assert(false);
        }
    }
}

/// A save keeps the store canonical: the one entry it touches sits under
/// the file name derived from the saved record's name.
pub proof fn lemma_save_keeps_canonical(m: Seq<(Seq<char>, LayoutConfig)>, r: LayoutConfig)
    requires
        canonical(m),
    ensures
        canonical(store_upsert(m, file_name_of(r.name@), r)),
{
}

/// A delete keeps the store canonical: it only takes an entry away.
pub proof fn lemma_delete_keeps_canonical(m: Seq<(Seq<char>, LayoutConfig)>, f: Seq<char>)
    requires
        canonical(m),
    ensures
        canonical(store_remove(m, f)),
{
    if has_file(m, f) {
        let i = file_index(m, f);
        let m2 = store_remove(m, f);
        assert forall|k: int| 0 <= k < m2.len() implies (#[trigger] m2[k]).0 == file_name_of(
            m2[k].1.name@,
        ) by {
            let k0 = if k < i { k } else { k + 1 };
            assert(m2[k] == m[k0]);
        }
    }
}

/// Saving a valid record and then looking its name up finds exactly that
/// record.  The store must satisfy its invariants: distinct file names,
/// and every entry under the file name its record's name derives — without
/// the latter, an entry of the same record name parked under a foreign
/// file name would shadow the saved record in the scan.
pub proof fn lemma_save_then_find(m: Seq<(Seq<char>, LayoutConfig)>, r: LayoutConfig)
    requires
        keys_unique(m),
        canonical(m),
        r.name@.len() > 0,
    ensures
        find_record(store_upsert(m, file_name_of(r.name@), r), r.name@) == Some(r),
{
    let n = r.name@;
    let f = file_name_of(n);
    let m2 = store_upsert(m, f, r);
    if has_file(m, f) {
        let i = file_index(m, f);
        assert(m[i].0 == f);
        assert forall|j: int| 0 <= j < i implies m2[j].1.name@ != n by {
            assert(m[j].0 == file_name_of(m[j].1.name@));
            assert(m[j].0 != m[i].0);
        }
        lemma_find_record_at(m2, n, i);
    } else {
        assert forall|j: int| 0 <= j < m.len() implies m2[j].1.name@ != n by {
            assert(m[j].0 == file_name_of(m[j].1.name@));
            if m[j].1.name@ == n {
                assert(m[j].0 == f);
            }
        }
        lemma_find_record_at(m2, n, m.len() as int);
    }
}

/// One malformed file never costs the others: the records a scan leaves in
/// the store are exactly those of the files that parsed, in scan order.
pub proof fn lemma_listing_keeps_valid(files: Seq<ScannedFile>)
    ensures
        records_of(listing_model(files)) == files.filter(|f: ScannedFile| f.record is Some)
            .map_values(|f: ScannedFile| f.record->0),
    decreases files.len(),
{
    reveal(Seq::filter);
    if files.len() == 0 {
        assert(records_of(listing_model(files)) =~= files.filter(
            |f: ScannedFile| f.record is Some,
        ).map_values(|f: ScannedFile| f.record->0));
    } else {
        let s = files.drop_last();
        let f = files.last();
        lemma_listing_keeps_valid(s);
        lemma_listing_step(s, f);
        assert(s.push(f) =~= files);
        if f.record is Some {
            assert(records_of(listing_model(files)) =~= files.filter(
                |g: ScannedFile| g.record is Some,
            ).map_values(|g: ScannedFile| g.record->0));
        } else {
            assert(records_of(listing_model(files)) =~= files.filter(
                |g: ScannedFile| g.record is Some,
            ).map_values(|g: ScannedFile| g.record->0));
        }
    }
}

/// The record called `overlay_name`, or the store's miss message.  A miss
/// is expected control flow: the caller branches on it.
pub fn get_layout_by_name(store: &Store, overlay_name: &str) -> (r: Result<
    LayoutConfig,
    String,
>)
    ensures
        match r {
            Ok(rec) => find_record(store@, overlay_name@) == Some(rec),
            Err(msg) => {
                &&& find_record(store@, overlay_name@) is None
                &&& msg@ == "Could not find the overlay !"@
            },
        },
{
    let name: String = overlay_name.to_owned();
    match store.find_by_name(&name) {
        Some(rec) => Ok(rec),
        None => Err("Could not find the overlay !".to_owned()),
    }
}

} // verus!
