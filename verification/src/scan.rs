//! The two scan passes: building the master index and detecting duplicates.
//!
//! Both passes consume a listing of filesystem entries, each reduced to the
//! plain facts the algorithm reads: the full path, the final path component,
//! and whether the entry is a regular file. The first pass collects the
//! identifiers of the master tree into a set; the second marks every input
//! file whose identifier that set already holds.

use vstd::prelude::*;

use crate::extract::Matcher;
use crate::extract::spec_extract;

verus! {

/// One entry of a directory listing, reduced to what the scan reads: where
/// the entry is, its filename (final path component), and whether it is a
/// regular file. Anything else (directories, links, devices) is skipped.
pub struct ScanEntry {
    pub path: String,
    pub filename: String,
    pub is_file: bool,
}

/// A set of strings, kept as a vector without duplicates. It stands in for
/// both the master index (a set of identifiers) and the duplicate record
/// collection (a set of paths): in each, one entry per distinct string,
/// however often the string is offered.
pub struct StringSet {
    entries: Vec<String>,
}

/// The master index: the set of identifiers seen among the master tree's
/// regular files. Built to completion before detection runs; detection only
/// reads it.
pub type MasterIndex = StringSet;

/// The duplicate record collection: the set of input-tree paths whose
/// identifier the master index holds, deduplicated by path.
pub type DuplicateSet = StringSet;

impl StringSet {
    /// The mathematical set of strings held.
    pub closed spec fn view(&self) -> Set<Seq<char>> {
        self.entries@.map_values(|s: String| s@).to_set()
    }

    /// Internal invariant: no string is stored twice, so the vector's length
    /// is the set's cardinality.
    pub closed spec fn wf(&self) -> bool {
        self.entries@.map_values(|s: String| s@).no_duplicates()
    }

    pub fn new() -> (s: StringSet)
        ensures
            s.wf(),
            s@ == Set::<Seq<char>>::empty(),
    {
        let s = StringSet { entries: Vec::new() };
        proof {
            assert(s@ =~= Set::<Seq<char>>::empty());
        }
        s
    }

    pub fn contains(&self, x: &String) -> (r: bool)
        ensures
            r == self@.contains(x@),
    {
        let mut i: usize = 0;
        while i < self.entries.len()
            invariant
                i <= self.entries@.len(),
                forall|j: int| 0 <= j < i ==> self.entries@[j]@ != x@,
            decreases self.entries@.len() - i,
        {
            if self.entries[i] == *x {
                proof {
                    let m = self.entries@.map_values(|s: String| s@);
                    assert(m[i as int] == x@);
                    assert(m.contains(x@));
                }
                return true;
            }
            i += 1;
        }
        proof {
            let m = self.entries@.map_values(|s: String| s@);
            if m.contains(x@) {
                let j = choose|j: int| 0 <= j < m.len() && m[j] == x@;
                assert(self.entries@[j]@ != x@);
            }
        }
        false
    }

    /// Puts `x` into the set. Offering a string the set already holds leaves
    /// the set as it was: duplicates collapse silently into one entry.
    pub fn insert(&mut self, x: String)
        requires
            old(self).wf(),
        ensures
            final(self).wf(),
            final(self)@ == old(self)@.insert(x@),
    {
        let present = self.contains(&x);
        if !present {
            let ghost prev = self.entries@.map_values(|s: String| s@);
            self.entries.push(x);
            proof {
                let cur = self.entries@.map_values(|s: String| s@);
                assert(cur =~= prev.push(x@));
                prev.lemma_push_to_set_commute(x@);
                assert(self@ =~= old(self)@.insert(x@));
                assert(!prev.contains(x@));
                assert forall|a: int, b: int|
                    0 <= a < cur.len() && 0 <= b < cur.len() && a != b implies cur[a] != cur[b] by {
                    if a < prev.len() && b < prev.len() {
                    } else if b == prev.len() {
                        if cur[a] == x@ {
                            assert(prev[a] == x@);
                            assert(prev.contains(x@));
                        }
                    } else {
                        if cur[b] == x@ {
                            assert(prev[b] == x@);
                            assert(prev.contains(x@));
                        }
                    }
                }
            }
        } else {
            proof {
                assert(self@ =~= old(self)@.insert(x@));
            }
        }
    }

    /// How many distinct strings the set holds.
    pub fn len(&self) -> (n: usize)
        requires
            self.wf(),
        ensures
            n == self@.len(),
    {
        proof {
            self.entries@.map_values(|s: String| s@).unique_seq_to_set();
        }
        self.entries.len()
    }

    /// The strings as a vector, one per distinct string, in storage order.
    pub fn to_vec(&self) -> (v: Vec<String>)
        requires
            self.wf(),
        ensures
            v.deep_view().to_set() == self@,
            v.deep_view().no_duplicates(),
            v.deep_view().len() == self@.len(),
    {
        let mut v: Vec<String> = Vec::new();
        let mut i: usize = 0;
        while i < self.entries.len()
            invariant
                i <= self.entries@.len(),
                v.deep_view() =~= self.entries@.map_values(|s: String| s@).subrange(0, i as int),
            decreases self.entries@.len() - i,
        {
            let ghost prev = v.deep_view();
            v.push(self.entries[i].clone());
            proof {
                assert(v.deep_view() =~= prev.push(self.entries@[i as int]@));
            }
            i += 1;
        }
        proof {
            let m = self.entries@.map_values(|s: String| s@);
            assert(v.deep_view() =~= m);
            m.unique_seq_to_set();
        }
        v
    }
}

/// The identifiers of the master listing: those extracted from the filename
/// of each regular-file entry, collected as a set.
pub open spec fn master_ids(entries: Seq<ScanEntry>) -> Set<Seq<char>>
    decreases entries.len(),
{
    if entries.len() == 0 {
        Set::empty()
    } else {
        let rest = master_ids(entries.drop_last());
        let e = entries.last();
        if e.is_file {
            match spec_extract(e.filename@) {
                Some(id) => rest.insert(id),
                None => rest,
            }
        } else {
            rest
        }
    }
}

/// Whether one listing entry counts as a duplicate against a set of known
/// identifiers: it is a regular file, an identifier can be extracted from its
/// filename, and that identifier is known.
pub open spec fn is_dup_entry(e: ScanEntry, master: Set<Seq<char>>) -> bool {
    e.is_file && match spec_extract(e.filename@) {
        Some(id) => master.contains(id),
        None => false,
    }
}

/// The paths of the duplicate entries of a listing, as a set.
pub open spec fn dup_paths(entries: Seq<ScanEntry>, master: Set<Seq<char>>) -> Set<Seq<char>>
    decreases entries.len(),
{
    if entries.len() == 0 {
        Set::empty()
    } else {
        let rest = dup_paths(entries.drop_last(), master);
        let e = entries.last();
        if is_dup_entry(e, master) {
            rest.insert(e.path@)
        } else {
            rest
        }
    }
}

/// First pass: collect the identifiers of the master tree. Entries that are
/// not regular files, and filenames without an identifier, are skipped
/// silently; nothing is printed, written or deleted.
pub fn build_master_index(matcher: &Matcher, entries: &Vec<ScanEntry>) -> (m: MasterIndex)
    ensures
        m.wf(),
        m@ == master_ids(entries@),
{
    let mut m = StringSet::new();
    let mut i: usize = 0;
    while i < entries.len()
        invariant
            i <= entries@.len(),
            m.wf(),
            m@ == master_ids(entries@.subrange(0, i as int)),
        decreases entries@.len() - i,
    {
        let ghost prefix = entries@.subrange(0, i as int);
        let e = &entries[i];
        if e.is_file {
            match matcher.image_number(e.filename.as_str()) {
                Some(id) => m.insert(id),
                None => (),
            }
        }
        proof {
            let next = entries@.subrange(0, i as int + 1);
            assert(next.drop_last() =~= prefix);
            assert(next.last() == entries@[i as int]);
        }
        i += 1;
    }
    proof {
        assert(entries@.subrange(0, entries@.len() as int) =~= entries@);
    }
    m
}

/// One step of the second pass. When `entry` is a duplicate against
/// `master`, its path joins `dups` and the step reports `true`, so a caller
/// may announce the find at once; otherwise `dups` is untouched. Whether the
/// caller announces or stays quiet has no bearing on `dups`.
pub fn process_input_entry(
    matcher: &Matcher,
    master: &MasterIndex,
    dups: &mut DuplicateSet,
    entry: &ScanEntry,
) -> (is_dup: bool)
    requires
        old(dups).wf(),
    ensures
        final(dups).wf(),
        is_dup == is_dup_entry(*entry, master@),
        final(dups)@ == if is_dup_entry(*entry, master@) {
            old(dups)@.insert(entry.path@)
        } else {
            old(dups)@
        },
{
    if !entry.is_file {
        return false;
    }
    match matcher.image_number(entry.filename.as_str()) {
        Some(id) => {
            if master.contains(&id) {
                dups.insert(entry.path.clone());
                true
            } else {
                false
            }
        },
        None => false,
    }
}

/// Second pass: the duplicate records of the input listing, given the
/// completed master index. The index is only read, never changed.
pub fn detect_duplicates(matcher: &Matcher, master: &MasterIndex, entries: &Vec<ScanEntry>) -> (d:
    DuplicateSet)
    ensures
        d.wf(),
        d@ == dup_paths(entries@, master@),
{
    let mut d = StringSet::new();
    let mut i: usize = 0;
    while i < entries.len()
        invariant
            i <= entries@.len(),
            d.wf(),
            d@ == dup_paths(entries@.subrange(0, i as int), master@),
        decreases entries@.len() - i,
    {
        let ghost prefix = entries@.subrange(0, i as int);
        let e = &entries[i];
        process_input_entry(matcher, master, &mut d, e);
        proof {
            let next = entries@.subrange(0, i as int + 1);
            assert(next.drop_last() =~= prefix);
            assert(next.last() == entries@[i as int]);
        }
        i += 1;
    }
    proof {
        assert(entries@.subrange(0, entries@.len() as int) =~= entries@);
    }
    d
}

/// The paths announced on the console during detection, in discovery
/// order: one announcement per duplicate entry of the listing, repeats
/// included. Quiet mode suppresses these and nothing else.
pub open spec fn announced_paths(entries: Seq<ScanEntry>, master: Set<Seq<char>>) -> Seq<Seq<char>>
    decreases entries.len(),
{
    if entries.len() == 0 {
        Seq::empty()
    } else {
        let rest = announced_paths(entries.drop_last(), master);
        let e = entries.last();
        if is_dup_entry(e, master) {
            rest.push(e.path@)
        } else {
            rest
        }
    }
}

/// A finished detection pass: the duplicate records, and the console
/// announcements made along the way (empty when quiet mode was on).
pub struct Detection {
    pub duplicates: DuplicateSet,
    pub announcements: Vec<String>,
}

/// Second pass with console policy: detects duplicates and records what is
/// announced. The duplicate set never depends on `quiet`: quiet mode changes
/// only the announcements.
pub fn run_detection(
    matcher: &Matcher,
    master: &MasterIndex,
    entries: &Vec<ScanEntry>,
    quiet: bool,
) -> (d: Detection)
    ensures
        d.duplicates.wf(),
        d.duplicates@ == dup_paths(entries@, master@),
        quiet ==> d.announcements@.len() == 0,
        !quiet ==> d.announcements.deep_view() == announced_paths(entries@, master@),
{
    let mut dups = StringSet::new();
    let mut announcements: Vec<String> = Vec::new();
    let mut i: usize = 0;
    while i < entries.len()
        invariant
            i <= entries@.len(),
            dups.wf(),
            dups@ == dup_paths(entries@.subrange(0, i as int), master@),
            quiet ==> announcements@.len() == 0,
            !quiet ==> announcements.deep_view() =~= announced_paths(
            entries@.subrange(0, i as int),
            master@,
        ),
        decreases entries@.len() - i,
    {
        let ghost prefix = entries@.subrange(0, i as int);
        let ghost prev = announcements.deep_view();
        let e = &entries[i];
        let is_dup = process_input_entry(matcher, master, &mut dups, e);
        if is_dup && !quiet {
            announcements.push(e.path.clone());
            proof {
                assert(announcements.deep_view() =~= prev.push(entries@[i as int].path@));
            }
        }
        proof {
            let next = entries@.subrange(0, i as int + 1);
            assert(next.drop_last() =~= prefix);
            assert(next.last() == entries@[i as int]);
        }
        i += 1;
    }
    proof {
        assert(entries@.subrange(0, entries@.len() as int) =~= entries@);
    }
    Detection { duplicates: dups, announcements }
}

/// A path is a duplicate record exactly when some listing entry put it
/// there: a regular file at that path whose filename's identifier the master
/// set holds — never otherwise.
pub proof fn lemma_duplicate_characterization(
    entries: Seq<ScanEntry>,
    master: Set<Seq<char>>,
    p: Seq<char>,
)
    ensures
        dup_paths(entries, master).contains(p) <==> exists|i: int|
            0 <= i < entries.len() && is_dup_entry(entries[i], master) && entries[i].path@ == p,
    decreases entries.len(),
{
    if entries.len() > 0 {
        lemma_duplicate_characterization(entries.drop_last(), master, p);
        let last = entries.len() - 1;
        if dup_paths(entries, master).contains(p) {
            if is_dup_entry(entries[last], master) && entries[last].path@ == p {
                assert(0 <= last < entries.len() && is_dup_entry(entries[last], master)
                    && entries[last].path@ == p);
            } else {
                let i = choose|i: int|
                    0 <= i < entries.drop_last().len() && is_dup_entry(
                        entries.drop_last()[i],
                        master,
                    ) && entries.drop_last()[i].path@ == p;
                assert(entries[i] == entries.drop_last()[i]);
            }
        }
        if exists|i: int|
            0 <= i < entries.len() && is_dup_entry(entries[i], master) && entries[i].path@ == p {
            let i = choose|i: int|
                0 <= i < entries.len() && is_dup_entry(entries[i], master) && entries[i].path@
                    == p;
            if i < last {
                assert(entries.drop_last()[i] == entries[i]);
                assert(dup_paths(entries.drop_last(), master).contains(p));
            }
        }
    }
}

/// An identifier is in the master index exactly when some master entry put
/// it there: a regular file whose filename carries that identifier.
pub proof fn lemma_master_ids_characterization(entries: Seq<ScanEntry>, id: Seq<char>)
    ensures
        master_ids(entries).contains(id) <==> exists|i: int|
            0 <= i < entries.len() && entries[i].is_file && spec_extract(entries[i].filename@)
                == Some(id),
    decreases entries.len(),
{
    if entries.len() > 0 {
        lemma_master_ids_characterization(entries.drop_last(), id);
        let last = entries.len() - 1;
        if master_ids(entries).contains(id) {
            if entries[last].is_file && spec_extract(entries[last].filename@) == Some(id) {
                assert(0 <= last < entries.len());
            } else if master_ids(entries.drop_last()).contains(id) {
                let i = choose|i: int|
                    0 <= i < entries.drop_last().len() && entries.drop_last()[i].is_file
                        && spec_extract(entries.drop_last()[i].filename@) == Some(id);
                assert(entries[i] == entries.drop_last()[i]);
            }
        }
        if exists|i: int|
            0 <= i < entries.len() && entries[i].is_file && spec_extract(entries[i].filename@)
                == Some(id) {
            let i = choose|i: int|
                0 <= i < entries.len() && entries[i].is_file && spec_extract(entries[i].filename@)
                    == Some(id);
            if i < last {
                assert(entries.drop_last()[i] == entries[i]);
                assert(master_ids(entries.drop_last()).contains(id));
            }
        }
    }
}

/// A master listing can never yield more index entries than it has entries,
/// and the index is a finite set: each entry contributes at most one
/// identifier.
pub proof fn lemma_master_ids_bounds(entries: Seq<ScanEntry>)
    ensures
        master_ids(entries).finite(),
        master_ids(entries).len() <= entries.len(),
    decreases entries.len(),
{
    if entries.len() > 0 {
        lemma_master_ids_bounds(entries.drop_last());
    }
}

/// An input listing can never yield more duplicate records than it has
/// entries, and the record collection is a finite set.
pub proof fn lemma_dup_paths_bounds(entries: Seq<ScanEntry>, master: Set<Seq<char>>)
    ensures
        dup_paths(entries, master).finite(),
        dup_paths(entries, master).len() <= entries.len(),
    decreases entries.len(),
{
    if entries.len() > 0 {
        lemma_dup_paths_bounds(entries.drop_last(), master);
    }
}

/// Two master files sharing an identifier produce one index entry, not two:
/// adding an identifier a second time changes nothing.
pub proof fn lemma_master_insert_idempotent(s: Set<Seq<char>>, id: Seq<char>)
    ensures
        s.insert(id).insert(id) == s.insert(id),
{
    assert(s.insert(id).insert(id) =~= s.insert(id));
}

/// A further master file whose identifier the index already holds leaves
/// the index exactly as it was: within-master duplicates collapse silently.
pub proof fn lemma_master_duplicate_adds_nothing(entries: Seq<ScanEntry>, e: ScanEntry)
    requires
        e.is_file ==> match spec_extract(e.filename@) {
            Some(id) => master_ids(entries).contains(id),
            None => true,
        },
    ensures
        master_ids(entries.push(e)) == master_ids(entries),
{
    let s = entries.push(e);
    assert(s.drop_last() =~= entries);
    assert(s.last() == e);
    if e.is_file {
        match spec_extract(e.filename@) {
            Some(id) => {
                assert(master_ids(entries).insert(id) =~= master_ids(entries));
            },
            None => {},
        }
    }
}

} // verus!
