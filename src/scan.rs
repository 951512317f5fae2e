//! The process scanner: picks, out of the entries of the process
//! introspection directory, the processes whose command line holds a name.
use vstd::prelude::*;

use crate::text::{all_digits, contains, contains_spec, parse_pid, pid_of_spec};

verus! {

/// One entry of the process introspection directory, as it was read.
pub struct ProcEntry {
    /// The entry's file name.
    pub name: String,
    /// Whether the entry is a directory.
    pub is_dir: bool,
    /// The entry's command-line record, or `None` where it could not be read
    /// (the process went away, or permission was denied).
    pub cmdline: Option<String>,
}

/// A live process whose command line matched a scan.
pub struct ProcessRecord {
    pub pid: u32,
    pub cmdline: String,
}

/// What a scan sees of an entry.
pub struct EntryView {
    pub name: Seq<char>,
    pub is_dir: bool,
    pub cmdline: Option<Seq<char>>,
}

/// What a caller sees of a record.
pub struct RecordView {
    pub pid: u32,
    pub cmdline: Seq<char>,
}

impl View for ProcEntry {
    type V = EntryView;

    open spec fn view(&self) -> EntryView {
        EntryView {
            name: self.name@,
            is_dir: self.is_dir,
            cmdline: match self.cmdline {
                Some(c) => Some(c@),
                None => None,
            },
        }
    }
}

impl View for ProcessRecord {
    type V = RecordView;

    open spec fn view(&self) -> RecordView {
        RecordView { pid: self.pid, cmdline: self.cmdline@ }
    }
}

pub open spec fn entries_view(es: Seq<ProcEntry>) -> Seq<EntryView> {
    es.map_values(|e: ProcEntry| e@)
}

pub open spec fn records_view(rs: Seq<ProcessRecord>) -> Seq<RecordView> {
    rs.map_values(|r: ProcessRecord| r@)
}

/// An entry is a live process matching `needle`: a directory whose name is a
/// process identifier, whose command line could be read and holds `needle`.
pub open spec fn accepted(e: EntryView, needle: Seq<char>) -> bool {
    &&& e.is_dir
    &&& pid_of_spec(e.name) is Some
    &&& e.cmdline is Some
    &&& contains_spec(e.cmdline->0, needle)
}

/// The record that an accepted entry yields.
pub open spec fn record_of(e: EntryView) -> RecordView {
    RecordView { pid: pid_of_spec(e.name)->0, cmdline: e.cmdline->0 }
}

/// The records of the accepted entries, in the order of the entries.
pub open spec fn matching(es: Seq<EntryView>, needle: Seq<char>) -> Seq<RecordView>
    decreases es.len(),
{
    if es.len() == 0 {
        Seq::empty()
    } else {
        let rest = matching(es.drop_last(), needle);
        if accepted(es.last(), needle) {
            rest.push(record_of(es.last()))
        } else {
            rest
        }
    }
}

/// Finds the processes whose command line holds `needle`. Entries that are no
/// process, or that could not be read, are skipped; the scan never fails.
pub fn find_processes(entries: &Vec<ProcEntry>, needle: &str) -> (r: Vec<ProcessRecord>)
    ensures
        records_view(r@) == matching(entries_view(entries@), needle@),
{
    let mut out: Vec<ProcessRecord> = Vec::new();
    let mut i: usize = 0;
    while i < entries.len()
        invariant
            i <= entries@.len(),
            records_view(out@) == matching(entries_view(entries@.take(i as int)), needle@),
        decreases entries@.len() - i,
    {
        let e = &entries[i];
        assert(entries_view(entries@.take(i + 1)).drop_last() =~= entries_view(
            entries@.take(i as int),
        ));
        assert(entries_view(entries@.take(i + 1)).last() == e@);
        if e.is_dir {
            match parse_pid(e.name.as_str()) {
                Some(pid) => {
                    match &e.cmdline {
                        Some(c) => {
                            if contains(c.as_str(), needle) {
                                out.push(ProcessRecord { pid, cmdline: c.clone() });
                                assert(records_view(out@) =~= records_view(
                                    out@.drop_last(),
                                ).push(out@.last()@));
                            }
                        },
                        None => {},
                    }
                },
                None => {},
            }
        }
        i = i + 1;
    }
    assert(entries@.take(entries@.len() as int) =~= entries@);
    out
}

/// Every record of a scan comes from an accepted entry, and every accepted
/// entry gives a record: a scan returns exactly the matching processes.
pub proof fn lemma_matching_exact(es: Seq<EntryView>, needle: Seq<char>, rec: RecordView)
    ensures
        matching(es, needle).contains(rec) <==> exists|j: int|
            0 <= j < es.len() && accepted(#[trigger] es[j], needle) && record_of(es[j]) == rec,
    decreases es.len(),
{
    if es.len() > 0 {
        let init = es.drop_last();
        lemma_matching_exact(init, needle, rec);
        let m = matching(es, needle);
        let p = matching(init, needle);
        if m.contains(rec) {
            if accepted(es.last(), needle) && m[m.len() - 1] == rec && !p.contains(rec) {
                assert(es[es.len() - 1] == es.last());
            } else if p.contains(rec) {
                let j = choose|j: int|
                    0 <= j < init.len() && accepted(#[trigger] init[j], needle) && record_of(
                        init[j],
                    ) == rec;
                assert(es[j] == init[j]);
            } else {
                let k = choose|k: int| 0 <= k < m.len() && m[k] == rec;
                if accepted(es.last(), needle) {
                    assert(k < p.len() ==> p[k] == m[k]);
                }
            }
        }
        if exists|j: int| 0 <= j < es.len() && accepted(#[trigger] es[j], needle) && record_of(es[j]) == rec {
            let j = choose|j: int|
                0 <= j < es.len() && accepted(#[trigger] es[j], needle) && record_of(es[j]) == rec;
            if j == es.len() - 1 {
                assert(m[m.len() - 1] == rec);
            } else {
                assert(init[j] == es[j]);
                let k = choose|k: int| 0 <= k < p.len() && p[k] == rec;
                if accepted(es.last(), needle) {
                    assert(m[k] == p[k]);
                }
            }
        }
    }
}

/// Scanning two runs of entries one after the other gives the records of the
/// first run, then those of the second.
pub proof fn lemma_matching_concat(a: Seq<EntryView>, b: Seq<EntryView>, needle: Seq<char>)
    ensures
        matching(a + b, needle) == matching(a, needle) + matching(b, needle),
    decreases b.len(),
{
    if b.len() == 0 {
        assert(a + b =~= a);
        assert(matching(a, needle) + matching(b, needle) =~= matching(a, needle));
    } else {
        assert((a + b).drop_last() =~= a + b.drop_last());
        assert((a + b).last() == b.last());
        lemma_matching_concat(a, b.drop_last(), needle);
        if accepted(b.last(), needle) {
            assert(matching(a, needle) + matching(b.drop_last(), needle).push(record_of(b.last()))
                =~= (matching(a, needle) + matching(b.drop_last(), needle)).push(
                record_of(b.last()),
            ));
        }
    }
}

/// An entry whose name holds anything but digits never contributes to a
/// scan, wherever it stands among the other entries.
pub proof fn lemma_non_numeric_excluded(
    before: Seq<EntryView>,
    e: EntryView,
    after: Seq<EntryView>,
    needle: Seq<char>,
)
    requires
        !all_digits(e.name),
    ensures
        matching(before + seq![e] + after, needle) == matching(before + after, needle),
{
    lemma_matching_concat(before + seq![e], after, needle);
    lemma_matching_concat(before, seq![e], needle);
    lemma_matching_concat(before, after, needle);
    assert(seq![e].drop_last() =~= Seq::<EntryView>::empty());
    assert(seq![e].last() == e);
    assert(matching(Seq::<EntryView>::empty(), needle) == Seq::<RecordView>::empty());
    assert(!accepted(e, needle));
    assert(matching(seq![e], needle) =~= Seq::<RecordView>::empty());
    assert(matching(before, needle) + Seq::<RecordView>::empty() =~= matching(before, needle));
}

} // verus!
