//! The process supervisor: which processes a restart ends, and what the
//! process table holds afterwards.
use vstd::prelude::*;

use crate::command::CommandSpec;
use crate::scan::{
    accepted, entries_view, find_processes, matching, record_of, records_view, EntryView,
    ProcEntry, RecordView,
};

verus! {

/// The identifiers of the processes that a restart of `spec` ends: those of
/// every process whose command line holds the program's name.
pub fn restart_targets(entries: &Vec<ProcEntry>, spec: &CommandSpec) -> (r: Vec<u32>)
    ensures
        r@ == matching(entries_view(entries@), spec.binary@).map_values(|x: RecordView| x.pid),
{
    let found = find_processes(entries, spec.binary.as_str());
    let mut pids: Vec<u32> = Vec::new();
    let mut i: usize = 0;
    while i < found.len()
        invariant
            i <= found@.len(),
            records_view(found@) == matching(entries_view(entries@), spec.binary@),
            pids@ == records_view(found@).take(i as int).map_values(|x: RecordView| x.pid),
        decreases found@.len() - i,
    {
        pids.push(found[i].pid);
        assert(records_view(found@)[i as int] == found@[i as int]@);
        assert(records_view(found@).take(i + 1).map_values(|x: RecordView| x.pid) =~= records_view(
            found@,
        ).take(i as int).map_values(|x: RecordView| x.pid).push(found@[i as int].pid));
        i = i + 1;
    }
    assert(records_view(found@).take(found@.len() as int) =~= records_view(found@));
    pids
}

/// The entries that a restart leaves standing when every termination
/// succeeds: those that did not match the program's name.
pub open spec fn survivors(es: Seq<EntryView>, needle: Seq<char>) -> Seq<EntryView>
    decreases es.len(),
{
    if es.len() == 0 {
        Seq::empty()
    } else {
        let rest = survivors(es.drop_last(), needle);
        if accepted(es.last(), needle) {
            rest
        } else {
            rest.push(es.last())
        }
    }
}

/// The process table after a restart of the program named `needle`: the
/// survivors, and the freshly launched instance.
pub open spec fn after_restart(es: Seq<EntryView>, needle: Seq<char>, fresh: EntryView) -> Seq<
    EntryView,
> {
    survivors(es, needle).push(fresh)
}

/// No survivor of a restart matches the program's name.
pub proof fn lemma_survivors_unmatched(es: Seq<EntryView>, needle: Seq<char>)
    ensures
        matching(survivors(es, needle), needle) == Seq::<RecordView>::empty(),
    decreases es.len(),
{
    if es.len() > 0 {
        lemma_survivors_unmatched(es.drop_last(), needle);
        let s = survivors(es, needle);
        if !accepted(es.last(), needle) {
            assert(s.drop_last() =~= survivors(es.drop_last(), needle));
            assert(s.last() == es.last());
        }
    }
}

/// Restarting a program twice in a row, each termination succeeding, leaves
/// at most one running instance that matches its name: the one launched
/// last, when its command line holds the name.
pub proof fn lemma_restart_twice_single_instance(
    es: Seq<EntryView>,
    needle: Seq<char>,
    first: EntryView,
    second: EntryView,
)
    ensures
        matching(after_restart(after_restart(es, needle, first), needle, second), needle) == (if accepted(second, needle) {
            seq![record_of(second)]
        } else {
            Seq::<RecordView>::empty()
        }),
        matching(after_restart(after_restart(es, needle, first), needle, second), needle).len() <= 1,
{
    let t1 = after_restart(es, needle, first);
    let t2 = after_restart(t1, needle, second);
    lemma_survivors_unmatched(t1, needle);
    assert(t2.drop_last() =~= survivors(t1, needle));
    assert(t2.last() == second);
    assert(Seq::<RecordView>::empty().push(record_of(second)) =~= seq![record_of(second)]);
}

} // verus!
