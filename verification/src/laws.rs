//! Laws of the supervisor, stated over the same spec functions that the
//! registry's, guard's and supervisor's contracts use, so they compose
//! with those contracts directly.

use vstd::prelude::*;

use crate::guard::GuardEntry;
use crate::idmap::unique_keys;
use crate::registry::ProcessHandle;
use crate::supervisor::probe_lookup;
use crate::supervisor::tick_fold;

verus! {

/// Registry law: after `remove_and_terminate` leaves the registry at
/// `m.remove(id)`, the identifier is absent, so a following `try_insert`
/// for it succeeds — `try_insert` succeeds exactly on absent
/// identifiers, and fails with `AlreadyRunning` exactly on present ones.
pub proof fn lemma_reinsert_after_remove(m: Map<i32, ProcessHandle>, id: i32)
    ensures
        !m.remove(id).contains_key(id),
{
}

/// Watchdog law: an enrolled tunnel that is not marked manually stopped
/// and is not alive — absent from the registry, or probed dead — is
/// listed for restart by the tick, together with its replay payload.
pub proof fn lemma_tick_requests_offline(
    entries: Seq<(i32, GuardEntry)>,
    stopped: Set<i32>,
    m: Map<i32, ProcessHandle>,
    probes: Seq<(i32, bool)>,
    k: int,
)
    requires
        unique_keys(entries),
        0 <= k < entries.len(),
        !stopped.contains(entries[k].0),
        !(m.contains_key(entries[k].0) && probe_lookup(probes, entries[k].0) == Some(true)),
    ensures
        tick_fold(entries, stopped, m, probes).1.contains((entries[k].0, entries[k].1)),
    decreases entries.len(),
{
    let id = entries[k].0;
    let head = entries[0].0;
    let rest = entries.drop_first();
    assert(forall|i: int| 0 <= i < rest.len() ==> rest[i] == entries[i + 1]);
    if k == 0 {
        let rec = tick_fold(rest, stopped, m.remove(id), probes);
        let out = seq![(id, entries[0].1)] + rec.1;
        assert(out[0] == (id, entries[0].1));
        assert(tick_fold(entries, stopped, m, probes).1 == out);
    } else {
        assert(unique_keys(rest));
        assert(rest[k - 1] == entries[k]);
        assert(head != id);
        if stopped.contains(head) || (m.contains_key(head) && probe_lookup(probes, head) == Some(
            true,
        )) {
            lemma_tick_requests_offline(rest, stopped, m, probes, k - 1);
        } else {
            assert(m.remove(head).contains_key(id) == m.contains_key(id));
            lemma_tick_requests_offline(rest, stopped, m.remove(head), probes, k - 1);
            let rec = tick_fold(rest, stopped, m.remove(head), probes);
            let j = choose|j: int| 0 <= j < rec.1.len() && rec.1[j] == (id, entries[k].1);
            let out = seq![(head, entries[0].1)] + rec.1;
            assert(out[j + 1] == (id, entries[k].1));
        }
    }
}

/// Watchdog law, end to end: a tunnel enrolled in the guard whose
/// identifier is not marked manually stopped and is not alive — missing
/// from the registry, or probed dead — is listed for restart by the
/// tick, with the payload it was enrolled with.
pub proof fn lemma_enrolled_offline_is_listed(
    g: &crate::guard::GuardState,
    m: Map<i32, ProcessHandle>,
    probes: Seq<(i32, bool)>,
    id: i32,
)
    requires
        g.wf(),
        g.guarded_map().contains_key(id),
        !g.stopped_set().contains(id),
        !(m.contains_key(id) && probe_lookup(probes, id) == Some(true)),
    ensures
        tick_fold(g.guarded_entries(), g.stopped_set(), m, probes).1.contains(
            (id, g.guarded_map()[id]),
        ),
{
    g.lemma_entries_unique();
    g.lemma_guarded_entry_exists(id);
    let k = choose|k: int|
        0 <= k < g.guarded_entries().len() && #[trigger] g.guarded_entries()[k] == (
            id,
            g.guarded_map()[id],
        );
    lemma_tick_requests_offline(g.guarded_entries(), g.stopped_set(), m, probes, k);
}

/// Watchdog law: a manually stopped identifier is never listed for
/// restart by the tick, whatever the registry and the probes say.
pub proof fn lemma_tick_skips_manually_stopped(
    entries: Seq<(i32, GuardEntry)>,
    stopped: Set<i32>,
    m: Map<i32, ProcessHandle>,
    probes: Seq<(i32, bool)>,
    id: i32,
)
    requires
        stopped.contains(id),
    ensures
        forall|j: int|
            0 <= j < tick_fold(entries, stopped, m, probes).1.len() ==> (#[trigger] tick_fold(
                entries,
                stopped,
                m,
                probes,
            ).1[j]).0 != id,
    decreases entries.len(),
{
    if entries.len() == 0 {
        assert(tick_fold(entries, stopped, m, probes).1 == Seq::<(i32, GuardEntry)>::empty());
    } else {
        let head = entries[0].0;
        let rest = entries.drop_first();
        if stopped.contains(head) || (m.contains_key(head) && probe_lookup(probes, head) == Some(
            true,
        )) {
            lemma_tick_skips_manually_stopped(rest, stopped, m, probes, id);
            let rec = tick_fold(rest, stopped, m, probes);
            assert(tick_fold(entries, stopped, m, probes).1 == rec.1);
            assert forall|j: int|
                0 <= j < rec.1.len() implies (#[trigger] rec.1[j]).0 != id by {}
        } else {
            assert(head != id);
            lemma_tick_skips_manually_stopped(rest, stopped, m.remove(head), probes, id);
            let rec = tick_fold(rest, stopped, m.remove(head), probes);
            let out = seq![(head, entries[0].1)] + rec.1;
            assert(tick_fold(entries, stopped, m, probes).1 == out);
            assert(out[0].0 == head);
            assert(forall|j: int| 1 <= j < out.len() ==> out[j] == rec.1[j - 1]);
            assert forall|j: int| 0 <= j < out.len() implies (#[trigger] out[j]).0 != id by {
                if j >= 1 {
                    assert(out[j] == rec.1[j - 1]);
                }
            }
        }
    }
}

} // verus!
