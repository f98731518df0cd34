//! The process registry: a mapping from tunnel identifier to the handle of
//! its running child process.  The registry itself never touches the
//! operating system; liveness answers are handed in by the caller, which
//! owns the real child processes.

use vstd::prelude::*;

use crate::idmap::IdMap;

verus! {

/// A registry precondition failure.
#[derive(Clone, Copy, Debug, PartialEq, Eq, Structural)]
pub enum RegistryError {
    /// An entry for the identifier already exists.
    AlreadyRunning,
    /// No entry for the identifier exists.
    NotRunning,
}

/// The handle of a spawned child process, as plain data.
#[derive(Clone, Copy, Debug, PartialEq, Eq, Structural)]
pub struct ProcessHandle {
    pub pid: u32,
}

/// The registry map after applying a sequence of liveness reports: an
/// identifier reported dead loses its entry.
pub open spec fn sweep_map(
    m: Map<i32, ProcessHandle>,
    probes: Seq<(i32, bool)>,
) -> Map<i32, ProcessHandle>
    decreases probes.len(),
{
    if probes.len() == 0 {
        m
    } else {
        let next = if probes[0].1 {
            m
        } else {
            m.remove(probes[0].0)
        };
        sweep_map(next, probes.drop_first())
    }
}

/// The identifiers that survive a sweep: registered when probed, and
/// reported alive.
pub open spec fn sweep_survivors(m: Map<i32, ProcessHandle>, probes: Seq<(i32, bool)>) -> Seq<i32>
    decreases probes.len(),
{
    if probes.len() == 0 {
        Seq::empty()
    } else {
        let head: Seq<i32> = if probes[0].1 && m.contains_key(probes[0].0) {
            seq![probes[0].0]
        } else {
            Seq::empty()
        };
        let next = if probes[0].1 {
            m
        } else {
            m.remove(probes[0].0)
        };
        head + sweep_survivors(next, probes.drop_first())
    }
}

/// The shared mapping from tunnel identifier to live process handle.
/// Exactly one entry may exist per identifier.
pub struct ProcessRegistry {
    map: IdMap<ProcessHandle>,
}

impl ProcessRegistry {
    pub closed spec fn wf(&self) -> bool {
        self.map.wf()
    }

    pub fn new() -> (r: ProcessRegistry)
        ensures
            r.wf(),
            r@ == Map::<i32, ProcessHandle>::empty(),
    {
        ProcessRegistry { map: IdMap::new() }
    }

    /// Whether an entry for `id` exists.
    pub fn contains(&self, id: i32) -> (r: bool)
        ensures
            r == self@.contains_key(id),
    {
        self.map.contains_id(id)
    }

    /// Registers a freshly spawned process.  Rejects an identifier that is
    /// already running rather than replacing its entry.
    pub fn try_insert(&mut self, id: i32, handle: ProcessHandle) -> (r: Result<(), RegistryError>)
        requires
            old(self).wf(),
        ensures
            final(self).wf(),
            match r {
                Ok(_) => !old(self)@.contains_key(id) && final(self)@ == old(self)@.insert(
                    id,
                    handle,
                ),
                Err(e) => e == RegistryError::AlreadyRunning && old(self)@.contains_key(id)
                    && final(self)@ == old(self)@,
            },
    {
        if self.map.try_insert(id, handle) {
            Ok(())
        } else {
            Err(RegistryError::AlreadyRunning)
        }
    }

    /// Removes the entry for `id` and hands its process handle back so the
    /// caller can signal the process and wait for it to exit.  The entry is
    /// removed whether or not the signal will succeed.
    pub fn remove_and_terminate(&mut self, id: i32) -> (r: Result<ProcessHandle, RegistryError>)
        requires
            old(self).wf(),
        ensures
            final(self).wf(),
            match r {
                Ok(h) => old(self)@.contains_key(id) && h == old(self)@[id]
                    && final(self)@ == old(self)@.remove(id),
                Err(e) => e == RegistryError::NotRunning && !old(self)@.contains_key(id)
                    && final(self)@ == old(self)@,
            },
    {
        match self.map.remove_id(id) {
            Some(h) => Ok(h),
            None => Err(RegistryError::NotRunning),
        }
    }

    /// Applies one liveness answer from the operating system: a registered
    /// process reported alive stays, anything else loses its entry.
    pub fn probe_liveness(&mut self, id: i32, os_alive: bool) -> (r: bool)
        requires
            old(self).wf(),
        ensures
            final(self).wf(),
            r == (old(self)@.contains_key(id) && os_alive),
            r ==> final(self)@ == old(self)@,
            !r ==> final(self)@ == old(self)@.remove(id),
    {
        if !self.map.contains_id(id) {
            proof {
                assert(final(self)@ =~= old(self)@.remove(id));
            }
            return false;
        }
        if os_alive {
            return true;
        }
        let _ = self.map.remove_id(id);
        false
    }

    /// The registered identifiers, in registration order.
    pub fn ids(&self) -> (r: Vec<i32>)
        ensures
            forall|i: int| 0 <= i < r@.len() ==> self@.contains_key(#[trigger] r@[i]),
            forall|k: i32| self@.contains_key(k) ==> r@.contains(k),
    {
        let r = self.map.keys();
        proof {
            crate::idmap::lemma_idmap_view(&self.map);
            assert forall|i: int| 0 <= i < r@.len() implies self@.contains_key(
                #[trigger] r@[i],
            ) by {
                crate::idmap::lemma_map_of_contains(self.map.entries_view(), r@[i]);
            }
            assert forall|k: i32| self@.contains_key(k) implies r@.contains(k) by {
                crate::idmap::lemma_map_of_contains(self.map.entries_view(), k);
                let i = choose|i: int|
                    0 <= i < self.map.entries_view().len() && (#[trigger] self.map.entries_view()[
                        i
                    ]).0 == k;
                assert(self.map.entries_view()[i].0 == k);
                assert(r@[i] == self.map.entries_view()[i].0);
                assert(r@[i] == k);
            }
        }
        r
    }

    /// Applies a batch of liveness answers, removing every entry reported
    /// dead, and returns the identifiers that were registered and alive,
    /// in report order.
    pub fn sweep(&mut self, probes: &Vec<(i32, bool)>) -> (r: Vec<i32>)
        requires
            old(self).wf(),
        ensures
            final(self).wf(),
            final(self)@ == sweep_map(old(self)@, probes@),
            r@ == sweep_survivors(old(self)@, probes@),
    {
        let mut r: Vec<i32> = Vec::new();
        let mut i: usize = 0;
        proof {
            assert(probes@.skip(0) =~= probes@);
        }
        while i < probes.len()
            invariant
                self.wf(),
                i <= probes@.len(),
                sweep_map(old(self)@, probes@) == sweep_map(self@, probes@.skip(i as int)),
                sweep_survivors(old(self)@, probes@) == r@ + sweep_survivors(
                    self@,
                    probes@.skip(i as int),
                ),
            decreases probes@.len() - i,
        {
            let ghost rem = probes@.skip(i as int);
            let ghost pre = self@;
            let ghost pre_r = r@;
            let (id, alive) = probes[i];
            if alive {
                if self.map.contains_id(id) {
                    r.push(id);
                }
            } else {
                let _ = self.map.remove_id(id);
            }
            proof {
                assert(rem[0] == probes@[i as int]);
                assert(rem.drop_first() =~= probes@.skip(i + 1));
                let tail_m = probes@.skip(i + 1);
                if alive {
                    assert(self@ == pre);
                    assert(sweep_map(pre, rem) == sweep_map(self@, tail_m));
                    if pre.contains_key(id) {
                        assert(sweep_survivors(pre, rem) == seq![id] + sweep_survivors(
                            self@,
                            tail_m,
                        ));
                        assert(r@ =~= pre_r + seq![id]);
                        assert((pre_r + seq![id]) + sweep_survivors(self@, tail_m) =~= pre_r + (
                        seq![id] + sweep_survivors(self@, tail_m)));
                    } else {
                        assert(sweep_survivors(pre, rem) == Seq::<i32>::empty()
                            + sweep_survivors(self@, tail_m));
                        assert(Seq::<i32>::empty() + sweep_survivors(self@, tail_m)
                            =~= sweep_survivors(self@, tail_m));
                    }
                } else {
                    assert(self@ =~= pre.remove(id));
                    assert(sweep_map(pre, rem) == sweep_map(pre.remove(id), tail_m));
                    assert(sweep_survivors(pre, rem) == Seq::<i32>::empty() + sweep_survivors(
                        pre.remove(id),
                        tail_m,
                    ));
                    assert(Seq::<i32>::empty() + sweep_survivors(pre.remove(id), tail_m)
                        =~= sweep_survivors(pre.remove(id), tail_m));
                }
            }
            i = i + 1;
        }
        proof {
            assert(probes@.skip(probes@.len() as int) =~= Seq::<(i32, bool)>::empty());
            assert(r@ + Seq::<i32>::empty() =~= r@);
        }
        r
    }
}

impl View for ProcessRegistry {
    type V = Map<i32, ProcessHandle>;

    closed spec fn view(&self) -> Map<i32, ProcessHandle> {
        self.map@
    }
}

} // verus!
