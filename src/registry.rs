use crate::events::{listed_ids, listed_in, same_text, spawned_window, window_record_of};
use crate::json::{parse_json, Json};
use crate::session::{absorb_line, spawn_outcome, SpawnProgress, StreamRead};
use std::collections::HashSet;
use vstd::prelude::*;

verus! {

broadcast use vstd::std_specs::hash::group_hash_axioms;

/// The identifiers of all windows that the client already knows of.
///
/// The set only grows: a window that closes stays in it, since its only use
/// is to tell windows that existed before a spawn from the one it creates.
pub struct Registry {
    ids: HashSet<u64>,
}

impl View for Registry {
    type V = Set<u64>;

    closed spec fn view(&self) -> Set<u64> {
        self.ids@
    }
}

impl Registry {
    /// Only finitely many identifiers are ever known.
    #[verifier::type_invariant]
    spec fn finitely_many(self) -> bool {
        self.ids@.finite()
    }

    /// An empty registry.
    pub fn new() -> (r: Registry)
        ensures
            r@ == Set::<u64>::empty(),
            r@.finite(),
    {
        Registry { ids: HashSet::new() }
    }

    /// Whether `id` is known.
    pub fn contains(&self, id: u64) -> (r: bool)
        ensures
            r == self@.contains(id),
            self@.finite(),
    {
        proof {
            use_type_invariant(self);
        }
        self.ids.contains(&id)
    }

    /// Marks `id` as known; returns whether it was new.
    pub fn insert(&mut self, id: u64) -> (r: bool)
        ensures
            final(self)@ == old(self)@.insert(id),
            r == !old(self)@.contains(id),
            final(self)@.finite(),
    {
        proof {
            use_type_invariant(&*self);
        }
        let mut taken = Registry::new();
        std::mem::swap(self, &mut taken);
        let Registry { mut ids } = taken;
        let added = ids.insert(id);
        *self = Registry { ids };
        added
    }

    /// The number of known identifiers.
    pub fn len(&self) -> (r: usize)
        ensures
            r == self@.len(),
            self@.finite(),
    {
        proof {
            use_type_invariant(self);
        }
        self.ids.len()
    }

    /// Marks as known every window that the bulk event `j` lists; any other
    /// value changes nothing.
    pub fn absorb_snapshot(&mut self, j: &Json)
        ensures
            final(self)@ == old(self)@.union(listed_ids(*j)),
            final(self)@.finite(),
    {
        proof {
            use_type_invariant(&*self);
        }
        match j.get("WindowsChanged") {
            Some(list) => match list.as_array() {
                Some(ws) => {
                    let n = ws.len();
                    let mut i: usize = 0;
                    assert(listed_in(ws@, 0) =~= Set::empty());
                    while i < n
                        invariant
                            n == ws@.len(),
                            i <= n,
                            listed_ids(*j) == listed_in(ws@, n as int),
                            self@ == old(self)@.union(listed_in(ws@, i as int)),
                            self@.finite(),
                        decreases n - i,
                    {
                        match ws[i].get("id") {
                            Some(v) => match v.as_u64() {
                                Some(id) => {
                                    self.insert(id);
                                    assert(listed_in(ws@, i + 1) =~= listed_in(ws@, i as int).insert(id));
                                },
                                None => {
                                    assert(listed_in(ws@, i + 1) =~= listed_in(ws@, i as int));
                                },
                            },
                            None => {
                                assert(listed_in(ws@, i + 1) =~= listed_in(ws@, i as int));
                            },
                        }
                        assert(self@ =~= old(self)@.union(listed_in(ws@, i + 1)));
                        i = i + 1;
                    }
                },
                None => {
                    assert(old(self)@.union(listed_ids(*j)) =~= old(self)@);
                },
            },
            None => {
                assert(old(self)@.union(listed_ids(*j)) =~= old(self)@);
            },
        }
    }

    /// Checks whether `j` reports the window created by a spawn of `app`; if
    /// so, marks it as known and returns its identifier.
    pub fn observe_for_spawn(&mut self, app: &str, j: &Json) -> (r: Option<u64>)
        ensures
            r == spawned_window(old(self)@, app@, *j),
            final(self)@ == (match r {
                Some(id) => old(self)@.insert(id),
                None => old(self)@,
            }),
            final(self)@.finite(),
    {
        proof {
            use_type_invariant(&*self);
        }
        let w = match window_record_of(j) {
            Some(w) => w,
            None => return None,
        };
        let id = match w.get("id") {
            Some(v) => match v.as_u64() {
                Some(id) => id,
                None => return None,
            },
            None => return None,
        };
        let a = match w.get("app_id") {
            Some(v) => match v.as_str() {
                Some(a) => a,
                None => return None,
            },
            None => return None,
        };
        if self.contains(id) || !same_text(a, app) {
            return None;
        }
        self.insert(id);
        Some(id)
    }

    /// One read of the bootstrap drain, which marks as known every window
    /// that existed at connect time. Returns whether to keep draining: only
    /// a read that gave no line, because the stream ended or went quiet, ends
    /// the drain. A line that is not JSON, a blank one included, is skipped.
    pub fn bootstrap_step(&mut self, read: &StreamRead) -> (more: bool)
        ensures
            match *read {
                StreamRead::Line(l) => more && final(self)@ == absorb_line(old(self)@, l@),
                StreamRead::Ended => !more && final(self)@ == old(self)@,
            },
            final(self)@.finite(),
    {
        proof {
            use_type_invariant(&*self);
        }
        match read {
            StreamRead::Line(l) => {
                match parse_json(l.as_str()) {
                    Some(j) => self.absorb_snapshot(&j),
                    None => {},
                }
                true
            },
            StreamRead::Ended => false,
        }
    }

    /// One read of the wait that follows a spawn of `app`: a window of that
    /// program that was not known before becomes known and ends the wait;
    /// the end of the stream ends it without a window; anything else,
    /// including a line that is not JSON and any event about a known window,
    /// leaves the registry as it was.
    pub fn spawn_step(&mut self, app: &str, read: &StreamRead) -> (r: SpawnProgress)
        ensures
            match *read {
                StreamRead::Line(l) => match spawn_outcome(old(self)@, app@, l@) {
                    Some(id) => r == SpawnProgress::Matched(id) && final(self)@ == old(
                        self,
                    )@.insert(id),
                    None => r == SpawnProgress::Waiting && final(self)@ == old(self)@,
                },
                StreamRead::Ended => r == SpawnProgress::StreamEnded && final(self)@ == old(
                    self,
                )@,
            },
            final(self)@.finite(),
    {
        proof {
            use_type_invariant(&*self);
        }
        match read {
            StreamRead::Line(l) => match parse_json(l.as_str()) {
                Some(j) => match self.observe_for_spawn(app, &j) {
                    Some(id) => SpawnProgress::Matched(id),
                    None => SpawnProgress::Waiting,
                },
                None => SpawnProgress::Waiting,
            },
            StreamRead::Ended => SpawnProgress::StreamEnded,
        }
    }
}

} // verus!
