use crate::laws::{all_listed, first_match, lemma_bootstrap_is_union, lemma_first_match_push, replay};
use crate::registry::Registry;
use crate::session::{SpawnProgress, StreamRead};
use vstd::prelude::*;
use vstd::string::StringExecFns;

verus! {

/// A bootstrap drain under way: the registry, the identifiers it started
/// with, and the lines read so far.
pub struct Bootstrap {
    registry: Registry,
    start: Ghost<Set<u64>>,
    lines: Ghost<Seq<Seq<char>>>,
}

impl Bootstrap {
    /// The identifiers known when the drain began.
    pub closed spec fn start(&self) -> Set<u64> {
        self.start@
    }

    /// The lines read so far, in order.
    pub closed spec fn lines(&self) -> Seq<Seq<char>> {
        self.lines@
    }

    /// The registry holds what replaying the lines read gives.
    pub closed spec fn wf(&self) -> bool {
        self.registry@ == replay(self.start@, self.lines@)
    }

    /// Begins a drain into `registry`.
    pub fn new(registry: Registry) -> (b: Bootstrap)
        ensures
            b.wf(),
            b.start() == registry@,
            b.lines() == Seq::<Seq<char>>::empty(),
    {
        let ghost start = registry@;
        Bootstrap { registry, start: Ghost(start), lines: Ghost(Seq::empty()) }
    }

    /// Takes one read; returns whether to keep draining. Every line is read
    /// and kept; only a read that gave no line ends the drain.
    pub fn step(&mut self, read: &StreamRead) -> (more: bool)
        requires
            old(self).wf(),
        ensures
            final(self).wf(),
            final(self).start() == old(self).start(),
            match *read {
                StreamRead::Line(l) => more && final(self).lines() == old(self).lines().push(l@),
                StreamRead::Ended => !more && final(self).lines() == old(self).lines(),
            },
    {
        let more = self.registry.bootstrap_step(read);
        match read {
            StreamRead::Line(l) => {
                proof {
                    let pushed = self.lines@.push(l@);
                    assert(pushed.drop_last() =~= self.lines@);
                    self.lines = Ghost(pushed);
                }
            },
            StreamRead::Ended => {},
        }
        more
    }

    /// Ends the drain. The registry holds the identifiers it started with
    /// and every identifier that a bulk event among the lines read lists.
    pub fn finish(self) -> (r: Registry)
        requires
            self.wf(),
        ensures
            r@ == replay(self.start(), self.lines()),
            r@ == self.start().union(all_listed(self.lines())),
    {
        proof {
            lemma_bootstrap_is_union(self.start@, self.lines@);
        }
        self.registry
    }
}

/// The wait for the window that a spawn of `app` creates: the registry, the
/// identifiers known when the wait began, the lines read so far, and the
/// window matched, if any.
pub struct SpawnWait {
    app: String,
    registry: Registry,
    matched: Option<u64>,
    start: Ghost<Set<u64>>,
    lines: Ghost<Seq<Seq<char>>>,
}

impl SpawnWait {
    /// The program identity waited for.
    pub closed spec fn app(&self) -> Seq<char> {
        self.app@
    }

    /// The identifiers known when the wait began.
    pub closed spec fn start(&self) -> Set<u64> {
        self.start@
    }

    /// The lines read so far, in order.
    pub closed spec fn lines(&self) -> Seq<Seq<char>> {
        self.lines@
    }

    /// The window matched so far.
    pub closed spec fn matched(&self) -> Option<u64> {
        self.matched
    }

    /// The match is the first among the lines read, and the registry holds
    /// the start identifiers and the matched window.
    pub closed spec fn wf(&self) -> bool {
        &&& self.matched == first_match(self.start@, self.app@, self.lines@)
        &&& self.registry@ == match self.matched {
            Some(id) => self.start@.insert(id),
            None => self.start@,
        }
    }

    /// Begins the wait for a window of `app`, with the windows of `registry`
    /// known.
    pub fn new(app: &str, registry: Registry) -> (w: SpawnWait)
        ensures
            w.wf(),
            w.app() == app@,
            w.start() == registry@,
            w.lines() == Seq::<Seq<char>>::empty(),
            w.matched() is None,
    {
        let ghost start = registry@;
        SpawnWait {
            app: String::from_str(app),
            registry,
            matched: None,
            start: Ghost(start),
            lines: Ghost(Seq::empty()),
        }
    }

    /// Takes one read. Once a window is matched the wait is over and reads
    /// no more; otherwise a line is read and checked, and the end of the
    /// stream ends the wait without a window.
    pub fn step(&mut self, read: &StreamRead) -> (r: SpawnProgress)
        requires
            old(self).wf(),
        ensures
            final(self).wf(),
            final(self).app() == old(self).app(),
            final(self).start() == old(self).start(),
            match old(self).matched() {
                Some(id) => r == SpawnProgress::Matched(id) && final(self).lines() == old(
                    self,
                ).lines(),
                None => match *read {
                    StreamRead::Line(l) => {
                        &&& final(self).lines() == old(self).lines().push(l@)
                        &&& r == match final(self).matched() {
                            Some(id) => SpawnProgress::Matched(id),
                            None => SpawnProgress::Waiting,
                        }
                    },
                    StreamRead::Ended => r == SpawnProgress::StreamEnded && final(self).lines()
                        == old(self).lines() && final(self).matched() is None,
                },
            },
    {
        match self.matched {
            Some(id) => return SpawnProgress::Matched(id),
            None => {},
        }
        let r = self.registry.spawn_step(self.app.as_str(), read);
        match read {
            StreamRead::Line(l) => {
                proof {
                    lemma_first_match_push(self.start@, self.app@, self.lines@, l@);
                    self.lines = Ghost(self.lines@.push(l@));
                }
                match r {
                    SpawnProgress::Matched(id) => {
                        self.matched = Some(id);
                    },
                    _ => {},
                }
            },
            StreamRead::Ended => {},
        }
        r
    }

    /// Ends the wait. The registry holds the identifiers known at the start
    /// and the window matched, which is the first that the lines read
    /// report as new and of the program.
    pub fn finish(self) -> (r: (Registry, Option<u64>))
        requires
            self.wf(),
        ensures
            r.1 == first_match(self.start(), self.app(), self.lines()),
            r.0@ == match r.1 {
                Some(id) => self.start().insert(id),
                None => self.start(),
            },
    {
        (self.registry, self.matched)
    }
}

} // verus!
