//! The download control registry: one cancel/pause flag pair per package
//! id, consulted cooperatively by the sync pipeline and driven by external
//! cancel, pause and resume commands.
//!
//! The registry is an explicit value handed to its callers; the embedding
//! program decides how to share it between the transfer task and the
//! command surface.

use vstd::prelude::*;

verus! {

/// The cooperative control flags of one package's downloads.
pub struct DownloadControl {
    pub game_id: u64,
    pub cancel_requested: bool,
    pub pause_requested: bool,
}

/// A table of control flag pairs, keyed by package id. Entries are created
/// lazily on first reference and live for the registry's lifetime.
pub struct DownloadRegistry {
    pub states: Vec<DownloadControl>,
}

/// The flag pair stored for `game_id`: the first entry with that id wins.
pub open spec fn lookup(s: Seq<DownloadControl>, game_id: u64) -> Option<(bool, bool)>
    decreases s.len(),
{
    if s.len() == 0 {
        None
    } else if s[0].game_id == game_id {
        Some((s[0].cancel_requested, s[0].pause_requested))
    } else {
        lookup(s.drop_first(), game_id)
    }
}

/// When no entry among the first `i` matches, the lookup is decided by the
/// rest of the table.
proof fn lemma_lookup_skip(s: Seq<DownloadControl>, game_id: u64, i: int)
    requires
        0 <= i <= s.len(),
        forall|j: int| 0 <= j < i ==> s[j].game_id != game_id,
    ensures
        lookup(s, game_id) == lookup(s.skip(i), game_id),
    decreases i,
{
    if i > 0 {
        lemma_lookup_skip(s.drop_first(), game_id, i - 1);
        assert(s.drop_first().skip(i - 1) =~= s.skip(i));
    } else {
        assert(s.skip(0) =~= s);
    }
}

/// Replacing an entry without changing its id leaves every other id's
/// lookup untouched.
proof fn lemma_lookup_update(s: Seq<DownloadControl>, i: int, e: DownloadControl, game_id: u64)
    requires
        0 <= i < s.len(),
        e.game_id == s[i].game_id,
        game_id != e.game_id,
    ensures
        lookup(s.update(i, e), game_id) == lookup(s, game_id),
    decreases s.len(),
{
    let s2 = s.update(i, e);
    if i == 0 {
        assert(s2.drop_first() =~= s.drop_first());
    } else {
        assert(s2[0] == s[0]);
        if s[0].game_id != game_id {
            assert(s2.drop_first() =~= s.drop_first().update(i - 1, e));
            lemma_lookup_update(s.drop_first(), i - 1, e, game_id);
        }
    }
}

/// Appending an entry decides only the lookups that the table did not
/// already decide.
proof fn lemma_lookup_push(s: Seq<DownloadControl>, e: DownloadControl, game_id: u64)
    ensures
        lookup(s.push(e), game_id) == (if lookup(s, game_id) is Some {
            lookup(s, game_id)
        } else if e.game_id == game_id {
            Some((e.cancel_requested, e.pause_requested))
        } else {
            None::<(bool, bool)>
        }),
    decreases s.len(),
{
    if s.len() == 0 {
        assert(s.push(e)[0] == e);
        assert(s.push(e).drop_first() =~= Seq::<DownloadControl>::empty());
        assert(lookup(Seq::<DownloadControl>::empty(), game_id) is None);
    } else {
        assert(s.push(e)[0] == s[0]);
        assert(s.push(e).drop_first() =~= s.drop_first().push(e));
        lemma_lookup_push(s.drop_first(), e, game_id);
    }
}

impl DownloadRegistry {
    /// A registry with no entries yet.
    pub fn new() -> (r: DownloadRegistry)
        ensures
            r.states@.len() == 0,
            forall|id: u64| lookup(r.states@, id) is None,
    {
        DownloadRegistry { states: Vec::new() }
    }

    /// Finds the index of the entry for `game_id`, if there is one.
    fn find_index(&self, game_id: u64) -> (r: Option<usize>)
        ensures
            match r {
                Some(i) => i < self.states@.len() && self.states@[i as int].game_id == game_id
                    && lookup(self.states@, game_id) == Some(
                    (
                        self.states@[i as int].cancel_requested,
                        self.states@[i as int].pause_requested,
                    ),
                ) && forall|j: int| 0 <= j < i ==> self.states@[j].game_id != game_id,
                None => lookup(self.states@, game_id) is None,
            },
    {
        let mut i: usize = 0;
        while i < self.states.len()
            invariant
                i <= self.states.len(),
                forall|j: int| 0 <= j < i ==> self.states@[j].game_id != game_id,
            decreases self.states.len() - i,
        {
            if self.states[i].game_id == game_id {
                proof {
                    lemma_lookup_skip(self.states@, game_id, i as int);
                    assert(self.states@.skip(i as int)[0] == self.states@[i as int]);
                }
                return Some(i);
            }
            i += 1;
        }
        proof {
            lemma_lookup_skip(self.states@, game_id, self.states@.len() as int);
            assert(self.states@.skip(self.states@.len() as int) =~= Seq::<
                DownloadControl,
            >::empty());
        }
        None
    }

    /// Returns the shared flag pair for a package id, creating it with both
    /// flags cleared on first use.
    pub fn get_or_create_download_state(&mut self, game_id: u64) -> (r: (bool, bool))
        ensures
            r == (match lookup(old(self).states@, game_id) {
                Some(p) => p,
                None => (false, false),
            }),
            lookup(final(self).states@, game_id) == Some(r),
            forall|id: u64|
                id != game_id ==> lookup(final(self).states@, id) == lookup(
                    old(self).states@,
                    id,
                ),
    {
        match self.find_index(game_id) {
            Some(i) => {
                let e = &self.states[i];
                (e.cancel_requested, e.pause_requested)
            },
            None => {
                let e = DownloadControl {
                    game_id,
                    cancel_requested: false,
                    pause_requested: false,
                };
                proof {
                    let ghost s = self.states@;
                    assert forall|id: u64| true implies lookup(s.push(e), id) == (if id == game_id {
                        Some((false, false))
                    } else {
                        lookup(s, id)
                    }) by {
                        lemma_lookup_push(s, e, id);
                    }
                }
                self.states.push(e);
                (false, false)
            },
        }
    }

    /// Replaces the flags stored at a known index.
    fn set_flags_at(&mut self, i: usize, cancel: bool, pause: bool)
        requires
            i < old(self).states@.len(),
        ensures
            final(self).states@ == old(self).states@.update(
                i as int,
                (DownloadControl {
                    game_id: old(self).states@[i as int].game_id,
                    cancel_requested: cancel,
                    pause_requested: pause,
                }),
            ),
    {
        let id = self.states[i].game_id;
        let e = DownloadControl { game_id: id, cancel_requested: cancel, pause_requested: pause };
        let ghost pre = self.states@;
        let removed = self.states.remove(i);
        self.states.insert(i, e);
        proof {
            assert(self.states@ =~= pre.update(i as int, e));
        }
    }

    /// Requests cancellation for a package id: its cancel flag is set, its
    /// pause flag and every other id's flags are left as they were. The
    /// pipeline observes the flag at its next check point.
    pub fn cancel_download(&mut self, game_id: u64)
        ensures
            lookup(final(self).states@, game_id) == Some(
                (
                    true,
                    match lookup(old(self).states@, game_id) {
                        Some(p) => p.1,
                        None => false,
                    },
                ),
            ),
            forall|id: u64|
                id != game_id ==> lookup(final(self).states@, id) == lookup(
                    old(self).states@,
                    id,
                ),
    {
        self.set_flags(game_id, Some(true), None);
    }

    /// Requests a pause for a package id, in the same manner as
    /// [`DownloadRegistry::cancel_download`].
    pub fn pause_download(&mut self, game_id: u64)
        ensures
            lookup(final(self).states@, game_id) == Some(
                (
                    match lookup(old(self).states@, game_id) {
                        Some(p) => p.0,
                        None => false,
                    },
                    true,
                ),
            ),
            forall|id: u64|
                id != game_id ==> lookup(final(self).states@, id) == lookup(
                    old(self).states@,
                    id,
                ),
    {
        self.set_flags(game_id, None, Some(true));
    }

    /// Clears both flags for a package id, so that a future pipeline
    /// invocation is no longer told to abort. It does not restart anything
    /// by itself.
    pub fn resume_download(&mut self, game_id: u64)
        ensures
            lookup(final(self).states@, game_id) == Some((false, false)),
            forall|id: u64|
                id != game_id ==> lookup(final(self).states@, id) == lookup(
                    old(self).states@,
                    id,
                ),
    {
        self.set_flags(game_id, Some(false), Some(false));
    }

    /// Sets the flag pair for `game_id`, creating the entry if absent.
    /// For each flag, `Some(b)` overwrites it with `b` and `None` keeps the
    /// stored value (`false` for a fresh entry).
    fn set_flags(&mut self, game_id: u64, set_cancel: Option<bool>, set_pause: Option<bool>)
        ensures
            lookup(final(self).states@, game_id) == Some(
                ((
                    match set_cancel {
                        Some(c) => c,
                        None => match lookup(old(self).states@, game_id) {
                            Some(q) => q.0,
                            None => false,
                        },
                    },
                    match set_pause {
                        Some(p) => p,
                        None => match lookup(old(self).states@, game_id) {
                            Some(q) => q.1,
                            None => false,
                        },
                    },
                )),
            ),
            forall|id: u64|
                id != game_id ==> lookup(final(self).states@, id) == lookup(
                    old(self).states@,
                    id,
                ),
    {
        match self.find_index(game_id) {
            Some(i) => {
                let cancel_now = self.states[i].cancel_requested;
                let pause_now = self.states[i].pause_requested;
                let new_cancel = match set_cancel {
                    Some(c) => c,
                    None => cancel_now,
                };
                let new_pause = match set_pause {
                    Some(p) => p,
                    None => pause_now,
                };
                let ghost pre = self.states@;
                self.set_flags_at(i, new_cancel, new_pause);
                proof {
                    let e = self.states@[i as int];
                    lemma_lookup_skip(self.states@, game_id, i as int);
                    assert(self.states@.skip(i as int)[0] == self.states@[i as int]);
                    assert forall|id: u64| id != game_id implies lookup(self.states@, id) == lookup(
                        pre,
                        id,
                    ) by {
                        lemma_lookup_update(pre, i as int, e, id);
                    }
                }
            },
            None => {
                let new_cancel = match set_cancel {
                    Some(c) => c,
                    None => false,
                };
                let new_pause = match set_pause {
                    Some(p) => p,
                    None => false,
                };
                let e = DownloadControl {
                    game_id,
                    cancel_requested: new_cancel,
                    pause_requested: new_pause,
                };
                proof {
                    let ghost s = self.states@;
                    assert forall|id: u64| true implies lookup(s.push(e), id) == (if id == game_id {
                        Some((e.cancel_requested, e.pause_requested))
                    } else {
                        lookup(s, id)
                    }) by {
                        lemma_lookup_push(s, e, id);
                    }
                }
                self.states.push(e);
            },
        }
    }
}

} // verus!
