//! Registries of running background sessions (folder enumerations, copy
//! batches) and their cancellation flags.
use vstd::prelude::*;

use crate::text::{chars_equal, chars_of};

verus! {

/// A session's cancellation flag, handed to the worker that runs it.
#[derive(Debug)]
pub struct CancelFlag {
    index: usize,
}

impl View for CancelFlag {
    type V = nat;

    closed spec fn view(&self) -> nat {
        self.index as nat
    }
}

/// The abstract state of a registry: which flag each registered session id
/// owns, and the value of every flag ever handed out.
pub struct RegistryState {
    pub sessions: Map<Seq<char>, nat>,
    pub flags: Seq<bool>,
}

/// Every registered session owns a flag that exists, and no two sessions
/// share a flag.
pub open spec fn registry_wf(s: RegistryState) -> bool {
    &&& forall|id: Seq<char>| #[trigger] s.sessions.contains_key(id) ==> s.sessions[id] < s.flags.len()
    &&& forall|a: Seq<char>, b: Seq<char>|
        #[trigger] s.sessions.contains_key(a) && #[trigger] s.sessions.contains_key(b) && a != b ==> s.sessions[a] != s.sessions[b]
}

/// Registers sessions and their cancellation flags.
pub struct SessionRegistry {
    ids: Vec<String>,
    owners: Vec<usize>,
    flags: Vec<bool>,
}

/// The map from session id to flag that parallel id and flag lists stand for.
pub open spec fn sessions_map(ids: Seq<String>, owners: Seq<usize>) -> Map<Seq<char>, nat> {
    Map::new(
        |id: Seq<char>| exists|i: int| 0 <= i < ids.len() && ids[i]@ == id,
        |id: Seq<char>|
            owners[choose|i: int| 0 <= i < ids.len() && ids[i]@ == id] as nat,
    )
}

impl View for SessionRegistry {
    type V = RegistryState;

    closed spec fn view(&self) -> RegistryState {
        RegistryState { sessions: sessions_map(self.ids@, self.owners@), flags: self.flags@ }
    }
}

impl SessionRegistry {
    /// Session ids are listed once each, beside the flag each one owns.
    pub closed spec fn inv(&self) -> bool {
        &&& self.ids@.len() == self.owners@.len()
        &&& forall|i: int, j: int|
            0 <= i < j < self.ids@.len() ==> self.ids@[i]@ != self.ids@[j]@
        &&& forall|i: int| 0 <= i < self.owners@.len() ==> self.owners@[i] < self.flags@.len()
        &&& forall|i: int, j: int|
            0 <= i < j < self.owners@.len() ==> self.owners@[i] != self.owners@[j]
    }

    /// An empty registry.
    pub fn new() -> (registry: Self)
        ensures
            registry.inv(),
            registry@.sessions == Map::<Seq<char>, nat>::empty(),
            registry@.flags == Seq::<bool>::empty(),
    {
        let registry = SessionRegistry { ids: Vec::new(), owners: Vec::new(), flags: Vec::new() };
        assert(registry@.sessions =~= Map::<Seq<char>, nat>::empty());
        registry
    }

    /// A registry keeps every registered session's flag in range and gives
    /// no two sessions the same flag.
    pub proof fn law_registry_well_formed(&self)
        requires
            self.inv(),
        ensures
            registry_wf(self@),
    {
        assert forall|id: Seq<char>| #[trigger] self@.sessions.contains_key(id) implies self@.sessions[id]
            < self@.flags.len() by {
            let i = choose|i: int| 0 <= i < self.ids@.len() && self.ids@[i]@ == id;
            self.lemma_lookup(i);
        }
        assert forall|a: Seq<char>, b: Seq<char>|
            #[trigger] self@.sessions.contains_key(a) && #[trigger] self@.sessions.contains_key(b) && a != b
                implies self@.sessions[a] != self@.sessions[b] by {
            let i = choose|i: int| 0 <= i < self.ids@.len() && self.ids@[i]@ == a;
            let j = choose|j: int| 0 <= j < self.ids@.len() && self.ids@[j]@ == b;
            self.lemma_lookup(i);
            self.lemma_lookup(j);
            if i < j {
                assert(self.owners@[i] != self.owners@[j]);
            } else if j < i {
                assert(self.owners@[j] != self.owners@[i]);
            }
        }
    }

    proof fn lemma_lookup(&self, i: int)
        requires
            self.inv(),
            0 <= i < self.ids@.len(),
        ensures
            self@.sessions.contains_key(self.ids@[i]@),
            self@.sessions[self.ids@[i]@] == self.owners@[i] as nat,
    {
        let id = self.ids@[i]@;
        assert(self@.sessions.contains_key(id));
        let k = choose|k: int| 0 <= k < self.ids@.len() && self.ids@[k]@ == id;
        assert(k == i);
    }

    /// The position of `id` in the id list.
    fn position(&self, id: &Vec<char>) -> (result: Option<usize>)
        requires
            self.inv(),
        ensures
            result matches Some(i) ==> i < self.ids@.len() && self.ids@[i as int]@ == id@,
            result is None ==> !self@.sessions.contains_key(id@),
    {
        let mut i: usize = 0;
        while i < self.ids.len()
            invariant
                i <= self.ids@.len(),
                forall|k: int| 0 <= k < i ==> self.ids@[k]@ != id@,
            decreases self.ids.len() - i,
        {
            let candidate = chars_of(self.ids[i].as_str());
            if chars_equal(&candidate, id) {
                return Some(i);
            }
            i = i + 1;
        }
        None
    }

    /// Registers `session_id` with a fresh, unset flag, replacing any flag it
    /// owned before; returns the new flag.
    pub fn register(&mut self, session_id: &str) -> (flag: CancelFlag)
        requires
            old(self).inv(),
        ensures
            final(self).inv(),
            flag@ == old(self)@.flags.len(),
            final(self)@.flags == old(self)@.flags.push(false),
            final(self)@.sessions == old(self)@.sessions.insert(
                session_id@,
                old(self)@.flags.len(),
            ),
    {
        let id = chars_of(session_id);
        let index = self.flags.len();
        self.flags.push(false);
        let ghost old_ids = self.ids@;
        let ghost old_owners = self.owners@;
        let ghost old_map = sessions_map(old_ids, old_owners);
        match self.position(&id) {
            Some(i) => {
                self.owners.set(i, index);
                assert(self@.sessions =~= old_map.insert(session_id@, index as nat)) by {
                    assert forall|key: Seq<char>| #[trigger] self@.sessions.contains_key(key)
                        == old_map.insert(session_id@, index as nat).contains_key(key) by {
                        if key == session_id@ {
                            assert(self.ids@[i as int]@ == key);
                        } else if old_map.contains_key(key) {
                            let k = choose|k: int| 0 <= k < old_ids.len() && old_ids[k]@ == key;
                            assert(self.ids@[k]@ == key);
                        }
                    }
                    assert forall|key: Seq<char>| #[trigger] self@.sessions.contains_key(key)
                        implies self@.sessions[key] == old_map.insert(
                        session_id@,
                        index as nat,
                    )[key] by {
                        let k = choose|k: int| 0 <= k < self.ids@.len() && self.ids@[k]@ == key;
                        if key == session_id@ {
                            assert(k == i);
                        } else {
                            assert(old_map.contains_key(key));
                            let k2 = choose|k2: int|
                                0 <= k2 < old_ids.len() && old_ids[k2]@ == key;
                            assert(k2 == k);
                        }
                    }
                }
            },
            None => {
                self.ids.push(String::from_str(session_id));
                self.owners.push(index);
                assert(self@.sessions =~= old_map.insert(session_id@, index as nat)) by {
                    assert forall|key: Seq<char>| #[trigger] self@.sessions.contains_key(key)
                        == old_map.insert(session_id@, index as nat).contains_key(key) by {
                        if key == session_id@ {
                            assert(self.ids@[old_ids.len() as int]@ == key);
                        } else if old_map.contains_key(key) {
                            let k = choose|k: int| 0 <= k < old_ids.len() && old_ids[k]@ == key;
                            assert(self.ids@[k]@ == key);
                        }
                    }
                    assert forall|key: Seq<char>| #[trigger] self@.sessions.contains_key(key)
                        implies self@.sessions[key] == old_map.insert(
                        session_id@,
                        index as nat,
                    )[key] by {
                        let k = choose|k: int| 0 <= k < self.ids@.len() && self.ids@[k]@ == key;
                        if key == session_id@ {
                            assert(k == old_ids.len());
                        } else {
                            let k2 = choose|k2: int|
                                0 <= k2 < old_ids.len() && old_ids[k2]@ == key;
                            assert(self.ids@[k2]@ == key);
                            assert(k2 == k);
                        }
                    }
                }
            },
        }
        CancelFlag { index }
    }

    /// Sets the flag of `session_id`; does nothing for an unknown session.
    pub fn cancel(&mut self, session_id: &str)
        requires
            old(self).inv(),
        ensures
            final(self).inv(),
            final(self)@.sessions == old(self)@.sessions,
            final(self)@.flags == (if old(self)@.sessions.contains_key(session_id@) {
                old(self)@.flags.update(old(self)@.sessions[session_id@] as int, true)
            } else {
                old(self)@.flags
            }),
    {
        let id = chars_of(session_id);
        match self.position(&id) {
            Some(i) => {
                proof {
                    self.lemma_lookup(i as int);
                }
                let index = self.owners[i];
                self.flags.set(index, true);
                assert(self@.sessions =~= old(self)@.sessions);
            },
            None => {},
        }
    }

    /// Forgets `session_id`; its flag keeps its value. Does nothing for an
    /// unknown session.
    pub fn remove(&mut self, session_id: &str)
        requires
            old(self).inv(),
        ensures
            final(self).inv(),
            final(self)@.sessions == old(self)@.sessions.remove(session_id@),
            final(self)@.flags == old(self)@.flags,
    {
        let id = chars_of(session_id);
        let ghost old_ids = self.ids@;
        let ghost old_owners = self.owners@;
        let ghost old_map = sessions_map(old_ids, old_owners);
        match self.position(&id) {
            Some(i) => {
                self.ids.remove(i);
                self.owners.remove(i);
                assert(self@.sessions =~= old_map.remove(session_id@)) by {
                    assert forall|key: Seq<char>| #[trigger] self@.sessions.contains_key(key)
                        == old_map.remove(session_id@).contains_key(key) by {
                        if old_map.contains_key(key) && key != session_id@ {
                            let k = choose|k: int| 0 <= k < old_ids.len() && old_ids[k]@ == key;
                            if k < i {
                                assert(self.ids@[k]@ == key);
                            } else {
                                assert(self.ids@[k - 1]@ == key);
                            }
                        }
                        if self@.sessions.contains_key(key) {
                            let k = choose|k: int|
                                0 <= k < self.ids@.len() && self.ids@[k]@ == key;
                            if k < i {
                                assert(old_ids[k]@ == key);
                            } else {
                                assert(old_ids[k + 1]@ == key);
                            }
                        }
                    }
                    assert forall|key: Seq<char>| #[trigger] self@.sessions.contains_key(key)
                        implies self@.sessions[key] == old_map.remove(session_id@)[key] by {
                        let k = choose|k: int| 0 <= k < self.ids@.len() && self.ids@[k]@ == key;
                        let k2 = choose|k2: int| 0 <= k2 < old_ids.len() && old_ids[k2]@ == key;
                        if k < i {
                            assert(old_ids[k]@ == key);
                            assert(k2 == k);
                        } else {
                            assert(old_ids[k + 1]@ == key);
                            assert(k2 == k + 1);
                        }
                    }
                }
            },
            None => {
                assert(self@.sessions =~= old_map.remove(session_id@));
            },
        }
    }

    /// The value of a flag this registry handed out.
    pub fn is_cancelled(&self, flag: &CancelFlag) -> (cancelled: bool)
        requires
            flag@ < self@.flags.len(),
        ensures
            cancelled == self@.flags[flag@ as int],
    {
        self.flags[flag.index]
    }

    /// Whether `session_id` is registered.
    pub fn contains(&self, session_id: &str) -> (result: bool)
        requires
            self.inv(),
        ensures
            result == self@.sessions.contains_key(session_id@),
    {
        let id = chars_of(session_id);
        match self.position(&id) {
            Some(i) => {
                proof {
                    self.lemma_lookup(i as int);
                }
                true
            },
            None => false,
        }
    }
}


/// Running folder enumerations and their cancellation flags.
pub struct ActiveEnumerations {
    sessions: SessionRegistry,
}

impl View for ActiveEnumerations {
    type V = RegistryState;

    closed spec fn view(&self) -> RegistryState {
        self.sessions@
    }
}

impl ActiveEnumerations {
    /// The registry invariant.
    pub closed spec fn inv(&self) -> bool {
        self.sessions.inv()
    }

    /// Every running session owns its own flag.
    pub proof fn law_well_formed(&self)
        requires
            self.inv(),
        ensures
            registry_wf(self@),
    {
        self.sessions.law_registry_well_formed();
    }

    /// No session is running.
    pub fn new() -> (active: Self)
        ensures
            active.inv(),
            active@.sessions == Map::<Seq<char>, nat>::empty(),
            active@.flags == Seq::<bool>::empty(),
    {
        ActiveEnumerations { sessions: SessionRegistry::new() }
    }

    /// Registers a session and returns its fresh, unset cancellation flag.
    pub fn register(&mut self, session_id: &str) -> (flag: CancelFlag)
        requires
            old(self).inv(),
        ensures
            final(self).inv(),
            flag@ == old(self)@.flags.len(),
            final(self)@.flags == old(self)@.flags.push(false),
            final(self)@.sessions == old(self)@.sessions.insert(
                session_id@,
                old(self)@.flags.len(),
            ),
    {
        self.sessions.register(session_id)
    }

    /// Sets the cancellation flag of a session; no-op when it is unknown.
    pub fn cancel(&mut self, session_id: &str)
        requires
            old(self).inv(),
        ensures
            final(self).inv(),
            final(self)@.sessions == old(self)@.sessions,
            final(self)@.flags == (if old(self)@.sessions.contains_key(session_id@) {
                old(self)@.flags.update(old(self)@.sessions[session_id@] as int, true)
            } else {
                old(self)@.flags
            }),
    {
        self.sessions.cancel(session_id)
    }

    /// Removes a session after it finished; no-op when it is unknown.
    pub fn remove(&mut self, session_id: &str)
        requires
            old(self).inv(),
        ensures
            final(self).inv(),
            final(self)@.sessions == old(self)@.sessions.remove(session_id@),
            final(self)@.flags == old(self)@.flags,
    {
        self.sessions.remove(session_id)
    }

    /// The value of a cancellation flag handed out by `register`.
    pub fn is_cancelled(&self, flag: &CancelFlag) -> (cancelled: bool)
        requires
            flag@ < self@.flags.len(),
        ensures
            cancelled == self@.flags[flag@ as int],
    {
        self.sessions.is_cancelled(flag)
    }

    /// Whether a session is registered.
    pub fn contains(&self, session_id: &str) -> (result: bool)
        requires
            self.inv(),
        ensures
            result == self@.sessions.contains_key(session_id@),
    {
        self.sessions.contains(session_id)
    }
}

/// Running copy batches and their cancellation flags.
pub struct ActiveCopies {
    sessions: SessionRegistry,
}

impl View for ActiveCopies {
    type V = RegistryState;

    closed spec fn view(&self) -> RegistryState {
        self.sessions@
    }
}

impl ActiveCopies {
    /// The registry invariant.
    pub closed spec fn inv(&self) -> bool {
        self.sessions.inv()
    }

    /// Every running session owns its own flag.
    pub proof fn law_well_formed(&self)
        requires
            self.inv(),
        ensures
            registry_wf(self@),
    {
        self.sessions.law_registry_well_formed();
    }

    /// No session is running.
    pub fn new() -> (active: Self)
        ensures
            active.inv(),
            active@.sessions == Map::<Seq<char>, nat>::empty(),
            active@.flags == Seq::<bool>::empty(),
    {
        ActiveCopies { sessions: SessionRegistry::new() }
    }

    /// Registers a session and returns its fresh, unset cancellation flag.
    pub fn register(&mut self, session_id: &str) -> (flag: CancelFlag)
        requires
            old(self).inv(),
        ensures
            final(self).inv(),
            flag@ == old(self)@.flags.len(),
            final(self)@.flags == old(self)@.flags.push(false),
            final(self)@.sessions == old(self)@.sessions.insert(
                session_id@,
                old(self)@.flags.len(),
            ),
    {
        self.sessions.register(session_id)
    }

    /// Sets the cancellation flag of a session; no-op when it is unknown.
    pub fn cancel(&mut self, session_id: &str)
        requires
            old(self).inv(),
        ensures
            final(self).inv(),
            final(self)@.sessions == old(self)@.sessions,
            final(self)@.flags == (if old(self)@.sessions.contains_key(session_id@) {
                old(self)@.flags.update(old(self)@.sessions[session_id@] as int, true)
            } else {
                old(self)@.flags
            }),
    {
        self.sessions.cancel(session_id)
    }

    /// Removes a session after it finished; no-op when it is unknown.
    pub fn remove(&mut self, session_id: &str)
        requires
            old(self).inv(),
        ensures
            final(self).inv(),
            final(self)@.sessions == old(self)@.sessions.remove(session_id@),
            final(self)@.flags == old(self)@.flags,
    {
        self.sessions.remove(session_id)
    }

    /// The value of a cancellation flag handed out by `register`.
    pub fn is_cancelled(&self, flag: &CancelFlag) -> (cancelled: bool)
        requires
            flag@ < self@.flags.len(),
        ensures
            cancelled == self@.flags[flag@ as int],
    {
        self.sessions.is_cancelled(flag)
    }

    /// Whether a session is registered.
    pub fn contains(&self, session_id: &str) -> (result: bool)
        requires
            self.inv(),
        ensures
            result == self@.sessions.contains_key(session_id@),
    {
        self.sessions.contains(session_id)
    }
}

/// Cancelling one session never cancels another: every other registered
/// session keeps the value of its flag, and no session is forgotten.
pub proof fn law_cancel_is_isolated(s: RegistryState, cancelled: Seq<char>, other: Seq<char>)
    requires
        registry_wf(s),
        s.sessions.contains_key(other),
        other != cancelled,
    ensures
        ({
            let flags = if s.sessions.contains_key(cancelled) {
                s.flags.update(s.sessions[cancelled] as int, true)
            } else {
                s.flags
            };
            flags[s.sessions[other] as int] == s.flags[s.sessions[other] as int]
        }),
{
}

} // verus!
