//! Session metadata and the in-memory metadata store.

use vstd::prelude::*;

use crate::errors::VtError;
use crate::text::str_eq;

verus! {

/// Persisted description of one session.  Timestamps are milliseconds since
/// the epoch; `status` is `"running"` or `"exited"`.
#[derive(Debug, Clone)]
pub struct SessionInfo {
    pub id: String,
    pub name: String,
    pub command: Vec<String>,
    pub pid: Option<u32>,
    pub created_at_millis: i64,
    pub status: String,
    pub working_dir: String,
    pub cols: u16,
    pub rows: u16,
    pub exit_code: Option<i32>,
    pub title_mode: Option<String>,
    pub is_external_terminal: bool,
}

/// A place sessions' metadata is kept in, keyed by session id.
pub trait SessionStore {
    /// Record a fresh session under its own id.
    fn create_session(&mut self, info: SessionInfo) -> Result<(), VtError>;

    /// The metadata recorded under `id`, when any is.
    fn get_session(&self, id: &str) -> Option<&SessionInfo>;

    /// Replace the metadata recorded under `id`.
    fn update_session(&mut self, id: &str, info: SessionInfo) -> Result<(), VtError>;

    /// Drop and hand back the metadata recorded under `id`.
    fn remove_session(&mut self, id: &str) -> Option<SessionInfo>;
}

/// In-memory metadata store: a table from session id to metadata.
pub struct MemorySessionStore {
    entries: Vec<(String, SessionInfo)>,
}

impl MemorySessionStore {
    /// Whether an entry is recorded under this key.
    pub closed spec fn spec_contains(&self, key: Seq<char>) -> bool {
        exists|i: int| 0 <= i < self.entries@.len() && self.entries@[i].0@ == key
    }

    /// The position of the entry recorded under this key.
    pub closed spec fn spec_index_of(&self, key: Seq<char>) -> int {
        choose|i: int| 0 <= i < self.entries@.len() && self.entries@[i].0@ == key
    }

    /// The metadata recorded under this key, when any is.
    pub closed spec fn spec_get(&self, key: Seq<char>) -> Option<SessionInfo> {
        if self.spec_contains(key) {
            Some(self.entries@[self.spec_index_of(key)].1)
        } else {
            None
        }
    }

    /// How many entries are recorded.
    pub closed spec fn spec_len(&self) -> nat {
        self.entries@.len()
    }

    /// Keys are unique.
    pub closed spec fn wf(&self) -> bool {
        forall|i: int, j: int|
            0 <= i < j < self.entries@.len() ==> (#[trigger] self.entries@[i]).0@ != (
            #[trigger] self.entries@[j]).0@
    }

    /// Every key other than `key` resolves as before.
    pub open spec fn frame_except(old_s: &Self, new_s: &Self, key: Seq<char>) -> bool {
        forall|k: Seq<char>| k != key ==> #[trigger] new_s.spec_get(k) == old_s.spec_get(k)
    }

    /// An empty store.
    pub fn new() -> (r: Self)
        ensures
            r.wf(),
            r.spec_len() == 0,
            forall|k: Seq<char>| !r.spec_contains(k),
    {
        MemorySessionStore { entries: Vec::new() }
    }

    /// When position `i` holds `key` in a well-formed store, `i` is the
    /// position the specification names.
    proof fn lemma_index_of_is(&self, key: Seq<char>, i: int)
        requires
            self.wf(),
            0 <= i < self.entries@.len(),
            self.entries@[i].0@ == key,
        ensures
            self.spec_contains(key),
            self.spec_index_of(key) == i,
    {
        let k = self.spec_index_of(key);
        if k != i {
            if k < i {
                assert(self.entries@[k].0@ != self.entries@[i].0@);
            } else {
                assert(self.entries@[i].0@ != self.entries@[k].0@);
            }
        }
    }

    /// The position of the entry under `key`, when one is recorded.
    fn find_index(&self, key: &str) -> (r: Option<usize>)
        requires
            self.wf(),
        ensures
            match r {
                Some(i) => self.spec_contains(key@) && self.spec_index_of(key@) == i && i
                    < self.entries@.len(),
                None => !self.spec_contains(key@),
            },
    {
        let mut i: usize = 0;
        while i < self.entries.len()
            invariant
                self.wf(),
                i <= self.entries@.len(),
                forall|j: int| 0 <= j < i ==> (#[trigger] self.entries@[j]).0@ != key@,
            decreases self.entries@.len() - i,
        {
            if str_eq(self.entries[i].0.as_str(), key) {
                proof {
                    self.lemma_index_of_is(key@, i as int);
                }
                return Some(i);
            }
            i = i + 1;
        }
        None
    }

    /// Record `info` under `key`, replacing whatever was recorded there.
    fn put(&mut self, key: String, info: SessionInfo)
        requires
            old(self).wf(),
        ensures
            final(self).wf(),
            final(self).spec_get(key@) == Some(info),
            Self::frame_except(old(self), final(self), key@),
    {
        let ghost old_s = *self;
        match self.find_index(key.as_str()) {
            Some(i) => {
                let slot = &mut self.entries[i];
                slot.1 = info;
                proof {
                    assert(self.entries@[i as int].0@ == key@);
                    assert forall|a: int, b: int|
                        0 <= a < b < self.entries@.len() implies (
                    #[trigger] self.entries@[a]).0@ != (#[trigger] self.entries@[b]).0@ by {
                        assert(old_s.entries@[a].0@ != old_s.entries@[b].0@);
                    }
                    self.lemma_index_of_is(key@, i as int);
                    assert(self.spec_get(key@) == Some(info));
                    assert forall|k: Seq<char>| k != key@ implies #[trigger] self.spec_get(k)
                        == old_s.spec_get(k) by {
                        if old_s.spec_contains(k) {
                            let j = old_s.spec_index_of(k);
                            old_s.lemma_index_of_is(k, j);
                            assert(j != i as int);
                            assert(self.entries@[j].0@ == k);
                            self.lemma_index_of_is(k, j);
                        }
                        if self.spec_contains(k) {
                            let j = self.spec_index_of(k);
                            assert(j != i as int);
                            assert(old_s.entries@[j].0@ == k);
                            old_s.lemma_index_of_is(k, j);
                        }
                    }
                }
            },
            None => {
                let ghost n = self.entries@.len() as int;
                self.entries.push((key, info));
                proof {
                    assert(self.entries@[n].0@ == key@);
                    assert forall|a: int, b: int|
                        0 <= a < b < self.entries@.len() implies (
                    #[trigger] self.entries@[a]).0@ != (#[trigger] self.entries@[b]).0@ by {
                        if b < n {
                            assert(old_s.entries@[a].0@ != old_s.entries@[b].0@);
                        } else {
                            assert(self.entries@[a] == old_s.entries@[a]);
                            if self.entries@[a].0@ == key@ {
                                old_s.lemma_index_of_is(key@, a);
                            }
                        }
                    }
                    self.lemma_index_of_is(key@, n);
                    assert forall|k: Seq<char>| k != key@ implies #[trigger] self.spec_get(k)
                        == old_s.spec_get(k) by {
                        if old_s.spec_contains(k) {
                            let j = old_s.spec_index_of(k);
                            old_s.lemma_index_of_is(k, j);
                            assert(self.entries@[j].0@ == k);
                            self.lemma_index_of_is(k, j);
                        }
                        if self.spec_contains(k) {
                            let j = self.spec_index_of(k);
                            assert(j != n);
                            assert(old_s.entries@[j].0@ == k);
                            old_s.lemma_index_of_is(k, j);
                        }
                    }
                }
            },
        }
    }

    /// Record a fresh session's metadata under its own id, replacing any
    /// earlier record under that id.
    pub fn create_session(&mut self, info: SessionInfo) -> (r: Result<(), VtError>)
        requires
            old(self).wf(),
        ensures
            final(self).wf(),
            r is Ok,
            final(self).spec_get(info.id@) == Some(info),
            Self::frame_except(old(self), final(self), info.id@),
    {
        let key = info.id.clone();
        proof {
            assert(key@ == info.id@);
        }
        self.put(key, info);
        Ok(())
    }

    /// The metadata recorded under `id`, when any is.
    pub fn get_session(&self, id: &str) -> (r: Option<&SessionInfo>)
        requires
            self.wf(),
        ensures
            match r {
                Some(info) => self.spec_get(id@) == Some(*info),
                None => self.spec_get(id@) is None,
            },
    {
        match self.find_index(id) {
            Some(i) => Some(&self.entries[i].1),
            None => None,
        }
    }

    /// Replace the metadata recorded under `id`.
    pub fn update_session(&mut self, id: &str, info: SessionInfo) -> (r: Result<(), VtError>)
        requires
            old(self).wf(),
        ensures
            final(self).wf(),
            r is Ok,
            final(self).spec_get(id@) == Some(info),
            Self::frame_except(old(self), final(self), id@),
    {
        let key = id.to_owned();
        self.put(key, info);
        Ok(())
    }

    /// Drop and hand back the metadata recorded under `id`.
    pub fn remove_session(&mut self, id: &str) -> (r: Option<SessionInfo>)
        requires
            old(self).wf(),
        ensures
            final(self).wf(),
            final(self).spec_get(id@) is None,
            Self::frame_except(old(self), final(self), id@),
            match r {
                Some(info) => old(self).spec_get(id@) == Some(info),
                None => old(self).spec_get(id@) is None && *final(self) == *old(self),
            },
    {
        let ghost old_s = *self;
        match self.find_index(id) {
            Some(i) => {
                let (_, info) = self.entries.remove(i);
                proof {
                    let olde = old_s.entries@;
                    let newe = self.entries@;
                    assert(forall|j: int| 0 <= j < i ==> newe[j] == olde[j]);
                    assert(forall|j: int| i <= j < newe.len() ==> newe[j] == olde[j + 1]);
                    assert forall|a: int, b: int|
                        0 <= a < b < newe.len() implies (#[trigger] newe[a]).0@ != (
                    #[trigger] newe[b]).0@ by {
                        let oa = if a < i as int {
                            a
                        } else {
                            a + 1
                        };
                        let ob = if b < i as int {
                            b
                        } else {
                            b + 1
                        };
                        assert(olde[oa].0@ != olde[ob].0@);
                    }
                    assert forall|k: Seq<char>| !(#[trigger] self.spec_contains(k)) || k != id@ by {
                        if self.spec_contains(k) && k == id@ {
                            let j = self.spec_index_of(k);
                            let oj = if j < i as int {
                                j
                            } else {
                                j + 1
                            };
                            assert(olde[oj].0@ == id@);
                            if oj < i as int {
                                assert(olde[oj].0@ != olde[i as int].0@);
                            } else {
                                assert(olde[i as int].0@ != olde[oj].0@);
                            }
                        }
                    }
                    assert forall|k: Seq<char>| k != id@ implies #[trigger] self.spec_get(k)
                        == old_s.spec_get(k) by {
                        if old_s.spec_contains(k) {
                            let j = old_s.spec_index_of(k);
                            old_s.lemma_index_of_is(k, j);
                            assert(olde[j].0@ == k);
                            if j < i as int {
                                assert(newe[j] == olde[j]);
                                self.lemma_index_of_is(k, j);
                            } else {
                                assert(j != i as int);
                                assert(newe[j - 1] == olde[j]);
                                self.lemma_index_of_is(k, j - 1);
                            }
                        }
                        if self.spec_contains(k) {
                            let j = self.spec_index_of(k);
                            let oj = if j < i as int {
                                j
                            } else {
                                j + 1
                            };
                            assert(olde[oj].0@ == k);
                            old_s.lemma_index_of_is(k, oj);
                        }
                    }
                }
                Some(info)
            },
            None => None,
        }
    }
}

impl SessionStore for MemorySessionStore {
    fn create_session(&mut self, info: SessionInfo) -> Result<(), VtError> {
        if !self.well_formed() {
            return Err(VtError::IoFailed("store invariant lost".to_owned()));
        }
        MemorySessionStore::create_session(self, info)
    }

    fn get_session(&self, id: &str) -> Option<&SessionInfo> {
        if !self.well_formed() {
            return None;
        }
        MemorySessionStore::get_session(self, id)
    }

    fn update_session(&mut self, id: &str, info: SessionInfo) -> Result<(), VtError> {
        if !self.well_formed() {
            return Err(VtError::IoFailed("store invariant lost".to_owned()));
        }
        MemorySessionStore::update_session(self, id, info)
    }

    fn remove_session(&mut self, id: &str) -> Option<SessionInfo> {
        if !self.well_formed() {
            return None;
        }
        MemorySessionStore::remove_session(self, id)
    }
}

impl MemorySessionStore {
    /// Decide well-formedness, so that the uncontracted trait methods can
    /// meet the contracted inherent methods' preconditions.
    fn well_formed(&self) -> (r: bool)
        ensures
            r == self.wf(),
    {
        let mut i: usize = 0;
        while i < self.entries.len()
            invariant
                i <= self.entries@.len(),
                forall|a: int, b: int|
                    0 <= a < b < i ==> (#[trigger] self.entries@[a]).0@ != (
                    #[trigger] self.entries@[b]).0@,
            decreases self.entries@.len() - i,
        {
            let mut j: usize = 0;
            while j < i
                invariant
                    j <= i < self.entries@.len(),
                    forall|a: int, b: int|
                        0 <= a < b < i ==> (#[trigger] self.entries@[a]).0@ != (
                        #[trigger] self.entries@[b]).0@,
                    forall|k: int| 0 <= k < j ==> (#[trigger] self.entries@[k]).0@ != self.entries@[
                        i as int
                    ].0@,
                decreases i - j,
            {
                if str_eq(self.entries[j].0.as_str(), self.entries[i].0.as_str()) {
                    return false;
                }
                j = j + 1;
            }
            i = i + 1;
        }
        true
    }
}

} // verus!
