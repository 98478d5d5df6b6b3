//! The process-wide session table and the per-session operations.
//!
//! A session owns its master PTY, exclusive writer, child handle, bounded
//! output queue, shutdown signal and optional push sink.  The registry maps
//! session identifiers onto sessions; every operation on an identifier the
//! registry does not hold fails with `SessionNotFound` and changes nothing.
//!
//! The registry itself is a sequential value: callers that share it across
//! threads put it behind a lock and hold that lock only around one operation,
//! as the surrounding binary does.

use vstd::prelude::*;

use crate::errors::VtError;
use crate::ids::{new_session_id, SessionId};
use crate::pty::{
    create_pty, resize_pty, send_signal, signal_from_name, ExitPoll, PtyChild, PtyConfig,
    PtyGeometry, PtyMaster, PtyReader, PtyWriter, ReadOutcome,
};
use crate::queue::{drain_count, OutputQueue, MAX_CHUNK_BYTES, MAX_DRAIN_BYTES, QUEUE_CAPACITY};

verus! {

/// Push-style consumer of output chunks, driven by the reader worker.
pub trait DataSink {
    /// Accept one chunk of child output.
    fn on_data(&mut self, data: &[u8]);
}

/// Single-shot idempotent shutdown signal owned by a session.
pub struct ShutdownSignal {
    fired: bool,
}

impl ShutdownSignal {
    /// Whether the signal has fired.
    pub closed spec fn spec_fired(&self) -> bool {
        self.fired
    }

    /// A fresh, unfired signal.
    pub fn new() -> (s: Self)
        ensures
            !s.spec_fired(),
    {
        ShutdownSignal { fired: false }
    }

    /// Fire the signal; firing twice is a no-op.
    pub fn fire(&mut self)
        ensures
            final(self).spec_fired(),
    {
        self.fired = true;
    }

    /// Whether the signal has fired.
    pub fn is_fired(&self) -> (r: bool)
        ensures
            r == self.spec_fired(),
    {
        self.fired
    }
}

/// One child process under its PTY, with the session's owned resources.
pub struct PtySession<S> {
    id: SessionId,
    pid: u32,
    geometry: PtyGeometry,
    master: PtyMaster,
    writer: PtyWriter,
    child: PtyChild,
    queue: OutputQueue,
    sink: Option<S>,
    shutdown: ShutdownSignal,
    reader_live: bool,
    written: Ghost<Seq<Seq<u8>>>,
}

impl<S> PtySession<S> {
    /// The identifier the registry keys this session by.
    pub closed spec fn spec_id(&self) -> u128 {
        self.id.bits
    }

    /// The operating-system process id of the child.
    pub closed spec fn spec_pid(&self) -> u32 {
        self.pid
    }

    /// The geometry last applied to the PTY.
    pub closed spec fn spec_geometry(&self) -> PtyGeometry {
        self.geometry
    }

    /// The queued output chunks, oldest first.
    pub closed spec fn spec_queue(&self) -> Seq<Seq<u8>> {
        self.queue.view_chunks()
    }

    /// How many chunks the queue has dropped.
    pub closed spec fn spec_dropped(&self) -> u64 {
        self.queue.spec_dropped()
    }

    /// Whether a push sink is attached.
    pub closed spec fn spec_sink_set(&self) -> bool {
        self.sink is Some
    }

    /// Whether the reader worker has not yet reported its exit.
    pub closed spec fn spec_reader_live(&self) -> bool {
        self.reader_live
    }

    /// Whether the shutdown signal has fired.
    pub closed spec fn spec_shutdown_fired(&self) -> bool {
        self.shutdown.spec_fired()
    }

    /// The chunks accepted by `write` so far, in issue order.
    pub closed spec fn spec_written(&self) -> Seq<Seq<u8>> {
        self.written@
    }

    /// The session's geometry is valid and its queue well-formed.
    pub closed spec fn wf(&self) -> bool {
        self.geometry.wf() && self.queue.wf()
    }

    /// The identifier of this session.
    pub fn id(&self) -> (r: SessionId)
        ensures
            r.bits == self.spec_id(),
    {
        self.id
    }

    /// The process id of the child.
    pub fn pid(&self) -> (r: u32)
        ensures
            r == self.spec_pid(),
    {
        self.pid
    }

    /// The geometry last applied to the PTY.
    pub fn geometry(&self) -> (r: PtyGeometry)
        ensures
            r == self.spec_geometry(),
    {
        self.geometry
    }

    /// How many output chunks are queued.
    pub fn queue_len(&self) -> (r: usize)
        requires
            self.wf(),
        ensures
            r == self.spec_queue().len(),
    {
        self.queue.len()
    }

    /// How many output chunks were dropped on queue overflow.
    pub fn dropped_count(&self) -> (r: u64)
        ensures
            r == self.spec_dropped(),
    {
        self.queue.dropped_count()
    }
}

/// What a fresh session hands back to its creator: the identifier, the
/// child's pid, the applied geometry, and the reader handle that the
/// dedicated reader worker takes over.
pub struct OpenedSession {
    pub id: SessionId,
    pub pid: u32,
    pub geometry: PtyGeometry,
    pub reader: PtyReader,
}

/// What the reader worker learns from handing one chunk in.
#[derive(Debug, Clone, Copy, PartialEq, Eq, Structural)]
pub enum IngestOutcome {
    /// The chunk went onto the queue.
    Queued,
    /// The queue was full; the chunk was dropped whole and counted.
    Dropped,
    /// The session has left the registry; the worker must exit.
    Gone,
}

/// The process-wide table of live sessions.
pub struct SessionRegistry<S> {
    sessions: Vec<PtySession<S>>,
}

/// Every session other than `id` is held exactly as before.
pub open spec fn frame_except<S>(
    old_r: SessionRegistry<S>,
    new_r: SessionRegistry<S>,
    id: u128,
) -> bool {
    &&& forall|x: u128| x != id ==> #[trigger] new_r.spec_contains(x) == old_r.spec_contains(x)
    &&& forall|x: u128|
        x != id && old_r.spec_contains(x) ==> #[trigger] new_r.spec_session_at(x)
            == old_r.spec_session_at(x)
}

impl<S> SessionRegistry<S> {
    /// Whether the registry holds a session under this identifier.
    pub closed spec fn spec_contains(&self, id: u128) -> bool {
        exists|i: int| 0 <= i < self.sessions@.len() && self.sessions@[i].id.bits == id
    }

    /// The position of the session under this identifier.
    pub closed spec fn spec_index_of(&self, id: u128) -> int {
        choose|i: int| 0 <= i < self.sessions@.len() && self.sessions@[i].id.bits == id
    }

    /// The session held under this identifier.
    pub closed spec fn spec_session_at(&self, id: u128) -> PtySession<S> {
        self.sessions@[self.spec_index_of(id)]
    }

    /// What `lookup` yields: the session when the identifier is held,
    /// nothing otherwise.
    pub open spec fn spec_lookup(&self, id: u128) -> Option<PtySession<S>> {
        if self.spec_contains(id) {
            Some(self.spec_session_at(id))
        } else {
            None
        }
    }

    /// How many sessions the registry holds.
    pub closed spec fn spec_len(&self) -> nat {
        self.sessions@.len()
    }

    /// Identifiers are unique and every session is well-formed.
    pub closed spec fn wf(&self) -> bool {
        &&& forall|i: int, j: int|
            0 <= i < j < self.sessions@.len() ==> (#[trigger] self.sessions@[i]).id.bits != (
            #[trigger] self.sessions@[j]).id.bits
        &&& forall|i: int| 0 <= i < self.sessions@.len() ==> (#[trigger] self.sessions@[i]).wf()
    }

    /// The queued chunks of the session under `id`.
    pub open spec fn spec_queue_of(&self, id: u128) -> Seq<Seq<u8>> {
        self.spec_session_at(id).spec_queue()
    }

    /// The drop counter of the session under `id`.
    pub open spec fn spec_dropped_of(&self, id: u128) -> u64 {
        self.spec_session_at(id).spec_dropped()
    }

    /// The chunks accepted by `write` on the session under `id`.
    pub open spec fn spec_written_of(&self, id: u128) -> Seq<Seq<u8>> {
        self.spec_session_at(id).spec_written()
    }

    /// An empty registry.
    pub fn new() -> (r: Self)
        ensures
            r.wf(),
            r.spec_len() == 0,
            forall|x: u128| !r.spec_contains(x),
    {
        SessionRegistry { sessions: Vec::new() }
    }

    /// How many sessions are held.
    pub fn len(&self) -> (r: usize)
        ensures
            r == self.spec_len(),
    {
        self.sessions.len()
    }

    /// The position of the session under `id`, when one is held.
    fn find_index(&self, id: u128) -> (r: Option<usize>)
        requires
            self.wf(),
        ensures
            match r {
                Some(i) => self.spec_contains(id) && self.spec_index_of(id) == i && i
                    < self.sessions@.len(),
                None => !self.spec_contains(id),
            },
    {
        let mut i: usize = 0;
        while i < self.sessions.len()
            invariant
                self.wf(),
                i <= self.sessions@.len(),
                forall|j: int| 0 <= j < i ==> (#[trigger] self.sessions@[j]).id.bits != id,
            decreases self.sessions@.len() - i,
        {
            if self.sessions[i].id.bits == id {
                proof {
                    self.lemma_index_of_is(id, i as int);
                }
                return Some(i);
            }
            i = i + 1;
        }
        None
    }

    /// When position `i` holds `id` in a well-formed registry, `i` is the
    /// position the specification names.
    proof fn lemma_index_of_is(&self, id: u128, i: int)
        requires
            self.wf(),
            0 <= i < self.sessions@.len(),
            self.sessions@[i].id.bits == id,
        ensures
            self.spec_contains(id),
            self.spec_index_of(id) == i,
    {
        assert(self.spec_contains(id));
        let k = self.spec_index_of(id);
        if k != i {
            if k < i {
                assert(self.sessions@[k].id.bits != self.sessions@[i].id.bits);
            } else {
                assert(self.sessions@[i].id.bits != self.sessions@[k].id.bits);
            }
        }
    }

    /// Mutating one session in place leaves the rest of the registry as it
    /// was, provided the session kept its identifier and stayed well-formed.
    proof fn lemma_update_frame(old_r: &Self, new_r: &Self, idx: int, id: u128)
        requires
            old_r.wf(),
            0 <= idx < old_r.sessions@.len(),
            old_r.sessions@[idx].id.bits == id,
            new_r.sessions@ == old_r.sessions@.update(idx, new_r.sessions@[idx]),
            new_r.sessions@[idx].id.bits == id,
            new_r.sessions@[idx].wf(),
        ensures
            new_r.wf(),
            new_r.spec_contains(id),
            new_r.spec_index_of(id) == idx,
            new_r.spec_session_at(id) == new_r.sessions@[idx],
            old_r.spec_contains(id),
            old_r.spec_index_of(id) == idx,
            old_r.spec_session_at(id) == old_r.sessions@[idx],
            frame_except(*old_r, *new_r, id),
            new_r.spec_len() == old_r.spec_len(),
    {
        assert(forall|j: int|
            0 <= j < old_r.sessions@.len() && j != idx ==> new_r.sessions@[j]
                == old_r.sessions@[j]);
        assert forall|i: int| 0 <= i < new_r.sessions@.len() implies (
        #[trigger] new_r.sessions@[i]).wf() by {
            if i != idx {
                assert(old_r.sessions@[i].wf());
            }
        }
        old_r.lemma_index_of_is(id, idx);
        new_r.lemma_index_of_is(id, idx);
        assert forall|x: u128| x != id implies #[trigger] new_r.spec_contains(x)
            == old_r.spec_contains(x) by {
            if old_r.spec_contains(x) {
                let j = old_r.spec_index_of(x);
                assert(new_r.sessions@[j].id.bits == x);
            }
            if new_r.spec_contains(x) {
                let j = new_r.spec_index_of(x);
                assert(old_r.sessions@[j].id.bits == x);
            }
        }
        assert forall|x: u128| x != id && old_r.spec_contains(x) implies
            #[trigger] new_r.spec_session_at(x) == old_r.spec_session_at(x) by {
            let j = old_r.spec_index_of(x);
            assert(old_r.sessions@[j].id.bits == x);
            assert(j != idx);
            assert(new_r.sessions@[j].id.bits == x);
            new_r.lemma_index_of_is(x, j);
        }
    }

    /// Removing one session leaves every other session as it was.
    proof fn lemma_remove_frame(old_r: &Self, new_r: &Self, idx: int, id: u128)
        requires
            old_r.wf(),
            0 <= idx < old_r.sessions@.len(),
            old_r.sessions@[idx].id.bits == id,
            new_r.sessions@ == old_r.sessions@.remove(idx),
        ensures
            new_r.wf(),
            !new_r.spec_contains(id),
            frame_except(*old_r, *new_r, id),
            new_r.spec_len() == old_r.spec_len() - 1,
    {
        let olds = old_r.sessions@;
        let news = new_r.sessions@;
        assert(forall|j: int| 0 <= j < idx ==> news[j] == olds[j]);
        assert(forall|j: int| idx <= j < news.len() ==> news[j] == olds[j + 1]);
        assert forall|i: int, j: int| 0 <= i < j < news.len() implies (
        #[trigger] news[i]).id.bits != (#[trigger] news[j]).id.bits by {
            let oi = if i < idx {
                i
            } else {
                i + 1
            };
            let oj = if j < idx {
                j
            } else {
                j + 1
            };
            assert(olds[oi].id.bits != olds[oj].id.bits);
        }
        assert forall|i: int| 0 <= i < news.len() implies (#[trigger] news[i]).wf() by {
            let oi = if i < idx {
                i
            } else {
                i + 1
            };
            assert(olds[oi].wf());
        }
        assert forall|x: u128| !(#[trigger] new_r.spec_contains(x)) || x != id by {
            if new_r.spec_contains(x) && x == id {
                let j = new_r.spec_index_of(x);
                let oj = if j < idx {
                    j
                } else {
                    j + 1
                };
                assert(olds[oj].id.bits == id);
                if oj < idx {
                    assert(olds[oj].id.bits != olds[idx].id.bits);
                } else {
                    assert(olds[idx].id.bits != olds[oj].id.bits);
                }
            }
        }
        assert forall|x: u128| x != id implies #[trigger] new_r.spec_contains(x)
            == old_r.spec_contains(x) by {
            if old_r.spec_contains(x) {
                let j = old_r.spec_index_of(x);
                assert(olds[j].id.bits == x);
                if j < idx {
                    assert(news[j].id.bits == x);
                } else {
                    assert(j != idx);
                    assert(news[j - 1].id.bits == x);
                }
            }
            if new_r.spec_contains(x) {
                let j = new_r.spec_index_of(x);
                let oj = if j < idx {
                    j
                } else {
                    j + 1
                };
                assert(olds[oj].id.bits == x);
            }
        }
        assert forall|x: u128| x != id && old_r.spec_contains(x) implies
            #[trigger] new_r.spec_session_at(x) == old_r.spec_session_at(x) by {
            let j = old_r.spec_index_of(x);
            old_r.lemma_index_of_is(x, j);
            assert(olds[j].id.bits == x);
            if j < idx {
                assert(news[j] == olds[j]);
                new_r.lemma_index_of_is(x, j);
            } else {
                assert(j != idx);
                assert(news[j - 1] == olds[j]);
                new_r.lemma_index_of_is(x, j - 1);
            }
        }
    }

    /// A borrowed handle on the session under `id`, when one is held.
    ///
    /// The caller is expected to release any surrounding lock before doing
    /// blocking work with the handle.
    pub fn lookup(&self, id: u128) -> (r: Option<&PtySession<S>>)
        requires
            self.wf(),
        ensures
            match r {
                Some(s) => self.spec_lookup(id) == Some(*s),
                None => self.spec_lookup(id) is None,
            },
    {
        match self.find_index(id) {
            Some(i) => Some(&self.sessions[i]),
            None => None,
        }
    }

    /// Detach and hand back the session under `id`, when one is held.
    pub fn remove(&mut self, id: u128) -> (r: Option<PtySession<S>>)
        requires
            old(self).wf(),
        ensures
            final(self).wf(),
            !final(self).spec_contains(id),
            frame_except(*old(self), *final(self), id),
            match r {
                Some(s) => old(self).spec_contains(id) && s == old(self).spec_session_at(id)
                    && final(self).spec_len() == old(self).spec_len() - 1,
                None => !old(self).spec_contains(id) && *final(self) == *old(self),
            },
    {
        match self.find_index(id) {
            Some(i) => {
                let ghost old_r = *self;
                let s = self.sessions.remove(i);
                proof {
                    Self::lemma_remove_frame(&old_r, self, i as int, id);
                }
                Some(s)
            },
            None => None,
        }
    }

    /// Create a session: open a PTY at the configured geometry, spawn the
    /// configured command, take the writer and reader, set up an empty
    /// bounded queue and a fresh shutdown signal, and register the session
    /// under a fresh identifier.
    ///
    /// On any failure nothing is registered and the registry is unchanged;
    /// creation failures surface as `SpawnFailed`, `WriterUnavailable` or
    /// `ReaderUnavailable`, and a (never expected) identifier collision as
    /// `IdCollision`.  On success the caller receives the reader handle and
    /// must hand it to the session's dedicated reader worker; the session is
    /// visible in the registry before this function returns.
    pub fn open_session(&mut self, config: &PtyConfig) -> (r: Result<OpenedSession, VtError>)
        requires
            old(self).wf(),
            config.cols >= 1,
            config.rows >= 1,
        ensures
            final(self).wf(),
            r matches Err(e) ==> *final(self) == *old(self) && (e matches VtError::SpawnFailed(_)
                || e matches VtError::WriterUnavailable(_) || e
                matches VtError::ReaderUnavailable(_) || e matches VtError::IdCollision),
            r matches Ok(s) ==> ({
                &&& !old(self).spec_contains(s.id.bits)
                &&& final(self).spec_contains(s.id.bits)
                &&& frame_except(*old(self), *final(self), s.id.bits)
                &&& final(self).spec_len() == old(self).spec_len() + 1
                &&& final(self).spec_queue_of(s.id.bits) =~= Seq::<Seq<u8>>::empty()
                &&& final(self).spec_dropped_of(s.id.bits) == 0
                &&& final(self).spec_written_of(s.id.bits) =~= Seq::<Seq<u8>>::empty()
                &&& !final(self).spec_session_at(s.id.bits).spec_sink_set()
                &&& final(self).spec_session_at(s.id.bits).spec_reader_live()
                &&& !final(self).spec_session_at(s.id.bits).spec_shutdown_fired()
                &&& final(self).spec_session_at(s.id.bits).spec_pid() == s.pid
                &&& final(self).spec_session_at(s.id.bits).spec_geometry() == s.geometry
                &&& s.geometry == (PtyGeometry { cols: config.cols, rows: config.rows })
            }),
    {
        let id = new_session_id();
        if let Some(_) = self.find_index(id.bits) {
            return Err(VtError::IdCollision);
        }
        let handle = match create_pty(config) {
            Ok(h) => h,
            Err(e) => {
                return Err(e);
            },
        };
        let geometry = PtyGeometry { cols: config.cols, rows: config.rows };
        let pid = handle.pid;
        let session = PtySession {
            id,
            pid,
            geometry,
            master: handle.master,
            writer: handle.writer,
            child: handle.child,
            queue: OutputQueue::new(),
            sink: None,
            shutdown: ShutdownSignal::new(),
            reader_live: true,
            written: Ghost(Seq::empty()),
        };
        let ghost old_r = *self;
        self.sessions.push(session);
        proof {
            let n = old_r.sessions@.len() as int;
            assert(self.sessions@ =~= old_r.sessions@.push(session));
            assert(self.sessions@[n].id.bits == id.bits);
            assert forall|i: int, j: int| 0 <= i < j < self.sessions@.len() implies (
            #[trigger] self.sessions@[i]).id.bits != (#[trigger] self.sessions@[j]).id.bits by {
                if j < n {
                    assert(old_r.sessions@[i].id.bits != old_r.sessions@[j].id.bits);
                } else {
                    assert(self.sessions@[i] == old_r.sessions@[i]);
                    if self.sessions@[i].id.bits == id.bits {
                        old_r.lemma_index_of_is(id.bits, i);
                        assert(old_r.spec_contains(id.bits));
                    }
                }
            }
            self.lemma_index_of_is(id.bits, n);
            assert forall|x: u128| x != id.bits implies #[trigger] self.spec_contains(x)
                == old_r.spec_contains(x) by {
                if old_r.spec_contains(x) {
                    let j = old_r.spec_index_of(x);
                    assert(self.sessions@[j].id.bits == x);
                }
                if self.spec_contains(x) {
                    let j = self.spec_index_of(x);
                    assert(j != n);
                    assert(old_r.sessions@[j].id.bits == x);
                }
            }
            assert forall|x: u128| x != id.bits && old_r.spec_contains(x) implies
                #[trigger] self.spec_session_at(x) == old_r.spec_session_at(x) by {
                let j = old_r.spec_index_of(x);
                old_r.lemma_index_of_is(x, j);
                assert(self.sessions@[j] == old_r.sessions@[j]);
                self.lemma_index_of_is(x, j);
            }
        }
        Ok(OpenedSession { id, pid, geometry, reader: handle.reader })
    }

    /// Serialized write towards the child: hand the whole buffer to the PTY
    /// and flush.  On success the buffer joins the log of accepted writes,
    /// after everything accepted before it; system-call failures surface as
    /// `IoFailed` and accept nothing.
    pub fn write(&mut self, id: u128, data: &[u8]) -> (r: Result<(), VtError>)
        requires
            old(self).wf(),
        ensures
            final(self).wf(),
            !old(self).spec_contains(id) ==> r == Err::<(), VtError>(VtError::SessionNotFound)
                && *final(self) == *old(self),
            old(self).spec_contains(id) ==> ({
                &&& final(self).spec_contains(id)
                &&& frame_except(*old(self), *final(self), id)
                &&& final(self).spec_len() == old(self).spec_len()
                &&& (r matches Err(e) ==> e matches VtError::IoFailed(_))
                &&& final(self).spec_written_of(id) == if r is Ok {
                    old(self).spec_written_of(id).push(data@)
                } else {
                    old(self).spec_written_of(id)
                }
                &&& session_passive_eq(
                    old(self).spec_session_at(id),
                    final(self).spec_session_at(id),
                )
            }),
    {
        let idx = match self.find_index(id) {
            Some(i) => i,
            None => {
                return Err(VtError::SessionNotFound);
            },
        };
        let ghost old_r = *self;
        let session = &mut self.sessions[idx];
        let wres = session.writer.write_all_bytes(data);
        let r: Result<(), VtError> = match wres {
            Ok(()) => {
                match session.writer.flush_bytes() {
                    Ok(()) => {
                        session.written = Ghost(session.written@.push(data@));
                        Ok(())
                    },
                    Err(m) => Err(VtError::IoFailed(m)),
                }
            },
            Err(m) => Err(VtError::IoFailed(m)),
        };
        proof {
            Self::lemma_update_frame(&old_r, self, idx as int, id);
        }
        r
    }

    /// Update the kernel geometry of the session's PTY.  On success the
    /// session records the new geometry; system-call failures surface as
    /// `IoFailed` and leave it as it was.
    pub fn resize(&mut self, id: u128, cols: u16, rows: u16) -> (r: Result<(), VtError>)
        requires
            old(self).wf(),
            cols >= 1,
            rows >= 1,
        ensures
            final(self).wf(),
            !old(self).spec_contains(id) ==> r == Err::<(), VtError>(VtError::SessionNotFound)
                && *final(self) == *old(self),
            old(self).spec_contains(id) ==> ({
                &&& final(self).spec_contains(id)
                &&& frame_except(*old(self), *final(self), id)
                &&& final(self).spec_len() == old(self).spec_len()
                &&& (r matches Err(e) ==> e matches VtError::IoFailed(_))
                &&& final(self).spec_session_at(id).spec_geometry() == if r is Ok {
                    PtyGeometry { cols, rows }
                } else {
                    old(self).spec_session_at(id).spec_geometry()
                }
                &&& session_queue_eq(
                    old(self).spec_session_at(id),
                    final(self).spec_session_at(id),
                )
                &&& session_meta_eq(old(self).spec_session_at(id), final(self).spec_session_at(id))
            }),
    {
        let idx = match self.find_index(id) {
            Some(i) => i,
            None => {
                return Err(VtError::SessionNotFound);
            },
        };
        let ghost old_r = *self;
        let session = &mut self.sessions[idx];
        let r: Result<(), VtError> = match resize_pty(&session.master, cols, rows) {
            Ok(()) => {
                session.geometry = PtyGeometry { cols, rows };
                Ok(())
            },
            Err(e) => Err(e),
        };
        proof {
            Self::lemma_update_frame(&old_r, self, idx as int, id);
        }
        r
    }

    /// Deliver a signal to the child's process id; `SIGTERM` when no name or
    /// an unknown name is given.  Killing a child that has already exited is
    /// not an error; other failures surface as `IoFailed`.
    pub fn kill(&mut self, id: u128, signal: Option<String>) -> (r: Result<(), VtError>)
        requires
            old(self).wf(),
        ensures
            final(self).wf(),
            *final(self) == *old(self),
            !old(self).spec_contains(id) ==> r == Err::<(), VtError>(VtError::SessionNotFound),
            old(self).spec_contains(id) ==> (r matches Err(e) ==> e matches VtError::IoFailed(_)),
    {
        let idx = match self.find_index(id) {
            Some(i) => i,
            None => {
                return Err(VtError::SessionNotFound);
            },
        };
        let pid = self.sessions[idx].pid;
        let sig = signal_from_name(&signal);
        match send_signal(pid, sig) {
            Ok(()) => Ok(()),
            Err(m) => Err(VtError::IoFailed(m)),
        }
    }

    /// Dequeue one output chunk without waiting: the oldest chunk when one
    /// is queued, nothing when the queue is empty and the reader worker
    /// still runs, and `ReaderGone` when it has exited and nothing is left.
    pub fn read_output(&mut self, id: u128) -> (r: Result<Option<Vec<u8>>, VtError>)
        requires
            old(self).wf(),
        ensures
            final(self).wf(),
            !old(self).spec_contains(id) ==> r == Err::<Option<Vec<u8>>, VtError>(
                VtError::SessionNotFound,
            ) && *final(self) == *old(self),
            old(self).spec_contains(id) ==> ({
                let q = old(self).spec_queue_of(id);
                &&& final(self).spec_contains(id)
                &&& frame_except(*old(self), *final(self), id)
                &&& session_meta_eq(old(self).spec_session_at(id), final(self).spec_session_at(id))
                &&& final(self).spec_dropped_of(id) == old(self).spec_dropped_of(id)
                &&& (q.len() > 0 ==> ({
                    &&& r matches Ok(c)
                    &&& c matches Some(chunk)
                    &&& chunk@ == q[0]
                    &&& final(self).spec_queue_of(id) =~= q.drop_first()
                }))
                &&& (q.len() == 0 && old(self).spec_session_at(id).spec_reader_live() ==> r
                    == Ok::<Option<Vec<u8>>, VtError>(None) && final(self).spec_queue_of(id) =~= q)
                &&& (q.len() == 0 && !old(self).spec_session_at(id).spec_reader_live() ==> r
                    == Err::<Option<Vec<u8>>, VtError>(VtError::ReaderGone) && final(self).spec_queue_of(id) =~= q)
            }),
    {
        let idx = match self.find_index(id) {
            Some(i) => i,
            None => {
                return Err(VtError::SessionNotFound);
            },
        };
        let ghost old_r = *self;
        let session = &mut self.sessions[idx];
        let popped = session.queue.pop_chunk();
        let reader_live = session.reader_live;
        proof {
            Self::lemma_update_frame(&old_r, self, idx as int, id);
        }
        match popped {
            Some(chunk) => Ok(Some(chunk)),
            None => {
                if reader_live {
                    Ok(None)
                } else {
                    Err(VtError::ReaderGone)
                }
            },
        }
    }

    /// Dequeue leading chunks up to `MAX_DRAIN_BYTES` bytes, concatenated in
    /// arrival order, without waiting; nothing when the queue was empty.
    pub fn read_all_output(&mut self, id: u128) -> (r: Result<Option<Vec<u8>>, VtError>)
        requires
            old(self).wf(),
        ensures
            final(self).wf(),
            !old(self).spec_contains(id) ==> r == Err::<Option<Vec<u8>>, VtError>(
                VtError::SessionNotFound,
            ) && *final(self) == *old(self),
            old(self).spec_contains(id) ==> ({
                let q = old(self).spec_queue_of(id);
                let k = drain_count(q, MAX_DRAIN_BYTES as int) as int;
                let flat = q.take(k).flatten();
                &&& final(self).spec_contains(id)
                &&& frame_except(*old(self), *final(self), id)
                &&& session_meta_eq(old(self).spec_session_at(id), final(self).spec_session_at(id))
                &&& final(self).spec_dropped_of(id) == old(self).spec_dropped_of(id)
                &&& final(self).spec_queue_of(id) =~= q.skip(k)
                &&& (flat.len() == 0 ==> r == Ok::<Option<Vec<u8>>, VtError>(None))
                &&& (flat.len() > 0 ==> ({
                    &&& r matches Ok(c)
                    &&& c matches Some(v)
                    &&& v@ == flat
                }))
            }),
    {
        let idx = match self.find_index(id) {
            Some(i) => i,
            None => {
                return Err(VtError::SessionNotFound);
            },
        };
        let ghost old_r = *self;
        let session = &mut self.sessions[idx];
        let flat = session.queue.drain_chunks();
        proof {
            Self::lemma_update_frame(&old_r, self, idx as int, id);
        }
        if flat.len() == 0 {
            Ok(None)
        } else {
            Ok(Some(flat))
        }
    }

    /// Non-blocking poll of the child: its exit code once it has exited,
    /// nothing while it runs; poll failures surface as `IoFailed`.
    pub fn check_exit_status(&mut self, id: u128) -> (r: Result<Option<i32>, VtError>)
        requires
            old(self).wf(),
        ensures
            final(self).wf(),
            !old(self).spec_contains(id) ==> r == Err::<Option<i32>, VtError>(
                VtError::SessionNotFound,
            ) && *final(self) == *old(self),
            old(self).spec_contains(id) ==> ({
                &&& final(self).spec_contains(id)
                &&& frame_except(*old(self), *final(self), id)
                &&& session_passive_eq(
                    old(self).spec_session_at(id),
                    final(self).spec_session_at(id),
                )
                &&& final(self).spec_written_of(id) == old(self).spec_written_of(id)
                &&& (r matches Err(e) ==> e matches VtError::IoFailed(_))
            }),
    {
        let idx = match self.find_index(id) {
            Some(i) => i,
            None => {
                return Err(VtError::SessionNotFound);
            },
        };
        let ghost old_r = *self;
        let session = &mut self.sessions[idx];
        let polled = session.child.poll_exit();
        proof {
            Self::lemma_update_frame(&old_r, self, idx as int, id);
        }
        match polled {
            ExitPoll::Exited(code) => Ok(Some(code)),
            ExitPoll::Running => Ok(None),
            ExitPoll::Failed(m) => Err(VtError::IoFailed(m)),
        }
    }

    /// Record that the session's reader worker has exited; an empty queue
    /// then reads as `ReaderGone`.
    pub fn mark_reader_exited(&mut self, id: u128)
        requires
            old(self).wf(),
        ensures
            final(self).wf(),
            !old(self).spec_contains(id) ==> *final(self) == *old(self),
            old(self).spec_contains(id) ==> ({
                &&& final(self).spec_contains(id)
                &&& frame_except(*old(self), *final(self), id)
                &&& !final(self).spec_session_at(id).spec_reader_live()
                &&& session_queue_eq(
                    old(self).spec_session_at(id),
                    final(self).spec_session_at(id),
                )
                &&& final(self).spec_session_at(id).spec_geometry() == old(self).spec_session_at(id).spec_geometry()
            }),
    {
        let idx = match self.find_index(id) {
            Some(i) => i,
            None => {
                return ;
            },
        };
        let ghost old_r = *self;
        let session = &mut self.sessions[idx];
        session.reader_live = false;
        proof {
            Self::lemma_update_frame(&old_r, self, idx as int, id);
        }
    }
}

/// Queue contents, drop counter and write log are held as they were.
pub open spec fn session_queue_eq<S>(a: PtySession<S>, b: PtySession<S>) -> bool {
    &&& a.spec_queue() == b.spec_queue()
    &&& a.spec_dropped() == b.spec_dropped()
    &&& a.spec_written() == b.spec_written()
}

/// Identifier, pid, sink attachment, reader liveness and shutdown state are
/// held as they were.
pub open spec fn session_meta_eq<S>(a: PtySession<S>, b: PtySession<S>) -> bool {
    &&& a.spec_id() == b.spec_id()
    &&& a.spec_pid() == b.spec_pid()
    &&& a.spec_sink_set() == b.spec_sink_set()
    &&& a.spec_reader_live() == b.spec_reader_live()
    &&& a.spec_shutdown_fired() == b.spec_shutdown_fired()
}

/// Everything observable but the write log is held as it was.
pub open spec fn session_passive_eq<S>(a: PtySession<S>, b: PtySession<S>) -> bool {
    &&& session_meta_eq(a, b)
    &&& a.spec_geometry() == b.spec_geometry()
    &&& a.spec_queue() == b.spec_queue()
    &&& a.spec_dropped() == b.spec_dropped()
}

impl<S: DataSink> SessionRegistry<S> {
    /// Attach, replace or detach the session's push sink.
    pub fn set_on_data(&mut self, id: u128, sink: Option<S>) -> (r: Result<(), VtError>)
        requires
            old(self).wf(),
        ensures
            final(self).wf(),
            !old(self).spec_contains(id) ==> r == Err::<(), VtError>(VtError::SessionNotFound)
                && *final(self) == *old(self),
            old(self).spec_contains(id) ==> ({
                &&& r == Ok::<(), VtError>(())
                &&& final(self).spec_contains(id)
                &&& frame_except(*old(self), *final(self), id)
                &&& final(self).spec_session_at(id).spec_sink_set() == (sink is Some)
                &&& session_queue_eq(
                    old(self).spec_session_at(id),
                    final(self).spec_session_at(id),
                )
                &&& final(self).spec_session_at(id).spec_geometry() == old(self).spec_session_at(id).spec_geometry()
                &&& final(self).spec_session_at(id).spec_reader_live() == old(self).spec_session_at(id).spec_reader_live()
            }),
    {
        let idx = match self.find_index(id) {
            Some(i) => i,
            None => {
                return Err(VtError::SessionNotFound);
            },
        };
        let ghost old_r = *self;
        let session = &mut self.sessions[idx];
        session.sink = sink;
        proof {
            Self::lemma_update_frame(&old_r, self, idx as int, id);
        }
        Ok(())
    }

    /// Fan one chunk of child output out, on behalf of the reader worker:
    /// hand it to the push sink when one is attached, then enqueue it, or
    /// drop it whole (and count the drop) when the queue is full.  When the
    /// session has left the registry, nothing happens and the worker learns
    /// that it must exit.
    pub fn ingest_chunk(&mut self, id: u128, data: Vec<u8>) -> (r: IngestOutcome)
        requires
            old(self).wf(),
            data@.len() <= MAX_CHUNK_BYTES,
        ensures
            final(self).wf(),
            !old(self).spec_contains(id) ==> r == IngestOutcome::Gone && *final(self) == *old(self),
            old(self).spec_contains(id) ==> ({
                let q = old(self).spec_queue_of(id);
                &&& final(self).spec_contains(id)
                &&& frame_except(*old(self), *final(self), id)
                &&& session_meta_eq(old(self).spec_session_at(id), final(self).spec_session_at(id))
                &&& final(self).spec_written_of(id) == old(self).spec_written_of(id)
                &&& r == if q.len() < QUEUE_CAPACITY {
                    IngestOutcome::Queued
                } else {
                    IngestOutcome::Dropped
                }
                &&& (r == IngestOutcome::Queued ==> final(self).spec_queue_of(id) =~= q.push(data@)
                    && final(self).spec_dropped_of(id) == old(self).spec_dropped_of(id))
                &&& (r == IngestOutcome::Dropped ==> final(self).spec_queue_of(id) =~= q)
                &&& (r == IngestOutcome::Dropped ==> final(self).spec_dropped_of(id) > old(self).spec_dropped_of(id) || old(self).spec_dropped_of(id) == u64::MAX)
                &&& final(self).spec_dropped_of(id) >= old(self).spec_dropped_of(id)
            }),
    {
        let idx = match self.find_index(id) {
            Some(i) => i,
            None => {
                return IngestOutcome::Gone;
            },
        };
        let ghost old_r = *self;
        let session = &mut self.sessions[idx];
        match &mut session.sink {
            Some(sink) => sink.on_data(data.as_slice()),
            None => (),
        }
        let accepted = session.queue.push_chunk(data);
        proof {
            Self::lemma_update_frame(&old_r, self, idx as int, id);
        }
        if accepted {
            IngestOutcome::Queued
        } else {
            IngestOutcome::Dropped
        }
    }

    /// Idempotent teardown: remove the session from the registry, fire its
    /// shutdown signal, poll the child and force-terminate it when it still
    /// runs, then block until the child is reaped.  A second call on the
    /// same identifier finds nothing and changes nothing; every later
    /// operation on the identifier fails with `SessionNotFound`.
    pub fn destroy(&mut self, id: u128)
        requires
            old(self).wf(),
        ensures
            final(self).wf(),
            !final(self).spec_contains(id),
            frame_except(*old(self), *final(self), id),
            !old(self).spec_contains(id) ==> *final(self) == *old(self),
            old(self).spec_contains(id) ==> final(self).spec_len() == old(self).spec_len() - 1,
    {
        let removed = self.remove(id);
        match removed {
            Some(mut session) => {
                session.shutdown.fire();
                match session.child.poll_exit() {
                    ExitPoll::Exited(_) => (),
                    ExitPoll::Running => {
                        let _ = session.child.force_kill();
                    },
                    ExitPoll::Failed(_) => (),
                }
                let _ = session.child.wait_reap();
            },
            None => (),
        }
    }
}


/// What the reader worker does after one read attempt: hand arrived bytes to
/// `ingest_chunk`, sleep briefly and retry on a would-block read, and exit on
/// end of stream or on any other failure.  Termination always runs to the
/// next iteration, so a pending shutdown (the session's removal) is honored
/// on the next delivery.
pub enum ReaderAction {
    /// Hand these bytes to the registry and continue.
    Deliver(Vec<u8>),
    /// Sleep for about a millisecond, then try again.
    SleepRetry,
    /// Leave the loop; no more bytes will come.
    Exit,
}

/// Decide the reader worker's next move from one read attempt.
pub fn reader_step(outcome: ReadOutcome) -> (r: ReaderAction)
    ensures
        match outcome {
            ReadOutcome::Data(d) => r matches ReaderAction::Deliver(x) && x == d,
            ReadOutcome::Eof => r matches ReaderAction::Exit,
            ReadOutcome::WouldBlock => r matches ReaderAction::SleepRetry,
            ReadOutcome::Failed => r matches ReaderAction::Exit,
        },
{
    match outcome {
        ReadOutcome::Data(d) => ReaderAction::Deliver(d),
        ReadOutcome::Eof => ReaderAction::Exit,
        ReadOutcome::WouldBlock => ReaderAction::SleepRetry,
        ReadOutcome::Failed => ReaderAction::Exit,
    }
}

/// The log of accepted writes only grows: an accepted write leaves every
/// earlier buffer at its position and adds the new bytes at the end.  With
/// the trusted writer handing each buffer over whole and in order, the child
/// observes accepted buffers in issue order.
pub proof fn lemma_write_order(log: Seq<Seq<u8>>, chunk: Seq<u8>)
    ensures
        log.push(chunk).len() == log.len() + 1,
        forall|i: int| 0 <= i < log.len() ==> log.push(chunk)[i] == log[i],
        log.push(chunk)[log.len() as int] == chunk,
{
}

/// An identifier the registry no longer holds resolves to no session: after
/// `destroy(id)` returns, `lookup(id)` yields nothing, and every operation
/// on `id` fails with `SessionNotFound` while delivering nothing to any
/// sink.
pub proof fn lemma_destroyed_session_unreachable<S>(r: SessionRegistry<S>, id: u128)
    requires
        !r.spec_contains(id),
    ensures
        r.spec_lookup(id) is None,
{
}

/// The output queue of every session in a well-formed registry holds at
/// most `QUEUE_CAPACITY` chunks.
pub proof fn lemma_output_queue_bounded<S>(r: &SessionRegistry<S>, id: u128)
    requires
        r.wf(),
        r.spec_contains(id),
    ensures
        r.spec_queue_of(id).len() <= QUEUE_CAPACITY,
{
    let i = r.spec_index_of(id);
    assert(0 <= i < r.sessions@.len() && r.sessions@[i].id.bits == id);
    assert(r.sessions@[i].wf());
    crate::queue::lemma_queue_bounded(&r.sessions@[i].queue);
}

} // verus!
