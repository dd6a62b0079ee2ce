use vstd::prelude::*;

verus! {

/// Why an operation on an existing session failed.
#[derive(Debug, PartialEq)]
pub enum OpError {
    /// No live session carries the given identifier.
    NotFound,
    /// The terminal behind the session reported an error, with its message.
    IoFailure(String),
}

/// Why a session could not be created.
#[derive(Debug, PartialEq)]
pub enum CreateError {
    /// The terminal could not be opened or the child could not be started.
    SpawnFailed(String),
}

/// One registered session: its identifier, the token it was registered
/// under, and the handle that owns its input sink and terminal control.
pub struct Session<H> {
    pub id: String,
    pub token: u64,
    pub handle: H,
}

/// The set of live sessions, keyed by identifier.
///
/// Every session is registered under a fresh token, so that background work
/// started for one incarnation of an identifier can tell whether its session
/// is still the one the registry holds.
pub struct SessionRegistry<H> {
    sessions: Vec<Session<H>>,
    next_token: u64,
}

impl<H> SessionRegistry<H> {
    /// The registered sessions, in storage order.
    pub closed spec fn entries(&self) -> Seq<Session<H>> {
        self.sessions@
    }

    /// The token the next registration will receive.
    pub closed spec fn next_token(&self) -> u64 {
        self.next_token
    }

    pub open spec fn has_id(&self, id: Seq<char>) -> bool {
        exists|i: int| 0 <= i < self.entries().len() && #[trigger] self.entries()[i].id@ == id
    }

    pub open spec fn index_of(&self, id: Seq<char>) -> int {
        choose|i: int| 0 <= i < self.entries().len() && #[trigger] self.entries()[i].id@ == id
    }

    /// The live sessions: identifier to (token, handle).
    pub open spec fn view(&self) -> Map<Seq<char>, (u64, H)> {
        Map::new(
            |k: Seq<char>| self.has_id(k),
            |k: Seq<char>|
                (self.entries()[self.index_of(k)].token, self.entries()[self.index_of(k)].handle),
        )
    }

    /// Identifiers are unique and every token was issued before `next_token`.
    pub open spec fn wf(&self) -> bool {
        &&& forall|i: int, j: int|
            0 <= i < j < self.entries().len() ==> #[trigger] self.entries()[i].id@
                != #[trigger] self.entries()[j].id@
        &&& forall|i: int|
            0 <= i < self.entries().len() ==> #[trigger] self.entries()[i].token
                < self.next_token()
    }

    /// Whether `(id, token)` names the session that is live under `id`.
    pub open spec fn is_current_spec(&self, id: Seq<char>, token: u64) -> bool {
        self.view().contains_key(id) && self.view()[id].0 == token
    }

    proof fn lemma_view_at(&self, i: int)
        requires
            self.wf(),
            0 <= i < self.entries().len(),
        ensures
            self.view().contains_key(self.entries()[i].id@),
            self.view()[self.entries()[i].id@] == (self.entries()[i].token, self.entries()[i].handle),
    {
        let k = self.entries()[i].id@;
        assert(self.has_id(k));
        let j = self.index_of(k);
        if j != i {
            if j < i {
                assert(self.entries()[j].id@ != self.entries()[i].id@);
            } else {
                assert(self.entries()[i].id@ != self.entries()[j].id@);
            }
        }
    }

    /// An empty registry.
    pub fn new() -> (r: Self)
        ensures
            r.wf(),
            r.view() == Map::<Seq<char>, (u64, H)>::empty(),
            r.next_token() == 0,
    {
        let r = SessionRegistry { sessions: Vec::new(), next_token: 0 };
        assert(r.view() =~= Map::<Seq<char>, (u64, H)>::empty());
        r
    }

    fn find(&self, id: &String) -> (r: Option<usize>)
        requires
            self.wf(),
        ensures
            match r {
                Some(i) => i < self.entries().len() && self.entries()[i as int].id@ == id@,
                None => !self.has_id(id@),
            },
    {
        let mut i: usize = 0;
        while i < self.sessions.len()
            invariant
                0 <= i <= self.sessions@.len(),
                forall|j: int| 0 <= j < i ==> self.sessions@[j].id@ != id@,
            decreases self.sessions@.len() - i,
        {
            if self.sessions[i].id == *id {
                return Some(i);
            }
            i = i + 1;
        }
        None
    }

    proof fn lemma_same_keys(a: &Self, b: &Self, i: int)
        requires
            a.wf(),
            0 <= i < a.entries().len(),
            b.entries().len() == a.entries().len(),
            b.next_token() == a.next_token(),
            b.entries()[i].id@ == a.entries()[i].id@,
            b.entries()[i].token < b.next_token(),
            forall|j: int| 0 <= j < a.entries().len() && j != i ==> b.entries()[j] == a.entries()[j],
        ensures
            b.wf(),
            b.view() == a.view().insert(
                a.entries()[i].id@,
                (b.entries()[i].token, b.entries()[i].handle),
            ),
    {
        assert forall|x: int, y: int|
            0 <= x < y < b.entries().len() implies #[trigger] b.entries()[x].id@
                != #[trigger] b.entries()[y].id@ by {
            assert(a.entries()[x].id@ != a.entries()[y].id@);
        }
        let k0 = a.entries()[i].id@;
        b.lemma_view_at(i);
        assert forall|k: Seq<char>| k != k0 implies (b.has_id(k) <==> a.has_id(k)) && (a.has_id(k)
            ==> b.view()[k] == a.view()[k]) by {
            if a.has_id(k) {
                let j = a.index_of(k);
                a.lemma_view_at(j);
                b.lemma_view_at(j);
            }
            if b.has_id(k) {
                let j = b.index_of(k);
                assert(b.entries()[j].id@ == a.entries()[j].id@);
            }
        }
        assert(b.view() =~= a.view().insert(k0, (b.entries()[i].token, b.entries()[i].handle)));
    }

    /// Registers `handle` under `id` with a fresh token. A session that was
    /// live under the same identifier is taken out and handed back, so that
    /// the caller can shut it down.
    pub fn register(&mut self, id: String, handle: H) -> (r: (u64, Option<H>))
        requires
            old(self).wf(),
            old(self).next_token() < u64::MAX,
        ensures
            final(self).wf(),
            r.0 == old(self).next_token(),
            final(self).next_token() == old(self).next_token() + 1,
            final(self).view() == old(self).view().insert(id@, (r.0, handle)),
            match r.1 {
                Some(h) => old(self).view().contains_key(id@) && h == old(self).view()[id@].1,
                None => !old(self).view().contains_key(id@),
            },
    {
        let token = self.next_token;
        let ghost before = *self;
        match self.find(&id) {
            Some(i) => {
                proof {
                    before.lemma_view_at(i as int);
                }
                let mut fresh = Session { id, token, handle };
                std::mem::swap(&mut self.sessions[i], &mut fresh);
                self.next_token = token + 1;
                proof {
                    let mid = SessionRegistry { sessions: before.sessions, next_token: (token + 1) as u64 };
                    assert(mid.wf());
                    assert(mid.view() =~= before.view());
                    Self::lemma_same_keys(&mid, self, i as int);
                }
                (token, Some(fresh.handle))
            },
            None => {
                self.sessions.push(Session { id, token, handle });
                self.next_token = token + 1;
                proof {
                    let n = before.entries().len();
                    assert forall|x: int, y: int|
                        0 <= x < y < self.entries().len() implies #[trigger] self.entries()[x].id@
                            != #[trigger] self.entries()[y].id@ by {
                        if y == n {
                            assert(before.entries()[x].id@ != id@);
                        } else {
                            assert(before.entries()[x].id@ != before.entries()[y].id@);
                        }
                    }
                    self.lemma_view_at(n as int);
                    assert forall|k: Seq<char>| k != id@ implies (self.has_id(k) <==> before.has_id(k))
                        && (before.has_id(k) ==> self.view()[k] == before.view()[k]) by {
                        if before.has_id(k) {
                            let j = before.index_of(k);
                            before.lemma_view_at(j);
                            self.lemma_view_at(j);
                        }
                        if self.has_id(k) {
                            let j = self.index_of(k);
                            assert(j != n);
                            assert(before.entries()[j].id@ == k);
                        }
                    }
                    assert(self.view() =~= before.view().insert(id@, (token, handle)));
                }
                (token, None)
            },
        }
    }

    /// Looks up the live session `id` and lends out its handle; the handle
    /// may be changed through the loan, and nothing else in the registry is.
    /// An identifier that is not live gives `NotFound`.
    pub fn session_mut(&mut self, id: &String) -> (r: Result<&mut H, OpError>)
        requires
            old(self).wf(),
        ensures
            final(self).wf(),
            final(self).next_token() == old(self).next_token(),
            r is Ok <==> old(self).view().contains_key(id@),
            r is Err ==> (r matches Err(OpError::NotFound)) && *final(self) == *old(self),
            r matches Ok(h) ==> *h == old(self).view()[id@].1 && final(self).view()
                == old(self).view().insert(id@, (old(self).view()[id@].0, *final(h))),
    {
        match self.find(id) {
            Some(i) => {
                proof {
                    self.lemma_view_at(i as int);
                }
                let ghost before = *self;
                proof {
                    assert forall|b: Self|
                        #![trigger b.entries()]
                        b.entries() == before.entries().update(
                            i as int,
                            Session {
                                id: before.entries()[i as int].id,
                                token: before.entries()[i as int].token,
                                handle: b.entries()[i as int].handle,
                            },
                        ) && b.next_token() == before.next_token() implies b.wf() && b.view()
                        == before.view().insert(
                        id@,
                        (before.view()[id@].0, b.entries()[i as int].handle),
                    ) by {
                        Self::lemma_same_keys(&before, &b, i as int);
                    }
                }
                let entry = &mut self.sessions[i];
                let h = &mut entry.handle;
                Ok(h)
            },
            None => Err(OpError::NotFound),
        }
    }

    /// Takes the live session `id` out of the registry and hands its handle
    /// back, for the caller to shut down. An identifier that is not live
    /// gives `NotFound` and changes nothing.
    pub fn close(&mut self, id: &String) -> (r: Result<H, OpError>)
        requires
            old(self).wf(),
        ensures
            final(self).wf(),
            final(self).next_token() == old(self).next_token(),
            final(self).view() == old(self).view().remove(id@),
            r is Ok <==> old(self).view().contains_key(id@),
            r is Err ==> (r matches Err(OpError::NotFound)),
            r matches Ok(h) ==> h == old(self).view()[id@].1,
    {
        let ghost before = *self;
        match self.find(id) {
            Some(i) => {
                proof {
                    before.lemma_view_at(i as int);
                }
                let s = self.sessions.swap_remove(i);
                proof {
                    let n = before.entries().len() - 1;
                    assert forall|x: int, y: int|
                        0 <= x < y < self.entries().len() implies #[trigger] self.entries()[x].id@
                            != #[trigger] self.entries()[y].id@ by {
                        let ox = if x == i { n } else { x };
                        let oy = if y == i { n } else { y };
                        if ox < oy {
                            assert(before.entries()[ox].id@ != before.entries()[oy].id@);
                        } else {
                            assert(before.entries()[oy].id@ != before.entries()[ox].id@);
                        }
                    }
                    assert forall|j: int| 0 <= j < self.entries().len() implies #[trigger]
                        self.entries()[j].token < self.next_token() by {
                        let oj = if j == i { n } else { j };
                        assert(self.entries()[j] == before.entries()[oj]);
                    }
                    assert forall|k: Seq<char>| k != id@ implies (self.has_id(k) <==> before.has_id(k))
                        && (before.has_id(k) ==> self.view()[k] == before.view()[k]) by {
                        if before.has_id(k) {
                            let j = before.index_of(k);
                            before.lemma_view_at(j);
                            let nj = if j == n { i as int } else { j };
                            assert(self.entries()[nj] == before.entries()[j]);
                            self.lemma_view_at(nj);
                        }
                        if self.has_id(k) {
                            let j = self.index_of(k);
                            let oj = if j == i { n } else { j };
                            assert(self.entries()[j] == before.entries()[oj]);
                        }
                    }
                    assert(!self.has_id(id@)) by {
                        if self.has_id(id@) {
                            let j = self.index_of(id@);
                            let oj = if j == i { n } else { j };
                            assert(self.entries()[j] == before.entries()[oj]);
                            assert(oj != i);
                            if oj < i {
                                assert(before.entries()[oj].id@ != before.entries()[i as int].id@);
                            } else {
                                assert(before.entries()[i as int].id@ != before.entries()[oj].id@);
                            }
                        }
                    }
                    assert(self.view() =~= before.view().remove(id@));
                }
                Ok(s.handle)
            },
            None => {
                assert(before.view().remove(id@) =~= before.view());
                Err(OpError::NotFound)
            },
        }
    }

    /// Whether `(id, token)` still names the live session under `id`: work
    /// started for a session that was closed, or replaced by a later one
    /// under the same identifier, sees `false`.
    pub fn is_current(&self, id: &String, token: u64) -> (r: bool)
        requires
            self.wf(),
        ensures
            r == self.is_current_spec(id@, token),
    {
        match self.find(id) {
            Some(i) => {
                proof {
                    self.lemma_view_at(i as int);
                }
                self.sessions[i].token == token
            },
            None => false,
        }
    }

    /// Whether another session can be registered: tokens are not used up.
    pub fn can_register(&self) -> (r: bool)
        ensures
            r == (self.next_token() < u64::MAX),
    {
        self.next_token < u64::MAX
    }

    /// Whether a session is live under `id`.
    pub fn contains(&self, id: &String) -> (r: bool)
        requires
            self.wf(),
        ensures
            r == self.view().contains_key(id@),
    {
        self.find(id).is_some()
    }
}

/// Sessions are independent: a write or a resize goes through the handle of
/// session `a` alone (see `session_mut`), and leaves every other session
/// `b` as it was, so whether the output of `b` is delivered is unchanged.
pub proof fn lemma_sessions_independent<H>(
    before: SessionRegistry<H>,
    after: SessionRegistry<H>,
    a: Seq<char>,
    b: Seq<char>,
    h: H,
    token: u64,
)
    requires
        a != b,
        before.view().contains_key(a),
        after.view() == before.view().insert(a, (before.view()[a].0, h)),
    ensures
        after.view().contains_key(b) == before.view().contains_key(b),
        before.view().contains_key(b) ==> after.view()[b] == before.view()[b],
        after.is_current_spec(b, token) == before.is_current_spec(b, token),
{
}

/// Using a session leaves it usable: after a write or a resize through
/// `session_mut`, the session is still live under the same token, so the
/// next write or resize finds it and its output is still delivered.
pub proof fn lemma_session_outlives_use<H>(
    before: SessionRegistry<H>,
    after: SessionRegistry<H>,
    id: Seq<char>,
    h: H,
)
    requires
        before.view().contains_key(id),
        after.view() == before.view().insert(id, (before.view()[id].0, h)),
    ensures
        after.view().contains_key(id),
        after.is_current_spec(id, before.view()[id].0),
{
}

/// Once `close(id)` has succeeded, `id` is unknown: looking it up for a
/// write or a resize, or closing it again, gives `NotFound` (see the
/// contracts of `session_mut` and `close`) until it is registered anew.
pub proof fn lemma_closed_id_unknown<H>(
    before: SessionRegistry<H>,
    after: SessionRegistry<H>,
    id: Seq<char>,
)
    requires
        after.view() == before.view().remove(id),
    ensures
        !after.view().contains_key(id),
{
}

/// After `close(id)`, the output pump of the closed session delivers
/// nothing more: its token is not current under `id`, and it is below
/// every token a later registration hands out, which starts at
/// `next_token` and only grows.
pub proof fn lemma_no_output_after_close<H>(
    before: SessionRegistry<H>,
    after: SessionRegistry<H>,
    id: Seq<char>,
    token: u64,
)
    requires
        before.wf(),
        before.is_current_spec(id, token),
        after.view() == before.view().remove(id),
        after.next_token() == before.next_token(),
    ensures
        !after.is_current_spec(id, token),
        token < after.next_token(),
{
    before.lemma_view_at(before.index_of(id));
}

} // verus!
