use vstd::prelude::*;
use vstd::slice::slice_to_vec;
use crate::blacklist::{blacklisted, Blacklist};
use crate::codec::views;
use crate::extract::{extract_sender, opt_view, sender_of};
use crate::text::{bytes_eq, DOT};

verus! {

/// Where a session's transaction stands.
#[derive(PartialEq, Eq, Structural, Clone, Copy)]
pub enum Phase {
    /// Transaction open, no message line seen yet.
    Active,
    /// Receiving message lines.
    Collecting,
    /// The result was sent.
    Decided,
}

/// A session as plain values.
pub struct SessionModel {
    pub phase: Phase,
    /// The token of the filtered transaction, once a line came.
    pub token: Option<Seq<u8>>,
    /// The message lines buffered so far.
    pub lines: Seq<Seq<u8>>,
    /// The sender, once extracted (itself absent without a sender header).
    pub sender: Option<Option<Seq<u8>>>,
}

/// A session as a transaction begins: nothing buffered, no sender.
pub open spec fn fresh() -> SessionModel {
    SessionModel { phase: Phase::Active, token: None, lines: Seq::empty(), sender: None }
}

/// The line that ends the message data: a single dot.
pub open spec fn is_terminator(line: Seq<u8>) -> bool {
    line == seq![DOT]
}

/// A session after one more message line.
pub open spec fn appended(s: SessionModel, token: Seq<u8>, line: Seq<u8>) -> SessionModel {
    SessionModel {
        phase: Phase::Collecting,
        token: if s.phase == Phase::Active {
            Some(token)
        } else {
            s.token
        },
        lines: if is_terminator(line) {
            s.lines
        } else {
            s.lines.push(line)
        },
        sender: s.sender,
    }
}

/// The sender that a decision goes by: the one extracted before, else the
/// one in the buffered lines.
pub open spec fn decided_sender(s: SessionModel) -> Option<Seq<u8>> {
    match s.sender {
        Some(x) => x,
        None => sender_of(s.lines),
    }
}

/// A transaction is rejected only when it has a sender and that sender is
/// blacklisted.
pub open spec fn verdict(sender: Option<Seq<u8>>, addrs: Set<Seq<u8>>, patterns: Seq<Seq<u8>>) -> bool {
    match sender {
        Some(a) => blacklisted(a, addrs, patterns),
        None => false,
    }
}

/// All sessions: a message line goes to a session whose transaction is not
/// yet decided.
pub open spec fn append_to(
    m: Map<Seq<u8>, SessionModel>,
    id: Seq<u8>,
    token: Seq<u8>,
    line: Seq<u8>,
) -> Map<Seq<u8>, SessionModel> {
    if m.contains_key(id) && m[id].phase != Phase::Decided {
        m.insert(id, appended(m[id], token, line))
    } else {
        m
    }
}

/// All sessions after a decision on `id`, which must be known.
pub open spec fn decide_on(m: Map<Seq<u8>, SessionModel>, id: Seq<u8>) -> Map<Seq<u8>, SessionModel> {
    let s = m[id];
    m.insert(
        id,
        SessionModel { phase: Phase::Decided, token: s.token, lines: s.lines, sender: Some(decided_sender(s)) },
    )
}

/// No key occurs twice.
pub open spec fn unique(ks: Seq<Seq<u8>>) -> bool {
    forall|a: int, b: int| 0 <= a < ks.len() && 0 <= b < ks.len() && ks[a] == ks[b] ==> a == b
}

pub open spec fn index_of(ks: Seq<Seq<u8>>, k: Seq<u8>) -> int {
    choose|i: int| 0 <= i < ks.len() && ks[i] == k
}

/// The map from each key to the value at its position.
pub open spec fn map_of(ks: Seq<Seq<u8>>, vs: Seq<SessionModel>) -> Map<Seq<u8>, SessionModel> {
    Map::new(|k: Seq<u8>| ks.contains(k), |k: Seq<u8>| vs[index_of(ks, k)])
}

proof fn lemma_map_at(ks: Seq<Seq<u8>>, vs: Seq<SessionModel>, i: int)
    requires
        unique(ks),
        0 <= i < ks.len(),
    ensures
        map_of(ks, vs).contains_key(ks[i]),
        map_of(ks, vs)[ks[i]] == vs[i],
{
    assert(ks.contains(ks[i]));
    let j = index_of(ks, ks[i]);
    assert(ks[j] == ks[i]);
}

proof fn lemma_map_push(ks: Seq<Seq<u8>>, vs: Seq<SessionModel>, k: Seq<u8>, v: SessionModel)
    requires
        unique(ks),
        !ks.contains(k),
        ks.len() == vs.len(),
    ensures
        unique(ks.push(k)),
        map_of(ks.push(k), vs.push(v)) == map_of(ks, vs).insert(k, v),
{
    let ks2 = ks.push(k);
    let vs2 = vs.push(v);
    assert forall|a: int, b: int| 0 <= a < ks2.len() && 0 <= b < ks2.len() && ks2[a] == ks2[b] implies a == b by {
        if a < ks.len() && b == ks.len() {
            assert(ks[a] == k);
        } else if b < ks.len() && a == ks.len() {
            assert(ks[b] == k);
        } else if a < ks.len() && b < ks.len() {
            assert(ks[a] == ks[b]);
        }
    }
    let m2 = map_of(ks2, vs2);
    let m = map_of(ks, vs).insert(k, v);
    assert forall|x: Seq<u8>| m2.contains_key(x) <==> m.contains_key(x) by {
        vstd::seq_lib::lemma_seq_contains_after_push(ks, k, x);
    }
    assert forall|x: Seq<u8>| m2.contains_key(x) implies m2[x] == m[x] by {
        vstd::seq_lib::lemma_seq_contains_after_push(ks, k, x);
        if x == k {
            lemma_map_at(ks2, vs2, ks.len() as int);
        } else {
            let j = index_of(ks, x);
            lemma_map_at(ks, vs, j);
            assert(ks2[j] == x);
            lemma_map_at(ks2, vs2, j);
        }
    }
    assert(m2 =~= m);
}

proof fn lemma_map_remove(ks: Seq<Seq<u8>>, vs: Seq<SessionModel>, i: int)
    requires
        unique(ks),
        0 <= i < ks.len(),
        ks.len() == vs.len(),
    ensures
        unique(ks.remove(i)),
        ks.remove(i).len() == vs.remove(i).len(),
        map_of(ks.remove(i), vs.remove(i)) == map_of(ks, vs).remove(ks[i]),
{
    let ks2 = ks.remove(i);
    let vs2 = vs.remove(i);
    ks.remove_ensures(i);
    vs.remove_ensures(i);
    assert forall|a: int, b: int| 0 <= a < ks2.len() && 0 <= b < ks2.len() && ks2[a] == ks2[b] implies a == b by {
        let oa = if a < i { a } else { a + 1 };
        let ob = if b < i { b } else { b + 1 };
        assert(ks[oa] == ks2[a] && ks[ob] == ks2[b]);
    }
    let m2 = map_of(ks2, vs2);
    let m = map_of(ks, vs).remove(ks[i]);
    assert forall|x: Seq<u8>| m2.contains_key(x) implies m.contains_key(x) && m2[x] == m[x] by {
        let j = index_of(ks2, x);
        let oj = if j < i { j } else { j + 1 };
        assert(ks[oj] == x);
        lemma_map_at(ks, vs, oj);
        lemma_map_at(ks2, vs2, j);
    }
    assert forall|x: Seq<u8>| m.contains_key(x) implies m2.contains_key(x) by {
        let oj = index_of(ks, x);
        assert(ks[oj] == x);
        assert(oj != i);
        let j = if oj < i { oj } else { oj - 1 };
        assert(ks2[j] == x);
    }
    assert(m2 =~= m);
}

/// One session's state.
pub struct Session {
    phase: Phase,
    token: Option<Vec<u8>>,
    lines: Vec<Vec<u8>>,
    sender: Option<Option<Vec<u8>>>,
}

impl View for Session {
    type V = SessionModel;

    closed spec fn view(&self) -> SessionModel {
        SessionModel {
            phase: self.phase,
            token: opt_view(self.token),
            lines: views(self.lines@),
            sender: match self.sender {
                Some(x) => Some(opt_view(x)),
                None => None,
            },
        }
    }
}

impl Session {
    /// A session whose transaction just began.
    pub fn new() -> (r: Session)
        ensures
            r@ == fresh(),
    {
        let r = Session { phase: Phase::Active, token: None, lines: Vec::new(), sender: None };
        assert(views(r.lines@) =~= Seq::empty());
        r
    }
}

pub open spec fn models(ss: Seq<Session>) -> Seq<SessionModel> {
    ss.map_values(|s: Session| s@)
}

/// All sessions, by identifier.
pub struct SessionTable {
    ids: Vec<Vec<u8>>,
    sessions: Vec<Session>,
}

impl SessionTable {
    /// Each identifier is held once, beside its session.
    pub closed spec fn wf(&self) -> bool {
        &&& self.ids@.len() == self.sessions@.len()
        &&& unique(views(self.ids@))
    }

    /// The sessions, by identifier.
    pub closed spec fn sessions(&self) -> Map<Seq<u8>, SessionModel> {
        map_of(views(self.ids@), models(self.sessions@))
    }

    /// A table without sessions.
    pub fn new() -> (r: SessionTable)
        ensures
            r.wf(),
            r.sessions() == Map::<Seq<u8>, SessionModel>::empty(),
    {
        let r = SessionTable { ids: Vec::new(), sessions: Vec::new() };
        assert(views(r.ids@) =~= Seq::empty());
        assert(r.sessions() =~= Map::empty());
        r
    }

    /// The position of `id`, if it is known.
    fn position(&self, id: &[u8]) -> (r: Option<usize>)
        requires
            self.wf(),
        ensures
            match r {
                Some(i) => {
                    &&& i < self.ids@.len()
                    &&& self.ids@[i as int]@ == id@
                    &&& self.sessions().contains_key(id@)
                    &&& self.sessions()[id@] == self.sessions@[i as int]@
                },
                None => !self.sessions().contains_key(id@),
            },
    {
        let mut i: usize = 0;
        while i < self.ids.len()
            invariant
                self.wf(),
                i <= self.ids@.len(),
                forall|j: int| 0 <= j < i ==> views(self.ids@)[j] != id@,
            decreases self.ids@.len() - i,
        {
            if bytes_eq(self.ids[i].as_slice(), id) {
                proof {
                    assert(views(self.ids@)[i as int] == id@);
                    lemma_map_at(views(self.ids@), models(self.sessions@), i as int);
                    assert(models(self.sessions@)[i as int] == self.sessions@[i as int]@);
                }
                return Some(i);
            }
            i = i + 1;
        }
        assert(!views(self.ids@).contains(id@));
        None
    }

    /// Takes the session at `i` out of the table.
    fn take(&mut self, i: usize) -> (r: (Vec<u8>, Session))
        requires
            old(self).wf(),
            i < old(self).ids@.len(),
        ensures
            final(self).wf(),
            r.0@ == old(self).ids@[i as int]@,
            old(self).sessions().contains_key(r.0@),
            old(self).sessions()[r.0@] == r.1@,
            final(self).sessions() == old(self).sessions().remove(r.0@),
    {
        proof {
            lemma_map_at(views(self.ids@), models(self.sessions@), i as int);
            lemma_map_remove(views(self.ids@), models(self.sessions@), i as int);
        }
        let ghost ks = views(self.ids@);
        let ghost vs = models(self.sessions@);
        assert(ks[i as int] == self.ids@[i as int]@);
        assert(vs[i as int] == self.sessions@[i as int]@);
        let id = self.ids.remove(i);
        let s = self.sessions.remove(i);
        assert(views(self.ids@) =~= ks.remove(i as int));
        assert(models(self.sessions@) =~= vs.remove(i as int));
        (id, s)
    }

    /// Puts a session under an identifier that the table does not hold.
    fn put(&mut self, id: Vec<u8>, s: Session)
        requires
            old(self).wf(),
            !old(self).sessions().contains_key(id@),
        ensures
            final(self).wf(),
            final(self).sessions() == old(self).sessions().insert(id@, s@),
    {
        let ghost ks = views(self.ids@);
        let ghost vs = models(self.sessions@);
        proof {
            lemma_map_push(ks, vs, id@, s@);
        }
        self.ids.push(id);
        self.sessions.push(s);
        assert(views(self.ids@) =~= ks.push(id@));
        assert(models(self.sessions@) =~= vs.push(s@));
    }

    /// Starts a transaction: the session is created, or reset if it exists.
    pub fn begin(&mut self, id: &[u8])
        requires
            old(self).wf(),
        ensures
            final(self).wf(),
            final(self).sessions() == old(self).sessions().insert(id@, fresh()),
    {
        match self.position(id) {
            Some(i) => {
                let (key, _) = self.take(i);
                self.put(key, Session::new());
            },
            None => {
                self.put(slice_to_vec(id), Session::new());
            },
        }
        assert(self.sessions() =~= old(self).sessions().insert(id@, fresh()));
    }

    /// Removes the session; nothing happens for an unknown one.
    pub fn end(&mut self, id: &[u8])
        requires
            old(self).wf(),
        ensures
            final(self).wf(),
            final(self).sessions() == old(self).sessions().remove(id@),
    {
        match self.position(id) {
            Some(i) => {
                self.take(i);
            },
            None => {
                assert(self.sessions() =~= old(self).sessions().remove(id@));
            },
        }
    }

    /// Buffers one message line of a session; the single-dot line that ends
    /// the data is not buffered. Lines for an unknown session, or for one
    /// already decided, change nothing. Returns whether the line ends the data.
    pub fn append_line(&mut self, id: &[u8], token: &[u8], line: &[u8]) -> (r: bool)
        requires
            old(self).wf(),
        ensures
            final(self).wf(),
            final(self).sessions() == append_to(old(self).sessions(), id@, token@, line@),
            r == is_terminator(line@),
    {
        let terminator = line.len() == 1 && line[0] == DOT;
        assert(terminator == is_terminator(line@)) by {
            if line@.len() == 1 {
                assert(line@ =~= seq![line@[0]]);
            }
        }
        match self.position(id) {
            Some(i) => {
                if self.sessions[i].phase == Phase::Decided {
                    return terminator;
                }
                let (key, mut s) = self.take(i);
                let ghost s0 = s@;
                if s.phase == Phase::Active {
                    s.token = Some(slice_to_vec(token));
                }
                s.phase = Phase::Collecting;
                if !terminator {
                    let ghost l0 = s.lines@;
                    s.lines.push(slice_to_vec(line));
                    assert(views(s.lines@) =~= views(l0).push(line@));
                }
                assert(s@ == appended(s0, token@, line@));
                self.put(key, s);
                assert(self.sessions() =~= append_to(old(self).sessions(), id@, token@, line@));
            },
            None => {},
        }
        terminator
    }

    /// Decides a session's transaction: extracts the sender unless that was
    /// done before, and returns whether the blacklist blocks it; none for an
    /// unknown session.
    pub fn decide(&mut self, id: &[u8], blacklist: &Blacklist) -> (r: Option<bool>)
        requires
            old(self).wf(),
        ensures
            final(self).wf(),
            old(self).sessions().contains_key(id@) ==> final(self).sessions() == decide_on(
                old(self).sessions(),
                id@,
            ) && r == Some(
                verdict(
                    decided_sender(old(self).sessions()[id@]),
                    blacklist.addresses(),
                    blacklist.patterns(),
                ),
            ),
            !old(self).sessions().contains_key(id@) ==> final(self).sessions() == old(
                self,
            ).sessions() && r is None,
    {
        match self.position(id) {
            Some(i) => {
                let (key, mut s) = self.take(i);
                let ghost s0 = s@;
                if s.sender.is_none() {
                    s.sender = Some(extract_sender(&s.lines));
                }
                s.phase = Phase::Decided;
                let reject = match &s.sender {
                    Some(Some(a)) => blacklist.matches(a.as_slice()),
                    _ => false,
                };
                self.put(key, s);
                assert(self.sessions() =~= decide_on(old(self).sessions(), id@));
                Some(reject)
            },
            None => None,
        }
    }
}

} // verus!
