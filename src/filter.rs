use vstd::prelude::*;
use crate::blacklist::Blacklist;
use crate::codec::{decode, decode_line, handshake, handshake_bytes, result_bytes, result_line, Event, EventModel};
use crate::session::{append_to, decide_on, decided_sender, fresh, verdict, SessionModel, SessionTable};

verus! {

/// What one input event does: whether the handshake is done afterwards, the
/// sessions afterwards, and the bytes written back.
pub open spec fn step(
    configured: bool,
    m: Map<Seq<u8>, SessionModel>,
    addrs: Set<Seq<u8>>,
    patterns: Seq<Seq<u8>>,
    ev: Option<EventModel>,
) -> (bool, Map<Seq<u8>, SessionModel>, Seq<u8>) {
    match ev {
        Some(EventModel::ConfigReady) => if configured {
            (configured, m, Seq::empty())
        } else {
            (true, m, handshake())
        },
        Some(EventModel::TxBegin { session }) => (configured, m.insert(session, fresh()), Seq::empty()),
        Some(EventModel::LinkDisconnect { session }) => (configured, m.remove(session), Seq::empty()),
        Some(EventModel::DataLine { session, token, content }) => (
            configured,
            append_to(m, session, token, content),
            Seq::empty(),
        ),
        Some(EventModel::Commit { session, token }) => if m.contains_key(session) {
            (
                configured,
                decide_on(m, session),
                result_line(session, token, verdict(decided_sender(m[session]), addrs, patterns)),
            )
        } else {
            (configured, m, Seq::empty())
        },
        None => (configured, m, Seq::empty()),
    }
}

pub open spec fn event_view(ev: Option<Event>) -> Option<EventModel> {
    match ev {
        Some(e) => Some(e@),
        None => None,
    }
}

/// The filter: the handshake flag, the blacklist and the session table.
pub struct Filter {
    configured: bool,
    blacklist: Blacklist,
    table: SessionTable,
}

impl Filter {
    pub closed spec fn wf(&self) -> bool {
        self.blacklist.wf() && self.table.wf()
    }

    /// Whether the handshake was done.
    pub closed spec fn is_configured(&self) -> bool {
        self.configured
    }

    /// The sessions, by identifier.
    pub closed spec fn sessions(&self) -> Map<Seq<u8>, SessionModel> {
        self.table.sessions()
    }

    /// The blacklist that decisions go by.
    pub closed spec fn rules(&self) -> Blacklist {
        self.blacklist
    }

    /// One input event's effect on this filter.
    pub open spec fn next(&self, ev: Option<EventModel>) -> (bool, Map<Seq<u8>, SessionModel>, Seq<u8>) {
        step(
            self.is_configured(),
            self.sessions(),
            self.rules().addresses(),
            self.rules().patterns(),
            ev,
        )
    }

    /// A filter before the handshake, without sessions.
    pub fn new(blacklist: Blacklist) -> (r: Filter)
        requires
            blacklist.wf(),
        ensures
            r.wf(),
            !r.is_configured(),
            r.sessions() == Map::<Seq<u8>, SessionModel>::empty(),
            r.rules() == blacklist,
    {
        Filter { configured: false, blacklist, table: SessionTable::new() }
    }

    /// Handles one decoded event (none for a line of no known shape) and
    /// returns the bytes to write back.
    pub fn handle_event(&mut self, ev: Option<Event>) -> (out: Vec<u8>)
        requires
            old(self).wf(),
        ensures
            final(self).wf(),
            final(self).rules() == old(self).rules(),
            (final(self).is_configured(), final(self).sessions(), out@) == old(self).next(
                event_view(ev),
            ),
    {
        match ev {
            Some(Event::ConfigReady) => {
                if self.configured {
                    Vec::new()
                } else {
                    self.configured = true;
                    handshake_bytes()
                }
            },
            Some(Event::TxBegin { session }) => {
                self.table.begin(session.as_slice());
                Vec::new()
            },
            Some(Event::LinkDisconnect { session }) => {
                self.table.end(session.as_slice());
                Vec::new()
            },
            Some(Event::DataLine { session, token, content }) => {
                self.table.append_line(session.as_slice(), token.as_slice(), content.as_slice());
                Vec::new()
            },
            Some(Event::Commit { session, token }) => {
                match self.table.decide(session.as_slice(), &self.blacklist) {
                    Some(reject) => result_bytes(session.as_slice(), token.as_slice(), reject),
                    None => Vec::new(),
                }
            },
            None => Vec::new(),
        }
    }

    /// Handles one input line, without its newline, and returns the bytes to
    /// write back.
    pub fn handle_line(&mut self, line: &[u8]) -> (out: Vec<u8>)
        requires
            old(self).wf(),
        ensures
            final(self).wf(),
            final(self).rules() == old(self).rules(),
            (final(self).is_configured(), final(self).sessions(), out@) == old(self).next(
                decode(line@),
            ),
    {
        let ev = decode_line(line);
        self.handle_event(ev)
    }
}

} // verus!
