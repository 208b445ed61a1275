use vstd::prelude::*;
use vstd::slice::{slice_subrange, slice_to_vec};
use crate::extract::{find_byte, find_from, lemma_find_from_bounds};
use crate::text::{bytes_eq, NEWLINE, PIPE};
use crate::util::{join, join_write_bytes};
use crate::words::{
    commit_bytes, config_bytes, data_line_bytes, filter_bytes, filter_result_bytes, kw_commit,
    kw_config, kw_data_line, kw_filter, kw_filter_result, kw_link_disconnect, kw_proceed, kw_ready,
    kw_register, kw_reject, kw_reject_reason, kw_report, kw_smtp_in, kw_tx_begin,
    link_disconnect_bytes, proceed_bytes, ready_bytes, register_bytes, reject_bytes,
    reject_reason_bytes, report_bytes, smtp_in_bytes, tx_begin_bytes,
};

verus! {

/// The most fields a line is split into: the content of a data line is the
/// rest of the line after its seventh separator, separators included.
pub const MAX_FIELDS: usize = 8;

/// `s` from `start` split at `|` into at most `n` fields; the last field
/// holds the rest of the line.
pub open spec fn split_from(s: Seq<u8>, start: int, n: nat) -> Seq<Seq<u8>>
    decreases n,
{
    let p = find_from(s, PIPE, start);
    if n <= 1 || p >= s.len() {
        seq![s.subrange(start, s.len() as int)]
    } else {
        seq![s.subrange(start, p)] + split_from(s, p + 1, (n - 1) as nat)
    }
}

/// The fields of an input line.
pub open spec fn fields(s: Seq<u8>) -> Seq<Seq<u8>> {
    split_from(s, 0, MAX_FIELDS as nat)
}

/// A decoded input line, as plain byte sequences.
pub enum EventModel {
    ConfigReady,
    TxBegin { session: Seq<u8> },
    LinkDisconnect { session: Seq<u8> },
    DataLine { session: Seq<u8>, token: Seq<u8>, content: Seq<u8> },
    Commit { session: Seq<u8>, token: Seq<u8> },
}

/// A decoded input line.
pub enum Event {
    ConfigReady,
    TxBegin { session: Vec<u8> },
    LinkDisconnect { session: Vec<u8> },
    DataLine { session: Vec<u8>, token: Vec<u8>, content: Vec<u8> },
    Commit { session: Vec<u8>, token: Vec<u8> },
}

impl View for Event {
    type V = EventModel;

    open spec fn view(&self) -> EventModel {
        match self {
            Event::ConfigReady => EventModel::ConfigReady,
            Event::TxBegin { session } => EventModel::TxBegin { session: session@ },
            Event::LinkDisconnect { session } => EventModel::LinkDisconnect { session: session@ },
            Event::DataLine { session, token, content } => EventModel::DataLine {
                session: session@,
                token: token@,
                content: content@,
            },
            Event::Commit { session, token } => EventModel::Commit {
                session: session@,
                token: token@,
            },
        }
    }
}

/// The event a line stands for; none for a line of no known shape.
pub open spec fn decode(line: Seq<u8>) -> Option<EventModel> {
    let f = fields(line);
    if f.len() == 2 && f[0] == kw_config() && f[1] == kw_ready() {
        Some(EventModel::ConfigReady)
    } else if f.len() == 6 && f[0] == kw_report() && f[4] == kw_tx_begin() {
        Some(EventModel::TxBegin { session: f[5] })
    } else if f.len() == 6 && f[0] == kw_report() && f[4] == kw_link_disconnect() {
        Some(EventModel::LinkDisconnect { session: f[5] })
    } else if f.len() == 8 && f[0] == kw_filter() && f[4] == kw_data_line() {
        Some(EventModel::DataLine { session: f[5], token: f[6], content: f[7] })
    } else if f.len() == 7 && f[0] == kw_filter() && f[4] == kw_commit() {
        Some(EventModel::Commit { session: f[5], token: f[6] })
    } else {
        None
    }
}

/// One output line: the fields joined by `|`, then a newline.
pub open spec fn line_of(f: Seq<Seq<u8>>) -> Seq<u8> {
    join(f, seq![PIPE]) + seq![NEWLINE]
}

pub open spec fn register_line(kind: Seq<u8>, event: Seq<u8>) -> Seq<u8> {
    line_of(seq![kw_register(), kind, kw_smtp_in(), event])
}

/// The registration sent in answer to `config|ready`, `register|ready` last.
pub open spec fn handshake() -> Seq<u8> {
    register_line(kw_report(), kw_tx_begin()) + register_line(kw_filter(), kw_data_line())
        + register_line(kw_filter(), kw_commit()) + register_line(kw_report(), kw_link_disconnect())
        + line_of(seq![kw_register(), kw_ready()])
}

/// The result line for a transaction.
pub open spec fn result_line(session: Seq<u8>, token: Seq<u8>, reject: bool) -> Seq<u8> {
    if reject {
        line_of(seq![kw_filter_result(), session, token, kw_reject(), kw_reject_reason()])
    } else {
        line_of(seq![kw_filter_result(), session, token, kw_proceed()])
    }
}

pub open spec fn views(v: Seq<Vec<u8>>) -> Seq<Seq<u8>> {
    v.map_values(|x: Vec<u8>| x@)
}

/// Splits a line at `|` into at most `MAX_FIELDS` fields.
pub fn split_fields(s: &[u8]) -> (r: Vec<Vec<u8>>)
    ensures
        views(r@) == fields(s@),
{
    let n = s.len();
    let mut out: Vec<Vec<u8>> = Vec::new();
    let mut start: usize = 0;
    let mut k: usize = MAX_FIELDS;
    loop
        invariant
            n == s@.len(),
            start <= n,
            1 <= k <= MAX_FIELDS,
            views(out@) + split_from(s@, start as int, k as nat) == fields(s@),
        decreases k,
    {
        let p = find_byte(s, PIPE, start);
        proof {
            lemma_find_from_bounds(s@, PIPE, start as int);
        }
        let ghost rest = split_from(s@, start as int, k as nat);
        if k <= 1 || p >= n {
            let last = slice_to_vec(slice_subrange(s, start, n));
            proof {
                assert(rest =~= seq![last@]);
            }
            out.push(last);
            assert(views(out@) =~= fields(s@));
            return out;
        }
        let field = slice_to_vec(slice_subrange(s, start, p));
        let ghost tail = split_from(s@, p + 1, (k - 1) as nat);
        proof {
            assert(rest =~= seq![field@] + tail);
        }
        let ghost before = views(out@);
        out.push(field);
        proof {
            assert(views(out@) =~= before.push(field@));
            assert(views(out@) + tail =~= before + rest);
        }
        start = p + 1;
        k = k - 1;
    }
}

/// Decodes one input line, without its newline.
pub fn decode_line(line: &[u8]) -> (r: Option<Event>)
    ensures
        match r {
            Some(e) => decode(line@) == Some(e@),
            None => decode(line@) is None,
        },
{
    let f = split_fields(line);
    let ghost fv = views(f@);
    let n = f.len();
    assert(n > 0);
    assert(fv[0] == f[0]@);
    let first = f[0].as_slice();
    if n == 2 {
        if bytes_eq(first, config_bytes().as_slice()) && bytes_eq(f[1].as_slice(), ready_bytes().as_slice()) {
            return Some(Event::ConfigReady);
        }
        assert(fv[1] == f[1]@);
        return None;
    }
    if n < 6 {
        return None;
    }
    assert(fv[4] == f[4]@ && fv[5] == f[5]@);
    let kind = f[4].as_slice();
    if n == 6 && bytes_eq(first, report_bytes().as_slice()) {
        if bytes_eq(kind, tx_begin_bytes().as_slice()) {
            return Some(Event::TxBegin { session: f[5].clone() });
        }
        if bytes_eq(kind, link_disconnect_bytes().as_slice()) {
            return Some(Event::LinkDisconnect { session: f[5].clone() });
        }
        return None;
    }
    if n >= 7 && bytes_eq(first, filter_bytes().as_slice()) {
        assert(fv[6] == f[6]@);
        if n == 8 && bytes_eq(kind, data_line_bytes().as_slice()) {
            assert(fv[7] == f[7]@);
            return Some(
                Event::DataLine {
                    session: f[5].clone(),
                    token: f[6].clone(),
                    content: f[7].clone(),
                },
            );
        }
        if n == 7 && bytes_eq(kind, commit_bytes().as_slice()) {
            return Some(Event::Commit { session: f[5].clone(), token: f[6].clone() });
        }
    }
    None
}

/// Appends one output line made of `f`.
fn push_line(out: &mut Vec<u8>, f: Vec<Vec<u8>>)
    ensures
        final(out)@ == old(out)@ + line_of(views(f@)),
{
    let sep = vec![PIPE];
    assert(sep@ =~= seq![PIPE]);
    join_write_bytes(out, sep.as_slice(), &f);
    out.push(NEWLINE);
    assert(out@ =~= old(out)@ + line_of(views(f@)));
}

/// The registration lines, `register|ready` last.
pub fn handshake_bytes() -> (r: Vec<u8>)
    ensures
        r@ == handshake(),
{
    let mut out: Vec<u8> = Vec::new();
    let f0 = vec![register_bytes(), report_bytes(), smtp_in_bytes(), tx_begin_bytes()];
    assert(views(f0@) =~= seq![kw_register(), kw_report(), kw_smtp_in(), kw_tx_begin()]);
    push_line(&mut out, f0);
    let f1 = vec![register_bytes(), filter_bytes(), smtp_in_bytes(), data_line_bytes()];
    assert(views(f1@) =~= seq![kw_register(), kw_filter(), kw_smtp_in(), kw_data_line()]);
    push_line(&mut out, f1);
    let f2 = vec![register_bytes(), filter_bytes(), smtp_in_bytes(), commit_bytes()];
    assert(views(f2@) =~= seq![kw_register(), kw_filter(), kw_smtp_in(), kw_commit()]);
    push_line(&mut out, f2);
    let f3 = vec![register_bytes(), report_bytes(), smtp_in_bytes(), link_disconnect_bytes()];
    assert(views(f3@) =~= seq![kw_register(), kw_report(), kw_smtp_in(), kw_link_disconnect()]);
    push_line(&mut out, f3);
    let f4 = vec![register_bytes(), ready_bytes()];
    assert(views(f4@) =~= seq![kw_register(), kw_ready()]);
    push_line(&mut out, f4);
    assert(out@ =~= handshake());
    out
}

/// The result line for a transaction of `session` with `token`.
pub fn result_bytes(session: &[u8], token: &[u8], reject: bool) -> (r: Vec<u8>)
    ensures
        r@ == result_line(session@, token@, reject),
{
    let mut out: Vec<u8> = Vec::new();
    let s = slice_to_vec(session);
    let t = slice_to_vec(token);
    if reject {
        let f = vec![filter_result_bytes(), s, t, reject_bytes(), reject_reason_bytes()];
        assert(views(f@) =~= seq![kw_filter_result(), session@, token@, kw_reject(), kw_reject_reason()]);
        push_line(&mut out, f);
    } else {
        let f = vec![filter_result_bytes(), s, t, proceed_bytes()];
        assert(views(f@) =~= seq![kw_filter_result(), session@, token@, kw_proceed()]);
        push_line(&mut out, f);
    }
    assert(out@ =~= result_line(session@, token@, reject));
    out
}

} // verus!
