use vstd::prelude::*;
use crate::blacklist::{blacklisted, domain_pattern, Blacklist};
use crate::codec::{decode, fields, handshake, result_line, split_from, EventModel};
use crate::filter::{step, Filter};
use crate::extract::{
    address_of, angle_addr, find_from, is_punct, is_space, sender_of, token_addr, trim, trim_end,
    trim_start, LT,
};
use crate::session::{decided_sender, fresh, SessionModel};
use crate::text::{ends_with, AT, DOT, PIPE};
use crate::util::join;
use crate::words::{
    kw_commit, kw_config, kw_data_line, kw_filter, kw_link_disconnect, kw_ready, kw_report,
    kw_tx_begin,
};

verus! {

/// The session that an event is about, if any.
pub open spec fn event_session(ev: Option<EventModel>) -> Option<Seq<u8>> {
    match ev {
        Some(EventModel::TxBegin { session }) => Some(session),
        Some(EventModel::LinkDisconnect { session }) => Some(session),
        Some(EventModel::DataLine { session, .. }) => Some(session),
        Some(EventModel::Commit { session, .. }) => Some(session),
        _ => None,
    }
}

proof fn lemma_find_at(s: Seq<u8>, b: u8, i: int, p: int)
    requires
        0 <= i <= p < s.len(),
        s[p] == b,
        forall|j: int| i <= j < p ==> s[j] != b,
    ensures
        find_from(s, b, i) == p,
    decreases p - i,
{
    if i < p {
        lemma_find_at(s, b, i + 1, p);
    }
}

/// The line `config|ready` is the handshake request, and a filter that has
/// not done the handshake answers it with the registration lines alone.
pub proof fn lemma_config_line(f: Filter)
    requires
        !f.is_configured(),
    ensures
        decode(kw_config() + seq![PIPE] + kw_ready()) == Some(EventModel::ConfigReady),
        f.next(decode(kw_config() + seq![PIPE] + kw_ready())) == (true, f.sessions(), handshake()),
{
    let s = kw_config() + seq![PIPE] + kw_ready();
    assert(s =~= seq![99u8, 111u8, 110u8, 102u8, 105u8, 103u8, 124u8, 114u8, 101u8, 97u8, 100u8, 121u8]);
    lemma_find_at(s, PIPE, 0, 6);
    lemma_no_byte(s, PIPE, 7);
    assert(split_from(s, 7, 7) == seq![s.subrange(7, 12)]);
    assert(fields(s) == seq![s.subrange(0, 6)] + seq![s.subrange(7, 12)]);
    assert(s.subrange(0, 6) =~= kw_config());
    assert(s.subrange(7, 12) =~= kw_ready());
    assert(fields(s) =~= seq![kw_config(), kw_ready()]);
}

/// A transaction whose sender is a listed address is rejected.
pub proof fn lemma_listed_address_rejected(f: Filter, session: Seq<u8>, token: Seq<u8>, a: Seq<u8>)
    requires
        f.sessions().contains_key(session),
        decided_sender(f.sessions()[session]) == Some(a),
        f.rules().addresses().contains(a),
    ensures
        f.next(Some(EventModel::Commit { session, token })).2 == result_line(session, token, true),
{
}

/// Without domain patterns, a transaction whose sender is not a listed
/// address, or which has no sender, proceeds.
pub proof fn lemma_unlisted_sender_proceeds(f: Filter, session: Seq<u8>, token: Seq<u8>)
    requires
        f.sessions().contains_key(session),
        f.rules().patterns().len() == 0,
        decided_sender(f.sessions()[session]) matches Some(a) ==> !f.rules().addresses().contains(a),
    ensures
        f.next(Some(EventModel::Commit { session, token })).2 == result_line(session, token, false),
{
}

/// A domain listed without a leading dot blocks the senders at that domain,
/// and not those at its sub-domains.
pub proof fn lemma_exact_domain(b: Blacklist, d: Seq<u8>, x: Seq<u8>, sub: Seq<u8>)
    requires
        d.len() > 0,
        d[0] != DOT,
        b.addresses() == Set::<Seq<u8>>::empty(),
        b.patterns() == seq![domain_pattern(d)],
    ensures
        b.blocks(x + seq![AT] + d),
        !b.blocks(x + seq![AT] + sub + seq![DOT] + d),
{
    let p = domain_pattern(d);
    let good = x + seq![AT] + d;
    assert(good.subrange(good.len() - p.len(), good.len() as int) =~= p);
    assert(ends_with(good, b.patterns()[0]));
    let bad = x + seq![AT] + sub + seq![DOT] + d;
    if ends_with(bad, p) {
        assert(bad.subrange(bad.len() - p.len(), bad.len() as int)[0] == bad[bad.len() - p.len()]);
        assert(bad[bad.len() - p.len()] == DOT);
    }
}

/// A pattern with a leading dot blocks every sender whose address ends with
/// it, at any depth; a sender whose domain is shorter than the pattern
/// proceeds.
pub proof fn lemma_suffix_domain(b: Blacklist, s: Seq<u8>, x: Seq<u8>, p: Seq<u8>, e: Seq<u8>)
    requires
        s.len() > 0,
        s[0] == DOT,
        !s.contains(AT),
        b.addresses() == Set::<Seq<u8>>::empty(),
        b.patterns() == seq![domain_pattern(s)],
        e.len() < s.len(),
    ensures
        b.blocks(x + seq![AT] + p + s),
        !b.blocks(x + seq![AT] + e),
{
    assert(domain_pattern(s) == s);
    let good = x + seq![AT] + p + s;
    assert(good.subrange(good.len() - s.len(), good.len() as int) =~= s);
    assert(ends_with(good, b.patterns()[0]));
    let bad = x + seq![AT] + e;
    if ends_with(bad, s) {
        let k = s.len() - 1 - e.len();
        let at = bad.len() - s.len() + k;
        assert(bad[at] == AT);
        assert(bad.subrange(bad.len() - s.len(), bad.len() as int)[k] == bad[at]);
        assert(s[k] == AT);
    }
}

/// An event about one session leaves every other session as it was.
pub proof fn lemma_sessions_isolated(f: Filter, ev: Option<EventModel>, other: Seq<u8>)
    requires
        event_session(ev) != Some(other),
    ensures
        f.next(ev).1.contains_key(other) == f.sessions().contains_key(other),
        f.sessions().contains_key(other) ==> f.next(ev).1[other] == f.sessions()[other],
{
}

/// After a disconnect, a new transaction of the same session starts empty:
/// nothing buffered, no token and no sender.
pub proof fn lemma_reconnect_fresh(
    configured: bool,
    m: Map<Seq<u8>, SessionModel>,
    addrs: Set<Seq<u8>>,
    patterns: Seq<Seq<u8>>,
    session: Seq<u8>,
)
    ensures
        !step(configured, m, addrs, patterns, Some(EventModel::LinkDisconnect { session })).1.contains_key(session),
        ({
            let gone = step(configured, m, addrs, patterns, Some(EventModel::LinkDisconnect { session })).1;
            let again = step(configured, gone, addrs, patterns, Some(EventModel::TxBegin { session })).1;
            &&& again.contains_key(session)
            &&& again[session] == fresh()
            &&& again[session].lines.len() == 0
            &&& again[session].token is None
            &&& again[session].sender is None
        }),
{
}

/// An address as it stands bare in a header: it holds an `@`, no whitespace
/// and no `<`, and neither starts nor ends with punctuation.
pub open spec fn plain_address(a: Seq<u8>) -> bool {
    &&& a.len() > 0
    &&& a.contains(AT)
    &&& forall|i: int| 0 <= i < a.len() ==> !is_space(#[trigger] a[i]) && a[i] != LT
    &&& !is_punct(a[0])
    &&& !is_punct(a.last())
}

/// The header line `From: ` followed by `a`.
pub open spec fn from_header(a: Seq<u8>) -> Seq<u8> {
    seq![70u8, 114u8, 111u8, 109u8, 58u8, 32u8] + a
}

proof fn lemma_no_byte(s: Seq<u8>, b: u8, i: int)
    requires
        0 <= i <= s.len(),
        forall|j: int| i <= j < s.len() ==> s[j] != b,
    ensures
        find_from(s, b, i) == s.len(),
    decreases s.len() - i,
{
    if i < s.len() {
        lemma_no_byte(s, b, i + 1);
    }
}

proof fn lemma_token_to_end(v: Seq<u8>, i: int)
    requires
        1 <= i <= v.len(),
        forall|j: int| 1 <= j < v.len() ==> !is_space(#[trigger] v[j]),
        v.subrange(1, v.len() as int).contains(AT),
    ensures
        token_addr(v, 1, i) == Some(trim(v.subrange(1, v.len() as int), false)),
    decreases v.len() - i,
{
    if i < v.len() {
        lemma_token_to_end(v, i + 1);
    }
}

/// A bare address after `From: ` is the sender.
pub proof fn lemma_plain_sender(a: Seq<u8>)
    requires
        plain_address(a),
    ensures
        sender_of(seq![from_header(a)]) == Some(a),
{
    let l = from_header(a);
    let v = l.subrange(5, l.len() as int);
    assert(v =~= seq![32u8] + a);
    assert forall|j: int| 0 <= j < v.len() implies v[j] != LT by {
        if j > 0 {
            assert(v[j] == a[j - 1]);
        }
    }
    lemma_no_byte(v, LT, 0);
    assert(angle_addr(v) is None);
    assert forall|j: int| 1 <= j < v.len() implies !is_space(#[trigger] v[j]) by {
        assert(v[j] == a[j - 1]);
    }
    assert(v.subrange(1, v.len() as int) =~= a);
    assert(v.subrange(0, 0).len() == 0);
    assert(!v.subrange(0, 0).contains(AT));
    lemma_token_to_end(v, 1);
    assert(trim_start(a, false) == a);
    assert(trim_end(a, false) == a);
    assert(address_of(v) == Some(a));
    let ls = seq![l];
    assert(ls[0] == l);
}

/// A transaction that begins, carries the header `From: a` and the closing
/// dot, and commits, is rejected exactly when `a` is blacklisted.
pub proof fn lemma_transaction_verdict(
    configured: bool,
    m: Map<Seq<u8>, SessionModel>,
    addrs: Set<Seq<u8>>,
    patterns: Seq<Seq<u8>>,
    session: Seq<u8>,
    token: Seq<u8>,
    a: Seq<u8>,
)
    requires
        plain_address(a),
    ensures
        ({
            let s1 = step(configured, m, addrs, patterns, Some(EventModel::TxBegin { session }));
            let s2 = step(
                s1.0,
                s1.1,
                addrs,
                patterns,
                Some(EventModel::DataLine { session, token, content: from_header(a) }),
            );
            let s3 = step(
                s2.0,
                s2.1,
                addrs,
                patterns,
                Some(EventModel::DataLine { session, token, content: seq![DOT] }),
            );
            let s4 = step(s3.0, s3.1, addrs, patterns, Some(EventModel::Commit { session, token }));
            s4.2 == result_line(session, token, blacklisted(a, addrs, patterns))
        }),
{
    lemma_plain_sender(a);
    let s1 = step(configured, m, addrs, patterns, Some(EventModel::TxBegin { session }));
    let s2 = step(
        s1.0,
        s1.1,
        addrs,
        patterns,
        Some(EventModel::DataLine { session, token, content: from_header(a) }),
    );
    assert(s2.1[session].lines =~= seq![from_header(a)]);
    assert(!(from_header(a) =~= seq![DOT]));
}

/// `x` holds no field separator.
pub open spec fn no_pipe(x: Seq<u8>) -> bool {
    forall|j: int| 0 <= j < x.len() ==> x[j] != PIPE
}

/// The line made of these fields, joined by `|`.
pub open spec fn pipe_line(parts: Seq<Seq<u8>>) -> Seq<u8> {
    join(parts, seq![PIPE])
}

proof fn lemma_join_front(parts: Seq<Seq<u8>>, sep: Seq<u8>)
    requires
        parts.len() >= 2,
    ensures
        join(parts, sep) == parts[0] + sep + join(parts.drop_first(), sep),
    decreases parts.len(),
{
    if parts.len() == 2 {
        assert(parts.drop_last() =~= seq![parts[0]]);
        assert(parts.drop_first() =~= seq![parts[1]]);
        assert(join(parts.drop_last(), sep) == parts[0]);
        assert(join(parts.drop_first(), sep) == parts[1]);
        assert(join(parts, sep) =~= parts[0] + sep + join(parts.drop_first(), sep));
    } else {
        let dl = parts.drop_last();
        let df = parts.drop_first();
        lemma_join_front(dl, sep);
        assert(df.drop_last() =~= dl.drop_first());
        assert(df.last() == parts.last());
        assert(join(df, sep) == join(df.drop_last(), sep) + sep + df.last());
        assert(join(parts, sep) == join(dl, sep) + sep + parts.last());
        assert(join(parts, sep) =~= parts[0] + sep + join(df, sep));
    }
}

proof fn lemma_split_join(s: Seq<u8>, start: int, parts: Seq<Seq<u8>>, n: nat)
    requires
        0 <= start <= s.len(),
        s.subrange(start, s.len() as int) == pipe_line(parts),
        1 <= parts.len() <= n,
        forall|k: int| 0 <= k < parts.len() - 1 ==> no_pipe(#[trigger] parts[k]),
        parts.len() < n ==> no_pipe(parts.last()),
    ensures
        split_from(s, start, n) == parts,
    decreases parts.len(),
{
    let rest = s.subrange(start, s.len() as int);
    if parts.len() == 1 {
        assert(rest == parts[0]);
        if n > 1 {
            assert forall|j: int| start <= j < s.len() implies s[j] != PIPE by {
                assert(rest[j - start] == s[j]);
            }
            lemma_no_byte(s, PIPE, start);
        }
        assert(split_from(s, start, n) =~= parts);
    } else {
        lemma_join_front(parts, seq![PIPE]);
        let p0 = parts[0];
        let p = start + p0.len();
        let tail = parts.drop_first();
        assert(no_pipe(p0));
        assert(rest == p0 + seq![PIPE] + pipe_line(tail));
        assert(rest.len() == p0.len() + 1 + pipe_line(tail).len());
        assert(rest[p0.len() as int] == PIPE);
        assert forall|j: int| start <= j < p implies s[j] != PIPE by {
            assert(rest[j - start] == s[j]);
            assert(rest[j - start] == p0[j - start]);
        }
        assert(rest[p0.len() as int] == s[p]);
        lemma_find_at(s, PIPE, start, p);
        assert(s.subrange(start, p) =~= p0);
        assert forall|j: int| 0 <= j < pipe_line(tail).len() implies s[p + 1 + j] == pipe_line(
            tail,
        )[j] by {
            assert(rest[p0.len() + 1 + j] == s[p + 1 + j]);
            assert(rest[p0.len() + 1 + j] == pipe_line(tail)[j]);
        }
        assert(s.subrange(p + 1, s.len() as int) =~= pipe_line(tail));
        assert forall|k: int| 0 <= k < tail.len() - 1 implies no_pipe(#[trigger] tail[k]) by {
            assert(tail[k] == parts[k + 1]);
        }
        lemma_split_join(s, p + 1, tail, (n - 1) as nat);
        assert(split_from(s, start, n) =~= parts);
    }
}

proof fn lemma_keywords_no_pipe()
    ensures
        no_pipe(kw_report()),
        no_pipe(kw_filter()),
        no_pipe(kw_tx_begin()),
        no_pipe(kw_link_disconnect()),
        no_pipe(kw_data_line()),
        no_pipe(kw_commit()),
{
}

/// Each protocol line that the filter registers for decodes to its event,
/// whatever its version, timestamp and context fields, session and token
/// (none holding a `|`); the content of a data line may hold anything.
pub proof fn lemma_decode_protocol_lines(
    version: Seq<u8>,
    time: Seq<u8>,
    context: Seq<u8>,
    session: Seq<u8>,
    token: Seq<u8>,
    content: Seq<u8>,
)
    requires
        no_pipe(version),
        no_pipe(time),
        no_pipe(context),
        no_pipe(session),
        no_pipe(token),
    ensures
        decode(pipe_line(seq![kw_report(), version, time, context, kw_tx_begin(), session]))
            == Some(EventModel::TxBegin { session }),
        decode(pipe_line(seq![kw_report(), version, time, context, kw_link_disconnect(), session]))
            == Some(EventModel::LinkDisconnect { session }),
        decode(
            pipe_line(seq![kw_filter(), version, time, context, kw_data_line(), session, token, content]),
        ) == Some(EventModel::DataLine { session, token, content }),
        decode(pipe_line(seq![kw_filter(), version, time, context, kw_commit(), session, token]))
            == Some(EventModel::Commit { session, token }),
{
    lemma_keywords_no_pipe();
    let a = seq![kw_report(), version, time, context, kw_tx_begin(), session];
    let b = seq![kw_report(), version, time, context, kw_link_disconnect(), session];
    let c = seq![kw_filter(), version, time, context, kw_data_line(), session, token, content];
    let d = seq![kw_filter(), version, time, context, kw_commit(), session, token];
    assert forall|k: int| 0 <= k < a.len() implies no_pipe(#[trigger] a[k]) by {}
    assert forall|k: int| 0 <= k < b.len() implies no_pipe(#[trigger] b[k]) by {}
    assert forall|k: int| 0 <= k < c.len() - 1 implies no_pipe(#[trigger] c[k]) by {}
    assert forall|k: int| 0 <= k < d.len() implies no_pipe(#[trigger] d[k]) by {}
    let (la, lb, lc, ld) = (pipe_line(a), pipe_line(b), pipe_line(c), pipe_line(d));
    assert(la.subrange(0, la.len() as int) =~= la);
    assert(lb.subrange(0, lb.len() as int) =~= lb);
    assert(lc.subrange(0, lc.len() as int) =~= lc);
    assert(ld.subrange(0, ld.len() as int) =~= ld);
    lemma_split_join(la, 0, a, 8);
    lemma_split_join(lb, 0, b, 8);
    lemma_split_join(lc, 0, c, 8);
    lemma_split_join(ld, 0, d, 8);
    assert(kw_link_disconnect().len() != kw_tx_begin().len());
}

} // verus!
