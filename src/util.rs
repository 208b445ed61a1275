use vstd::prelude::*;

verus! {

/// The parts joined in order, with `sep` between each two neighbours.
pub open spec fn join(parts: Seq<Seq<u8>>, sep: Seq<u8>) -> Seq<u8>
    decreases parts.len(),
{
    if parts.len() == 0 {
        Seq::empty()
    } else if parts.len() == 1 {
        parts[0]
    } else {
        join(parts.drop_last(), sep) + sep + parts.last()
    }
}

/// Appends the parts to `out`, separated by `sep`: one buffer that the caller
/// hands to a single write.
pub fn join_write_bytes(out: &mut Vec<u8>, sep: &[u8], parts: &Vec<Vec<u8>>)
    ensures
        final(out)@ == old(out)@ + join(parts@.map_values(|p: Vec<u8>| p@), sep@),
{
    let ghost views = parts@.map_values(|p: Vec<u8>| p@);
    let ghost start = out@;
    let n = parts.len();
    let mut i: usize = 0;
    while i < n
        invariant
            n == parts.len(),
            i <= n,
            views == parts@.map_values(|p: Vec<u8>| p@),
            out@ == start + join(views.subrange(0, i as int), sep@),
        decreases n - i,
    {
        let ghost before = out@;
        if i > 0 {
            out.extend_from_slice(sep);
        }
        out.extend_from_slice(parts[i].as_slice());
        proof {
            let pre = views.subrange(0, i as int);
            let cur = views.subrange(0, i + 1);
            assert(cur.drop_last() =~= pre);
            assert(cur.last() == parts[i as int]@);
            if i == 0 {
                assert(join(pre, sep@) =~= Seq::empty());
                assert(out@ =~= start + join(cur, sep@));
            } else {
                assert(out@ =~= start + join(cur, sep@));
            }
        }
        i = i + 1;
    }
    assert(views.subrange(0, n as int) =~= views);
}

} // verus!
