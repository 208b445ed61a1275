use vstd::prelude::*;
use crate::text::{bytes_eq, bytes_end_with, ends_with, AT, DOT};

verus! {

/// The pattern that a line of the domain list stands for: a line that starts
/// with a dot matches by suffix as it is; any other names one exact domain,
/// and is matched as `@` followed by the domain.
pub open spec fn domain_pattern(line: Seq<u8>) -> Seq<u8> {
    if line.len() > 0 && line[0] == DOT {
        line
    } else {
        seq![AT] + line
    }
}

/// An address is blacklisted when it is one of the listed addresses, or when
/// it ends with one of the domain patterns.
pub open spec fn blacklisted(addr: Seq<u8>, addrs: Set<Seq<u8>>, patterns: Seq<Seq<u8>>) -> bool {
    ||| addrs.contains(addr)
    ||| exists|i: int| 0 <= i < patterns.len() && ends_with(addr, #[trigger] patterns[i])
}

/// The two lists of blocked senders: exact addresses and domain patterns.
pub struct Blacklist {
    addrs: Vec<Vec<u8>>,
    patterns: Vec<Vec<u8>>,
}

impl Blacklist {
    pub closed spec fn address_seq(&self) -> Seq<Seq<u8>> {
        self.addrs@.map_values(|a: Vec<u8>| a@)
    }

    /// The listed addresses.
    pub closed spec fn addresses(&self) -> Set<Seq<u8>> {
        self.address_seq().to_set()
    }

    /// The domain patterns, in the order they were added.
    pub closed spec fn patterns(&self) -> Seq<Seq<u8>> {
        self.patterns@.map_values(|p: Vec<u8>| p@)
    }

    /// Each address is held once.
    pub closed spec fn wf(&self) -> bool {
        self.address_seq().no_duplicates()
    }

    /// Whether `addr` is blocked by this blacklist.
    pub open spec fn blocks(&self, addr: Seq<u8>) -> bool {
        blacklisted(addr, self.addresses(), self.patterns())
    }

    /// An empty blacklist, which blocks nobody.
    pub fn new() -> (r: Blacklist)
        ensures
            r.wf(),
            r.addresses() == Set::<Seq<u8>>::empty(),
            r.patterns() == Seq::<Seq<u8>>::empty(),
    {
        let r = Blacklist { addrs: Vec::new(), patterns: Vec::new() };
        assert(r.address_seq() =~= Seq::empty());
        assert(r.addresses() =~= Set::empty());
        assert(r.patterns() =~= Seq::empty());
        r
    }

    /// Adds one line of the address list; an empty line adds nothing.
    pub fn add_address(&mut self, line: &[u8])
        requires
            old(self).wf(),
        ensures
            final(self).wf(),
            final(self).patterns() == old(self).patterns(),
            final(self).addresses() == if line@.len() == 0 {
                old(self).addresses()
            } else {
                old(self).addresses().insert(line@)
            },
    {
        if line.len() == 0 {
            return;
        }
        let ghost seq0 = self.address_seq();
        let mut i: usize = 0;
        while i < self.addrs.len()
            invariant
                i <= self.addrs@.len(),
                self.wf(),
                seq0 == self.address_seq(),
                forall|j: int| 0 <= j < i ==> seq0[j] != line@,
            decreases self.addrs@.len() - i,
        {
            if bytes_eq(self.addrs[i].as_slice(), line) {
                assert(seq0[i as int] == line@);
                assert(self.addresses() =~= self.addresses().insert(line@));
                return;
            }
            i = i + 1;
        }
        self.addrs.push(vstd::slice::slice_to_vec(line));
        proof {
            assert(self.address_seq() =~= seq0.push(line@));
            assert(!seq0.contains(line@));
            assert forall|x: Seq<u8>| #[trigger] self.address_seq().contains(x) <==> (seq0.contains(x) || x == line@) by {
                vstd::seq_lib::lemma_seq_contains_after_push(seq0, line@, x);
            }
            assert forall|a: int, b: int| 0 <= a < b < self.address_seq().len() implies self.address_seq()[a] != self.address_seq()[b] by {
                if b == seq0.len() {
                    assert(seq0[a] == self.address_seq()[a]);
                }
            }
            assert(self.addresses() =~= old(self).addresses().insert(line@));
        }
    }

    /// Adds one line of the domain list as its pattern; an empty line adds
    /// nothing.
    pub fn add_domain(&mut self, line: &[u8])
        requires
            old(self).wf(),
        ensures
            final(self).wf(),
            final(self).addresses() == old(self).addresses(),
            final(self).patterns() == if line@.len() == 0 {
                old(self).patterns()
            } else {
                old(self).patterns().push(domain_pattern(line@))
            },
    {
        if line.len() == 0 {
            return;
        }
        let mut pattern: Vec<u8> = Vec::new();
        if line[0] != DOT {
            pattern.push(AT);
        }
        pattern.extend_from_slice(line);
        assert(pattern@ =~= domain_pattern(line@));
        self.patterns.push(pattern);
        assert(self.patterns() =~= old(self).patterns().push(domain_pattern(line@)));
    }

    /// Whether `addr` is blacklisted.
    pub fn matches(&self, addr: &[u8]) -> (r: bool)
        ensures
            r == self.blocks(addr@),
    {
        let mut i: usize = 0;
        while i < self.addrs.len()
            invariant
                i <= self.addrs@.len(),
                forall|j: int| 0 <= j < i ==> self.address_seq()[j] != addr@,
            decreases self.addrs@.len() - i,
        {
            if bytes_eq(self.addrs[i].as_slice(), addr) {
                assert(self.address_seq()[i as int] == addr@);
                assert(self.address_seq().contains(addr@));
                return true;
            }
            i = i + 1;
        }
        assert(!self.address_seq().contains(addr@));
        let mut k: usize = 0;
        while k < self.patterns.len()
            invariant
                k <= self.patterns@.len(),
                forall|j: int| 0 <= j < k ==> !ends_with(addr@, #[trigger] self.patterns()[j]),
            decreases self.patterns@.len() - k,
        {
            if bytes_end_with(addr, self.patterns[k].as_slice()) {
                assert(ends_with(addr@, self.patterns()[k as int]));
                return true;
            }
            k = k + 1;
        }
        false
    }
}

} // verus!
