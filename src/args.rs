use vstd::prelude::*;
use crate::blacklist::{domain_pattern, Blacklist};
use crate::text::bytes_eq;
use crate::words::{addr_file_bytes, domain_file_bytes, kw_addr_file, kw_domain_file};

verus! {

/// The two kinds of list file that the command line names.
#[derive(PartialEq, Eq, Structural, Clone, Copy, Debug)]
pub enum ListKind {
    /// One address per line, `addr-file`.
    Addresses,
    /// One domain or dotted suffix per line, `domain-file`.
    Domains,
}

/// The list kind a command-line keyword names.
pub open spec fn kind_of(arg: Seq<u8>) -> Option<ListKind> {
    if arg == kw_addr_file() {
        Some(ListKind::Addresses)
    } else if arg == kw_domain_file() {
        Some(ListKind::Domains)
    } else {
        None
    }
}

/// Reads a command-line keyword: `addr-file` or `domain-file`, else none.
pub fn list_kind(arg: &[u8]) -> (r: Option<ListKind>)
    ensures
        r == kind_of(arg@),
{
    if bytes_eq(arg, addr_file_bytes().as_slice()) {
        Some(ListKind::Addresses)
    } else if bytes_eq(arg, domain_file_bytes().as_slice()) {
        Some(ListKind::Domains)
    } else {
        None
    }
}

/// Adds one line of a list file of the given kind; empty lines add nothing.
pub fn add_list_line(blacklist: &mut Blacklist, kind: ListKind, line: &[u8])
    requires
        old(blacklist).wf(),
    ensures
        final(blacklist).wf(),
        line@.len() == 0 ==> *final(blacklist) == *old(blacklist),
        line@.len() > 0 && kind == ListKind::Addresses ==> final(blacklist).addresses() == old(
            blacklist,
        ).addresses().insert(line@) && final(blacklist).patterns() == old(blacklist).patterns(),
        line@.len() > 0 && kind == ListKind::Domains ==> final(blacklist).patterns() == old(
            blacklist,
        ).patterns().push(domain_pattern(line@)) && final(blacklist).addresses() == old(
            blacklist,
        ).addresses(),
{
    if line.len() == 0 {
        return;
    }
    match kind {
        ListKind::Addresses => blacklist.add_address(line),
        ListKind::Domains => blacklist.add_domain(line),
    }
}

} // verus!
