use vstd::prelude::*;

verus! {

/// `config`
pub open spec fn kw_config() -> Seq<u8> {
    seq![99u8, 111u8, 110u8, 102u8, 105u8, 103u8]
}

pub fn config_bytes() -> (r: Vec<u8>)
    ensures
        r@ == kw_config(),
{
    let r = vec![99u8, 111u8, 110u8, 102u8, 105u8, 103u8];
    assert(r@ =~= kw_config());
    r
}

/// `ready`
pub open spec fn kw_ready() -> Seq<u8> {
    seq![114u8, 101u8, 97u8, 100u8, 121u8]
}

pub fn ready_bytes() -> (r: Vec<u8>)
    ensures
        r@ == kw_ready(),
{
    let r = vec![114u8, 101u8, 97u8, 100u8, 121u8];
    assert(r@ =~= kw_ready());
    r
}

/// `report`
pub open spec fn kw_report() -> Seq<u8> {
    seq![114u8, 101u8, 112u8, 111u8, 114u8, 116u8]
}

pub fn report_bytes() -> (r: Vec<u8>)
    ensures
        r@ == kw_report(),
{
    let r = vec![114u8, 101u8, 112u8, 111u8, 114u8, 116u8];
    assert(r@ =~= kw_report());
    r
}

/// `filter`
pub open spec fn kw_filter() -> Seq<u8> {
    seq![102u8, 105u8, 108u8, 116u8, 101u8, 114u8]
}

pub fn filter_bytes() -> (r: Vec<u8>)
    ensures
        r@ == kw_filter(),
{
    let r = vec![102u8, 105u8, 108u8, 116u8, 101u8, 114u8];
    assert(r@ =~= kw_filter());
    r
}

/// `tx-begin`
pub open spec fn kw_tx_begin() -> Seq<u8> {
    seq![116u8, 120u8, 45u8, 98u8, 101u8, 103u8, 105u8, 110u8]
}

pub fn tx_begin_bytes() -> (r: Vec<u8>)
    ensures
        r@ == kw_tx_begin(),
{
    let r = vec![116u8, 120u8, 45u8, 98u8, 101u8, 103u8, 105u8, 110u8];
    assert(r@ =~= kw_tx_begin());
    r
}

/// `link-disconnect`
pub open spec fn kw_link_disconnect() -> Seq<u8> {
    seq![108u8, 105u8, 110u8, 107u8, 45u8, 100u8, 105u8, 115u8, 99u8, 111u8, 110u8, 110u8, 101u8, 99u8, 116u8]
}

pub fn link_disconnect_bytes() -> (r: Vec<u8>)
    ensures
        r@ == kw_link_disconnect(),
{
    let r = vec![108u8, 105u8, 110u8, 107u8, 45u8, 100u8, 105u8, 115u8, 99u8, 111u8, 110u8, 110u8, 101u8, 99u8, 116u8];
    assert(r@ =~= kw_link_disconnect());
    r
}

/// `data-line`
pub open spec fn kw_data_line() -> Seq<u8> {
    seq![100u8, 97u8, 116u8, 97u8, 45u8, 108u8, 105u8, 110u8, 101u8]
}

pub fn data_line_bytes() -> (r: Vec<u8>)
    ensures
        r@ == kw_data_line(),
{
    let r = vec![100u8, 97u8, 116u8, 97u8, 45u8, 108u8, 105u8, 110u8, 101u8];
    assert(r@ =~= kw_data_line());
    r
}

/// `commit`
pub open spec fn kw_commit() -> Seq<u8> {
    seq![99u8, 111u8, 109u8, 109u8, 105u8, 116u8]
}

pub fn commit_bytes() -> (r: Vec<u8>)
    ensures
        r@ == kw_commit(),
{
    let r = vec![99u8, 111u8, 109u8, 109u8, 105u8, 116u8];
    assert(r@ =~= kw_commit());
    r
}

/// `register`
pub open spec fn kw_register() -> Seq<u8> {
    seq![114u8, 101u8, 103u8, 105u8, 115u8, 116u8, 101u8, 114u8]
}

pub fn register_bytes() -> (r: Vec<u8>)
    ensures
        r@ == kw_register(),
{
    let r = vec![114u8, 101u8, 103u8, 105u8, 115u8, 116u8, 101u8, 114u8];
    assert(r@ =~= kw_register());
    r
}

/// `smtp-in`
pub open spec fn kw_smtp_in() -> Seq<u8> {
    seq![115u8, 109u8, 116u8, 112u8, 45u8, 105u8, 110u8]
}

pub fn smtp_in_bytes() -> (r: Vec<u8>)
    ensures
        r@ == kw_smtp_in(),
{
    let r = vec![115u8, 109u8, 116u8, 112u8, 45u8, 105u8, 110u8];
    assert(r@ =~= kw_smtp_in());
    r
}

/// `filter-result`
pub open spec fn kw_filter_result() -> Seq<u8> {
    seq![102u8, 105u8, 108u8, 116u8, 101u8, 114u8, 45u8, 114u8, 101u8, 115u8, 117u8, 108u8, 116u8]
}

pub fn filter_result_bytes() -> (r: Vec<u8>)
    ensures
        r@ == kw_filter_result(),
{
    let r = vec![102u8, 105u8, 108u8, 116u8, 101u8, 114u8, 45u8, 114u8, 101u8, 115u8, 117u8, 108u8, 116u8];
    assert(r@ =~= kw_filter_result());
    r
}

/// `proceed`
pub open spec fn kw_proceed() -> Seq<u8> {
    seq![112u8, 114u8, 111u8, 99u8, 101u8, 101u8, 100u8]
}

pub fn proceed_bytes() -> (r: Vec<u8>)
    ensures
        r@ == kw_proceed(),
{
    let r = vec![112u8, 114u8, 111u8, 99u8, 101u8, 101u8, 100u8];
    assert(r@ =~= kw_proceed());
    r
}

/// `reject`
pub open spec fn kw_reject() -> Seq<u8> {
    seq![114u8, 101u8, 106u8, 101u8, 99u8, 116u8]
}

pub fn reject_bytes() -> (r: Vec<u8>)
    ensures
        r@ == kw_reject(),
{
    let r = vec![114u8, 101u8, 106u8, 101u8, 99u8, 116u8];
    assert(r@ =~= kw_reject());
    r
}

/// `550 Sender or domain is blacklisted`
pub open spec fn kw_reject_reason() -> Seq<u8> {
    seq![53u8, 53u8, 48u8, 32u8, 83u8, 101u8, 110u8, 100u8, 101u8, 114u8, 32u8, 111u8, 114u8, 32u8, 100u8, 111u8, 109u8, 97u8, 105u8, 110u8, 32u8, 105u8, 115u8, 32u8, 98u8, 108u8, 97u8, 99u8, 107u8, 108u8, 105u8, 115u8, 116u8, 101u8, 100u8]
}

pub fn reject_reason_bytes() -> (r: Vec<u8>)
    ensures
        r@ == kw_reject_reason(),
{
    let r = vec![53u8, 53u8, 48u8, 32u8, 83u8, 101u8, 110u8, 100u8, 101u8, 114u8, 32u8, 111u8, 114u8, 32u8, 100u8, 111u8, 109u8, 97u8, 105u8, 110u8, 32u8, 105u8, 115u8, 32u8, 98u8, 108u8, 97u8, 99u8, 107u8, 108u8, 105u8, 115u8, 116u8, 101u8, 100u8];
    assert(r@ =~= kw_reject_reason());
    r
}

/// `addr-file`
pub open spec fn kw_addr_file() -> Seq<u8> {
    seq![97u8, 100u8, 100u8, 114u8, 45u8, 102u8, 105u8, 108u8, 101u8]
}

pub fn addr_file_bytes() -> (r: Vec<u8>)
    ensures
        r@ == kw_addr_file(),
{
    let r = vec![97u8, 100u8, 100u8, 114u8, 45u8, 102u8, 105u8, 108u8, 101u8];
    assert(r@ =~= kw_addr_file());
    r
}

/// `domain-file`
pub open spec fn kw_domain_file() -> Seq<u8> {
    seq![100u8, 111u8, 109u8, 97u8, 105u8, 110u8, 45u8, 102u8, 105u8, 108u8, 101u8]
}

pub fn domain_file_bytes() -> (r: Vec<u8>)
    ensures
        r@ == kw_domain_file(),
{
    let r = vec![100u8, 111u8, 109u8, 97u8, 105u8, 110u8, 45u8, 102u8, 105u8, 108u8, 101u8];
    assert(r@ =~= kw_domain_file());
    r
}

} // verus!
