//! The fixed keyword set of the grammar: one spec constant per word, and an
//! executable matcher proved to recognize exactly that word.
use vstd::prelude::*;

verus! {

#[verifier::opaque]
pub open spec fn kw_nameserver() -> Seq<u8> {
    seq![110u8, 97u8, 109u8, 101u8, 115u8, 101u8, 114u8, 118u8, 101u8, 114u8]
}

pub fn is_nameserver(t: &[u8]) -> (r: bool)
    ensures
        r <==> t@ == kw_nameserver(),
{
    proof {
        reveal(kw_nameserver);
    }
    let r = t.len() == 10
        && t[0] == 110u8
        && t[1] == 97u8
        && t[2] == 109u8
        && t[3] == 101u8
        && t[4] == 115u8
        && t[5] == 101u8
        && t[6] == 114u8
        && t[7] == 118u8
        && t[8] == 101u8
        && t[9] == 114u8;
    if r {
        assert(t@ =~= kw_nameserver());
    } else {
        assert(t@ != kw_nameserver());
    }
    r
}

#[verifier::opaque]
pub open spec fn kw_domain() -> Seq<u8> {
    seq![100u8, 111u8, 109u8, 97u8, 105u8, 110u8]
}

pub fn is_domain(t: &[u8]) -> (r: bool)
    ensures
        r <==> t@ == kw_domain(),
{
    proof {
        reveal(kw_domain);
    }
    let r = t.len() == 6
        && t[0] == 100u8
        && t[1] == 111u8
        && t[2] == 109u8
        && t[3] == 97u8
        && t[4] == 105u8
        && t[5] == 110u8;
    if r {
        assert(t@ =~= kw_domain());
    } else {
        assert(t@ != kw_domain());
    }
    r
}

#[verifier::opaque]
pub open spec fn kw_search() -> Seq<u8> {
    seq![115u8, 101u8, 97u8, 114u8, 99u8, 104u8]
}

pub fn is_search(t: &[u8]) -> (r: bool)
    ensures
        r <==> t@ == kw_search(),
{
    proof {
        reveal(kw_search);
    }
    let r = t.len() == 6
        && t[0] == 115u8
        && t[1] == 101u8
        && t[2] == 97u8
        && t[3] == 114u8
        && t[4] == 99u8
        && t[5] == 104u8;
    if r {
        assert(t@ =~= kw_search());
    } else {
        assert(t@ != kw_search());
    }
    r
}

#[verifier::opaque]
pub open spec fn kw_sortlist() -> Seq<u8> {
    seq![115u8, 111u8, 114u8, 116u8, 108u8, 105u8, 115u8, 116u8]
}

pub fn is_sortlist(t: &[u8]) -> (r: bool)
    ensures
        r <==> t@ == kw_sortlist(),
{
    proof {
        reveal(kw_sortlist);
    }
    let r = t.len() == 8
        && t[0] == 115u8
        && t[1] == 111u8
        && t[2] == 114u8
        && t[3] == 116u8
        && t[4] == 108u8
        && t[5] == 105u8
        && t[6] == 115u8
        && t[7] == 116u8;
    if r {
        assert(t@ =~= kw_sortlist());
    } else {
        assert(t@ != kw_sortlist());
    }
    r
}

#[verifier::opaque]
pub open spec fn kw_options() -> Seq<u8> {
    seq![111u8, 112u8, 116u8, 105u8, 111u8, 110u8, 115u8]
}

pub fn is_options(t: &[u8]) -> (r: bool)
    ensures
        r <==> t@ == kw_options(),
{
    proof {
        reveal(kw_options);
    }
    let r = t.len() == 7
        && t[0] == 111u8
        && t[1] == 112u8
        && t[2] == 116u8
        && t[3] == 105u8
        && t[4] == 111u8
        && t[5] == 110u8
        && t[6] == 115u8;
    if r {
        assert(t@ =~= kw_options());
    } else {
        assert(t@ != kw_options());
    }
    r
}

#[verifier::opaque]
pub open spec fn kw_lookup() -> Seq<u8> {
    seq![108u8, 111u8, 111u8, 107u8, 117u8, 112u8]
}

pub fn is_lookup(t: &[u8]) -> (r: bool)
    ensures
        r <==> t@ == kw_lookup(),
{
    proof {
        reveal(kw_lookup);
    }
    let r = t.len() == 6
        && t[0] == 108u8
        && t[1] == 111u8
        && t[2] == 111u8
        && t[3] == 107u8
        && t[4] == 117u8
        && t[5] == 112u8;
    if r {
        assert(t@ =~= kw_lookup());
    } else {
        assert(t@ != kw_lookup());
    }
    r
}

#[verifier::opaque]
pub open spec fn kw_family() -> Seq<u8> {
    seq![102u8, 97u8, 109u8, 105u8, 108u8, 121u8]
}

pub fn is_family(t: &[u8]) -> (r: bool)
    ensures
        r <==> t@ == kw_family(),
{
    proof {
        reveal(kw_family);
    }
    let r = t.len() == 6
        && t[0] == 102u8
        && t[1] == 97u8
        && t[2] == 109u8
        && t[3] == 105u8
        && t[4] == 108u8
        && t[5] == 121u8;
    if r {
        assert(t@ =~= kw_family());
    } else {
        assert(t@ != kw_family());
    }
    r
}

#[verifier::opaque]
pub open spec fn kw_file() -> Seq<u8> {
    seq![102u8, 105u8, 108u8, 101u8]
}

pub fn is_file(t: &[u8]) -> (r: bool)
    ensures
        r <==> t@ == kw_file(),
{
    proof {
        reveal(kw_file);
    }
    let r = t.len() == 4
        && t[0] == 102u8
        && t[1] == 105u8
        && t[2] == 108u8
        && t[3] == 101u8;
    if r {
        assert(t@ =~= kw_file());
    } else {
        assert(t@ != kw_file());
    }
    r
}

#[verifier::opaque]
pub open spec fn kw_bind() -> Seq<u8> {
    seq![98u8, 105u8, 110u8, 100u8]
}

pub fn is_bind(t: &[u8]) -> (r: bool)
    ensures
        r <==> t@ == kw_bind(),
{
    proof {
        reveal(kw_bind);
    }
    let r = t.len() == 4
        && t[0] == 98u8
        && t[1] == 105u8
        && t[2] == 110u8
        && t[3] == 100u8;
    if r {
        assert(t@ =~= kw_bind());
    } else {
        assert(t@ != kw_bind());
    }
    r
}

#[verifier::opaque]
pub open spec fn kw_inet4() -> Seq<u8> {
    seq![105u8, 110u8, 101u8, 116u8, 52u8]
}

pub fn is_inet4(t: &[u8]) -> (r: bool)
    ensures
        r <==> t@ == kw_inet4(),
{
    proof {
        reveal(kw_inet4);
    }
    let r = t.len() == 5
        && t[0] == 105u8
        && t[1] == 110u8
        && t[2] == 101u8
        && t[3] == 116u8
        && t[4] == 52u8;
    if r {
        assert(t@ =~= kw_inet4());
    } else {
        assert(t@ != kw_inet4());
    }
    r
}

#[verifier::opaque]
pub open spec fn kw_inet6() -> Seq<u8> {
    seq![105u8, 110u8, 101u8, 116u8, 54u8]
}

pub fn is_inet6(t: &[u8]) -> (r: bool)
    ensures
        r <==> t@ == kw_inet6(),
{
    proof {
        reveal(kw_inet6);
    }
    let r = t.len() == 5
        && t[0] == 105u8
        && t[1] == 110u8
        && t[2] == 101u8
        && t[3] == 116u8
        && t[4] == 54u8;
    if r {
        assert(t@ =~= kw_inet6());
    } else {
        assert(t@ != kw_inet6());
    }
    r
}

#[verifier::opaque]
pub open spec fn kw_debug() -> Seq<u8> {
    seq![100u8, 101u8, 98u8, 117u8, 103u8]
}

pub fn is_debug(t: &[u8]) -> (r: bool)
    ensures
        r <==> t@ == kw_debug(),
{
    proof {
        reveal(kw_debug);
    }
    let r = t.len() == 5
        && t[0] == 100u8
        && t[1] == 101u8
        && t[2] == 98u8
        && t[3] == 117u8
        && t[4] == 103u8;
    if r {
        assert(t@ =~= kw_debug());
    } else {
        assert(t@ != kw_debug());
    }
    r
}

#[verifier::opaque]
pub open spec fn kw_ndots() -> Seq<u8> {
    seq![110u8, 100u8, 111u8, 116u8, 115u8]
}

pub fn is_ndots(t: &[u8]) -> (r: bool)
    ensures
        r <==> t@ == kw_ndots(),
{
    proof {
        reveal(kw_ndots);
    }
    let r = t.len() == 5
        && t[0] == 110u8
        && t[1] == 100u8
        && t[2] == 111u8
        && t[3] == 116u8
        && t[4] == 115u8;
    if r {
        assert(t@ =~= kw_ndots());
    } else {
        assert(t@ != kw_ndots());
    }
    r
}

#[verifier::opaque]
pub open spec fn kw_timeout() -> Seq<u8> {
    seq![116u8, 105u8, 109u8, 101u8, 111u8, 117u8, 116u8]
}

pub fn is_timeout(t: &[u8]) -> (r: bool)
    ensures
        r <==> t@ == kw_timeout(),
{
    proof {
        reveal(kw_timeout);
    }
    let r = t.len() == 7
        && t[0] == 116u8
        && t[1] == 105u8
        && t[2] == 109u8
        && t[3] == 101u8
        && t[4] == 111u8
        && t[5] == 117u8
        && t[6] == 116u8;
    if r {
        assert(t@ =~= kw_timeout());
    } else {
        assert(t@ != kw_timeout());
    }
    r
}

#[verifier::opaque]
pub open spec fn kw_attempts() -> Seq<u8> {
    seq![97u8, 116u8, 116u8, 101u8, 109u8, 112u8, 116u8, 115u8]
}

pub fn is_attempts(t: &[u8]) -> (r: bool)
    ensures
        r <==> t@ == kw_attempts(),
{
    proof {
        reveal(kw_attempts);
    }
    let r = t.len() == 8
        && t[0] == 97u8
        && t[1] == 116u8
        && t[2] == 116u8
        && t[3] == 101u8
        && t[4] == 109u8
        && t[5] == 112u8
        && t[6] == 116u8
        && t[7] == 115u8;
    if r {
        assert(t@ =~= kw_attempts());
    } else {
        assert(t@ != kw_attempts());
    }
    r
}

#[verifier::opaque]
pub open spec fn kw_rotate() -> Seq<u8> {
    seq![114u8, 111u8, 116u8, 97u8, 116u8, 101u8]
}

pub fn is_rotate(t: &[u8]) -> (r: bool)
    ensures
        r <==> t@ == kw_rotate(),
{
    proof {
        reveal(kw_rotate);
    }
    let r = t.len() == 6
        && t[0] == 114u8
        && t[1] == 111u8
        && t[2] == 116u8
        && t[3] == 97u8
        && t[4] == 116u8
        && t[5] == 101u8;
    if r {
        assert(t@ =~= kw_rotate());
    } else {
        assert(t@ != kw_rotate());
    }
    r
}

#[verifier::opaque]
pub open spec fn kw_no_check_names() -> Seq<u8> {
    seq![110u8, 111u8, 45u8, 99u8, 104u8, 101u8, 99u8, 107u8, 45u8, 110u8, 97u8, 109u8, 101u8, 115u8]
}

pub fn is_no_check_names(t: &[u8]) -> (r: bool)
    ensures
        r <==> t@ == kw_no_check_names(),
{
    proof {
        reveal(kw_no_check_names);
    }
    let r = t.len() == 14
        && t[0] == 110u8
        && t[1] == 111u8
        && t[2] == 45u8
        && t[3] == 99u8
        && t[4] == 104u8
        && t[5] == 101u8
        && t[6] == 99u8
        && t[7] == 107u8
        && t[8] == 45u8
        && t[9] == 110u8
        && t[10] == 97u8
        && t[11] == 109u8
        && t[12] == 101u8
        && t[13] == 115u8;
    if r {
        assert(t@ =~= kw_no_check_names());
    } else {
        assert(t@ != kw_no_check_names());
    }
    r
}

#[verifier::opaque]
pub open spec fn kw_ip6_bytestring() -> Seq<u8> {
    seq![105u8, 112u8, 54u8, 45u8, 98u8, 121u8, 116u8, 101u8, 115u8, 116u8, 114u8, 105u8, 110u8, 103u8]
}

pub fn is_ip6_bytestring(t: &[u8]) -> (r: bool)
    ensures
        r <==> t@ == kw_ip6_bytestring(),
{
    proof {
        reveal(kw_ip6_bytestring);
    }
    let r = t.len() == 14
        && t[0] == 105u8
        && t[1] == 112u8
        && t[2] == 54u8
        && t[3] == 45u8
        && t[4] == 98u8
        && t[5] == 121u8
        && t[6] == 116u8
        && t[7] == 101u8
        && t[8] == 115u8
        && t[9] == 116u8
        && t[10] == 114u8
        && t[11] == 105u8
        && t[12] == 110u8
        && t[13] == 103u8;
    if r {
        assert(t@ =~= kw_ip6_bytestring());
    } else {
        assert(t@ != kw_ip6_bytestring());
    }
    r
}

#[verifier::opaque]
pub open spec fn kw_ip6_dotint() -> Seq<u8> {
    seq![105u8, 112u8, 54u8, 45u8, 100u8, 111u8, 116u8, 105u8, 110u8, 116u8]
}

pub fn is_ip6_dotint(t: &[u8]) -> (r: bool)
    ensures
        r <==> t@ == kw_ip6_dotint(),
{
    proof {
        reveal(kw_ip6_dotint);
    }
    let r = t.len() == 10
        && t[0] == 105u8
        && t[1] == 112u8
        && t[2] == 54u8
        && t[3] == 45u8
        && t[4] == 100u8
        && t[5] == 111u8
        && t[6] == 116u8
        && t[7] == 105u8
        && t[8] == 110u8
        && t[9] == 116u8;
    if r {
        assert(t@ =~= kw_ip6_dotint());
    } else {
        assert(t@ != kw_ip6_dotint());
    }
    r
}

#[verifier::opaque]
pub open spec fn kw_no_ip6_dotint() -> Seq<u8> {
    seq![110u8, 111u8, 45u8, 105u8, 112u8, 54u8, 45u8, 100u8, 111u8, 116u8, 105u8, 110u8, 116u8]
}

pub fn is_no_ip6_dotint(t: &[u8]) -> (r: bool)
    ensures
        r <==> t@ == kw_no_ip6_dotint(),
{
    proof {
        reveal(kw_no_ip6_dotint);
    }
    let r = t.len() == 13
        && t[0] == 110u8
        && t[1] == 111u8
        && t[2] == 45u8
        && t[3] == 105u8
        && t[4] == 112u8
        && t[5] == 54u8
        && t[6] == 45u8
        && t[7] == 100u8
        && t[8] == 111u8
        && t[9] == 116u8
        && t[10] == 105u8
        && t[11] == 110u8
        && t[12] == 116u8;
    if r {
        assert(t@ =~= kw_no_ip6_dotint());
    } else {
        assert(t@ != kw_no_ip6_dotint());
    }
    r
}

#[verifier::opaque]
pub open spec fn kw_edns0() -> Seq<u8> {
    seq![101u8, 100u8, 110u8, 115u8, 48u8]
}

pub fn is_edns0(t: &[u8]) -> (r: bool)
    ensures
        r <==> t@ == kw_edns0(),
{
    proof {
        reveal(kw_edns0);
    }
    let r = t.len() == 5
        && t[0] == 101u8
        && t[1] == 100u8
        && t[2] == 110u8
        && t[3] == 115u8
        && t[4] == 48u8;
    if r {
        assert(t@ =~= kw_edns0());
    } else {
        assert(t@ != kw_edns0());
    }
    r
}

#[verifier::opaque]
pub open spec fn kw_single_request() -> Seq<u8> {
    seq![115u8, 105u8, 110u8, 103u8, 108u8, 101u8, 45u8, 114u8, 101u8, 113u8, 117u8, 101u8, 115u8, 116u8]
}

pub fn is_single_request(t: &[u8]) -> (r: bool)
    ensures
        r <==> t@ == kw_single_request(),
{
    proof {
        reveal(kw_single_request);
    }
    let r = t.len() == 14
        && t[0] == 115u8
        && t[1] == 105u8
        && t[2] == 110u8
        && t[3] == 103u8
        && t[4] == 108u8
        && t[5] == 101u8
        && t[6] == 45u8
        && t[7] == 114u8
        && t[8] == 101u8
        && t[9] == 113u8
        && t[10] == 117u8
        && t[11] == 101u8
        && t[12] == 115u8
        && t[13] == 116u8;
    if r {
        assert(t@ =~= kw_single_request());
    } else {
        assert(t@ != kw_single_request());
    }
    r
}

#[verifier::opaque]
pub open spec fn kw_single_request_reopen() -> Seq<u8> {
    seq![115u8, 105u8, 110u8, 103u8, 108u8, 101u8, 45u8, 114u8, 101u8, 113u8, 117u8, 101u8, 115u8, 116u8, 45u8, 114u8, 101u8, 111u8, 112u8, 101u8, 110u8]
}

pub fn is_single_request_reopen(t: &[u8]) -> (r: bool)
    ensures
        r <==> t@ == kw_single_request_reopen(),
{
    proof {
        reveal(kw_single_request_reopen);
    }
    let r = t.len() == 21
        && t[0] == 115u8
        && t[1] == 105u8
        && t[2] == 110u8
        && t[3] == 103u8
        && t[4] == 108u8
        && t[5] == 101u8
        && t[6] == 45u8
        && t[7] == 114u8
        && t[8] == 101u8
        && t[9] == 113u8
        && t[10] == 117u8
        && t[11] == 101u8
        && t[12] == 115u8
        && t[13] == 116u8
        && t[14] == 45u8
        && t[15] == 114u8
        && t[16] == 101u8
        && t[17] == 111u8
        && t[18] == 112u8
        && t[19] == 101u8
        && t[20] == 110u8;
    if r {
        assert(t@ =~= kw_single_request_reopen());
    } else {
        assert(t@ != kw_single_request_reopen());
    }
    r
}

#[verifier::opaque]
pub open spec fn kw_no_reload() -> Seq<u8> {
    seq![110u8, 111u8, 45u8, 114u8, 101u8, 108u8, 111u8, 97u8, 100u8]
}

pub fn is_no_reload(t: &[u8]) -> (r: bool)
    ensures
        r <==> t@ == kw_no_reload(),
{
    proof {
        reveal(kw_no_reload);
    }
    let r = t.len() == 9
        && t[0] == 110u8
        && t[1] == 111u8
        && t[2] == 45u8
        && t[3] == 114u8
        && t[4] == 101u8
        && t[5] == 108u8
        && t[6] == 111u8
        && t[7] == 97u8
        && t[8] == 100u8;
    if r {
        assert(t@ =~= kw_no_reload());
    } else {
        assert(t@ != kw_no_reload());
    }
    r
}

#[verifier::opaque]
pub open spec fn kw_trust_ad() -> Seq<u8> {
    seq![116u8, 114u8, 117u8, 115u8, 116u8, 45u8, 97u8, 100u8]
}

pub fn is_trust_ad(t: &[u8]) -> (r: bool)
    ensures
        r <==> t@ == kw_trust_ad(),
{
    proof {
        reveal(kw_trust_ad);
    }
    let r = t.len() == 8
        && t[0] == 116u8
        && t[1] == 114u8
        && t[2] == 117u8
        && t[3] == 115u8
        && t[4] == 116u8
        && t[5] == 45u8
        && t[6] == 97u8
        && t[7] == 100u8;
    if r {
        assert(t@ =~= kw_trust_ad());
    } else {
        assert(t@ != kw_trust_ad());
    }
    r
}

#[verifier::opaque]
pub open spec fn kw_no_tld_query() -> Seq<u8> {
    seq![110u8, 111u8, 45u8, 116u8, 108u8, 100u8, 45u8, 113u8, 117u8, 101u8, 114u8, 121u8]
}

pub fn is_no_tld_query(t: &[u8]) -> (r: bool)
    ensures
        r <==> t@ == kw_no_tld_query(),
{
    proof {
        reveal(kw_no_tld_query);
    }
    let r = t.len() == 12
        && t[0] == 110u8
        && t[1] == 111u8
        && t[2] == 45u8
        && t[3] == 116u8
        && t[4] == 108u8
        && t[5] == 100u8
        && t[6] == 45u8
        && t[7] == 113u8
        && t[8] == 117u8
        && t[9] == 101u8
        && t[10] == 114u8
        && t[11] == 121u8;
    if r {
        assert(t@ =~= kw_no_tld_query());
    } else {
        assert(t@ != kw_no_tld_query());
    }
    r
}

#[verifier::opaque]
pub open spec fn kw_use_vc() -> Seq<u8> {
    seq![117u8, 115u8, 101u8, 45u8, 118u8, 99u8]
}

pub fn is_use_vc(t: &[u8]) -> (r: bool)
    ensures
        r <==> t@ == kw_use_vc(),
{
    proof {
        reveal(kw_use_vc);
    }
    let r = t.len() == 6
        && t[0] == 117u8
        && t[1] == 115u8
        && t[2] == 101u8
        && t[3] == 45u8
        && t[4] == 118u8
        && t[5] == 99u8;
    if r {
        assert(t@ =~= kw_use_vc());
    } else {
        assert(t@ != kw_use_vc());
    }
    r
}

} // verus!
