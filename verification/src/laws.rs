//! What holds of every decode, stated and proved once, apart from any one
//! input.

use vstd::prelude::*;

use crate::error::Error;
use crate::host::{
    spec_host_child, spec_host_children, spec_parse_address, spec_parse_host, spec_parse_hostname,
    spec_parse_hostnames, spec_parse_script, spec_parse_scripts, spec_time_of, AddressV, HostV,
    HostnameV, ScriptV,
};
use crate::ip::spec_parse_ip;
use crate::text::spec_parse_i64;
use crate::xml::{spec_attr, XmlNode};

verus! {

/// A decoded host's optional timestamps mirror the node's own attributes:
/// well-formed text becomes exactly the parsed integer, absent text leaves
/// the timestamp absent.
pub proof fn lemma_host_scan_times(n: XmlNode, h: HostV)
    requires
        spec_parse_host(n) == Ok::<HostV, Error>(h),
    ensures
        h.scan_start_time == (match spec_attr(n, "starttime"@) {
            None => None::<i64>,
            Some(s) => spec_parse_i64(s),
        }),
        h.scan_end_time == (match spec_attr(n, "endtime"@) {
            None => None::<i64>,
            Some(s) => spec_parse_i64(s),
        }),
{
}

/// A malformed timestamp attribute fails the whole decode, identifying
/// start and end distinctly.
pub proof fn lemma_host_bad_time_fails(n: XmlNode)
    ensures
        (match spec_attr(n, "starttime"@) {
            Some(s) => spec_parse_i64(s) is None,
            None => false,
        }) ==> spec_parse_host(n) == Err::<HostV, Error>(Error::InvalidStartTime),
        (spec_time_of(spec_attr(n, "starttime"@)) is Ok && (match spec_attr(n, "endtime"@) {
            Some(s) => spec_parse_i64(s) is None,
            None => false,
        })) ==> spec_parse_host(n) == Err::<HostV, Error>(Error::InvalidEndTime),
{
}

/// An `address` node typed `mac` keeps its raw text; under any other type,
/// an absent one included, the text must read as an IP address, else the
/// record fails; a node without an `addr` attribute fails.
pub proof fn lemma_address_kinds(n: XmlNode)
    ensures
        spec_attr(n, "addr"@) is None ==> spec_parse_address(n) == Err::<AddressV, Error>(
            Error::MissingAddr,
        ),
        (match spec_attr(n, "addr"@) {
            Some(a) => (spec_attr(n, "addrtype"@) == Some("mac"@) ==> spec_parse_address(n)
                == Ok::<AddressV, Error>(AddressV::MacAddr(a))) && (spec_attr(n, "addrtype"@)
                != Some("mac"@) ==> spec_parse_address(n) == (match spec_parse_ip(a) {
                Some(ip) => Ok::<AddressV, Error>(AddressV::IpAddr(ip)),
                None => Err::<AddressV, Error>(Error::InvalidIpAddress),
            })),
            None => true,
        }),
{
}

/// A pass over children none of which is a `status` node gathers no status.
proof fn lemma_no_status_none(cs: Seq<XmlNode>)
    requires
        forall|i: int| 0 <= i < cs.len() ==> (#[trigger] cs[i].tag)@ != "status"@,
    ensures
        spec_host_children(cs) is Ok ==> spec_host_children(cs)->Ok_0.status is None,
    decreases cs.len(),
{
    if cs.len() > 0 {
        assert(forall|i: int|
            0 <= i < cs.len() - 1 ==> (#[trigger] cs.drop_last()[i].tag)@ != "status"@);
        lemma_no_status_none(cs.drop_last());
    }
}

/// A host node without a `status` child never decodes.
pub proof fn lemma_no_status_fails(n: XmlNode)
    requires
        forall|i: int| 0 <= i < n.children@.len() ==> (#[trigger] n.children@[i].tag)@ != "status"@,
    ensures
        spec_parse_host(n) is Err,
{
    lemma_no_status_none(n.children@);
}

/// A host that decoded had a `status` child.
pub proof fn lemma_decoded_host_had_status(n: XmlNode)
    requires
        spec_parse_host(n) is Ok,
    ensures
        exists|i: int| 0 <= i < n.children@.len() && (#[trigger] n.children@[i].tag)@ == "status"@,
{
    if forall|i: int|
        0 <= i < n.children@.len() ==> (#[trigger] n.children@[i].tag)@ != "status"@ {
        lemma_no_status_fails(n);
    }
}

/// A pass over children one of which is a `status` node, if it succeeds,
/// gathers a status.
proof fn lemma_status_found(cs: Seq<XmlNode>)
    requires
        spec_host_children(cs) is Ok,
        exists|i: int| 0 <= i < cs.len() && (#[trigger] cs[i].tag)@ == "status"@,
    ensures
        spec_host_children(cs)->Ok_0.status is Some,
    decreases cs.len(),
{
    reveal_strlit("address");
    reveal_strlit("status");
    reveal_strlit("hostnames");
    reveal_strlit("hostscript");
    reveal_strlit("ports");
    let i = choose|i: int| 0 <= i < cs.len() && (#[trigger] cs[i].tag)@ == "status"@;
    if cs.last().tag@ == "status"@ {
        assert("address"@.len() == 7);
        assert("status"@.len() == 6);
        assert(cs.last().tag@ != "address"@);
        assert(spec_host_children(cs.drop_last()) is Ok);
        assert(spec_host_children(cs) == spec_host_child(
            spec_host_children(cs.drop_last())->Ok_0,
            cs.last(),
        ));
    } else {
        assert(cs.last() == cs[cs.len() - 1]);
        assert(i != cs.len() - 1);
        assert(cs.drop_last()[i] == cs[i]);
        assert(cs.drop_last()[i].tag@ == "status"@);
        assert(spec_host_children(cs.drop_last()) is Ok);
        lemma_status_found(cs.drop_last());
        assert(spec_host_children(cs)->Ok_0.status == spec_host_children(
            cs.drop_last(),
        )->Ok_0.status);
    }
}

/// A host node with a `status` child decodes whenever its timestamps and
/// its whole child pass are well-formed.
pub proof fn lemma_status_present_succeeds(n: XmlNode)
    requires
        spec_time_of(spec_attr(n, "starttime"@)) is Ok,
        spec_time_of(spec_attr(n, "endtime"@)) is Ok,
        spec_host_children(n.children@) is Ok,
        exists|i: int| 0 <= i < n.children@.len() && (#[trigger] n.children@[i].tag)@ == "status"@,
    ensures
        spec_parse_host(n) is Ok,
{
    lemma_status_found(n.children@);
}

/// The children of `cs` whose tag is `tag`, in document order.
pub open spec fn children_tagged(cs: Seq<XmlNode>, tag: Seq<char>) -> Seq<XmlNode>
    decreases cs.len(),
{
    if cs.len() == 0 {
        Seq::<XmlNode>::empty()
    } else {
        let pre = children_tagged(cs.drop_last(), tag);
        if cs.last().tag@ == tag {
            pre.push(cs.last())
        } else {
            pre
        }
    }
}

/// Hostname records come out one per `hostname` child, in document order.
pub proof fn lemma_hostnames_order(cs: Seq<XmlNode>, hs: Seq<HostnameV>)
    requires
        spec_parse_hostnames(cs) == Ok::<Seq<HostnameV>, Error>(hs),
    ensures
        hs.len() == children_tagged(cs, "hostname"@).len(),
        forall|i: int|
            0 <= i < hs.len() ==> spec_parse_hostname(children_tagged(cs, "hostname"@)[i])
                == Ok::<HostnameV, Error>(#[trigger] hs[i]),
    decreases cs.len(),
{
    if cs.len() > 0 {
        if cs.last().tag@ == "hostname"@ {
            let pre = spec_parse_hostnames(cs.drop_last())->Ok_0;
            assert(hs == pre.push(spec_parse_hostname(cs.last())->Ok_0));
            assert(pre =~= hs.drop_last());
            lemma_hostnames_order(cs.drop_last(), hs.drop_last());
        } else {
            lemma_hostnames_order(cs.drop_last(), hs);
        }
    }
}

/// Script records come out one per `script` child, in document order.
pub proof fn lemma_scripts_order(cs: Seq<XmlNode>, ss: Seq<ScriptV>)
    requires
        spec_parse_scripts(cs) == Ok::<Seq<ScriptV>, Error>(ss),
    ensures
        ss.len() == children_tagged(cs, "script"@).len(),
        forall|i: int|
            0 <= i < ss.len() ==> spec_parse_script(children_tagged(cs, "script"@)[i])
                == Ok::<ScriptV, Error>(#[trigger] ss[i]),
    decreases cs.len(),
{
    if cs.len() > 0 {
        if cs.last().tag@ == "script"@ {
            let pre = spec_parse_scripts(cs.drop_last())->Ok_0;
            assert(ss == pre.push(spec_parse_script(cs.last())->Ok_0));
            assert(pre =~= ss.drop_last());
            lemma_scripts_order(cs.drop_last(), ss.drop_last());
        } else {
            lemma_scripts_order(cs.drop_last(), ss);
        }
    }
}

/// Decoding is a function of the node alone: two decodes of one node agree
/// in every part.
pub proof fn lemma_decode_deterministic(
    n: XmlNode,
    r1: Result<HostV, Error>,
    r2: Result<HostV, Error>,
)
    requires
        r1 == spec_parse_host(n),
        r2 == spec_parse_host(n),
    ensures
        r1 == r2,
{
}

} // verus!
