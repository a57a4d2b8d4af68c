//! Host related structs and enums, and the decoding of one host node into
//! its validated model.

use vstd::prelude::*;

use crate::error::Error;
use crate::ip::{spec_parse_ip, parse_ip, IpAddr};
use crate::text::{spec_parse_i64, parse_i64, spec_parse_u8, parse_u8};
use crate::xml::{spec_attr, str_eq, XmlNode};

verus! {

/// One address record of a host: a structured IP address, or a MAC address
/// kept as its raw text.
#[derive(Clone, Debug, PartialEq)]
pub enum Address {
    IpAddr(IpAddr),
    MacAddr(String),
}

/// The abstract value of an `Address`.
#[verifier::ext_equal]
pub enum AddressV {
    IpAddr(IpAddr),
    MacAddr(Seq<char>),
}

impl View for Address {
    type V = AddressV;

    open spec fn view(&self) -> AddressV {
        match self {
            Address::IpAddr(a) => AddressV::IpAddr(*a),
            Address::MacAddr(s) => AddressV::MacAddr(s@),
        }
    }
}

impl DeepView for Address {
    type V = AddressV;

    open spec fn deep_view(&self) -> AddressV {
        self.view()
    }
}

/// The reachability of a host, as its `status` record states it.
#[derive(Clone, Copy, Debug, PartialEq, Eq, Structural)]
pub enum HostState {
    Up,
    Down,
    Unknown,
    Skipped,
}

/// The state a `state` attribute names, if recognized.
pub open spec fn spec_host_state(s: Seq<char>) -> Option<HostState> {
    if s == "up"@ {
        Some(HostState::Up)
    } else if s == "down"@ {
        Some(HostState::Down)
    } else if s == "unknown"@ {
        Some(HostState::Unknown)
    } else if s == "skipped"@ {
        Some(HostState::Skipped)
    } else {
        None
    }
}

/// Reads a state literal, exactly as `spec_host_state` says.
pub fn host_state_of(s: &str) -> (r: Option<HostState>)
    ensures
        r == spec_host_state(s@),
{
    if str_eq(s, "up") {
        Some(HostState::Up)
    } else if str_eq(s, "down") {
        Some(HostState::Down)
    } else if str_eq(s, "unknown") {
        Some(HostState::Unknown)
    } else if str_eq(s, "skipped") {
        Some(HostState::Skipped)
    } else {
        None
    }
}

/// Where a host name came from: supplied by the user, or found by a
/// reverse lookup.
#[derive(Clone, Copy, Debug, PartialEq, Eq, Structural)]
pub enum HostnameType {
    User,
    Dns,
}

/// The source a `type` attribute names, if recognized.
pub open spec fn spec_hostname_type(s: Seq<char>) -> Option<HostnameType> {
    if s == "user"@ {
        Some(HostnameType::User)
    } else if s == "PTR"@ {
        Some(HostnameType::Dns)
    } else {
        None
    }
}

/// Reads a name-source literal, exactly as `spec_hostname_type` says.
pub fn hostname_type_of(s: &str) -> (r: Option<HostnameType>)
    ensures
        r == spec_hostname_type(s@),
{
    if str_eq(s, "user") {
        Some(HostnameType::User)
    } else if str_eq(s, "PTR") {
        Some(HostnameType::Dns)
    } else {
        None
    }
}

/// The `status` record of a host: its state, the reason it was assigned,
/// and that reason's time-to-live.
#[derive(Clone, Debug, PartialEq)]
pub struct HostStatus {
    pub state: HostState,
    pub reason: String,
    pub reason_ttl: u8,
}

/// The abstract value of a `HostStatus`.
#[verifier::ext_equal]
pub struct HostStatusV {
    pub state: HostState,
    pub reason: Seq<char>,
    pub reason_ttl: u8,
}

impl View for HostStatus {
    type V = HostStatusV;

    open spec fn view(&self) -> HostStatusV {
        HostStatusV { state: self.state, reason: self.reason@, reason_ttl: self.reason_ttl }
    }
}

impl DeepView for HostStatus {
    type V = HostStatusV;

    open spec fn deep_view(&self) -> HostStatusV {
        self.view()
    }
}

/// One name of a host and where it came from.
#[derive(Clone, Debug, PartialEq)]
pub struct Hostname {
    pub name: String,
    pub source: HostnameType,
}

/// The abstract value of a `Hostname`.
#[verifier::ext_equal]
pub struct HostnameV {
    pub name: Seq<char>,
    pub source: HostnameType,
}

impl View for Hostname {
    type V = HostnameV;

    open spec fn view(&self) -> HostnameV {
        HostnameV { name: self.name@, source: self.source }
    }
}

impl DeepView for Hostname {
    type V = HostnameV;

    open spec fn deep_view(&self) -> HostnameV {
        self.view()
    }
}

/// One diagnostic script's name and flattened output.
#[derive(Clone, Debug, PartialEq)]
pub struct Script {
    pub id: String,
    pub output: String,
}

/// The abstract value of a `Script`.
#[verifier::ext_equal]
pub struct ScriptV {
    pub id: Seq<char>,
    pub output: Seq<char>,
}

impl View for Script {
    type V = ScriptV;

    open spec fn view(&self) -> ScriptV {
        ScriptV { id: self.id@, output: self.output@ }
    }
}

impl DeepView for Script {
    type V = ScriptV;

    open spec fn deep_view(&self) -> ScriptV {
        self.view()
    }
}

/// Port records of a host. Port decoding is a sibling subsystem with its
/// own rules; this core only carries its value, which records nothing here.
#[derive(Clone, Copy, Debug, PartialEq, Eq, Structural)]
pub struct PortInfo {}

impl Default for PortInfo {
    fn default() -> (r: Self)
        ensures
            r == (PortInfo {  }),
    {
        PortInfo {  }
    }
}

impl PortInfo {
    /// Decodes a `ports` node; this core keeps nothing of it.
    pub fn parse(_node: &XmlNode) -> (r: Result<PortInfo, Error>)
        ensures
            r == Ok::<PortInfo, Error>(PortInfo {  }),
    {
        Ok(PortInfo {  })
    }
}

/// The address record of `n`: a MAC address kept raw when `addrtype` says
/// `mac`; under any other declared type, or none at all, `addr` must read
/// as an IP address.
pub open spec fn spec_parse_address(n: XmlNode) -> Result<AddressV, Error> {
    match spec_attr(n, "addr"@) {
        None => Err(Error::MissingAddr),
        Some(a) => if spec_attr(n, "addrtype"@) == Some("mac"@) {
            Ok(AddressV::MacAddr(a))
        } else {
            match spec_parse_ip(a) {
                Some(ip) => Ok(AddressV::IpAddr(ip)),
                None => Err(Error::InvalidIpAddress),
            }
        },
    }
}

/// Reads one `address` node, exactly as `spec_parse_address` says.
pub fn parse_address_node(node: &XmlNode) -> (r: Result<Address, Error>)
    ensures
        match r {
            Ok(a) => spec_parse_address(*node) == Ok::<AddressV, Error>(a@),
            Err(e) => spec_parse_address(*node) == Err::<AddressV, Error>(e),
        },
{
    let addr = match node.attribute("addr") {
        Some(v) => v,
        None => {
            return Err(Error::MissingAddr);
        },
    };
    let is_mac = match node.attribute("addrtype") {
        Some(t) => str_eq(t.as_str(), "mac"),
        None => false,
    };
    if is_mac {
        Ok(Address::MacAddr(addr.clone()))
    } else {
        match parse_ip(addr.as_str()) {
            Some(ip) => Ok(Address::IpAddr(ip)),
            None => Err(Error::InvalidIpAddress),
        }
    }
}

/// The status record of `n`.
pub open spec fn spec_parse_status(n: XmlNode) -> Result<HostStatusV, Error> {
    match spec_attr(n, "state"@) {
        None => Err(Error::MissingStatusState),
        Some(s) => match spec_host_state(s) {
            None => Err(Error::InvalidStatusState),
            Some(state) => match spec_attr(n, "reason"@) {
                None => Err(Error::MissingStatusReason),
                Some(reason) => match spec_attr(n, "reason_ttl"@) {
                    None => Err(Error::MissingStatusReasonTtl),
                    Some(t) => match spec_parse_u8(t) {
                        None => Err(Error::InvalidStatusReasonTtl),
                        Some(reason_ttl) => Ok(HostStatusV { state, reason, reason_ttl }),
                    },
                },
            },
        },
    }
}

impl HostStatus {
    /// Reads one `status` node, exactly as `spec_parse_status` says.
    pub fn parse(node: &XmlNode) -> (r: Result<HostStatus, Error>)
        ensures
            match r {
                Ok(s) => spec_parse_status(*node) == Ok::<HostStatusV, Error>(s@),
                Err(e) => spec_parse_status(*node) == Err::<HostStatusV, Error>(e),
            },
    {
        let state_text = match node.attribute("state") {
            Some(v) => v,
            None => {
                return Err(Error::MissingStatusState);
            },
        };
        let state = match host_state_of(state_text.as_str()) {
            Some(s) => s,
            None => {
                return Err(Error::InvalidStatusState);
            },
        };
        let reason = match node.attribute("reason") {
            Some(v) => v.clone(),
            None => {
                return Err(Error::MissingStatusReason);
            },
        };
        let ttl_text = match node.attribute("reason_ttl") {
            Some(v) => v,
            None => {
                return Err(Error::MissingStatusReasonTtl);
            },
        };
        let reason_ttl = match parse_u8(ttl_text.as_str()) {
            Some(x) => x,
            None => {
                return Err(Error::InvalidStatusReasonTtl);
            },
        };
        Ok(HostStatus { state, reason, reason_ttl })
    }
}

/// The hostname record of `n`.
pub open spec fn spec_parse_hostname(n: XmlNode) -> Result<HostnameV, Error> {
    match spec_attr(n, "name"@) {
        None => Err(Error::MissingHostnameName),
        Some(name) => match spec_attr(n, "type"@) {
            None => Err(Error::MissingHostnameType),
            Some(t) => match spec_hostname_type(t) {
                None => Err(Error::InvalidHostnameType),
                Some(source) => Ok(HostnameV { name, source }),
            },
        },
    }
}

impl Hostname {
    /// Reads one `hostname` node, exactly as `spec_parse_hostname` says.
    pub fn parse(node: &XmlNode) -> (r: Result<Hostname, Error>)
        ensures
            match r {
                Ok(h) => spec_parse_hostname(*node) == Ok::<HostnameV, Error>(h@),
                Err(e) => spec_parse_hostname(*node) == Err::<HostnameV, Error>(e),
            },
    {
        let name = match node.attribute("name") {
            Some(v) => v.clone(),
            None => {
                return Err(Error::MissingHostnameName);
            },
        };
        let type_text = match node.attribute("type") {
            Some(v) => v,
            None => {
                return Err(Error::MissingHostnameType);
            },
        };
        let source = match hostname_type_of(type_text.as_str()) {
            Some(t) => t,
            None => {
                return Err(Error::InvalidHostnameType);
            },
        };
        Ok(Hostname { name, source })
    }
}

/// The script record of `n`.
pub open spec fn spec_parse_script(n: XmlNode) -> Result<ScriptV, Error> {
    match spec_attr(n, "id"@) {
        None => Err(Error::MissingScriptId),
        Some(id) => match spec_attr(n, "output"@) {
            None => Err(Error::MissingScriptOutput),
            Some(output) => Ok(ScriptV { id, output }),
        },
    }
}

impl Script {
    /// Reads one `script` node, exactly as `spec_parse_script` says.
    pub fn parse(node: &XmlNode) -> (r: Result<Script, Error>)
        ensures
            match r {
                Ok(s) => spec_parse_script(*node) == Ok::<ScriptV, Error>(s@),
                Err(e) => spec_parse_script(*node) == Err::<ScriptV, Error>(e),
            },
    {
        let id = match node.attribute("id") {
            Some(v) => v.clone(),
            None => {
                return Err(Error::MissingScriptId);
            },
        };
        let output = match node.attribute("output") {
            Some(v) => v.clone(),
            None => {
                return Err(Error::MissingScriptOutput);
            },
        };
        Ok(Script { id, output })
    }
}

/// The hostname records among the children `cs`, in document order; any
/// failure is the leftmost one, and aborts the walk.
pub open spec fn spec_parse_hostnames(cs: Seq<XmlNode>) -> Result<Seq<HostnameV>, Error>
    decreases cs.len(),
{
    if cs.len() == 0 {
        Ok(Seq::<HostnameV>::empty())
    } else {
        match spec_parse_hostnames(cs.drop_last()) {
            Err(e) => Err(e),
            Ok(pre) => if cs.last().tag@ == "hostname"@ {
                match spec_parse_hostname(cs.last()) {
                    Ok(h) => Ok(pre.push(h)),
                    Err(e) => Err(e),
                }
            } else {
                Ok(pre)
            },
        }
    }
}

/// Once a prefix of the walk fails, the whole walk fails the same way.
pub proof fn lemma_hostnames_err(cs: Seq<XmlNode>, j: int)
    requires
        0 <= j <= cs.len(),
        spec_parse_hostnames(cs.take(j)) is Err,
    ensures
        spec_parse_hostnames(cs) == spec_parse_hostnames(cs.take(j)),
    decreases cs.len() - j,
{
    if j == cs.len() {
        assert(cs.take(j) =~= cs);
    } else {
        assert(cs.take(j + 1).drop_last() =~= cs.take(j));
        lemma_hostnames_err(cs, j + 1);
    }
}

/// Reads the `hostname` children of a `hostnames` node, exactly as
/// `spec_parse_hostnames` says.
pub fn parse_hostnames_node(node: &XmlNode) -> (r: Result<Vec<Hostname>, Error>)
    ensures
        match r {
            Ok(v) => spec_parse_hostnames(node.children@) == Ok::<Seq<HostnameV>, Error>(
                v.deep_view(),
            ),
            Err(e) => spec_parse_hostnames(node.children@) == Err::<Seq<HostnameV>, Error>(e),
        },
{
    let mut r: Vec<Hostname> = Vec::new();
    let n = node.children.len();
    let mut i: usize = 0;
    proof {
        assert(node.children@.take(0) =~= Seq::<XmlNode>::empty());
        assert(r.deep_view() =~= Seq::<HostnameV>::empty());
    }
    while i < n
        invariant
            i <= n,
            n == node.children@.len(),
            spec_parse_hostnames(node.children@.take(i as int)) == Ok::<Seq<HostnameV>, Error>(
                r.deep_view(),
            ),
        decreases n - i,
    {
        proof {
            assert(node.children@.take(i as int + 1).drop_last() =~= node.children@.take(i as int));
            assert(node.children@.take(i as int + 1).last() == node.children@[i as int]);
        }
        let child = &node.children[i];
        if str_eq(child.tag.as_str(), "hostname") {
            let ghost pre = r.deep_view();
            match Hostname::parse(child) {
                Ok(h) => {
                    r.push(h);
                    proof {
                        assert(r.deep_view() =~= pre.push(h@));
                    }
                },
                Err(e) => {
                    proof {
                        lemma_hostnames_err(node.children@, i as int + 1);
                    }
                    return Err(e);
                },
            }
        }
        i = i + 1;
    }
    proof {
        assert(node.children@.take(n as int) =~= node.children@);
    }
    Ok(r)
}

/// The script records among the children `cs`, in document order; any
/// failure is the leftmost one, and aborts the walk.
pub open spec fn spec_parse_scripts(cs: Seq<XmlNode>) -> Result<Seq<ScriptV>, Error>
    decreases cs.len(),
{
    if cs.len() == 0 {
        Ok(Seq::<ScriptV>::empty())
    } else {
        match spec_parse_scripts(cs.drop_last()) {
            Err(e) => Err(e),
            Ok(pre) => if cs.last().tag@ == "script"@ {
                match spec_parse_script(cs.last()) {
                    Ok(s) => Ok(pre.push(s)),
                    Err(e) => Err(e),
                }
            } else {
                Ok(pre)
            },
        }
    }
}

/// Once a prefix of the walk fails, the whole walk fails the same way.
pub proof fn lemma_scripts_err(cs: Seq<XmlNode>, j: int)
    requires
        0 <= j <= cs.len(),
        spec_parse_scripts(cs.take(j)) is Err,
    ensures
        spec_parse_scripts(cs) == spec_parse_scripts(cs.take(j)),
    decreases cs.len() - j,
{
    if j == cs.len() {
        assert(cs.take(j) =~= cs);
    } else {
        assert(cs.take(j + 1).drop_last() =~= cs.take(j));
        lemma_scripts_err(cs, j + 1);
    }
}

/// Reads the `script` children of a `hostscript` node, exactly as
/// `spec_parse_scripts` says.
pub fn parse_hostscript_node(node: &XmlNode) -> (r: Result<Vec<Script>, Error>)
    ensures
        match r {
            Ok(v) => spec_parse_scripts(node.children@) == Ok::<Seq<ScriptV>, Error>(v.deep_view()),
            Err(e) => spec_parse_scripts(node.children@) == Err::<Seq<ScriptV>, Error>(e),
        },
{
    let mut r: Vec<Script> = Vec::new();
    let n = node.children.len();
    let mut i: usize = 0;
    proof {
        assert(node.children@.take(0) =~= Seq::<XmlNode>::empty());
        assert(r.deep_view() =~= Seq::<ScriptV>::empty());
    }
    while i < n
        invariant
            i <= n,
            n == node.children@.len(),
            spec_parse_scripts(node.children@.take(i as int)) == Ok::<Seq<ScriptV>, Error>(
                r.deep_view(),
            ),
        decreases n - i,
    {
        proof {
            assert(node.children@.take(i as int + 1).drop_last() =~= node.children@.take(i as int));
            assert(node.children@.take(i as int + 1).last() == node.children@[i as int]);
        }
        let child = &node.children[i];
        if str_eq(child.tag.as_str(), "script") {
            let ghost pre = r.deep_view();
            match Script::parse(child) {
                Ok(s) => {
                    r.push(s);
                    proof {
                        assert(r.deep_view() =~= pre.push(s@));
                    }
                },
                Err(e) => {
                    proof {
                        lemma_scripts_err(node.children@, i as int + 1);
                    }
                    return Err(e);
                },
            }
        }
        i = i + 1;
    }
    proof {
        assert(node.children@.take(n as int) =~= node.children@);
    }
    Ok(r)
}

/// What one pass over a host node's children has gathered so far.
#[verifier::ext_equal]
pub struct HostAccV {
    pub addresses: Seq<AddressV>,
    pub scripts: Seq<ScriptV>,
    pub status: Option<HostStatusV>,
    pub host_names: Seq<HostnameV>,
    pub port_info: PortInfo,
}

/// The pass before it has seen any child.
pub open spec fn host_acc_init() -> HostAccV {
    HostAccV {
        addresses: Seq::<AddressV>::empty(),
        scripts: Seq::<ScriptV>::empty(),
        status: None,
        host_names: Seq::<HostnameV>::empty(),
        port_info: PortInfo {  },
    }
}

/// One child of the host node, dispatched by tag; unrecognized tags are
/// ignored, and a later `status` replaces an earlier one.
pub open spec fn spec_host_child(acc: HostAccV, c: XmlNode) -> Result<HostAccV, Error> {
    if c.tag@ == "address"@ {
        match spec_parse_address(c) {
            Ok(a) => Ok(HostAccV { addresses: acc.addresses.push(a), ..acc }),
            Err(e) => Err(e),
        }
    } else if c.tag@ == "status"@ {
        match spec_parse_status(c) {
            Ok(s) => Ok(HostAccV { status: Some(s), ..acc }),
            Err(e) => Err(e),
        }
    } else if c.tag@ == "hostnames"@ {
        match spec_parse_hostnames(c.children@) {
            Ok(hs) => Ok(HostAccV { host_names: hs, ..acc }),
            Err(e) => Err(e),
        }
    } else if c.tag@ == "hostscript"@ {
        match spec_parse_scripts(c.children@) {
            Ok(ss) => Ok(HostAccV { scripts: ss, ..acc }),
            Err(e) => Err(e),
        }
    } else if c.tag@ == "ports"@ {
        Ok(HostAccV { port_info: PortInfo {  }, ..acc })
    } else {
        Ok(acc)
    }
}

/// One pass over the children `cs`, in document order; any failure is the
/// leftmost one, and aborts the pass.
pub open spec fn spec_host_children(cs: Seq<XmlNode>) -> Result<HostAccV, Error>
    decreases cs.len(),
{
    if cs.len() == 0 {
        Ok(host_acc_init())
    } else {
        match spec_host_children(cs.drop_last()) {
            Err(e) => Err(e),
            Ok(acc) => spec_host_child(acc, cs.last()),
        }
    }
}

/// Once a prefix of the pass fails, the whole pass fails the same way.
pub proof fn lemma_host_children_err(cs: Seq<XmlNode>, j: int)
    requires
        0 <= j <= cs.len(),
        spec_host_children(cs.take(j)) is Err,
    ensures
        spec_host_children(cs) == spec_host_children(cs.take(j)),
    decreases cs.len() - j,
{
    if j == cs.len() {
        assert(cs.take(j) =~= cs);
    } else {
        assert(cs.take(j + 1).drop_last() =~= cs.take(j));
        lemma_host_children_err(cs, j + 1);
    }
}

/// An optional timestamp attribute value: absent, present and an integer,
/// or present and malformed.
pub open spec fn spec_time_of(v: Option<Seq<char>>) -> Result<Option<i64>, ()> {
    match v {
        None => Ok(None),
        Some(s) => match spec_parse_i64(s) {
            Some(x) => Ok(Some(x)),
            None => Err(()),
        },
    }
}

/// The abstract value of a `Host`.
#[verifier::ext_equal]
pub struct HostV {
    pub addresses: Seq<AddressV>,
    pub scripts: Seq<ScriptV>,
    pub status: HostStatusV,
    pub host_names: Seq<HostnameV>,
    pub port_info: PortInfo,
    pub scan_start_time: Option<i64>,
    pub scan_end_time: Option<i64>,
}

/// One scanned host: its addresses, reachability status, names, diagnostic
/// scripts, port records and optional scan times.
#[derive(Clone, Debug, PartialEq)]
pub struct Host {
    addresses: Vec<Address>,
    scripts: Vec<Script>,
    pub status: HostStatus,
    host_names: Vec<Hostname>,
    pub port_info: PortInfo,
    pub scan_start_time: Option<i64>,
    pub scan_end_time: Option<i64>,
}

impl View for Host {
    type V = HostV;

    closed spec fn view(&self) -> HostV {
        HostV {
            addresses: self.addresses.deep_view(),
            scripts: self.scripts.deep_view(),
            status: self.status@,
            host_names: self.host_names.deep_view(),
            port_info: self.port_info,
            scan_start_time: self.scan_start_time,
            scan_end_time: self.scan_end_time,
        }
    }
}

/// The host record of `n`: the two optional scan times read eagerly from
/// its own attributes, then one pass over its children, then the check
/// that a status record was found.
pub open spec fn spec_parse_host(n: XmlNode) -> Result<HostV, Error> {
    match spec_time_of(spec_attr(n, "starttime"@)) {
        Err(_) => Err(Error::InvalidStartTime),
        Ok(sst) => match spec_time_of(spec_attr(n, "endtime"@)) {
            Err(_) => Err(Error::InvalidEndTime),
            Ok(set) => match spec_host_children(n.children@) {
                Err(e) => Err(e),
                Ok(acc) => match acc.status {
                    None => Err(Error::MissingStatus),
                    Some(status) => Ok(
                        HostV {
                            addresses: acc.addresses,
                            scripts: acc.scripts,
                            status,
                            host_names: acc.host_names,
                            port_info: acc.port_info,
                            scan_start_time: sst,
                            scan_end_time: set,
                        },
                    ),
                },
            },
        },
    }
}

impl Host {
    /// Decodes one host node, exactly as `spec_parse_host` says.
    pub fn parse(node: &XmlNode) -> (r: Result<Host, Error>)
        ensures
            match r {
                Ok(h) => spec_parse_host(*node) == Ok::<HostV, Error>(h@),
                Err(e) => spec_parse_host(*node) == Err::<HostV, Error>(e),
            },
    {
        let scan_start_time: Option<i64> = match node.attribute("starttime") {
            None => None,
            Some(s) => match parse_i64(s.as_str()) {
                Some(x) => Some(x),
                None => {
                    return Err(Error::InvalidStartTime);
                },
            },
        };
        let scan_end_time: Option<i64> = match node.attribute("endtime") {
            None => None,
            Some(s) => match parse_i64(s.as_str()) {
                Some(x) => Some(x),
                None => {
                    return Err(Error::InvalidEndTime);
                },
            },
        };

        let mut addresses: Vec<Address> = Vec::new();
        let mut scripts: Vec<Script> = Vec::new();
        let mut status: Option<HostStatus> = None;
        let mut host_names: Vec<Hostname> = Vec::new();
        let mut port_info: PortInfo = PortInfo {  };

        let n = node.children.len();
        let mut i: usize = 0;
        proof {
            assert(node.children@.take(0) =~= Seq::<XmlNode>::empty());
            assert(HostAccV {
                addresses: addresses.deep_view(),
                scripts: scripts.deep_view(),
                status: status.deep_view(),
                host_names: host_names.deep_view(),
                port_info,
            } =~= host_acc_init());
        }
        while i < n
            invariant
                i <= n,
                n == node.children@.len(),
                spec_time_of(spec_attr(*node, "starttime"@)) == Ok::<Option<i64>, ()>(
                    scan_start_time,
                ),
                spec_time_of(spec_attr(*node, "endtime"@)) == Ok::<Option<i64>, ()>(scan_end_time),
                spec_host_children(node.children@.take(i as int)) == Ok::<HostAccV, Error>(
                    HostAccV {
                        addresses: addresses.deep_view(),
                        scripts: scripts.deep_view(),
                        status: status.deep_view(),
                        host_names: host_names.deep_view(),
                        port_info,
                    },
                ),
            decreases n - i,
        {
            proof {
                assert(node.children@.take(i as int + 1).drop_last() =~= node.children@.take(
                    i as int,
                ));
                assert(node.children@.take(i as int + 1).last() == node.children@[i as int]);
            }
            let ghost pre = HostAccV {
                addresses: addresses.deep_view(),
                scripts: scripts.deep_view(),
                status: status.deep_view(),
                host_names: host_names.deep_view(),
                port_info,
            };
            let child = &node.children[i];
            if str_eq(child.tag.as_str(), "address") {
                match parse_address_node(child) {
                    Ok(a) => {
                        let ghost pre_a = addresses.deep_view();
                        addresses.push(a);
                        proof {
                            assert(addresses.deep_view() =~= pre_a.push(a@));
                        }
                    },
                    Err(e) => {
                        proof {
                            lemma_host_children_err(node.children@, i as int + 1);
                        }
                        return Err(e);
                    },
                }
            } else if str_eq(child.tag.as_str(), "status") {
                match HostStatus::parse(child) {
                    Ok(s) => {
                        status = Some(s);
                    },
                    Err(e) => {
                        proof {
                            lemma_host_children_err(node.children@, i as int + 1);
                        }
                        return Err(e);
                    },
                }
            } else if str_eq(child.tag.as_str(), "hostnames") {
                match parse_hostnames_node(child) {
                    Ok(hs) => {
                        host_names = hs;
                    },
                    Err(e) => {
                        proof {
                            lemma_host_children_err(node.children@, i as int + 1);
                        }
                        return Err(e);
                    },
                }
            } else if str_eq(child.tag.as_str(), "hostscript") {
                match parse_hostscript_node(child) {
                    Ok(ss) => {
                        scripts = ss;
                    },
                    Err(e) => {
                        proof {
                            lemma_host_children_err(node.children@, i as int + 1);
                        }
                        return Err(e);
                    },
                }
            } else if str_eq(child.tag.as_str(), "ports") {
                match PortInfo::parse(child) {
                    Ok(p) => {
                        port_info = p;
                    },
                    Err(e) => {
                        proof {
                            lemma_host_children_err(node.children@, i as int + 1);
                        }
                        return Err(e);
                    },
                }
            }
            proof {
                assert(HostAccV {
                    addresses: addresses.deep_view(),
                    scripts: scripts.deep_view(),
                    status: status.deep_view(),
                    host_names: host_names.deep_view(),
                    port_info,
                } =~= spec_host_child(pre, node.children@[i as int]) ->Ok_0);
            }
            i = i + 1;
        }
        proof {
            assert(node.children@.take(n as int) =~= node.children@);
        }

        let status = match status {
            Some(s) => s,
            None => {
                return Err(Error::MissingStatus);
            },
        };
        let h = Host {
            addresses,
            scripts,
            status,
            host_names,
            port_info,
            scan_start_time,
            scan_end_time,
        };
        proof {
            assert(spec_parse_host(*node) == Ok::<HostV, Error>(h@));
        }
        Ok(h)
    }

    /// The addresses associated with this host, in document order.
    pub fn addresses(&self) -> (r: &Vec<Address>)
        ensures
            r.deep_view() == self@.addresses,
    {
        &self.addresses
    }

    /// The diagnostic scripts associated with this host, in document order.
    pub fn scripts(&self) -> (r: &Vec<Script>)
        ensures
            r.deep_view() == self@.scripts,
    {
        &self.scripts
    }

    /// The names associated with this host, in document order.
    pub fn host_names(&self) -> (r: &Vec<Hostname>)
        ensures
            r.deep_view() == self@.host_names,
    {
        &self.host_names
    }
}

} // verus!
