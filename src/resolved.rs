//! The resolver daemon backend: the checks that `/etc/resolv.conf` is under the
//! daemon's management, the payloads sent to a link, the handling of a failed
//! revert, and the decoding of DNS change notifications. The bus calls and file
//! reads themselves are made by the caller, which hands their outcomes in here.
use crate::ip::{
    holds_addr, ip_from_bytes, ip_to_bytes, ip_version, is_loopback, sorted_unique,
    spec_is_loopback, strictly_sorted, valid_octets, family_of, is_ipv4, rank, IpAddr,
};
use vstd::prelude::*;

verus! {

pub const RESOLV_CONF_PATH: &'static str = "/etc/resolv.conf";

/// The daemon's static resolv.conf, which points at its local stub listener.
pub const STATIC_STUB_PATH: &'static str = "/usr/lib/systemd/resolv.conf";

pub const RESOLVED_BUS: &'static str = "org.freedesktop.resolve1";

pub const RESOLVED_MANAGER_PATH: &'static str = "/org/freedesktop/resolve1";

/// Timeout of every bus call, in milliseconds.
pub const RPC_TIMEOUT_MS: u64 = 1000;

pub const LINK_INTERFACE: &'static str = "org.freedesktop.resolve1.Link";

pub const MANAGER_INTERFACE: &'static str = "org.freedesktop.resolve1.Manager";

pub const DNS_SERVERS: &'static str = "DNS";

pub const GET_LINK_METHOD: &'static str = "GetLink";

pub const SET_DNS_METHOD: &'static str = "SetDNS";

pub const SET_DOMAINS_METHOD: &'static str = "SetDomains";

pub const REVERT_METHOD: &'static str = "Revert";

/// The bus error name that says the object called no longer exists.
pub const UNKNOWN_OBJECT_ERROR: &'static str = "org.freedesktop.DBus.Error.UnknownObject";

/// The root domain, set as routing domain to make a link the catch-all resolver.
pub const CATCH_ALL_DOMAIN: &'static str = ".";

/// The daemon's stub resolv.conf files, in the order they are checked.
pub open spec fn stub_paths() -> Seq<Seq<char>> {
    seq![
        "/run/systemd/resolve/stub-resolv.conf"@,
        "/run/systemd/resolve/resolv.conf"@,
        "/var/run/systemd/resolve/stub-resolv.conf"@,
        "/var/run/systemd/resolve/resolv.conf"@,
    ]
}

/// The paths of [`stub_paths`], for the caller to read.
pub fn resolved_stub_paths() -> (r: Vec<String>)
    ensures
        r@.len() == stub_paths().len(),
        forall|i: int| 0 <= i < r@.len() ==> (#[trigger] r@[i])@ == stub_paths()[i],
{
    let r = vec![
        String::from_str("/run/systemd/resolve/stub-resolv.conf"),
        String::from_str("/run/systemd/resolve/resolv.conf"),
        String::from_str("/var/run/systemd/resolve/stub-resolv.conf"),
        String::from_str("/var/run/systemd/resolve/resolv.conf"),
    ];
    proof {
        reveal_strlit("/run/systemd/resolve/stub-resolv.conf");
        reveal_strlit("/run/systemd/resolve/resolv.conf");
        reveal_strlit("/var/run/systemd/resolve/stub-resolv.conf");
        reveal_strlit("/var/run/systemd/resolve/resolv.conf");
    }
    r
}

/// An error reported by the bus: its name and its message, where it has them.
#[derive(Clone, Debug, PartialEq, Eq)]
pub struct BusError {
    pub name: Option<String>,
    pub message: Option<String>,
}

/// What can go wrong while managing DNS through the resolver daemon.
#[derive(Debug, PartialEq, Eq)]
pub enum Error {
    /// No connection to the bus could be made.
    ConnectDBus(BusError),
    /// `/etc/resolv.conf` could not be read; the reason is given.
    ReadResolvConfError(String),
    /// `/etc/resolv.conf` differs from every stub file of the daemon.
    ResolvConfDiffers,
    /// `/etc/resolv.conf` does not lead to the daemon's stub.
    NotSymlinkedToResolvConf,
    /// The static stub file names no loopback address.
    StaticStubNotPointingToLocalhost,
    /// The daemon did not answer on the bus.
    NoSystemdResolved(BusError),
    /// The daemon's link for the interface could not be found.
    GetLinkError(Box<Error>),
    /// The catch-all routing domain could not be set on the link.
    SetDomainsError(BusError),
    /// The link's DNS settings could not be reverted.
    RevertDnsError(String, BusError),
    /// A bus call failed.
    DBusRpcError(BusError),
    /// The subscription to DNS changes could not be added.
    DnsUpdateMatchError(BusError),
    /// The subscription to DNS changes could not be removed.
    DnsUpdateRemoveMatchError(BusError),
}


/// What reading the target of `/etc/resolv.conf` as a symbolic link gave.
#[derive(Clone, Debug, PartialEq, Eq)]
pub enum LinkRead {
    /// It is a symbolic link to this path.
    Target(String),
    /// It exists but is not a symbolic link.
    NotASymlink,
    /// It could not be read.
    Failed,
}

/// The next step of the check that `/etc/resolv.conf` is under the daemon's
/// management.
#[derive(Debug, PartialEq, Eq)]
pub enum PreflightStep {
    /// Resolve this absolute path to its canonical form, then go on with
    /// [`after_canonicalize`].
    Canonicalize(String),
    /// Read the static stub file, parse its tokens with [`stub_tokens`], then go
    /// on with [`after_static_stub`].
    ReadStaticStub,
    /// Read `/etc/resolv.conf` and the stub files of [`resolved_stub_paths`], then
    /// finish with [`after_contents`].
    CompareContents { via_symlink: bool },
    /// The check is over, with this outcome.
    Done(Result<(), Error>),
}

/// An absolute path starts at the root.
pub open spec fn is_absolute(p: Seq<char>) -> bool {
    p.len() > 0 && p[0] == '/'
}

/// Whether `p` is one of the daemon's stub resolv.conf paths.
pub fn is_stub_path(p: &str) -> (r: bool)
    ensures
        r == stub_paths().contains(p@),
{
    let paths = resolved_stub_paths();
    let target = p.to_owned();
    let mut i: usize = 0;
    while i < paths.len()
        invariant
            i <= paths@.len() == stub_paths().len(),
            target@ == p@,
            forall|k: int| 0 <= k < paths@.len() ==> (#[trigger] paths@[k])@ == stub_paths()[k],
            forall|k: int| 0 <= k < i ==> stub_paths()[k] != p@,
        decreases paths@.len() - i,
    {
        if paths[i] == target {
            assert(stub_paths()[i as int] == p@);
            return true;
        }
        i = i + 1;
    }
    false
}

/// `r` is the step that follows the reading `link` of `/etc/resolv.conf`.
pub open spec fn read_link_step(link: LinkRead, r: PreflightStep) -> bool {
    match link {
        LinkRead::Target(p) => if !is_absolute(p@) {
            r matches PreflightStep::Canonicalize(c) && c@ == "/etc/"@ + p@
        } else if stub_paths().contains(p@) {
            r == PreflightStep::Done(Ok(()))
        } else if p@ == STATIC_STUB_PATH@ {
            r == PreflightStep::ReadStaticStub
        } else {
            r == (PreflightStep::CompareContents { via_symlink: true })
        },
        LinkRead::NotASymlink => r == (PreflightStep::CompareContents { via_symlink: false }),
        LinkRead::Failed => r == PreflightStep::Done(Err(Error::NotSymlinkedToResolvConf)),
    }
}

/// A link straight to the daemon's first stub file is accepted at once: the
/// step that follows is the end of the check, with success, and no file is read.
pub proof fn lemma_stub_link_accepted(p: String, r: PreflightStep)
    requires
        p@ == "/run/systemd/resolve/stub-resolv.conf"@,
        read_link_step(LinkRead::Target(p), r),
    ensures
        r == PreflightStep::Done(Ok(())),
{
    reveal_strlit("/run/systemd/resolve/stub-resolv.conf");
    assert(stub_paths()[0] == p@);
}

/// The step that follows reading the target of `/etc/resolv.conf`.
///
/// A relative target is resolved against `/etc/` first. An absolute target that
/// is a stub path is accepted at once, without reading any file; the static stub
/// path asks for its contents; any other target, and a file that is no symbolic
/// link, fall back to comparing contents. A link that cannot be read is refused.
pub fn after_read_link(link: LinkRead) -> (r: PreflightStep)
    ensures
        read_link_step(link, r),
{
    match link {
        LinkRead::Target(p) => {
            let absolute = p.unicode_len() > 0 && p.as_str().get_char(0) == '/';
            if !absolute {
                let mut c = String::from_str("/etc/");
                c.append(p.as_str());
                proof {
                    reveal_strlit("/etc/");
                }
                PreflightStep::Canonicalize(c)
            } else if is_stub_path(p.as_str()) {
                PreflightStep::Done(Ok(()))
            } else {
                let static_stub = String::from_str(STATIC_STUB_PATH);
                if p == static_stub {
                    PreflightStep::ReadStaticStub
                } else {
                    PreflightStep::CompareContents { via_symlink: true }
                }
            }
        },
        LinkRead::NotASymlink => PreflightStep::CompareContents { via_symlink: false },
        LinkRead::Failed => PreflightStep::Done(Err(Error::NotSymlinkedToResolvConf)),
    }
}

/// The step that follows resolving a relative link target; `canonical` is the
/// resolved path, or `None` where it could not be resolved. A relative target is
/// never the static stub path, so what is not a stub path falls back to
/// comparing contents.
pub fn after_canonicalize(canonical: Option<String>) -> (r: PreflightStep)
    ensures
        r == if canonical matches Some(c) && stub_paths().contains(c@) {
            PreflightStep::Done(Ok(()))
        } else {
            PreflightStep::CompareContents { via_symlink: true }
        },
{
    match canonical {
        Some(c) => if is_stub_path(c.as_str()) {
            PreflightStep::Done(Ok(()))
        } else {
            PreflightStep::CompareContents { via_symlink: true }
        },
        None => PreflightStep::CompareContents { via_symlink: true },
    }
}

/// Characters that separate the tokens of a resolver configuration file.
pub open spec fn is_space(c: char) -> bool {
    c == ' ' || c == '\t' || c == '\n' || c == '\r' || c == '\x0B' || c == '\x0C'
}

/// The tokens completed so far while reading `s`, and the one still open.
pub open spec fn split_state(s: Seq<char>) -> (Seq<Seq<char>>, Seq<char>)
    decreases s.len(),
{
    if s.len() == 0 {
        (seq![], seq![])
    } else {
        let (ts, cur) = split_state(s.drop_last());
        if is_space(s.last()) {
            if cur.len() > 0 {
                (ts.push(cur), seq![])
            } else {
                (ts, seq![])
            }
        } else {
            (ts, cur.push(s.last()))
        }
    }
}

/// The maximal runs of non-separator characters of `s`, in order.
pub open spec fn tokens(s: Seq<char>) -> Seq<Seq<char>> {
    let (ts, cur) = split_state(s);
    if cur.len() > 0 {
        ts.push(cur)
    } else {
        ts
    }
}

pub open spec fn texts_of(v: Seq<String>) -> Seq<Seq<char>> {
    v.map_values(|t: String| t@)
}

/// The whitespace-separated tokens of the static stub file's contents, for the
/// caller to parse as addresses.
pub fn stub_tokens(contents: &str) -> (r: Vec<String>)
    ensures
        texts_of(r@) == tokens(contents@),
{
    let n = contents.unicode_len();
    let mut toks: Vec<String> = Vec::new();
    let mut start: usize = 0;
    let mut i: usize = 0;
    while i < n
        invariant
            n == contents@.len(),
            start <= i <= n,
            split_state(contents@.take(i as int)).0 == texts_of(toks@),
            split_state(contents@.take(i as int)).1 == contents@.subrange(start as int, i as int),
        decreases n - i,
    {
        let c = contents.get_char(i);
        proof {
            assert(contents@.take(i + 1).drop_last() =~= contents@.take(i as int));
            assert(contents@.take(i + 1).last() == c);
            assert(contents@.subrange(start as int, i + 1) =~= contents@.subrange(
                start as int,
                i as int,
            ).push(c));
        }
        if c == ' ' || c == '\t' || c == '\n' || c == '\r' || c == '\x0B' || c == '\x0C' {
            if start < i {
                let t = contents.substring_char(start, i).to_owned();
                let ghost before = toks@;
                toks.push(t);
                assert(texts_of(toks@) =~= texts_of(before).push(t@));
            }
            start = i + 1;
            assert(contents@.subrange(start as int, i + 1) =~= Seq::<char>::empty());
        }
        i = i + 1;
    }
    assert(contents@.take(n as int) =~= contents@);
    if start < n {
        let t = contents.substring_char(start, n).to_owned();
        let ghost before = toks@;
        toks.push(t);
        assert(texts_of(toks@) =~= texts_of(before).push(t@));
    }
    toks
}

/// Some token parsed as a loopback address.
pub open spec fn spec_points_to_localhost(parsed: Seq<Option<IpAddr>>) -> bool {
    exists|i: int| 0 <= i < parsed.len() && (#[trigger] parsed[i] matches Some(a) && spec_is_loopback(a))
}

/// Whether some token of the static stub file parsed as a loopback address;
/// `parsed` holds each token's parse, `None` for a token that is no address.
pub fn points_to_localhost(parsed: &[Option<IpAddr>]) -> (r: bool)
    ensures
        r == spec_points_to_localhost(parsed@),
{
    let mut i: usize = 0;
    while i < parsed.len()
        invariant
            i <= parsed@.len(),
            forall|k: int| 0 <= k < i ==> !(#[trigger] parsed@[k] matches Some(a) && spec_is_loopback(a)),
        decreases parsed@.len() - i,
    {
        if let Some(a) = &parsed[i] {
            if is_loopback(a) {
                return true;
            }
        }
        i = i + 1;
    }
    false
}

/// The outcome after reading the static stub file: `parsed` holds the parse of
/// each of its tokens, or is `None` where the file could not be read. The file is
/// trusted only where it names a loopback address.
pub fn after_static_stub(parsed: Option<Vec<Option<IpAddr>>>) -> (r: PreflightStep)
    ensures
        r == if parsed matches Some(v) && spec_points_to_localhost(v@) {
            PreflightStep::Done(Ok(()))
        } else {
            PreflightStep::Done(Err(Error::StaticStubNotPointingToLocalhost))
        },
{
    match parsed {
        Some(v) => if points_to_localhost(v.as_slice()) {
            PreflightStep::Done(Ok(()))
        } else {
            PreflightStep::Done(Err(Error::StaticStubNotPointingToLocalhost))
        },
        None => PreflightStep::Done(Err(Error::StaticStubNotPointingToLocalhost)),
    }
}

/// Some readable stub file has exactly the contents `c`.
pub open spec fn matches_a_stub(c: Seq<char>, stubs: Seq<Option<String>>) -> bool {
    exists|i: int| 0 <= i < stubs.len() && (#[trigger] stubs[i] matches Some(s) && s@ == c)
}

pub open spec fn contents_outcome(
    via_symlink: bool,
    resolv_conf: Result<String, String>,
    stubs: Seq<Option<String>>,
) -> Result<(), Error> {
    match resolv_conf {
        Ok(c) => if matches_a_stub(c@, stubs) {
            Ok(())
        } else if via_symlink {
            Err(Error::NotSymlinkedToResolvConf)
        } else {
            Err(Error::ResolvConfDiffers)
        },
        Err(m) => if via_symlink {
            Err(Error::NotSymlinkedToResolvConf)
        } else {
            Err(Error::ReadResolvConfError(m))
        },
    }
}

/// The outcome of comparing `/etc/resolv.conf` with the stub files.
///
/// `resolv_conf` is its contents or the reason it could not be read; `stubs`
/// holds the contents of each stub file, `None` for one that could not be read.
/// Equal contents are accepted. Otherwise the check fails: after a symbolic link
/// with `NotSymlinkedToResolvConf`, else with the read error or
/// `ResolvConfDiffers`.
pub fn after_contents(
    via_symlink: bool,
    resolv_conf: Result<String, String>,
    stubs: &[Option<String>],
) -> (r: Result<(), Error>)
    ensures
        r == contents_outcome(via_symlink, resolv_conf, stubs@),
{
    if let Ok(c) = &resolv_conf {
        let mut i: usize = 0;
        while i < stubs.len()
            invariant
                i <= stubs@.len(),
                resolv_conf == Ok::<String, String>(*c),
                forall|k: int| 0 <= k < i ==> !(#[trigger] stubs@[k] matches Some(s) && s@ == c@),
            decreases stubs@.len() - i,
        {
            if let Some(s) = &stubs[i] {
                if *s == *c {
                    assert(stubs@[i as int] matches Some(s) && s@ == c@);
                    return Ok(());
                }
            }
            i = i + 1;
        }
    }
    if via_symlink {
        Err(Error::NotSymlinkedToResolvConf)
    } else {
        match resolv_conf {
            Err(m) => Err(Error::ReadResolvConfError(m)),
            Ok(_) => Err(Error::ResolvConfDiffers),
        }
    }
}


/// What the daemon was given for one link by a successful DNS change, kept so
/// that the change can be reverted.
#[derive(Debug)]
pub struct DnsState {
    /// The daemon's object path of the link; stale once the interface is gone.
    pub interface_path: String,
    pub interface_index: u32,
    /// The servers that were set, sorted and without duplicates.
    pub set_servers: Vec<IpAddr>,
}

/// Every address of `b` has the octets of some address of `a`.
pub open spec fn covers(a: Seq<IpAddr>, b: Seq<IpAddr>) -> bool {
    forall|i: int| 0 <= i < b.len() ==> holds_addr(a, #[trigger] b[i]@)
}

impl DnsState {
    /// The state after `servers` were set on the link at `interface_path`.
    pub fn new(interface_path: String, interface_index: u32, servers: &[IpAddr]) -> (r: DnsState)
        ensures
            r.interface_path == interface_path,
            r.interface_index == interface_index,
            strictly_sorted(r.set_servers@),
            covers(r.set_servers@, servers@),
            covers(servers@, r.set_servers@),
    {
        let set_servers = sorted_unique(servers);
        proof {
            assert forall|i: int| 0 <= i < set_servers@.len() implies holds_addr(
                servers@,
                #[trigger] set_servers@[i]@,
            ) by {
                let q = choose|q: int| 0 <= q < servers@.len() && servers@[q] == set_servers@[i];
                assert(servers@[q]@ == set_servers@[i]@);
            }
        }
        DnsState { interface_path, interface_index, set_servers }
    }
}

/// `payload` holds, for each server in the order given, its address family and
/// its raw octets.
pub open spec fn payload_encodes(servers: Seq<IpAddr>, payload: Seq<(i32, Vec<u8>)>) -> bool {
    &&& payload.len() == servers.len()
    &&& forall|i: int|
        0 <= i < servers.len() ==> (#[trigger] payload[i]).0 == family_of(servers[i])
            && payload[i].1@ == servers[i]@
}

/// Setting DNS on a link keeps two lists: the payload sent follows the order of
/// the servers given, with four octets for each IPv4 address and sixteen for
/// each IPv6 address, while the list kept in the state is sorted.
pub proof fn lemma_set_dns_lists(servers: Seq<IpAddr>, payload: Seq<(i32, Vec<u8>)>, state: DnsState)
    requires
        payload_encodes(servers, payload),
        strictly_sorted(state.set_servers@),
    ensures
        payload.len() == servers.len(),
        forall|i: int|
            0 <= i < servers.len() ==> (#[trigger] payload[i]).1@ == servers[i]@ && payload[i].1@.len()
                == if is_ipv4(servers[i]) { 4nat } else { 16nat },
        forall|i: int, j: int|
            0 <= i < j < state.set_servers@.len() ==> rank(state.set_servers@[i]@) < rank(
                state.set_servers@[j]@,
            ),
{
    assert forall|i: int| 0 <= i < servers.len() implies (#[trigger] payload[i]).1@ == servers[i]@
        && payload[i].1@.len() == if is_ipv4(servers[i]) { 4nat } else { 16nat } by {
        match servers[i] {
            IpAddr::V4(o) => assert(o@.len() == 4),
            IpAddr::V6(o) => assert(o@.len() == 16),
        }
    }
}

/// The arguments of the link's "set DNS" call: for each server, in the order
/// given, its address family and its raw octets.
pub fn link_dns_payload(servers: &[IpAddr]) -> (r: Vec<(i32, Vec<u8>)>)
    ensures
        payload_encodes(servers@, r@),
{
    let mut r: Vec<(i32, Vec<u8>)> = Vec::new();
    let mut i: usize = 0;
    while i < servers.len()
        invariant
            i <= servers@.len(),
            r@.len() == i,
            forall|k: int|
                0 <= k < i ==> (#[trigger] r@[k]).0 == family_of(servers@[k]) && r@[k].1@
                    == servers@[k]@,
        decreases servers@.len() - i,
    {
        let a = &servers[i];
        r.push((ip_version(a), ip_to_bytes(a)));
        i = i + 1;
    }
    r
}

/// The arguments of the link's "set domains" call: the root domain alone, as a
/// routing domain, so that the link answers every query.
pub fn catch_all_domains() -> (r: Vec<(String, bool)>)
    ensures
        r@.len() == 1,
        r@[0].0@ == CATCH_ALL_DOMAIN@,
        r@[0].1,
{
    vec![(String::from_str(CATCH_ALL_DOMAIN), true)]
}

/// The error names a link that no longer exists.
pub open spec fn is_unknown_object(e: BusError) -> bool {
    e.name matches Some(n) && n@ == UNKNOWN_OBJECT_ERROR@
}

/// The outcome of reverting a link, given the outcome of the "revert" call: a
/// link that no longer exists needs no revert, and every other error is passed
/// on unchanged.
pub fn revert_outcome(result: Result<(), BusError>) -> (r: Result<(), BusError>)
    ensures
        r == match result {
            Ok(()) => Ok(()),
            Err(e) => if is_unknown_object(e) {
                Ok(())
            } else {
                Err(e)
            },
        },
{
    match result {
        Ok(()) => Ok(()),
        Err(e) => {
            let unknown = match &e.name {
                Some(n) => *n == String::from_str(UNKNOWN_OBJECT_ERROR),
                None => false,
            };
            if unknown {
                Ok(())
            } else {
                Err(e)
            }
        },
    }
}

/// One entry of a DNS change notification as the bus delivered it: each field is
/// `None` where it did not have the expected type.
#[derive(Clone, Debug, PartialEq, Eq)]
pub struct DnsServerFields {
    pub iface_index: Option<i32>,
    pub address_family: Option<i32>,
    pub address: Option<Vec<u8>>,
}

/// A DNS server of the daemon's list, for one interface.
#[derive(Clone, Copy, Debug, PartialEq, Eq)]
pub struct DnsServer {
    pub iface_index: i32,
    pub address_family: i32,
    pub address: IpAddr,
}

/// An entry is well formed when it has all three fields and its address has
/// four or sixteen octets.
pub open spec fn well_formed(e: DnsServerFields) -> bool {
    &&& e.iface_index is Some
    &&& e.address_family is Some
    &&& e.address matches Some(b) && valid_octets(b@)
}

pub open spec fn decodes_to(e: DnsServerFields, d: DnsServer) -> bool {
    &&& e.iface_index == Some(d.iface_index)
    &&& e.address_family == Some(d.address_family)
    &&& e.address matches Some(b) && b@ == d.address@
}

/// `out` is `entries` with the malformed ones dropped and each other one
/// decoded, in the same order.
pub open spec fn decoded_list(entries: Seq<DnsServerFields>, out: Seq<DnsServer>) -> bool
    decreases entries.len(),
{
    if entries.len() == 0 {
        out.len() == 0
    } else if well_formed(entries.last()) {
        out.len() > 0 && decodes_to(entries.last(), out.last()) && decoded_list(
            entries.drop_last(),
            out.drop_last(),
        )
    } else {
        decoded_list(entries.drop_last(), out)
    }
}

impl DnsServer {
    /// Decodes one entry of a notification, or `None` where it is malformed.
    pub fn from_fields(e: &DnsServerFields) -> (r: Option<DnsServer>)
        ensures
            r is Some <==> well_formed(*e),
            r matches Some(d) ==> decodes_to(*e, d),
    {
        match (e.iface_index, e.address_family, &e.address) {
            (Some(iface_index), Some(address_family), Some(bytes)) => {
                match ip_from_bytes(bytes.as_slice()) {
                    Some(address) => Some(DnsServer { iface_index, address_family, address }),
                    None => None,
                }
            },
            _ => None,
        }
    }

    /// Decodes the entries of a notification, dropping the malformed ones.
    pub fn server_list_from_fields(entries: &[DnsServerFields]) -> (r: Vec<DnsServer>)
        ensures
            decoded_list(entries@, r@),
    {
        let mut r: Vec<DnsServer> = Vec::new();
        let mut i: usize = 0;
        while i < entries.len()
            invariant
                i <= entries@.len(),
                decoded_list(entries@.take(i as int), r@),
            decreases entries@.len() - i,
        {
            let ghost before = r@;
            let decoded = DnsServer::from_fields(&entries[i]);
            if let Some(d) = decoded {
                r.push(d);
                assert(r@.drop_last() =~= before);
            }
            assert(entries@.take(i + 1).drop_last() =~= entries@.take(i as int));
            i = i + 1;
        }
        assert(entries@.take(i as int) =~= entries@);
        r
    }
}

} // verus!
