//! The registry backend: which name-server entries an interface's IPv4 and IPv6
//! parameter keys get, how the outcome of each registry operation decides the
//! transaction, and the one interface that is currently configured. The caller
//! opens the transaction and performs the operations that this module plans.
use crate::ip::{is_ipv4, IpAddr};
use vstd::prelude::*;

verus! {

/// The service whose parameters configure IPv4.
pub const IPV4_SERVICE: &'static str = "Tcpip";

/// The service whose parameters configure IPv6.
pub const IPV6_SERVICE: &'static str = "Tcpip6";

/// The value that holds an interface's DNS servers.
pub const NAME_SERVER_VALUE: &'static str = "NameServer";

/// The value that enables multicast name resolution on an interface.
pub const ENABLE_MULTICAST_VALUE: &'static str = "EnableMulticast";

/// A network interface's globally unique identifier.
#[derive(Clone, Copy, Debug, PartialEq, Eq)]
pub struct Guid {
    pub data1: u32,
    pub data2: u16,
    pub data3: u16,
    pub data4: [u8; 8],
}

/// What can go wrong while configuring DNS through the registry.
#[derive(Clone, Debug, PartialEq, Eq)]
pub enum Error {
    /// No interface has the alias; the reason is given.
    InterfaceLuidError(String),
    /// The interface's identifier could not be found; the reason is given.
    InterfaceGuidError(String),
    /// The cache flush tool could not be run; the reason is given.
    ExecuteIpconfigError(String),
    /// The resolver cache could not be flushed.
    FlushResolverCacheError,
    /// The interface's DNS servers could not be updated; the reason is given.
    SetResolversError(String),
    /// The system directory could not be found; the reason is given.
    SystemDirError(String),
}

/// What to do with the name-server value of one parameter key.
#[derive(Clone, Debug, PartialEq, Eq)]
pub enum NameServerUpdate {
    /// Store this comma-separated list of servers.
    Write(String),
    /// Delete the value; an absent value is fine.
    Clear,
}

/// The updates of an interface's IPv4 and IPv6 parameter keys.
#[derive(Clone, Debug, PartialEq, Eq)]
pub struct DnsUpdate {
    pub ipv4: NameServerUpdate,
    pub ipv6: NameServerUpdate,
}

/// The texts of the servers of one family (IPv4 where `v4`), in the order given.
/// Each server comes with its text form.
pub open spec fn family_texts(servers: Seq<(IpAddr, String)>, v4: bool) -> Seq<Seq<char>>
    decreases servers.len(),
{
    if servers.len() == 0 {
        seq![]
    } else {
        let rest = family_texts(servers.drop_last(), v4);
        if is_ipv4(servers.last().0) == v4 {
            rest.push(servers.last().1@)
        } else {
            rest
        }
    }
}

/// The parts joined with commas.
pub open spec fn join(parts: Seq<Seq<char>>) -> Seq<char>
    decreases parts.len(),
{
    if parts.len() == 0 {
        seq![]
    } else if parts.len() == 1 {
        parts[0]
    } else {
        join(parts.drop_last()) + seq![','] + parts.last()
    }
}

/// The update that stores `texts`: their list where there are any, else a clear.
pub open spec fn update_stores(u: NameServerUpdate, texts: Seq<Seq<char>>) -> bool {
    if texts.len() == 0 {
        u == NameServerUpdate::Clear
    } else {
        u matches NameServerUpdate::Write(s) && s@ == join(texts)
    }
}

/// The name-server value after an update that found `before`.
pub open spec fn entry_after(u: NameServerUpdate, before: Option<Seq<char>>) -> Option<
    Seq<char>,
> {
    match u {
        NameServerUpdate::Write(s) => Some(s@),
        NameServerUpdate::Clear => None,
    }
}

/// The update of one family's key: the servers of that family, comma-joined in
/// the order given, or a clear where there are none.
pub fn nameserver_update(servers: &[(IpAddr, String)], v4: bool) -> (r: NameServerUpdate)
    ensures
        update_stores(r, family_texts(servers@, v4)),
{
    let mut joined = String::new();
    let mut any = false;
    let mut i: usize = 0;
    while i < servers.len()
        invariant
            i <= servers@.len(),
            any == (family_texts(servers@.take(i as int), v4).len() > 0),
            joined@ == join(family_texts(servers@.take(i as int), v4)),
        decreases servers@.len() - i,
    {
        proof {
            assert(servers@.take(i + 1).drop_last() =~= servers@.take(i as int));
            assert(servers@.take(i + 1).last() == servers@[i as int]);
        }
        let (a, text) = &servers[i];
        let is_v4 = match a {
            IpAddr::V4(_) => true,
            IpAddr::V6(_) => false,
        };
        let ghost rest = family_texts(servers@.take(i as int), v4);
        if is_v4 == v4 {
            assert(family_texts(servers@.take(i + 1), v4) == rest.push(text@));
            assert(rest.push(text@).drop_last() =~= rest);
            if any {
                joined.append(",");
                proof {
                    reveal_strlit(",");
                }
            } else {
                proof {
                    assert(joined@ =~= seq![]);
                }
            }
            joined.append(text.as_str());
            any = true;
            assert(joined@ == join(rest.push(text@)));
        }
        i = i + 1;
    }
    assert(servers@.take(i as int) =~= servers@);
    if any {
        NameServerUpdate::Write(joined)
    } else {
        NameServerUpdate::Clear
    }
}

/// The update of both keys for `servers`, each with its text form.
pub fn plan_dns_update(servers: &[(IpAddr, String)]) -> (r: DnsUpdate)
    ensures
        update_stores(r.ipv4, family_texts(servers@, true)),
        update_stores(r.ipv6, family_texts(servers@, false)),
{
    DnsUpdate { ipv4: nameserver_update(servers, true), ipv6: nameserver_update(servers, false) }
}


/// The parameter key of `service` for the interface whose identifier reads
/// `guid`, below the local machine's root.
pub open spec fn spec_registry_path(service: Seq<char>, guid: Seq<char>) -> Seq<char> {
    "SYSTEM\\CurrentControlSet\\Services\\"@ + service + "\\Parameters\\Interfaces\\"@ + guid
}

/// The parameter key of `service` for the interface whose identifier reads
/// `guid`.
pub fn registry_path(service: &str, guid: &str) -> (r: String)
    ensures
        r@ == spec_registry_path(service@, guid@),
{
    let mut r = String::from_str("SYSTEM\\CurrentControlSet\\Services\\");
    r.append(service);
    r.append("\\Parameters\\Interfaces\\");
    r.append(guid);
    proof {
        reveal_strlit("SYSTEM\\CurrentControlSet\\Services\\");
        reveal_strlit("\\Parameters\\Interfaces\\");
    }
    r
}

/// The outcome of one registry operation.
#[derive(Clone, Copy, Debug, PartialEq, Eq)]
pub enum RegOutcome {
    Done,
    NotFound,
    Failed,
}

/// What to do once the opening of a parameter key has an outcome.
#[derive(Clone, Copy, Debug, PartialEq, Eq)]
pub enum KeyStep {
    /// Apply the update to the opened key.
    Apply,
    /// Nothing to do: the key is missing and there was nothing to clear.
    Skip,
    /// The update fails.
    Fail,
}

/// The step after opening a key: an opened key is updated; a missing key is
/// fine only where the update clears; any other failure fails.
pub fn open_key_step(u: &NameServerUpdate, open: RegOutcome) -> (r: KeyStep)
    ensures
        r == match open {
            RegOutcome::Done => KeyStep::Apply,
            RegOutcome::NotFound => if *u == NameServerUpdate::Clear {
                KeyStep::Skip
            } else {
                KeyStep::Fail
            },
            RegOutcome::Failed => KeyStep::Fail,
        },
{
    match open {
        RegOutcome::Done => KeyStep::Apply,
        RegOutcome::NotFound => match u {
            NameServerUpdate::Clear => KeyStep::Skip,
            NameServerUpdate::Write(_) => KeyStep::Fail,
        },
        RegOutcome::Failed => KeyStep::Fail,
    }
}

/// Whether writing or deleting the name-server value succeeded: a delete that
/// finds no value succeeds too.
pub fn update_succeeded(u: &NameServerUpdate, outcome: RegOutcome) -> (r: bool)
    ensures
        r == (outcome == RegOutcome::Done || (*u == NameServerUpdate::Clear && outcome
            == RegOutcome::NotFound)),
{
    match outcome {
        RegOutcome::Done => true,
        RegOutcome::NotFound => match u {
            NameServerUpdate::Clear => true,
            NameServerUpdate::Write(_) => false,
        },
        RegOutcome::Failed => false,
    }
}

/// Tracks the interface whose DNS servers were last set, so that they can be
/// cleared again. Calls must not overlap.
#[derive(Debug)]
pub struct DnsMonitor {
    current_guid: Option<Guid>,
}

/// `r` is what a reset returns while `current` is tracked: the tracked
/// interface with an update that clears both of its keys, or nothing.
pub open spec fn reset_returns(current: Option<Guid>, r: Option<(Guid, DnsUpdate)>) -> bool {
    match current {
        Some(g) => r matches Some((h, u)) && h == g && u.ipv4 == NameServerUpdate::Clear && u.ipv6
            == NameServerUpdate::Clear,
        None => r is None,
    }
}

impl View for DnsMonitor {
    type V = Option<Guid>;

    closed spec fn view(&self) -> Option<Guid> {
        self.current_guid
    }
}

impl DnsMonitor {
    /// A monitor that tracks no interface.
    pub fn new() -> (r: DnsMonitor)
        ensures
            r@ == None::<Guid>,
    {
        DnsMonitor { current_guid: None }
    }

    /// The interface currently configured, if any.
    pub fn current(&self) -> (r: Option<Guid>)
        ensures
            r == self@,
    {
        self.current_guid
    }

    /// The update that sets `servers`, each with its text form, on an interface.
    /// Once it was committed, [`DnsMonitor::configured`] records the interface.
    pub fn set(&self, servers: &[(IpAddr, String)]) -> (r: DnsUpdate)
        ensures
            update_stores(r.ipv4, family_texts(servers@, true)),
            update_stores(r.ipv6, family_texts(servers@, false)),
    {
        plan_dns_update(servers)
    }

    /// Records `guid` as the configured interface, replacing any earlier one.
    pub fn configured(&mut self, guid: Guid)
        ensures
            final(self)@ == Some(guid),
    {
        self.current_guid = Some(guid);
    }

    /// Stops tracking the configured interface and returns it with the update
    /// that clears both of its keys; `None` where no interface is tracked.
    pub fn reset(&mut self) -> (r: Option<(Guid, DnsUpdate)>)
        ensures
            final(self)@ == None::<Guid>,
            reset_returns(old(self)@, r),
    {
        match self.current_guid.take() {
            Some(guid) => {
                let u = plan_dns_update(&[]);
                proof {
                    assert(family_texts(Seq::<(IpAddr, String)>::empty(), true).len() == 0);
                    assert(family_texts(Seq::<(IpAddr, String)>::empty(), false).len() == 0);
                }
                Some((guid, u))
            },
            None => None,
        }
    }
}

/// For servers that are all IPv4, and at least one: the IPv4 key gets all their
/// texts comma-joined in the order given, and the IPv6 key's name-server value is
/// cleared, so an absent one stays absent.
pub proof fn lemma_ipv4_only_servers(servers: Seq<(IpAddr, String)>, u: DnsUpdate, before: Option<Seq<char>>)
    requires
        servers.len() > 0,
        forall|i: int| 0 <= i < servers.len() ==> is_ipv4(#[trigger] servers[i].0),
        update_stores(u.ipv4, family_texts(servers, true)),
        update_stores(u.ipv6, family_texts(servers, false)),
    ensures
        entry_after(u.ipv4, before) == Some(join(servers.map_values(|e: (IpAddr, String)| e.1@))),
        entry_after(u.ipv6, before) == None::<Seq<char>>,
        before is None ==> entry_after(u.ipv6, before) == before,
{
    lemma_all_of_family(servers);
}

proof fn lemma_all_of_family(servers: Seq<(IpAddr, String)>)
    requires
        forall|i: int| 0 <= i < servers.len() ==> is_ipv4(#[trigger] servers[i].0),
    ensures
        family_texts(servers, true) == servers.map_values(|e: (IpAddr, String)| e.1@),
        family_texts(servers, false).len() == 0,
    decreases servers.len(),
{
    if servers.len() > 0 {
        let d = servers.drop_last();
        assert forall|i: int| 0 <= i < d.len() implies is_ipv4(#[trigger] d[i].0) by {
            assert(d[i] == servers[i]);
        }
        lemma_all_of_family(d);
        assert(is_ipv4(servers[servers.len() - 1].0));
        assert(servers.map_values(|e: (IpAddr, String)| e.1@) =~= d.map_values(
            |e: (IpAddr, String)| e.1@,
        ).push(servers.last().1@));
    }
}

/// A reset after a set returns the interface that was set, and applying its
/// update leaves neither key with a name-server value, whatever they held; a
/// second reset, with nothing tracked any more, returns nothing to do.
pub proof fn lemma_reset_after_set(
    guid: Guid,
    first: Option<(Guid, DnsUpdate)>,
    second: Option<(Guid, DnsUpdate)>,
    before4: Option<Seq<char>>,
    before6: Option<Seq<char>>,
)
    requires
        reset_returns(Some(guid), first),
        reset_returns(None, second),
    ensures
        first matches Some((g, u)) && g == guid && entry_after(u.ipv4, before4) == None::<
            Seq<char>,
        > && entry_after(u.ipv6, before6) == None::<Seq<char>>,
        second is None,
{
}

} // verus!
