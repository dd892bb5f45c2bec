//! Network simulation support for the router.
//!
//! A router puts a local proxy between itself and each of its peers, and obeys commands that
//! cut, restore and delay the links to them.
use vstd::prelude::*;
use vstd::string::*;
use crate::keyed::{distinct, lemma_table_at, place, present, table};
use crate::netsim::types::LinkChecker;
use crate::netsim::zrpc_types::{NetsimCommand, NetsimResponse, PeerLinkInfo};
use crate::text::chars::{join, joined, same, text_view, views};
use crate::text::laws::{law_ascii_space, law_cut, law_lowered, law_parts, law_trimmed};
use crate::text::number::{decimal, to_decimal};
use crate::text::search::{
    cut, is_space, left_trimmed, lemma_first_at, lemma_first_at_unique, lemma_parts_concatenate,
    lowered, parts, right_trimmed, split, split_once, to_lower, trim, trimmed,
};
use crate::text_map::{entry_key, entry_value, map_of, TextMap};

verus! {

/// Parsed netsim peer entry: `env_name=host:port`.
#[derive(Debug)]
pub struct NetsimPeer {
    pub env_name: String,
    pub addr: String,
}

/// The model of a peer.
#[verifier::ext_equal]
pub struct PeerView {
    pub env_name: Seq<char>,
    pub addr: Seq<char>,
}

impl View for NetsimPeer {
    type V = PeerView;

    open spec fn view(&self) -> PeerView {
        PeerView { env_name: self.env_name@, addr: self.addr@ }
    }
}

/// The peer that an entry names: what stands before and after its first equals sign,
/// without the white space around them.
pub open spec fn peer_of(entry: Seq<char>) -> Option<PeerView> {
    match cut(trimmed(entry), '=') {
        Some(p) => Some(PeerView { env_name: trimmed(p.0), addr: trimmed(p.1) }),
        None => None,
    }
}

/// The peers that entries name, in order. An entry without an equals sign names none.
pub open spec fn peers_of(entries: Seq<Seq<char>>) -> Seq<PeerView>
    decreases entries.len(),
{
    if entries.len() == 0 {
        seq![]
    } else {
        match peer_of(entries.last()) {
            Some(p) => peers_of(entries.drop_last()).push(p),
            None => peers_of(entries.drop_last()),
        }
    }
}

/// Parse `OPRC_NETSIM_PEERS` value.
///
/// Format: `env1=host1:port1,env2=host2:port2,...`
pub fn parse_peers(raw: &str) -> (r: Vec<NetsimPeer>)
    ensures
        views(r@) == peers_of(parts(raw@, ',')),
{
    let entries: Vec<String> = split(raw, ',');
    let ghost all = views(entries@);
    let mut r: Vec<NetsimPeer> = Vec::new();
    let mut i: usize = 0;
    assert(all.take(0) =~= Seq::<Seq<char>>::empty());
    while i < entries.len()
        invariant
            i <= entries@.len(),
            all == views(entries@),
            views(r@) == peers_of(all.take(i as int)),
        decreases entries@.len() - i,
    {
        proof {
            assert(all.take(i + 1).drop_last() =~= all.take(i as int));
            assert(all.take(i + 1).last() == entries@[i as int]@);
        }
        let ghost before = r@;
        let entry: String = trim(entries[i].as_str());
        match split_once(entry.as_str(), '=') {
            Some((name, addr)) => {
                let peer = NetsimPeer { env_name: trim(name.as_str()), addr: trim(addr.as_str()) };
                r.push(peer);
                assert(views(r@) =~= views(before).push(peer@));
            },
            None => {},
        }
        i += 1;
    }
    assert(all.take(i as int) =~= all);
    r
}

/// The state of the link to a peer.
#[derive(Debug, Clone, Copy, PartialEq, Eq, Structural)]
pub struct PeerLink {
    pub connected: bool,
    pub latency_ms: u64,
}

/// The model of a router's simulation state: its environment and the link to each peer.
#[verifier::ext_equal]
pub struct RouterView {
    pub env_name: Seq<char>,
    pub links: Map<Seq<char>, PeerLink>,
}

/// Router-local netsim state keyed by peer env name.
#[derive(Debug)]
pub struct RouterNetsimState {
    env_name: String,
    links: TextMap<PeerLink>,
}

impl View for RouterNetsimState {
    type V = RouterView;

    closed spec fn view(&self) -> RouterView {
        RouterView { env_name: self.env_name@, links: self.links@ }
    }
}

/// Fresh links to the peers of a list.
pub open spec fn fresh_links(peers: Seq<PeerView>) -> Map<Seq<char>, PeerLink> {
    Map::new(
        |k: Seq<char>| exists|i: int| 0 <= i < peers.len() && (#[trigger] peers[i]).env_name == k,
        |k: Seq<char>| PeerLink { connected: true, latency_ms: 0 },
    )
}

impl RouterView {
    /// What a command does to the links. A command for a peer that is not known does nothing.
    pub open spec fn obey(self, command: NetsimCommand) -> RouterView {
        match command {
            NetsimCommand::Partition { peer } => if self.links.contains_key(peer@) {
                self.with_link(peer@, PeerLink { connected: false, ..self.links[peer@] })
            } else {
                self
            },
            NetsimCommand::Heal { peer } => if self.links.contains_key(peer@) {
                self.with_link(peer@, PeerLink { connected: true, latency_ms: 0 })
            } else {
                self
            },
            NetsimCommand::SetLatency { peer, latency_ms } => if self.links.contains_key(peer@) {
                self.with_link(peer@, PeerLink { latency_ms, ..self.links[peer@] })
            } else {
                self
            },
            NetsimCommand::GetStatus => self,
        }
    }

    /// The state with another link to a peer.
    pub open spec fn with_link(self, peer: Seq<char>, link: PeerLink) -> RouterView {
        RouterView { links: self.links.insert(peer, link), ..self }
    }

    /// Whether the link to a peer carries traffic.
    pub open spec fn active(self, peer: Seq<char>) -> bool {
        self.links.contains_key(peer) && self.links[peer].connected
    }

    /// The delay to a peer: that of its link while it is connected.
    pub open spec fn delay(self, peer: Seq<char>) -> u64 {
        if self.active(peer) {
            self.links[peer].latency_ms
        } else {
            0
        }
    }
}

/// The peer of a link report.
pub open spec fn info_peer() -> spec_fn(PeerLinkInfo) -> Seq<char> {
    |l: PeerLinkInfo| l.peer_env@
}

/// The link of a link report.
pub open spec fn info_link() -> spec_fn(PeerLinkInfo) -> PeerLink {
    |l: PeerLinkInfo| PeerLink { connected: l.connected, latency_ms: l.latency_ms }
}

/// Whether a list reports each link once, in any order.
pub open spec fn reports(infos: Seq<PeerLinkInfo>, links: Map<Seq<char>, PeerLink>) -> bool {
    &&& distinct(infos, info_peer())
    &&& table(infos, info_peer(), info_link()) == links
}

impl RouterNetsimState {
    /// Connects an environment to its peers.
    pub fn new(env_name: String, peers: &[NetsimPeer]) -> (r: Self)
        ensures
            r@ == (RouterView { env_name: env_name@, links: fresh_links(views(peers@)) }),
    {
        let ghost all = views(peers@);
        let mut links: TextMap<PeerLink> = TextMap::new();
        let mut i: usize = 0;
        assert(links@ =~= fresh_links(all.take(0)));
        while i < peers.len()
            invariant
                i <= peers@.len(),
                all == views(peers@),
                links@ == fresh_links(all.take(i as int)),
            decreases peers@.len() - i,
        {
            links.insert(
                peers[i].env_name.clone(),
                PeerLink { connected: true, latency_ms: 0 },
            );
            proof {
                let name = all[i as int].env_name;
                let before = all.take(i as int);
                let after = all.take(i + 1);
                assert(after[i as int].env_name == name);
                assert forall|k: Seq<char>| #[trigger]
                    fresh_links(after).contains_key(k) == (fresh_links(before).contains_key(k) || k
                        == name) by {
                    if fresh_links(before).contains_key(k) {
                        let j = choose|j: int|
                            0 <= j < before.len() && (#[trigger] before[j]).env_name == k;
                        assert(after[j].env_name == k);
                    }
                    if fresh_links(after).contains_key(k) && k != name {
                        let j = choose|j: int|
                            0 <= j < after.len() && (#[trigger] after[j]).env_name == k;
                        assert(before[j].env_name == k);
                    }
                }
                assert(links@ =~= fresh_links(after));
            }
            i += 1;
        }
        assert(all.take(i as int) =~= all);
        RouterNetsimState { env_name, links }
    }

    /// Sets the link to a peer.
    fn set(&mut self, peer: String, link: PeerLink)
        ensures
            final(self)@ == old(self)@.with_link(peer@, link),
    {
        self.links.insert(peer, link);
    }

    /// Obeys a command and reports the links that result.
    pub fn handle(&mut self, req: NetsimCommand) -> (r: Result<NetsimResponse, String>)
        ensures
            final(self)@ == old(self)@.obey(req),
            r matches Ok(NetsimResponse::Success { env_name, links }) && env_name@ == old(
                self,
            )@.env_name && reports(links@, final(self)@.links),
    {
        match req {
            NetsimCommand::Partition { peer } => {
                let link: Option<PeerLink> = match self.links.get(peer.as_str()) {
                    Some(link) => Some(*link),
                    None => None,
                };
                if let Some(link) = link {
                    self.set(peer, PeerLink { connected: false, latency_ms: link.latency_ms });
                }
            },
            NetsimCommand::Heal { peer } => {
                if self.links.contains_key(peer.as_str()) {
                    self.set(peer, PeerLink { connected: true, latency_ms: 0 });
                }
            },
            NetsimCommand::SetLatency { peer, latency_ms } => {
                let link: Option<PeerLink> = match self.links.get(peer.as_str()) {
                    Some(link) => Some(*link),
                    None => None,
                };
                if let Some(link) = link {
                    self.set(peer, PeerLink { connected: link.connected, latency_ms });
                }
            },
            NetsimCommand::GetStatus => {},
        }
        Ok(NetsimResponse::Success { env_name: self.env_name.clone(), links: self.report() })
    }

    /// Reports the links.
    fn report(&self) -> (r: Vec<PeerLinkInfo>)
        ensures
            reports(r@, self@.links),
    {
        let entries: &Vec<(String, PeerLink)> = self.links.entries();
        let mut r: Vec<PeerLinkInfo> = Vec::new();
        let mut i: usize = 0;
        while i < entries.len()
            invariant
                i <= entries@.len(),
                r@.len() == i,
                forall|j: int|
                    0 <= j < i ==> info_peer()(#[trigger] r@[j]) == entry_key::<PeerLink>()(entries@[j])
                        && info_link()(r@[j]) == entries@[j].1,
            decreases entries@.len() - i,
        {
            r.push(
                PeerLinkInfo {
                    peer_env: entries[i].0.clone(),
                    connected: entries[i].1.connected,
                    latency_ms: entries[i].1.latency_ms,
                },
            );
            i += 1;
        }
        proof {
            lemma_reported(entries@, r@);
        }
        r
    }
}

/// A list with the keys and the values of a map's entries reports the map.
proof fn lemma_reported(entries: Seq<(String, PeerLink)>, infos: Seq<PeerLinkInfo>)
    requires
        distinct(entries, entry_key::<PeerLink>()),
        infos.len() == entries.len(),
        forall|j: int|
            0 <= j < infos.len() ==> info_peer()(#[trigger] infos[j]) == entry_key::<PeerLink>()(
                entries[j],
            ) && info_link()(infos[j]) == entries[j].1,
    ensures
        reports(infos, map_of(entries)),
{
    let ekey = entry_key::<PeerLink>();
    let ikey = info_peer();
    assert forall|i: int, j: int| 0 <= i < j < infos.len() implies ikey(#[trigger] infos[i]) != ikey(
        #[trigger] infos[j],
    ) by {
        assert(ekey(entries[i]) != ekey(entries[j]));
    }
    let m = table(infos, ikey, info_link());
    let want = map_of(entries);
    assert forall|k: Seq<char>| m.contains_key(k) == want.contains_key(k) by {
        if m.contains_key(k) {
            let j = place(infos, ikey, k);
            assert(ikey(infos[j]) == k);
            assert(ekey(entries[j]) == k);
        }
        if want.contains_key(k) {
            let j = place(entries, ekey, k);
            assert(ekey(entries[j]) == k);
            assert(ikey(infos[j]) == k);
        }
    }
    assert forall|k: Seq<char>| #[trigger] m.contains_key(k) implies m[k] == want[k] by {
        let j = place(infos, ikey, k);
        assert(ikey(infos[j]) == k);
        lemma_table_at(infos, ikey, info_link(), j);
        lemma_table_at(
            entries,
            ekey,
            entry_value::<PeerLink>(),
            j,
        );
    }
    assert(m =~= want);
}

impl LinkChecker for RouterNetsimState {
    open spec fn active(&self, env_a: Seq<char>, env_b: Seq<char>) -> bool {
        self@.active(env_b)
    }

    open spec fn delay(&self, env_a: Seq<char>, env_b: Seq<char>) -> u64 {
        self@.delay(env_b)
    }

    fn is_active(&self, env_a: &str, env_b: &str) -> (r: bool) {
        match self.links.get(env_b) {
            Some(link) => link.connected,
            None => false,
        }
    }

    fn latency_ms(&self, env_a: &str, env_b: &str) -> (r: u64) {
        match self.links.get(env_b) {
            Some(link) => {
                if link.connected {
                    link.latency_ms
                } else {
                    0
                }
            },
            None => 0,
        }
    }
}

/// What a router sets up before it opens its session.
#[derive(Debug)]
pub struct SessionPlan {
    pub env_name: String,
    pub peers: Vec<NetsimPeer>,
}

/// Whether a setting says that the simulation is on: the word `true` in any letter case.
pub open spec fn switched_on(setting: Option<Seq<char>>) -> bool {
    setting matches Some(s) && lowered(s) == "true"@
}

/// Whether a setting says that the simulation is on.
pub fn is_switched_on(setting: &Option<String>) -> (r: bool)
    ensures
        r == switched_on(text_view(*setting)),
{
    match setting {
        Some(s) => same(to_lower(s.as_str()).as_str(), "true"),
        None => false,
    }
}

/// The peers that a setting lists: none where it is missing.
pub open spec fn listed_peers(setting: Option<Seq<char>>) -> Seq<PeerView> {
    peers_of(
        parts(
            match setting {
                Some(s) => s,
                None => seq![],
            },
            ',',
        ),
    )
}

/// Decides from the settings whether a router runs the simulation, and with which peers:
/// it does where the simulation is switched on and at least one peer is listed. A router
/// without a name is called `unknown`.
pub fn pre_session_plan(
    enabled: Option<String>,
    env_name: Option<String>,
    raw_peers: Option<String>,
) -> (r: Option<SessionPlan>)
    ensures
        ({
            let peers = listed_peers(text_view(raw_peers));
            match r {
                Some(plan) => {
                    &&& switched_on(text_view(enabled))
                    &&& peers.len() > 0
                    &&& plan.env_name@ == match env_name {
                        Some(s) => s@,
                        None => "unknown"@,
                    }
                    &&& views(plan.peers@) == peers
                },
                None => !switched_on(text_view(enabled)) || peers.len() == 0,
            }
        }),
{
    if !is_switched_on(&enabled) {
        return None;
    }
    let env_name: String = match env_name {
        Some(s) => s,
        None => "unknown".to_owned(),
    };
    let raw: String = match raw_peers {
        Some(s) => s,
        None => String::new(),
    };
    assert(raw_peers is None ==> raw@ =~= seq![]);
    let peers: Vec<NetsimPeer> = parse_peers(raw.as_str());
    assert(views(peers@).len() == peers@.len());
    if peers.len() == 0 {
        return None;
    }
    Some(SessionPlan { env_name, peers })
}

/// The endpoint at which a local proxy is reached.
pub open spec fn endpoint(port: u16) -> Seq<char> {
    "tcp/127.0.0.1:"@ + decimal(port as nat)
}

/// The endpoints of local proxies.
pub open spec fn endpoints(ports: Seq<u16>) -> Seq<Seq<char>> {
    Seq::new(ports.len(), |i: int| endpoint(ports[i]))
}

/// The endpoints that replace those of the peers: one local proxy for each.
pub fn rewritten_peers(ports: &Vec<u16>) -> (r: Vec<String>)
    ensures
        views(r@) == endpoints(ports@),
{
    let mut r: Vec<String> = Vec::new();
    let mut i: usize = 0;
    while i < ports.len()
        invariant
            i <= ports@.len(),
            views(r@) == endpoints(ports@).take(i as int),
        decreases ports@.len() - i,
    {
        let ghost before = r@;
        let mut text: String = "tcp/127.0.0.1:".to_owned();
        text.append(to_decimal(ports[i] as u64).as_str());
        r.push(text);
        assert(views(r@) =~= views(before).push(endpoint(ports@[i as int])));
        i += 1;
    }
    r
}

/// The peer setting of the session: the endpoints with commas between them.
pub fn patched_peers(ports: &Vec<u16>) -> (r: String)
    ensures
        r@ == joined(endpoints(ports@), ","@),
{
    let list: Vec<String> = rewritten_peers(ports);
    join(&list, ",")
}

/// The number of requests that the control service of a router serves at a time.
pub const CONTROL_CONCURRENCY: usize = 4;

/// The number of threads that a router works with: one for each processor, at least one.
pub fn worker_threads(cpus: usize) -> (r: usize)
    ensures
        r >= 1,
        r == if cpus > 1 {
            cpus
        } else {
            1
        },
{
    if cpus > 1 {
        cpus
    } else {
        1
    }
}

/// A command changes at most the link to the peer that it names, and no command adds or
/// removes a peer.
pub proof fn law_command_scope(state: RouterView, command: NetsimCommand, other: Seq<char>)
    requires
        match command {
            NetsimCommand::Partition { peer } => other != peer@,
            NetsimCommand::Heal { peer } => other != peer@,
            NetsimCommand::SetLatency { peer, .. } => other != peer@,
            NetsimCommand::GetStatus => true,
        },
    ensures
        state.obey(command).active(other) == state.active(other),
        state.obey(command).delay(other) == state.delay(other),
        state.obey(command).links.dom() == state.links.dom(),
        state.obey(command).env_name == state.env_name,
{
    assert(state.obey(command).links.dom() =~= state.links.dom());
}

/// After a cut the peer is not reached; after a restoration a known peer is, without delay.
pub proof fn law_cut_and_heal(state: RouterView, peer: String)
    ensures
        !state.obey(NetsimCommand::Partition { peer }).active(peer@),
        state.links.contains_key(peer@) ==> state.obey(NetsimCommand::Heal { peer }).active(peer@),
        state.obey(NetsimCommand::Heal { peer }).delay(peer@) == 0,
{
}

/// Asking for the status changes nothing.
pub proof fn law_status_changes_nothing(state: RouterView)
    ensures
        state.obey(NetsimCommand::GetStatus) == state,
{
}

/// An entry that is put together from a name and an address reads as them. Neither begins or
/// ends with white space, and the name holds no equals sign.
pub proof fn law_peer_round_trip(name: Seq<char>, addr: Seq<char>)
    requires
        !name.contains('='),
        name.len() > 0 ==> !is_space(name[0]) && !is_space(name.last()),
        addr.len() > 0 ==> !is_space(addr[0]) && !is_space(addr.last()),
    ensures
        peer_of(name + seq!['='] + addr) == Some(PeerView { env_name: name, addr }),
{
    let entry = name + seq!['='] + addr;
    assert(!is_space(entry[0]));
    assert(!is_space(entry.last()));
    assert forall|j: int| 0 <= j < name.len() implies entry[j] != '=' by {
        assert(name.contains(name[j]));
    }
    lemma_first_at_unique(entry, '=', name.len() as int);
    assert(entry.take(name.len() as int) =~= name);
    assert(entry.skip(name.len() as int + 1) =~= addr);
}

/// The peers of two lists with a comma between them are those of the first, then those of
/// the second.
pub proof fn law_peer_lists_concatenate(a: Seq<char>, b: Seq<char>)
    ensures
        peers_of(parts(a + seq![','] + b, ',')) == peers_of(parts(a, ',')) + peers_of(parts(b, ',')),
{
    lemma_parts_concatenate(a, b, ',');
    lemma_peers_concatenate(parts(a, ','), parts(b, ','));
}

/// The peers of entries followed by others.
proof fn lemma_peers_concatenate(x: Seq<Seq<char>>, y: Seq<Seq<char>>)
    ensures
        peers_of(x + y) == peers_of(x) + peers_of(y),
    decreases y.len(),
{
    if y.len() == 0 {
        assert(x + y =~= x);
        assert(peers_of(x) + peers_of(y) =~= peers_of(x));
    } else {
        lemma_peers_concatenate(x, y.drop_last());
        assert((x + y).drop_last() =~= x + y.drop_last());
        assert((x + y).last() == y.last());
        assert(peers_of(x + y) =~= peers_of(x) + peers_of(y));
    }
}

/// Setting a delay neither cuts nor restores a link: traffic flows to the peer exactly where it
/// did, with the new delay, and a cut link has the new delay when it is looked at.
pub proof fn law_latency_keeps_the_link(state: RouterView, peer: String, latency_ms: u64)
    ensures
        ({
            let after = state.obey(NetsimCommand::SetLatency { peer, latency_ms });
            &&& after.active(peer@) == state.active(peer@)
            &&& after.active(peer@) ==> after.delay(peer@) == latency_ms
            &&& !after.active(peer@) ==> after.delay(peer@) == 0
            &&& after.links.contains_key(peer@) == state.links.contains_key(peer@)
            &&& state.links.contains_key(peer@) ==> after.links[peer@] == (PeerLink {
                connected: state.links[peer@].connected,
                latency_ms,
            })
        }),
{
}

/// Cutting a link keeps its delay, and restoring it takes the delay away.
pub proof fn law_cut_keeps_the_delay(state: RouterView, peer: String)
    requires
        state.links.contains_key(peer@),
    ensures
        state.obey(NetsimCommand::Partition { peer }).links[peer@] == (PeerLink {
            connected: false,
            latency_ms: state.links[peer@].latency_ms,
        }),
        state.obey(NetsimCommand::Heal { peer }).links[peer@] == (PeerLink {
            connected: true,
            latency_ms: 0,
        }),
{
}

/// A command for a peer that is not known changes nothing.
pub proof fn law_unknown_peer_changes_nothing(state: RouterView, peer: String, latency_ms: u64)
    requires
        !state.links.contains_key(peer@),
    ensures
        state.obey(NetsimCommand::Partition { peer }) == state,
        state.obey(NetsimCommand::Heal { peer }) == state,
        state.obey(NetsimCommand::SetLatency { peer, latency_ms }) == state,
{
}

/// Traffic flows to a peer exactly where there is a connected link to it, with the delay of that
/// link, whichever end asks.
pub proof fn law_router_checks_its_links(state: RouterNetsimState, from: Seq<char>, to: Seq<char>)
    ensures
        LinkChecker::active(&state, from, to) <==> state@.links.contains_key(to)
            && state@.links[to].connected,
        LinkChecker::active(&state, from, to) ==> LinkChecker::delay(&state, from, to)
            == state@.links[to].latency_ms,
        !LinkChecker::active(&state, from, to) ==> LinkChecker::delay(&state, from, to) == 0,
{
}

/// A router starts with one link to each of its peers, connected and without delay, and with no
/// other.
pub proof fn law_fresh_links(peers: Seq<PeerView>, i: int, other: Seq<char>)
    requires
        0 <= i < peers.len(),
    ensures
        fresh_links(peers).contains_key(peers[i].env_name),
        fresh_links(peers)[peers[i].env_name] == (PeerLink { connected: true, latency_ms: 0 }),
        (forall|j: int| 0 <= j < peers.len() ==> (#[trigger] peers[j]).env_name != other)
            ==> !fresh_links(peers).contains_key(other),
{
    assert(peers[i].env_name == peers[i].env_name);
}

/// A report has one entry for each link, with its peer, its connection and its delay, and no
/// other.
pub proof fn law_report_is_exact(
    infos: Seq<PeerLinkInfo>,
    links: Map<Seq<char>, PeerLink>,
    peer: Seq<char>,
)
    requires
        reports(infos, links),
    ensures
        forall|j: int|
            0 <= j < infos.len() ==> links.contains_key((#[trigger] infos[j]).peer_env@)
                && links[infos[j].peer_env@].connected == infos[j].connected
                && links[infos[j].peer_env@].latency_ms == infos[j].latency_ms,
        forall|i: int, j: int|
            0 <= i < j < infos.len() ==> (#[trigger] infos[i]).peer_env@ != (
            #[trigger] infos[j]).peer_env@,
        links.contains_key(peer) ==> exists|j: int|
            0 <= j < infos.len() && (#[trigger] infos[j]).peer_env@ == peer,
{
    let key = info_peer();
    assert forall|j: int| 0 <= j < infos.len() implies links.contains_key(
        (#[trigger] infos[j]).peer_env@,
    ) && links[infos[j].peer_env@].connected == infos[j].connected
        && links[infos[j].peer_env@].latency_ms == infos[j].latency_ms by {
        lemma_table_at(infos, key, info_link(), j);
        assert(key(infos[j]) == infos[j].peer_env@);
    }
    assert forall|i: int, j: int| 0 <= i < j < infos.len() implies (#[trigger] infos[i]).peer_env@
        != (#[trigger] infos[j]).peer_env@ by {
        assert(key(infos[i]) != key(infos[j]));
    }
    if links.contains_key(peer) {
        assert(present(infos, key, peer));
        let j = place(infos, key, peer);
        assert(key(infos[j]) == peer);
        assert(infos[j].peer_env@ == peer);
    }
}

/// White space around a name, an address and the whole entry does not matter.
pub proof fn law_spaces_around_peers(
    a: Seq<char>,
    name: Seq<char>,
    b: Seq<char>,
    c: Seq<char>,
    addr: Seq<char>,
    d: Seq<char>,
)
    requires
        !name.contains('='),
        name.len() > 0,
        addr.len() > 0,
        !is_space(name[0]) && !is_space(name.last()),
        !is_space(addr[0]) && !is_space(addr.last()),
        forall|i: int| 0 <= i < a.len() ==> is_space(#[trigger] a[i]),
        forall|i: int| 0 <= i < b.len() ==> is_space(#[trigger] b[i]),
        forall|i: int| 0 <= i < c.len() ==> is_space(#[trigger] c[i]),
        forall|i: int| 0 <= i < d.len() ==> is_space(#[trigger] d[i]),
    ensures
        peer_of(a + (name + b + seq!['='] + c + addr) + d) == Some(PeerView { env_name: name, addr }),
{
    let middle = name + b + seq!['='] + c + addr;
    assert(middle[0] == name[0]);
    assert(middle.last() == addr.last());
    law_trimmed(a, middle, d);
    assert(middle =~= (name + b) + seq!['='] + (c + addr));
    assert(!(name + b).contains('=')) by {
        if (name + b).contains('=') {
            let j = choose|j: int| 0 <= j < (name + b).len() && (name + b)[j] == '=';
            if j < name.len() {
                assert(name[j] == '=');
            } else {
                assert(b[j - name.len()] == '=');
                law_ascii_space('=');
            }
        }
    }
    law_cut(name + b, '=', c + addr);
    assert(Seq::<char>::empty() + name + b =~= name + b);
    law_trimmed(seq![], name, b);
    assert(c + addr + Seq::<char>::empty() =~= c + addr);
    law_trimmed(c, addr, seq![]);
}

/// An entry without an equals sign names no peer; any other names one, behind those of the
/// entries before it.
pub proof fn law_entries_name_peers(entries: Seq<Seq<char>>, entry: Seq<char>)
    ensures
        !entry.contains('=') ==> peers_of(entries.push(entry)) == peers_of(entries),
        peer_of(entry) matches Some(p) ==> peers_of(entries.push(entry)) == peers_of(entries).push(
            p,
        ),
        entry.contains('=') ==> peer_of(entry) is Some,
        peers_of(seq![]).len() == 0,
{
    assert(entries.push(entry).drop_last() =~= entries);
    lemma_trimmed_within(entry);
    let t = trimmed(entry);
    lemma_first_at(t, '=');
    if !entry.contains('=') {
        assert(!t.contains('='));
        law_cut(t, '=', seq![]);
    } else {
        assert(t.contains('='));
        let k = choose|k: int| 0 <= k < t.len() && t[k] == '=';
    }
}

/// Trimming takes no equals sign away and adds none.
proof fn lemma_trimmed_within(s: Seq<char>)
    ensures
        trimmed(s).contains('=') <==> s.contains('='),
{
    law_ascii_space('=');
    lemma_left_within(s);
    lemma_right_within(left_trimmed(s));
}

/// Trimming in front takes no equals sign away.
proof fn lemma_left_within(s: Seq<char>)
    ensures
        left_trimmed(s).contains('=') <==> s.contains('='),
    decreases s.len(),
{
    law_ascii_space('=');
    if s.len() > 0 && is_space(s[0]) {
        lemma_left_within(s.skip(1));
        if s.contains('=') {
            let k = choose|k: int| 0 <= k < s.len() && s[k] == '=';
            assert(s.skip(1)[k - 1] == '=');
        }
        if s.skip(1).contains('=') {
            let k = choose|k: int| 0 <= k < s.skip(1).len() && s.skip(1)[k] == '=';
            assert(s[k + 1] == '=');
        }
    }
}

/// Trimming behind takes no equals sign away.
proof fn lemma_right_within(s: Seq<char>)
    ensures
        right_trimmed(s).contains('=') <==> s.contains('='),
    decreases s.len(),
{
    law_ascii_space('=');
    if s.len() > 0 && is_space(s.last()) {
        lemma_right_within(s.drop_last());
        if s.contains('=') {
            let k = choose|k: int| 0 <= k < s.len() && s[k] == '=';
            assert(s.drop_last()[k] == '=');
        }
        if s.drop_last().contains('=') {
            let k = choose|k: int| 0 <= k < s.drop_last().len() && s.drop_last()[k] == '=';
            assert(s[k] == '=');
        }
    }
}

/// The peers of a setting: none where it is missing, those of its only entry where it has no
/// comma, and behind a comma those of the rest.
pub proof fn law_listed_peers(a: Seq<char>, b: Seq<char>)
    ensures
        listed_peers(None).len() == 0,
        !a.contains(',') ==> listed_peers(Some(a)) == match peer_of(a) {
            Some(p) => seq![p],
            None => seq![],
        },
        listed_peers(Some(a + seq![','] + b)) == listed_peers(Some(a)) + listed_peers(Some(b)),
{
    law_peer_lists_concatenate(a, b);
    law_parts(a, ',');
    law_parts(seq![], ',');
    let none = seq![Seq::<char>::empty()];
    law_entries_name_peers(seq![], seq![]);
    assert(Seq::<Seq<char>>::empty().push(Seq::<char>::empty()) =~= none);
    if !a.contains(',') {
        assert(seq![a].drop_last() =~= Seq::<Seq<char>>::empty());
        assert(peers_of(Seq::<Seq<char>>::empty()) =~= seq![]);
    }
}

/// The simulation is on where the setting is the four letters of `true`, small or capital.
pub proof fn law_switched_on(setting: Seq<char>)
    ensures
        !switched_on(None),
        switched_on(Some(setting)) <==> setting.len() == 4 && (setting[0] == 't' || setting[0]
            == 'T') && (setting[1] == 'r' || setting[1] == 'R') && (setting[2] == 'u' || setting[2]
            == 'U') && (setting[3] == 'e' || setting[3] == 'E'),
{
    reveal_strlit("true");
    let low = lowered(setting);
    assert(low.len() == setting.len());
    if setting.len() == 4 {
        law_lowered(setting, 0);
        law_lowered(setting, 1);
        law_lowered(setting, 2);
        law_lowered(setting, 3);
        if (setting[0] == 't' || setting[0] == 'T') && (setting[1] == 'r' || setting[1] == 'R') && (
        setting[2] == 'u' || setting[2] == 'U') && (setting[3] == 'e' || setting[3] == 'E') {
            assert(low =~= "true"@);
        }
        if low == "true"@ {
            assert(low[0] == 't' && low[1] == 'r' && low[2] == 'u' && low[3] == 'e');
        }
    }
}

/// Each local proxy is reached at its own port of the local machine, in the order of the ports.
pub proof fn law_endpoints(ports: Seq<u16>, i: int)
    requires
        0 <= i < ports.len(),
    ensures
        endpoints(ports).len() == ports.len(),
        endpoints(ports)[i] == "tcp/127.0.0.1:"@ + decimal(ports[i] as nat),
{
}

/// Obeying a command succeeds and reports every link as it is afterwards. A delay neither cuts nor
/// restores the link it is for, a cut keeps its delay, a restoration takes the delay away, and no
/// other link and no name changes.
pub proof fn law_command_is_obeyed(
    state: &mut RouterNetsimState,
    req: NetsimCommand,
    r: Result<NetsimResponse, String>,
    peer: Seq<char>,
)
    requires
        call_ensures(RouterNetsimState::handle, (state, req), r),
    ensures
        final(state)@.env_name == old(state)@.env_name,
        final(state)@.links.contains_key(peer) == old(state)@.links.contains_key(peer),
        old(state)@.links.contains_key(peer) ==> final(state)@.links[peer] == match req {
            NetsimCommand::Partition { peer: p } => if p@ == peer {
                PeerLink { connected: false, latency_ms: old(state)@.links[peer].latency_ms }
            } else {
                old(state)@.links[peer]
            },
            NetsimCommand::Heal { peer: p } => if p@ == peer {
                PeerLink { connected: true, latency_ms: 0 }
            } else {
                old(state)@.links[peer]
            },
            NetsimCommand::SetLatency { peer: p, latency_ms } => if p@ == peer {
                PeerLink { connected: old(state)@.links[peer].connected, latency_ms }
            } else {
                old(state)@.links[peer]
            },
            NetsimCommand::GetStatus => old(state)@.links[peer],
        },
        req matches NetsimCommand::SetLatency { peer: p, latency_ms } ==> final(state)@.active(p@)
            == old(state)@.active(p@) && (final(state)@.active(p@) ==> final(state)@.delay(p@)
            == latency_ms),
        r matches Ok(NetsimResponse::Success { env_name, links }) && env_name@ == old(
            state,
        )@.env_name && (old(state)@.links.contains_key(peer) ==> exists|j: int|
            0 <= j < links@.len() && (#[trigger] links@[j]).peer_env@ == peer && links@[j].connected
                == final(state)@.links[peer].connected && links@[j].latency_ms == final(state)@.links[peer].latency_ms),
{
    let links = r->Ok_0->links;
    law_report_is_exact(links@, final(state)@.links, peer);
}

/// A router starts under its name with a fresh link to each peer; peers are read from a setting;
/// and the endpoints of the local proxies take their place, with commas between them.
pub proof fn law_router_functions(
    env_name: String,
    peers: &[NetsimPeer],
    r: RouterNetsimState,
    i: int,
    raw: &str,
    read: Vec<NetsimPeer>,
    ports: &Vec<u16>,
    endpoints_of: Vec<String>,
    patched: String,
    cpus: usize,
    threads: usize,
    other: Seq<char>,
)
    requires
        call_ensures(RouterNetsimState::new, (env_name, peers), r),
        call_ensures(parse_peers, (raw,), read),
        call_ensures(rewritten_peers, (ports,), endpoints_of),
        call_ensures(patched_peers, (ports,), patched),
        call_ensures(worker_threads, (cpus,), threads),
    ensures
        r@.env_name == env_name@,
        0 <= i < peers@.len() ==> r@.active(peers@[i].env_name@) && r@.delay(peers@[i].env_name@)
            == 0,
        (forall|j: int| 0 <= j < peers@.len() ==> (#[trigger] peers@[j]).env_name@ != other)
            ==> !r@.links.contains_key(other),
        views(read@) == listed_peers(Some(raw@)),
        endpoints_of@.len() == ports@.len(),
        0 <= i < ports@.len() ==> endpoints_of@[i]@ == "tcp/127.0.0.1:"@ + decimal(
            ports@[i] as nat,
        ),
        patched@ == joined(views(endpoints_of@), ","@),
        threads >= 1,
        cpus >= 1 ==> threads == cpus,
        cpus == 0 ==> threads == 1,
{
    let all = views(peers@);
    if 0 <= i < peers@.len() {
        law_fresh_links(all, i, seq![]);
        assert(all[i].env_name == peers@[i].env_name@);
    }
    if r@.links.contains_key(other) {
        let j = choose|j: int| 0 <= j < all.len() && (#[trigger] all[j]).env_name == other;
        assert(peers@[j].env_name@ == other);
    }
    assert(views(endpoints_of@).len() == endpoints_of@.len());
    if 0 <= i < ports@.len() {
        law_endpoints(ports@, i);
        assert(views(endpoints_of@)[i] == endpoints_of@[i]@);
    }
}

/// A router runs the simulation exactly where it is switched on and has a peer; it has the name
/// it was given, or `unknown`, and all the peers that are listed.
pub proof fn law_session_plan(
    enabled: Option<String>,
    env_name: Option<String>,
    raw_peers: Option<String>,
    r: Option<SessionPlan>,
)
    requires
        call_ensures(pre_session_plan, (enabled, env_name, raw_peers), r),
    ensures
        r is Some <==> switched_on(text_view(enabled)) && listed_peers(text_view(raw_peers)).len()
            > 0,
        r matches Some(plan) ==> views(plan.peers@) == listed_peers(text_view(raw_peers)) && (
        env_name matches Some(n) ==> plan.env_name@ == n@) && (env_name is None
            ==> plan.env_name@ == "unknown"@),
        enabled is None || raw_peers is None ==> r is None,
{
    law_listed_peers(seq![], seq![]);
}

} // verus!
