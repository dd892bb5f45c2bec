//! Pairwise network simulation state.
use vstd::prelude::*;
use crate::keyed::{
    distinct, lemma_table_at, lemma_table_map, lemma_table_push, lemma_table_update, place, present,
};
use crate::netsim::types::{
    in_link_order, link_key, link_model, link_pair, link_table, pair_key, sort_links, LinkChecker,
    LinkState, LinkView,
};
use crate::text::chars::{copy_texts, holds, same, views};
use crate::text::ordered::{ascending, insert_ordered};

verus! {

/// The model of the simulated network: the environments and the link between each two of
/// them, under the pair of their names.
#[verifier::ext_equal]
pub struct NetworkView {
    pub env_names: Seq<Seq<char>>,
    pub links: Map<(Seq<char>, Seq<char>), LinkView>,
}

/// Network simulation registry with pairwise connectivity.
#[derive(Debug)]
pub struct NetworkSimState {
    names: Vec<String>,
    links: Vec<LinkState>,
}

impl View for NetworkSimState {
    type V = NetworkView;

    closed spec fn view(&self) -> NetworkView {
        NetworkView { env_names: views(self.names@), links: link_table(self.links@) }
    }
}

/// A link that was just set up.
pub open spec fn fresh_link(a: Seq<char>, b: Seq<char>) -> LinkView {
    LinkView { env_a: a, env_b: b, connected: true, latency_ms: 0 }
}

/// `links` with a fresh link from environment `i` to each later one before `n`.
pub open spec fn with_row(
    names: Seq<Seq<char>>,
    links: Map<(Seq<char>, Seq<char>), LinkView>,
    i: int,
    n: int,
) -> Map<(Seq<char>, Seq<char>), LinkView>
    decreases n,
{
    if n <= i + 1 || n <= 0 {
        links
    } else {
        with_row(names, links, i, n - 1).insert(
            pair_key(names[i], names[n - 1]),
            fresh_link(names[i], names[n - 1]),
        )
    }
}

/// The links from each of the first `n` environments to all later ones.
pub open spec fn full_mesh(names: Seq<Seq<char>>, n: int) -> Map<
    (Seq<char>, Seq<char>),
    LinkView,
>
    decreases n,
{
    if n <= 0 {
        Map::empty()
    } else {
        with_row(names, full_mesh(names, n - 1), n - 1, names.len() as int)
    }
}

/// A link that was cut.
pub open spec fn cut_link(l: LinkView) -> LinkView {
    LinkView { connected: false, ..l }
}

/// A link that was restored: it is connected and has no delay.
pub open spec fn healed_link(l: LinkView) -> LinkView {
    LinkView { connected: true, latency_ms: 0, ..l }
}

/// A link with another delay.
pub open spec fn delayed_link(l: LinkView, latency_ms: u64) -> LinkView {
    LinkView { latency_ms, ..l }
}

/// Whether an environment is an end of a link.
pub open spec fn touches(l: LinkView, env: Seq<char>) -> bool {
    l.env_a == env || l.env_b == env
}

/// The end of a link that is not `env`.
pub open spec fn other_end(l: LinkView, env: Seq<char>) -> Seq<char> {
    if l.env_a == env {
        l.env_b
    } else {
        l.env_a
    }
}

/// The environments that are linked to `env`.
pub open spec fn linked_to(
    links: Map<(Seq<char>, Seq<char>), LinkView>,
    env: Seq<char>,
) -> Set<Seq<char>> {
    Set::new(
        |n: Seq<char>|
            exists|k: (Seq<char>, Seq<char>)| #[trigger]
                links.contains_key(k) && touches(links[k], env) && other_end(links[k], env) == n,
    )
}

/// The network with every link of `env` changed.
pub open spec fn at_env(
    net: NetworkView,
    env: Seq<char>,
    change: spec_fn(LinkView) -> LinkView,
) -> NetworkView {
    NetworkView {
        links: net.links.map_values(
            |l: LinkView| if touches(l, env) {
                change(l)
            } else {
                l
            },
        ),
        ..net
    }
}

/// The network with one link changed.
pub open spec fn at_link(
    net: NetworkView,
    a: Seq<char>,
    b: Seq<char>,
    change: spec_fn(LinkView) -> LinkView,
) -> NetworkView {
    NetworkView {
        links: net.links.insert(pair_key(a, b), change(net.links[pair_key(a, b)])),
        ..net
    }
}

/// The network with every link changed.
pub open spec fn everywhere(net: NetworkView, change: spec_fn(LinkView) -> LinkView) -> NetworkView {
    NetworkView { links: net.links.map_values(change), ..net }
}

/// Why a request to the simulation fails.
#[derive(Debug, Clone, Copy, PartialEq, Eq, Structural)]
pub enum NetsimError {
    /// The environment or the link is not known.
    NotFound,
}

/// The environments and the links of a network.
#[derive(Debug)]
pub struct NetworkOverview {
    pub environments: Vec<String>,
    pub links: Vec<LinkState>,
}

/// The body of a request to cut a link.
#[derive(Debug, Clone, Copy)]
pub struct PartitionRequest {
    pub latency_ms: Option<u64>,
}

/// The body of a request to delay a link.
#[derive(Debug, Clone, Copy)]
pub struct LatencyRequest {
    pub latency_ms: u64,
}

/// What was done to a link.
#[derive(Debug)]
pub struct LinkActionResponse {
    pub env_a: String,
    pub env_b: String,
    pub action: String,
    pub connected: bool,
    pub latency_ms: u64,
}

/// What was done to the links of an environment.
#[derive(Debug)]
pub struct EnvActionResponse {
    pub env: String,
    pub action: String,
    pub affected_links: Vec<String>,
}

/// What was done to every link.
#[derive(Debug)]
pub struct BulkActionResponse {
    pub action: String,
    pub environments: Vec<String>,
}

impl LinkActionResponse {
    /// Whether this reports an action on the link between two environments and how the link
    /// is after it.
    pub open spec fn reports(
        self,
        a: Seq<char>,
        b: Seq<char>,
        action: Seq<char>,
        link: LinkView,
    ) -> bool {
        &&& self.env_a@ == a
        &&& self.env_b@ == b
        &&& self.action@ == action
        &&& self.connected == link.connected
        &&& self.latency_ms == link.latency_ms
    }
}

impl EnvActionResponse {
    /// Whether this reports an action on the links of an environment, with the environments
    /// at their other ends in ascending order.
    pub open spec fn reports(
        self,
        env: Seq<char>,
        action: Seq<char>,
        links: Map<(Seq<char>, Seq<char>), LinkView>,
    ) -> bool {
        &&& self.env@ == env
        &&& self.action@ == action
        &&& ascending(views(self.affected_links@))
        &&& views(self.affected_links@).to_set() == linked_to(links, env)
    }
}

impl BulkActionResponse {
    /// Whether this reports an action on every link.
    pub open spec fn reports(self, action: Seq<char>, env_names: Seq<Seq<char>>) -> bool {
        &&& self.action@ == action
        &&& views(self.environments@) == env_names
    }
}

/// How the links that an operation covers are set.
#[derive(Clone, Copy)]
enum Change {
    Cut,
    Heal,
}

/// The change to a link, as a function.
spec fn change_of(change: Change) -> spec_fn(LinkView) -> LinkView {
    match change {
        Change::Cut => |l: LinkView| cut_link(l),
        Change::Heal => |l: LinkView| healed_link(l),
    }
}

/// Puts a link into a list in place of the one with its key, or at the end.
fn put_link(links: &mut Vec<LinkState>, link: LinkState)
    requires
        distinct(old(links)@, link_pair()),
    ensures
        distinct(final(links)@, link_pair()),
        link_table(final(links)@) == link_table(old(links)@).insert(
            pair_key(link.env_a@, link.env_b@),
            link@,
        ),
{
    let key: (String, String) = link_key(link.env_a.as_str(), link.env_b.as_str());
    match find_link(links, &key) {
        Some(i) => {
            proof {
                lemma_table_update(links@, link_pair(), link_model(), i as int, link);
            }
            links.set(i, link);
        },
        None => {
            proof {
                lemma_table_push(links@, link_pair(), link_model(), link);
            }
            links.push(link);
        },
    }
}

/// The position of the link with a key.
fn find_link(links: &Vec<LinkState>, key: &(String, String)) -> (r: Option<usize>)
    ensures
        match r {
            Some(i) => i < links@.len() && link_pair()(links@[i as int]) == (key.0@, key.1@),
            None => !present(links@, link_pair(), (key.0@, key.1@)),
        },
{
    let mut i: usize = 0;
    while i < links.len()
        invariant
            i <= links@.len(),
            forall|j: int| 0 <= j < i ==> link_pair()(#[trigger] links@[j]) != (key.0@, key.1@),
        decreases links@.len() - i,
    {
        let at: (String, String) = link_key(links[i].env_a.as_str(), links[i].env_b.as_str());
        if same(at.0.as_str(), key.0.as_str()) && same(at.1.as_str(), key.1.as_str()) {
            return Some(i);
        }
        i += 1;
    }
    None
}

impl NetworkSimState {
    /// Each two environments have one link.
    #[verifier::type_invariant]
    spec fn wf(self) -> bool {
        distinct(self.links@, link_pair())
    }

    /// Connects every two of the environments.
    pub fn new(env_names: &[String]) -> (r: Self)
        ensures
            r@.env_names == views(env_names@),
            r@.links == full_mesh(views(env_names@), env_names@.len() as int),
    {
        let ghost names = views(env_names@);
        let mut links: Vec<LinkState> = Vec::new();
        let mut i: usize = 0;
        assert(link_table(links@) =~= full_mesh(names, 0));
        while i < env_names.len()
            invariant
                i <= env_names@.len(),
                names == views(env_names@),
                distinct(links@, link_pair()),
                link_table(links@) == full_mesh(names, i as int),
            decreases env_names@.len() - i,
        {
            let mut j: usize = i + 1;
            while j < env_names.len()
                invariant
                    i < j <= env_names@.len(),
                    names == views(env_names@),
                    distinct(links@, link_pair()),
                    link_table(links@) == with_row(
                        names,
                        full_mesh(names, i as int),
                        i as int,
                        j as int,
                    ),
                decreases env_names@.len() - j,
            {
                let link = LinkState {
                    env_a: env_names[i].clone(),
                    env_b: env_names[j].clone(),
                    connected: true,
                    latency_ms: 0,
                };
                put_link(&mut links, link);
                j += 1;
            }
            i += 1;
        }
        let mut copies: Vec<String> = Vec::new();
        let mut k: usize = 0;
        while k < env_names.len()
            invariant
                k <= env_names@.len(),
                copies@ == env_names@.take(k as int),
            decreases env_names@.len() - k,
        {
            copies.push(env_names[k].clone());
            k += 1;
        }
        assert(env_names@.take(k as int) =~= env_names@);
        NetworkSimState { names: copies, links }
    }

    /// Return all registered environment names.
    pub fn env_names(&self) -> (r: &[String])
        ensures
            views(r@) == self@.env_names,
    {
        self.names.as_slice()
    }

    /// Sets one link of the list.
    fn set_link(&mut self, i: usize, connected: bool, latency_ms: u64)
        requires
            i < old(self).links@.len(),
        ensures
            ({
                let link = old(self).links@[i as int]@;
                final(self)@ == NetworkView {
                    links: old(self)@.links.insert(
                        pair_key(link.env_a, link.env_b),
                        LinkView { connected, latency_ms, ..link },
                    ),
                    ..old(self)@
                }
            }),
    {
        proof {
            use_type_invariant(&*self);
        }
        let link = LinkState {
            env_a: self.links[i].env_a.clone(),
            env_b: self.links[i].env_b.clone(),
            connected,
            latency_ms,
        };
        let mut links: Vec<LinkState> = Vec::new();
        std::mem::swap(&mut links, &mut self.links);
        put_link(&mut links, link);
        self.links = links;
    }

    /// Changes the links of an environment, or every link where none is given.
    fn change_links(&mut self, env: Option<&str>, change: Change)
        ensures
            match env {
                Some(e) => final(self)@ == at_env(old(self)@, e@, change_of(change)),
                None => final(self)@ == everywhere(old(self)@, change_of(change)),
            },
    {
        proof {
            use_type_invariant(&*self);
        }
        let ghost start = self.links@;
        let ghost f = match env {
            Some(e) => |l: LinkView|
                if touches(l, e@) {
                    change_of(change)(l)
                } else {
                    l
                },
            None => change_of(change),
        };
        let mut links: Vec<LinkState> = Vec::new();
        let mut i: usize = 0;
        while i < self.links.len()
            invariant
                i <= self.links@.len(),
                self.links@ == start,
                links@.len() == i,
                f == (match env {
                    Some(e) => |l: LinkView|
                        if touches(l, e@) {
                            change_of(change)(l)
                        } else {
                            l
                        },
                    None => change_of(change),
                }),
                forall|j: int|
                    0 <= j < i ==> link_pair()(#[trigger] links@[j]) == link_pair()(start[j])
                        && link_model()(links@[j]) == f(link_model()(start[j])),
            decreases self.links@.len() - i,
        {
            let mut link: LinkState = self.links[i].clone();
            let covered: bool = match env {
                Some(e) => same(link.env_a.as_str(), e) || same(link.env_b.as_str(), e),
                None => true,
            };
            if covered {
                match change {
                    Change::Cut => {
                        link.connected = false;
                    },
                    Change::Heal => {
                        link.connected = true;
                        link.latency_ms = 0;
                    },
                }
            }
            links.push(link);
            i += 1;
        }
        proof {
            lemma_table_map(start, links@, link_pair(), link_model(), f);
        }
        self.links = links;
    }

    /// The environments that are linked to `env`, in ascending order.
    fn others(&self, env: &str) -> (r: Vec<String>)
        ensures
            ascending(views(r@)),
            views(r@).to_set() == linked_to(self@.links, env@),
    {
        proof {
            use_type_invariant(self);
        }
        let ghost table = self@.links;
        let mut r: Vec<String> = Vec::new();
        let mut i: usize = 0;
        assert(views(r@).to_set() =~= Set::<Seq<char>>::empty());
        while i < self.links.len()
            invariant
                i <= self.links@.len(),
                distinct(self.links@, link_pair()),
                table == link_table(self.links@),
                ascending(views(r@)),
                forall|n: Seq<char>| #[trigger]
                    views(r@).to_set().contains(n) <==> exists|j: int|
                        0 <= j < i && touches(#[trigger] self.links@[j]@, env@) && other_end(
                            self.links@[j]@,
                            env@,
                        ) == n,
            decreases self.links@.len() - i,
        {
            let link: &LinkState = &self.links[i];
            let ghost before = views(r@).to_set();
            let at_a: bool = same(link.env_a.as_str(), env);
            let at_b: bool = same(link.env_b.as_str(), env);
            if at_a || at_b {
                let other: String = if at_a {
                    link.env_b.clone()
                } else {
                    link.env_a.clone()
                };
                insert_ordered(&mut r, other);
            }
            proof {
                let links = self.links@;
                assert forall|n: Seq<char>| #[trigger]
                    views(r@).to_set().contains(n) <==> exists|j: int|
                        0 <= j < i + 1 && touches(#[trigger] links[j]@, env@) && other_end(
                            links[j]@,
                            env@,
                        ) == n by {
                    assert(links[i as int]@ == link@);
                    if before.contains(n) {
                        let j = choose|j: int|
                            0 <= j < i && touches(#[trigger] links[j]@, env@) && other_end(
                                links[j]@,
                                env@,
                            ) == n;
                        assert(0 <= j < i + 1 && touches(links[j]@, env@));
                    }
                }
            }
            i += 1;
        }
        assert forall|n: Seq<char>| #[trigger]
            views(r@).to_set().contains(n) == linked_to(table, env@).contains(n) by {
            let links = self.links@;
            if views(r@).to_set().contains(n) {
                let j = choose|j: int|
                    0 <= j < links.len() && touches(#[trigger] links[j]@, env@) && other_end(
                        links[j]@,
                        env@,
                    ) == n;
                lemma_table_at(links, link_pair(), link_model(), j);
                assert(table.contains_key(link_pair()(links[j])));
            }
            if linked_to(table, env@).contains(n) {
                let k = choose|k: (Seq<char>, Seq<char>)| #[trigger]
                    table.contains_key(k) && touches(table[k], env@) && other_end(table[k], env@)
                        == n;
                let j = place(links, link_pair(), k);
                assert(link_pair()(links[j]) == k);
                lemma_table_at(links, link_pair(), link_model(), j);
                assert(touches(links[j]@, env@));
            }
        }
        assert(views(r@).to_set() =~= linked_to(table, env@));
        r
    }

    /// The environments and their links, ordered by the names of the two ends.
    pub fn list_network_state(&self) -> (r: NetworkOverview)
        ensures
            views(r.environments@) == self@.env_names,
            in_link_order(r.links@),
            distinct(r.links@, link_pair()),
            link_table(r.links@) == self@.links,
    {
        proof {
            use_type_invariant(self);
        }
        NetworkOverview { environments: copy_texts(&self.names), links: sort_links(&self.links) }
    }

    /// Cuts the link between two environments. A request with a body sets its delay too, to
    /// none where the body names no delay.
    pub fn partition_link(
        &mut self,
        env_a: String,
        env_b: String,
        body: Option<PartitionRequest>,
    ) -> (r: Result<LinkActionResponse, NetsimError>)
        ensures
            match r {
                Ok(report) => {
                    let change = |l: LinkView|
                        match body {
                            Some(req) => delayed_link(
                                cut_link(l),
                                match req.latency_ms {
                                    Some(ms) => ms,
                                    None => 0,
                                },
                            ),
                            None => cut_link(l),
                        };
                    &&& old(self)@.links.contains_key(pair_key(env_a@, env_b@))
                    &&& final(self)@ == at_link(old(self)@, env_a@, env_b@, change)
                    &&& report.reports(
                        env_a@,
                        env_b@,
                        "partitioned"@,
                        final(self)@.links[pair_key(env_a@, env_b@)],
                    )
                },
                Err(e) => {
                    &&& e == NetsimError::NotFound
                    &&& !old(self)@.links.contains_key(pair_key(env_a@, env_b@))
                    &&& final(self)@ == old(self)@
                },
            },
    {
        let key: (String, String) = link_key(env_a.as_str(), env_b.as_str());
        match find_link(&self.links, &key) {
            Some(i) => {
                proof {
                    use_type_invariant(&*self);
                    lemma_table_at(self.links@, link_pair(), link_model(), i as int);
                }
                let latency_ms: u64 = match body {
                    Some(req) => match req.latency_ms {
                        Some(ms) => ms,
                        None => 0,
                    },
                    None => self.links[i].latency_ms,
                };
                self.set_link(i, false, latency_ms);
                Ok(
                    LinkActionResponse {
                        env_a,
                        env_b,
                        action: "partitioned".to_owned(),
                        connected: false,
                        latency_ms,
                    },
                )
            },
            None => Err(NetsimError::NotFound),
        }
    }

    /// Restores the link between two environments and takes its delay away.
    pub fn heal_link(&mut self, env_a: String, env_b: String) -> (r: Result<
        LinkActionResponse,
        NetsimError,
    >)
        ensures
            match r {
                Ok(report) => {
                    &&& old(self)@.links.contains_key(pair_key(env_a@, env_b@))
                    &&& final(self)@ == at_link(
                        old(self)@,
                        env_a@,
                        env_b@,
                        |l: LinkView| healed_link(l),
                    )
                    &&& report.reports(
                        env_a@,
                        env_b@,
                        "healed"@,
                        final(self)@.links[pair_key(env_a@, env_b@)],
                    )
                },
                Err(e) => {
                    &&& e == NetsimError::NotFound
                    &&& !old(self)@.links.contains_key(pair_key(env_a@, env_b@))
                    &&& final(self)@ == old(self)@
                },
            },
    {
        let key: (String, String) = link_key(env_a.as_str(), env_b.as_str());
        match find_link(&self.links, &key) {
            Some(i) => {
                proof {
                    use_type_invariant(&*self);
                    lemma_table_at(self.links@, link_pair(), link_model(), i as int);
                }
                self.set_link(i, true, 0);
                Ok(
                    LinkActionResponse {
                        env_a,
                        env_b,
                        action: "healed".to_owned(),
                        connected: true,
                        latency_ms: 0,
                    },
                )
            },
            None => Err(NetsimError::NotFound),
        }
    }

    /// Sets the delay of the link between two environments.
    pub fn set_link_latency(&mut self, env_a: String, env_b: String, req: LatencyRequest) -> (r:
        Result<LinkActionResponse, NetsimError>)
        ensures
            match r {
                Ok(report) => {
                    &&& old(self)@.links.contains_key(pair_key(env_a@, env_b@))
                    &&& final(self)@ == at_link(
                        old(self)@,
                        env_a@,
                        env_b@,
                        |l: LinkView| delayed_link(l, req.latency_ms),
                    )
                    &&& report.reports(
                        env_a@,
                        env_b@,
                        "latency-updated"@,
                        final(self)@.links[pair_key(env_a@, env_b@)],
                    )
                },
                Err(e) => {
                    &&& e == NetsimError::NotFound
                    &&& !old(self)@.links.contains_key(pair_key(env_a@, env_b@))
                    &&& final(self)@ == old(self)@
                },
            },
    {
        let key: (String, String) = link_key(env_a.as_str(), env_b.as_str());
        match find_link(&self.links, &key) {
            Some(i) => {
                proof {
                    use_type_invariant(&*self);
                    lemma_table_at(self.links@, link_pair(), link_model(), i as int);
                }
                let connected: bool = self.links[i].connected;
                self.set_link(i, connected, req.latency_ms);
                Ok(
                    LinkActionResponse {
                        env_a,
                        env_b,
                        action: "latency-updated".to_owned(),
                        connected,
                        latency_ms: req.latency_ms,
                    },
                )
            },
            None => Err(NetsimError::NotFound),
        }
    }

    /// Cuts every link of an environment.
    pub fn partition_env(&mut self, env: String) -> (r: Result<EnvActionResponse, NetsimError>)
        ensures
            match r {
                Ok(report) => {
                    &&& old(self)@.env_names.contains(env@)
                    &&& final(self)@ == at_env(old(self)@, env@, |l: LinkView| cut_link(l))
                    &&& report.reports(env@, "partitioned-from-all"@, old(self)@.links)
                },
                Err(e) => {
                    &&& e == NetsimError::NotFound
                    &&& !old(self)@.env_names.contains(env@)
                    &&& final(self)@ == old(self)@
                },
            },
    {
        if !holds(&self.names, env.as_str()) {
            return Err(NetsimError::NotFound);
        }
        let affected_links: Vec<String> = self.others(env.as_str());
        self.change_links(Some(env.as_str()), Change::Cut);
        Ok(
            EnvActionResponse {
                env,
                action: "partitioned-from-all".to_owned(),
                affected_links,
            },
        )
    }

    /// Restores every link of an environment and takes the delays away.
    pub fn heal_env(&mut self, env: String) -> (r: Result<EnvActionResponse, NetsimError>)
        ensures
            match r {
                Ok(report) => {
                    &&& old(self)@.env_names.contains(env@)
                    &&& final(self)@ == at_env(old(self)@, env@, |l: LinkView| healed_link(l))
                    &&& report.reports(env@, "healed-to-all"@, old(self)@.links)
                },
                Err(e) => {
                    &&& e == NetsimError::NotFound
                    &&& !old(self)@.env_names.contains(env@)
                    &&& final(self)@ == old(self)@
                },
            },
    {
        if !holds(&self.names, env.as_str()) {
            return Err(NetsimError::NotFound);
        }
        let affected_links: Vec<String> = self.others(env.as_str());
        self.change_links(Some(env.as_str()), Change::Heal);
        Ok(EnvActionResponse { env, action: "healed-to-all".to_owned(), affected_links })
    }

    /// Cuts every link.
    pub fn partition_all(&mut self) -> (r: BulkActionResponse)
        ensures
            final(self)@ == everywhere(old(self)@, |l: LinkView| cut_link(l)),
            r.reports("partitioned-all"@, old(self)@.env_names),
    {
        self.change_links(None, Change::Cut);
        BulkActionResponse {
            action: "partitioned-all".to_owned(),
            environments: copy_texts(&self.names),
        }
    }

    /// Restores every link and takes the delays away.
    pub fn heal_all(&mut self) -> (r: BulkActionResponse)
        ensures
            final(self)@ == everywhere(old(self)@, |l: LinkView| healed_link(l)),
            r.reports("healed-all"@, old(self)@.env_names),
    {
        self.change_links(None, Change::Heal);
        BulkActionResponse {
            action: "healed-all".to_owned(),
            environments: copy_texts(&self.names),
        }
    }
}

impl NetworkView {
    /// Whether the link between two environments carries traffic. An environment always
    /// reaches itself.
    pub open spec fn active(self, a: Seq<char>, b: Seq<char>) -> bool {
        a == b || (self.links.contains_key(pair_key(a, b)) && self.links[pair_key(a, b)].connected)
    }

    /// The delay between two environments: that of their link while it is connected.
    pub open spec fn delay(self, a: Seq<char>, b: Seq<char>) -> u64 {
        if a != b && self.active(a, b) {
            self.links[pair_key(a, b)].latency_ms
        } else {
            0
        }
    }
}

impl NetworkView {
    /// Whether each link stands under the pair of its ends.
    pub open spec fn consistent(self) -> bool {
        forall|k: (Seq<char>, Seq<char>)| #[trigger]
            self.links.contains_key(k) ==> k == pair_key(self.links[k].env_a, self.links[k].env_b)
    }
}

/// Each link of a network stands under the pair of its ends.
pub proof fn law_links_stand_under_their_ends(state: NetworkSimState)
    ensures
        state@.consistent(),
{
    let links = state.links@;
    assert forall|k: (Seq<char>, Seq<char>)| #[trigger] state@.links.contains_key(k) implies k
        == pair_key(state@.links[k].env_a, state@.links[k].env_b) by {
        let i = place(links, link_pair(), k);
        assert(link_pair()(links[i]) == k);
    }
}

impl LinkChecker for NetworkSimState {
    open spec fn active(&self, env_a: Seq<char>, env_b: Seq<char>) -> bool {
        self@.active(env_a, env_b)
    }

    open spec fn delay(&self, env_a: Seq<char>, env_b: Seq<char>) -> u64 {
        self@.delay(env_a, env_b)
    }

    fn is_active(&self, env_a: &str, env_b: &str) -> (r: bool) {
        if same(env_a, env_b) {
            return true;
        }
        let key: (String, String) = link_key(env_a, env_b);
        match find_link(&self.links, &key) {
            Some(i) => {
                proof {
                    use_type_invariant(self);
                    lemma_table_at(self.links@, link_pair(), link_model(), i as int);
                }
                self.links[i].connected
            },
            None => false,
        }
    }

    fn latency_ms(&self, env_a: &str, env_b: &str) -> (r: u64) {
        if same(env_a, env_b) {
            return 0;
        }
        let key: (String, String) = link_key(env_a, env_b);
        match find_link(&self.links, &key) {
            Some(i) => {
                proof {
                    use_type_invariant(self);
                    lemma_table_at(self.links@, link_pair(), link_model(), i as int);
                }
                if self.links[i].connected {
                    self.links[i].latency_ms
                } else {
                    0
                }
            },
            None => 0,
        }
    }
}

} // verus!
