//! The simulated environments of the development server and how they are connected.
use vstd::prelude::*;
use vstd::string::*;
use crate::dev_server::config::{
    collections_of, create_requests_for_env, AssignmentView, CollectionView,
    CreateCollectionRequest, ShardAssignment,
};
use crate::models::package::OPackage;
use crate::router::endpoint;
use crate::text::chars::{join, joined, text_view, views};
use crate::text::number::{decimal, to_decimal};

verus! {

/// The time for which the environments are given to connect, in seconds.
pub const CONNECT_WAIT_SECONDS: u64 = 2;

/// The time for which browsers may remember what they are allowed to ask, in seconds.
pub const CORS_MAX_AGE_SECONDS: u64 = 3600;

/// An environment to start.
#[derive(Debug)]
pub struct EnvironmentPlan {
    pub name: String,
    pub node_id: u64,
    pub gateway_port: u16,
    pub listen_port: u16,
}

/// The model of an environment to start.
#[verifier::ext_equal]
pub struct EnvironmentView {
    pub name: Seq<char>,
    pub node_id: u64,
    pub gateway_port: u16,
    pub listen_port: u16,
}

impl View for EnvironmentPlan {
    type V = EnvironmentView;

    open spec fn view(&self) -> EnvironmentView {
        EnvironmentView {
            name: self.name@,
            node_id: self.node_id,
            gateway_port: self.gateway_port,
            listen_port: self.listen_port,
        }
    }
}

/// The environments to start: they are numbered from one, and their gateways take the ports
/// that follow that of the server.
pub open spec fn environments(port: u16, names: Seq<Seq<char>>, listen_ports: Seq<u16>) -> Seq<
    EnvironmentView,
> {
    Seq::new(
        names.len(),
        |i: int|
            EnvironmentView {
                name: names[i],
                node_id: (i + 1) as u64,
                gateway_port: (port + 1 + i) as u16,
                listen_port: listen_ports[i],
            },
    )
}

/// Plans the environments, given a free port for the session of each.
pub fn plan_environments(port: u16, names: &Vec<String>, listen_ports: &Vec<u16>) -> (r: Vec<
    EnvironmentPlan,
>)
    requires
        listen_ports@.len() == names@.len(),
        port + names@.len() <= u16::MAX,
    ensures
        views(r@) == environments(port, views(names@), listen_ports@),
{
    let mut r: Vec<EnvironmentPlan> = Vec::new();
    let mut i: usize = 0;
    while i < names.len()
        invariant
            i <= names@.len(),
            listen_ports@.len() == names@.len(),
            port + names@.len() <= u16::MAX,
            views(r@) == environments(port, views(names@), listen_ports@).take(i as int),
        decreases names@.len() - i,
    {
        let ghost before = r@;
        let plan = EnvironmentPlan {
            name: names[i].clone(),
            node_id: i as u64 + 1,
            gateway_port: port + 1 + i as u16,
            listen_port: listen_ports[i],
        };
        r.push(plan);
        assert(views(r@) =~= views(before).push(plan@));
        assert(plan@ == environments(port, views(names@), listen_ports@)[i as int]);
        i += 1;
    }
    r
}

/// Environments have different numbers, and their gateways listen on different ports, none
/// of which is that of the server.
pub proof fn law_gateways_apart(
    port: u16,
    names: Seq<Seq<char>>,
    listen_ports: Seq<u16>,
    i: int,
    j: int,
)
    requires
        port + names.len() <= u16::MAX,
        0 <= i < j < names.len(),
    ensures
        environments(port, names, listen_ports)[i].gateway_port != environments(
            port,
            names,
            listen_ports,
        )[j].gateway_port,
        environments(port, names, listen_ports)[i].node_id != environments(
            port,
            names,
            listen_ports,
        )[j].node_id,
        environments(port, names, listen_ports)[i].gateway_port != port,
        environments(port, names, listen_ports)[j].gateway_port != port,
{
}

/// A proxy to start: it stands before the session of one environment, and another connects
/// to it.
#[derive(Debug)]
pub struct ProxyPlan {
    pub env_a: String,
    pub env_b: String,
    /// The port of the session of `env_a`.
    pub target_port: u16,
    /// The position of `env_b`, which connects to the proxy.
    pub owner: usize,
}

/// The model of a proxy to start.
#[verifier::ext_equal]
pub struct ProxyPlanView {
    pub env_a: Seq<char>,
    pub env_b: Seq<char>,
    pub target_port: u16,
    pub owner: int,
}

impl View for ProxyPlan {
    type V = ProxyPlanView;

    open spec fn view(&self) -> ProxyPlanView {
        ProxyPlanView {
            env_a: self.env_a@,
            env_b: self.env_b@,
            target_port: self.target_port,
            owner: self.owner as int,
        }
    }
}

/// The proxy between two environments: the later one connects to it to reach the earlier.
pub open spec fn proxy_between(names: Seq<Seq<char>>, listen_ports: Seq<u16>, i: int, j: int) -> ProxyPlanView {
    ProxyPlanView { env_a: names[i], env_b: names[j], target_port: listen_ports[i], owner: j }
}

/// The proxies before one environment for those from the next one up to `n`.
pub open spec fn proxy_row(names: Seq<Seq<char>>, listen_ports: Seq<u16>, i: int, n: int) -> Seq<
    ProxyPlanView,
> {
    Seq::new(
        if n > i + 1 {
            (n - i - 1) as nat
        } else {
            0
        },
        |k: int| proxy_between(names, listen_ports, i, i + 1 + k),
    )
}

/// The proxies before the first `n` environments.
pub open spec fn proxy_mesh(names: Seq<Seq<char>>, listen_ports: Seq<u16>, n: int) -> Seq<
    ProxyPlanView,
>
    decreases n,
{
    if n <= 0 {
        seq![]
    } else {
        proxy_mesh(names, listen_ports, n - 1) + proxy_row(
            names,
            listen_ports,
            n - 1,
            names.len() as int,
        )
    }
}

/// Plans the proxies between every two environments.
pub fn plan_proxies(names: &Vec<String>, listen_ports: &Vec<u16>) -> (r: Vec<ProxyPlan>)
    requires
        listen_ports@.len() == names@.len(),
    ensures
        views(r@) == proxy_mesh(views(names@), listen_ports@, names@.len() as int),
{
    let ghost all = views(names@);
    let mut r: Vec<ProxyPlan> = Vec::new();
    let mut i: usize = 0;
    assert(views(r@) =~= proxy_mesh(all, listen_ports@, 0));
    while i < names.len()
        invariant
            i <= names@.len(),
            listen_ports@.len() == names@.len(),
            all == views(names@),
            views(r@) == proxy_mesh(all, listen_ports@, i as int),
        decreases names@.len() - i,
    {
        let ghost done = proxy_mesh(all, listen_ports@, i as int);
        let mut j: usize = i + 1;
        assert(done + proxy_row(all, listen_ports@, i as int, i + 1) =~= done);
        while j < names.len()
            invariant
                i < j <= names@.len(),
                listen_ports@.len() == names@.len(),
                all == views(names@),
                views(r@) == done + proxy_row(all, listen_ports@, i as int, j as int),
            decreases names@.len() - j,
        {
            let ghost before = views(r@);
            let plan = ProxyPlan {
                env_a: names[i].clone(),
                env_b: names[j].clone(),
                target_port: listen_ports[i],
                owner: j,
            };
            r.push(plan);
            assert(views(r@) =~= before.push(plan@));
            assert(views(r@) =~= done + proxy_row(all, listen_ports@, i as int, j + 1));
            j += 1;
        }
        i += 1;
    }
    r
}

/// Every two environments have a proxy between them.
pub proof fn law_proxy_for_every_pair(
    names: Seq<Seq<char>>,
    listen_ports: Seq<u16>,
    n: int,
    i: int,
    j: int,
)
    requires
        0 <= i < j < names.len(),
        i < n <= names.len(),
    ensures
        proxy_mesh(names, listen_ports, n).contains(proxy_between(names, listen_ports, i, j)),
    decreases n,
{
    let x = proxy_between(names, listen_ports, i, j);
    let before = proxy_mesh(names, listen_ports, n - 1);
    let row = proxy_row(names, listen_ports, n - 1, names.len() as int);
    if i < n - 1 {
        law_proxy_for_every_pair(names, listen_ports, n - 1, i, j);
        let k = choose|k: int| 0 <= k < before.len() && before[k] == x;
        assert((before + row)[k] == x);
    } else {
        assert(row[j - n] == x);
        assert((before + row)[before.len() + (j - n)] == x);
    }
}

/// The endpoints of the first `n` proxies that an environment connects to, in order.
pub open spec fn owned_endpoints(owners: Seq<ProxyPlanView>, ports: Seq<u16>, owner: int, n: int) -> Seq<
    Seq<char>,
>
    decreases n,
{
    if n <= 0 {
        seq![]
    } else if owners[n - 1].owner == owner {
        owned_endpoints(owners, ports, owner, n - 1).push(endpoint(ports[n - 1]))
    } else {
        owned_endpoints(owners, ports, owner, n - 1)
    }
}

/// The endpoints that an environment connects to, given the port of each proxy.
pub fn peers_of(proxies: &Vec<ProxyPlan>, ports: &Vec<u16>, owner: usize) -> (r: Vec<String>)
    requires
        ports@.len() == proxies@.len(),
    ensures
        views(r@) == owned_endpoints(
            views(proxies@),
            ports@,
            owner as int,
            proxies@.len() as int,
        ),
{
    let mut r: Vec<String> = Vec::new();
    let mut i: usize = 0;
    assert(views(r@) =~= seq![]);
    while i < proxies.len()
        invariant
            i <= proxies@.len(),
            ports@.len() == proxies@.len(),
            views(r@) == owned_endpoints(views(proxies@), ports@, owner as int, i as int),
        decreases proxies@.len() - i,
    {
        if proxies[i].owner == owner {
            let ghost before = r@;
            let mut text: String = "tcp/127.0.0.1:".to_owned();
            text.append(to_decimal(ports[i] as u64).as_str());
            r.push(text);
            assert(views(r@) =~= views(before).push(endpoint(ports@[i as int])));
        }
        i += 1;
    }
    r
}

/// How an environment is started.
#[derive(Debug)]
pub struct EnvironmentSettings {
    pub auto_connect: bool,
    pub scouting_multicast_enabled: bool,
    pub gossip_enabled: bool,
    pub zenoh_port: u16,
    pub peers: Option<String>,
    pub http_port: u16,
    pub node_id: u64,
    pub members: String,
    pub gateway_timeout_seconds: u64,
    pub gateway_websocket: bool,
}

/// The settings of an environment: it is a cluster of one node, and its session reaches
/// others only through the endpoints that it is given.
pub fn init_environment(port: u16, node_id: u64, listen_port: u16, peers: &Vec<String>) -> (r:
    EnvironmentSettings)
    ensures
        !r.auto_connect,
        !r.scouting_multicast_enabled,
        !r.gossip_enabled,
        r.zenoh_port == listen_port,
        text_view(r.peers) == if peers@.len() > 0 {
            Some(joined(views(peers@), ","@))
        } else {
            None
        },
        r.http_port == port,
        r.node_id == node_id,
        r.members@ == decimal(node_id as nat),
        r.gateway_timeout_seconds == 30,
        r.gateway_websocket,
{
    let peers: Option<String> = if peers.len() > 0 {
        Some(join(peers, ","))
    } else {
        None
    };
    EnvironmentSettings {
        auto_connect: false,
        scouting_multicast_enabled: false,
        gossip_enabled: false,
        zenoh_port: listen_port,
        peers,
        http_port: port,
        node_id,
        members: to_decimal(node_id),
        gateway_timeout_seconds: 30,
        gateway_websocket: true,
    }
}

/// The assignment of a partition to one node, whose number is also that of its shard.
pub open spec fn own_assignment(node_id: u64) -> AssignmentView {
    AssignmentView { primary: Some(node_id), replica: seq![node_id], shard_ids: seq![node_id] }
}

/// The assignments of partitions to one node.
pub open spec fn own_assignments(node_id: u64, partition_count: i32) -> Seq<AssignmentView> {
    Seq::new(
        if partition_count > 1 {
            partition_count as nat
        } else {
            1
        },
        |i: int| own_assignment(node_id),
    )
}

/// The request with its partitions assigned to a node, where nothing was assigned yet.
pub open spec fn assigned(request: CollectionView, node_id: u64) -> CollectionView {
    if request.shard_assignments.len() == 0 {
        CollectionView {
            shard_assignments: own_assignments(node_id, request.partition_count),
            ..request
        }
    } else {
        request
    }
}

/// Assigns the partitions of a collection to a node, so that the shards of different
/// environments have different numbers.
pub fn assign_shards(request: CreateCollectionRequest, node_id: u64) -> (r: CreateCollectionRequest)
    ensures
        r@ == assigned(request@, node_id),
{
    assert(views(request.shard_assignments@).len() == request.shard_assignments@.len());
    if request.shard_assignments.len() > 0 {
        return request;
    }
    let count: i32 = if request.partition_count > 1 {
        request.partition_count
    } else {
        1
    };
    let mut list: Vec<ShardAssignment> = Vec::new();
    let mut i: i32 = 0;
    while i < count
        invariant
            0 <= i <= count,
            count == if request.partition_count > 1 {
                request.partition_count
            } else {
                1
            },
            views(list@) == own_assignments(node_id, request.partition_count).take(i as int),
        decreases count - i,
    {
        let ghost before = list@;
        let mut replica: Vec<u64> = Vec::new();
        replica.push(node_id);
        let mut shard_ids: Vec<u64> = Vec::new();
        shard_ids.push(node_id);
        let one = ShardAssignment { primary: Some(node_id), replica, shard_ids };
        assert(one@ =~= own_assignment(node_id));
        list.push(one);
        assert(views(list@) =~= views(before).push(own_assignment(node_id)));
        i += 1;
    }
    assert(views(list@) =~= own_assignments(node_id, request.partition_count));
    CreateCollectionRequest { shard_assignments: list, ..request }
}

/// Requests with their partitions assigned to a node.
pub open spec fn all_assigned(requests: Seq<CollectionView>, node_id: u64) -> Seq<CollectionView> {
    Seq::new(requests.len(), |i: int| assigned(requests[i], node_id))
}

/// The collections to create in an environment: those of the package that run there, with
/// their partitions assigned to the node of the environment. As many shards are waited for.
pub fn collections_to_create(pkg: &OPackage, env: &str, node_id: u64, cwd: &str) -> (r: Vec<
    CreateCollectionRequest,
>)
    ensures
        views(r@) == all_assigned(collections_of(*pkg, Some(env@), cwd@), node_id),
{
    let mut requests: Vec<CreateCollectionRequest> = create_requests_for_env(pkg, env, cwd);
    let ghost all = views(requests@);
    let ghost want = all_assigned(all, node_id);
    let mut r: Vec<CreateCollectionRequest> = Vec::new();
    while requests.len() > 0
        invariant
            all == collections_of(*pkg, Some(env@), cwd@),
            want == all_assigned(all, node_id),
            requests@.len() + r@.len() == all.len(),
            views(requests@) == all.skip(r@.len() as int),
            views(r@) == want.take(r@.len() as int),
        decreases requests@.len(),
    {
        let ghost before = requests@;
        let ghost done = r@;
        let request: CreateCollectionRequest = requests.remove(0);
        assert(request@ == all[done.len() as int]) by {
            assert(views(before)[0] == before[0]@);
        }
        r.push(assign_shards(request, node_id));
        assert(views(requests@) =~= views(before).skip(1));
        assert(all.skip(done.len() as int).skip(1) =~= all.skip(done.len() as int + 1));
        assert(views(r@) =~= views(done).push(want[done.len() as int]));
        assert(want.take(done.len() as int + 1) =~= want.take(done.len() as int).push(
            want[done.len() as int],
        ));
    }
    assert(want.take(r@.len() as int) =~= want);
    r
}

/// The shards of two nodes have different numbers.
pub proof fn law_shards_apart(a: u64, b: u64)
    requires
        a != b,
    ensures
        own_assignment(a).shard_ids[0] != own_assignment(b).shard_ids[0],
        own_assignment(a).shard_ids.len() == 1,
{
}

/// The number of looks at the shards before they are no longer waited for.
pub const SHARD_ATTEMPTS: u32 = 600;

/// The time between two looks at the shards, in milliseconds.
pub const SHARD_INTERVAL_MS: u64 = 100;

/// The number of looks at a shard's readiness before it is no longer waited for.
pub const READY_ATTEMPTS: u32 = 100;

/// The time between two looks at a shard's readiness, in milliseconds.
pub const READY_INTERVAL_MS: u64 = 50;

/// Whether to wait for shards once more: as long as there are fewer than there should be and
/// not too many looks were taken.
pub fn wait_for_shards(attempts: u32, created: u32, expected: u32) -> (r: bool)
    ensures
        r == (attempts < SHARD_ATTEMPTS && created < expected),
{
    attempts < SHARD_ATTEMPTS && created < expected
}

/// Whether to wait for a shard to become ready once more.
pub fn wait_until_ready(attempts: u32, ready: bool) -> (r: bool)
    ensures
        r == (attempts < READY_ATTEMPTS && !ready),
{
    attempts < READY_ATTEMPTS && !ready
}

} // verus!
