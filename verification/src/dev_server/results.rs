//! What the functions of the development server give back, whatever they are given.
use vstd::prelude::*;
use vstd::string::*;
use crate::dev_server::banner::{banner, print_banner};
use crate::dev_server::config::{
    build_invocations, class_name, class_to_request, collections_of, create_requests_for_env,
    deployment_to_request, env_names_of, extract_env_names, invocation_view, invocations_of,
    package_to_create_requests, resolve_wasm_url, resolved_url, CreateCollectionRequest,
    InvocationRoute,
};
use crate::dev_server::environments::{
    all_assigned, assign_shards, assigned, collections_to_create, init_environment,
    owned_endpoints, peers_of, plan_environments, plan_proxies, proxy_mesh, wait_for_shards,
    wait_until_ready, EnvironmentPlan, EnvironmentSettings, ProxyPlan, CONNECT_WAIT_SECONDS,
    CORS_MAX_AGE_SECONDS, READY_INTERVAL_MS, SHARD_INTERVAL_MS,
};
use crate::dev_server::laws::{
    law_class_collection_shape, law_collection_name, law_collection_option, law_collection_shape,
    names_no_collection,
};
use crate::dev_server::server_laws::{law_environments, law_shown_deployment, law_stand_in};
use crate::dev_server::stub_api::{
    build_stub_api, build_stub_api_at, create_deployment, create_package, delete_deployment,
    deployment_accepted, list_envs, local_topology, script_not_available, stub_path, stub_routes,
    stub_status, stub_verb, with_packages, ClusterInfoStub, DeleteDeploymentResponse,
    ScriptErrorResponse, StatusResponse, StubRoute, StubState, TopologySnapshot,
};
use crate::json::json_member;
use crate::models::deployment::{OClassDeployment, Timestamp};
use crate::models::package::{OClass, OPackage};
use crate::text::chars::{joined, views};
use crate::text::number::decimal;

verus! {

/// The collection of a deployment: by the first name that the deployment lists, or, where it
/// lists none, by the package, a dot and the key of the class; in the shape, with the options and
/// with the calls that deployment and class say.
pub proof fn law_deployment_becomes_collection(
    dep: &OClassDeployment,
    cls: &OClass,
    pkg: &OPackage,
    cwd: &str,
    r: CreateCollectionRequest,
    key: Seq<char>,
)
    requires
        call_ensures(deployment_to_request, (dep, cls, pkg, cwd), r),
    ensures
        names_no_collection(*dep) ==> r.name@ == pkg.name@ + seq!['.'] + cls.key@,
        dep.odgm matches Some(o) ==> o.collections@.len() > 0 ==> r.name@ == o.collections@[0]@,
        r.replica_count == 1,
        r.shard_assignments@.len() == 0,
        (dep.odgm matches Some(o) && o.partition_count is Some) ==> (
        dep.odgm->0.partition_count->0 <= i32::MAX ==> r.partition_count
            == dep.odgm->0.partition_count->0),
        !(dep.odgm matches Some(o) && o.partition_count is Some) ==> r.partition_count == 1,
        (dep.odgm matches Some(o) && o.shard_type is Some) ==> r.shard_type@
            == dep.odgm->0.shard_type->0@,
        !(dep.odgm matches Some(o) && o.shard_type is Some) ==> match cls.state_spec {
            Some(s) => if s.consistency_model is Strong {
                r.shard_type@ == "raft"@
            } else {
                r.shard_type@ == "mst"@
            },
            None => r.shard_type@ == "none"@,
        },
        ({
            let own = dep.odgm matches Some(o) && o.options@.contains_key(key);
            let strong = cls.state_spec matches Some(s) && s.consistency_model is Strong;
            if own {
                r.options@.contains_key(key) && r.options@[key]@ == dep.odgm->0.options@[key]@
            } else if cls.options@.contains_key(key) {
                r.options@.contains_key(key) && r.options@[key]@ == cls.options@[key]@
            } else if key == "invoke_only_primary"@ {
                r.options@.contains_key(key) && r.options@[key]@ == if strong {
                    "true"@
                } else {
                    "false"@
                }
            } else {
                !r.options@.contains_key(key)
            }
        }),
        invocation_view(r.invocations) == invocations_of(*cls, *pkg, cwd@),
{
    law_collection_name(*dep, *cls, *pkg, cwd@);
    law_collection_shape(*dep, *cls, *pkg, cwd@);
    law_collection_option(*dep, *cls, *pkg, cwd@, key);
    assert(r@.shard_assignments.len() == r.shard_assignments@.len());
    assert(r@.options.contains_key(key) == r.options@.contains_key(key));
}

/// The collection of a class without a deployment.
pub proof fn law_class_becomes_collection(
    cls: &OClass,
    pkg: &OPackage,
    cwd: &str,
    r: CreateCollectionRequest,
    key: Seq<char>,
)
    requires
        call_ensures(class_to_request, (cls, pkg, cwd), r),
    ensures
        r.name@ == pkg.name@ + seq!['.'] + cls.key@,
        r.replica_count == 1 && r.partition_count == 1,
        r.shard_assignments@.len() == 0,
        r.shard_type@ == "none"@,
        r.options@.contains_key(key) == cls.options@.contains_key(key),
        cls.options@.contains_key(key) ==> r.options@[key]@ == cls.options@[key]@,
        invocation_view(r.invocations) == invocations_of(*cls, *pkg, cwd@),
{
    reveal_strlit(".");
    assert("."@ =~= seq!['.']);
    law_class_collection_shape(*cls, *pkg, cwd@, key);
    assert(r@.shard_assignments.len() == r.shard_assignments@.len());
    assert(r@.options.contains_key(key) == r.options@.contains_key(key));
}

/// What is made of a package: its collections, with or without an environment and with their
/// nodes, its environments, the calls of a class, its full name and the address of a module.
pub proof fn law_package_functions(
    pkg: &OPackage,
    cls: &OClass,
    env: &str,
    cwd: &str,
    node_id: u64,
    url: &str,
    all: Vec<CreateCollectionRequest>,
    here: Vec<CreateCollectionRequest>,
    placed: Vec<CreateCollectionRequest>,
    names: Vec<String>,
    calls: Option<InvocationRoute>,
    full: String,
    address: String,
)
    requires
        call_ensures(package_to_create_requests, (pkg, cwd), all),
        call_ensures(create_requests_for_env, (pkg, env, cwd), here),
        call_ensures(collections_to_create, (pkg, env, node_id, cwd), placed),
        call_ensures(extract_env_names, (pkg,), names),
        call_ensures(build_invocations, (cls, pkg, cwd), calls),
        call_ensures(class_name, (pkg, cls), full),
        call_ensures(resolve_wasm_url, (url, cwd), address),
    ensures
        views(all@) == collections_of(*pkg, None, cwd@),
        views(here@) == collections_of(*pkg, Some(env@), cwd@),
        views(placed@) == all_assigned(collections_of(*pkg, Some(env@), cwd@), node_id),
        views(names@) == env_names_of(*pkg),
        invocation_view(calls) == invocations_of(*cls, *pkg, cwd@),
        full@ == pkg.name@ + seq!['.'] + cls.key@,
        address@ == resolved_url(url@, cwd@),
{
    reveal_strlit(".");
    assert("."@ =~= seq!['.']);
}

/// The environments that are started: numbered from one, with the ports behind that of the server.
pub proof fn law_environments_are_planned(
    port: u16,
    names: &Vec<String>,
    listen_ports: &Vec<u16>,
    r: Vec<EnvironmentPlan>,
    i: int,
)
    requires
        call_ensures(plan_environments, (port, names, listen_ports), r),
        listen_ports@.len() == names@.len(),
        port + names@.len() <= u16::MAX,
        0 <= i < names@.len(),
    ensures
        r@.len() == names@.len(),
        r@[i].name@ == names@[i]@,
        r@[i].node_id == i + 1,
        r@[i].gateway_port == port + 1 + i,
        r@[i].listen_port == listen_ports@[i],
{
    law_environments(port, views(names@), listen_ports@, i);
    assert(views(r@).len() == r@.len());
    assert(views(r@)[i] == r@[i]@);
    assert(views(names@)[i] == names@[i]@);
}

/// The proxies between environments, the endpoints that an environment connects to, and what a
/// request is assigned.
pub proof fn law_connections_are_planned(
    names: &Vec<String>,
    listen_ports: &Vec<u16>,
    proxies: Vec<ProxyPlan>,
    ports: &Vec<u16>,
    owner: usize,
    peers: Vec<String>,
    request: CreateCollectionRequest,
    node_id: u64,
    r: CreateCollectionRequest,
)
    requires
        call_ensures(plan_proxies, (names, listen_ports), proxies),
        call_ensures(peers_of, (&proxies, ports, owner), peers),
        call_ensures(assign_shards, (request, node_id), r),
        listen_ports@.len() == names@.len(),
        ports@.len() == proxies@.len(),
    ensures
        views(proxies@) == proxy_mesh(views(names@), listen_ports@, names@.len() as int),
        views(peers@) == owned_endpoints(
            views(proxies@),
            ports@,
            owner as int,
            proxies@.len() as int,
        ),
        r@ == assigned(request@, node_id),
{
}

/// An environment is a cluster of one node that finds nobody by itself: it listens on its own
/// ports and connects to the endpoints that it is given, and to nothing where there is none.
pub proof fn law_environment_is_set_up(
    port: u16,
    node_id: u64,
    listen_port: u16,
    peers: &Vec<String>,
    r: EnvironmentSettings,
)
    requires
        call_ensures(init_environment, (port, node_id, listen_port, peers), r),
    ensures
        !r.auto_connect && !r.scouting_multicast_enabled && !r.gossip_enabled,
        r.zenoh_port == listen_port && r.http_port == port && r.node_id == node_id,
        r.members@ == decimal(node_id as nat),
        r.gateway_timeout_seconds == 30 && r.gateway_websocket,
        peers@.len() == 0 <==> r.peers is None,
        r.peers matches Some(p) ==> p@ == joined(views(peers@), ","@),
{
}

/// Shards are waited for as long as some are missing, for at most 600 looks, and a shard to become
/// ready for at most 100.
pub proof fn law_waiting(
    attempts: u32,
    created: u32,
    expected: u32,
    shards: bool,
    ready: bool,
    again: bool,
)
    requires
        call_ensures(wait_for_shards, (attempts, created, expected), shards),
        call_ensures(wait_until_ready, (attempts, ready), again),
    ensures
        shards <==> attempts < 600 && created < expected,
        again <==> attempts < 100 && !ready,
{
}

/// The banner is printed line by line.
pub proof fn law_banner_is_printed(
    pkg: &OPackage,
    port: u16,
    envs: &Vec<EnvironmentPlan>,
    r: Vec<String>,
)
    requires
        call_ensures(print_banner, (pkg, port, envs), r),
    ensures
        views(r@) == banner(*pkg, port, envs@),
{
}

/// What the server shows of a package: its deployments as running, or one for each class where it
/// has none.
pub proof fn law_package_is_shown(
    pkg: OPackage,
    moment: Timestamp,
    at: StubState,
    now: StubState,
    i: int,
)
    requires
        call_ensures(build_stub_api_at, (pkg, moment), at),
        call_ensures(build_stub_api, (pkg,), now),
    ensures
        at.packages@.len() == 1 && at.packages@[0] == pkg,
        now.packages@.len() == 1 && now.packages@[0] == pkg,
        pkg.deployments@.len() > 0 ==> at.deployments@.len() == pkg.deployments@.len()
            && now.deployments@.len() == pkg.deployments@.len(),
        pkg.deployments@.len() == 0 ==> at.deployments@.len() == pkg.classes@.len()
            && now.deployments@.len() == pkg.classes@.len(),
        0 <= i < at.deployments@.len() ==> at.deployments@[i].condition is Running
            && now.deployments@[i].condition is Running,
        0 <= i < pkg.deployments@.len() ==> at.deployments@[i].key == pkg.deployments@[i].key
            && now.deployments@[i].key == pkg.deployments@[i].key,
        pkg.deployments@.len() == 0 && 0 <= i < pkg.classes@.len() ==> at.deployments@[i].key@
            == pkg.name@ + seq!['.'] + pkg.classes@[i].key@ && now.deployments@[i].key@ == pkg.name@
            + seq!['.'] + pkg.classes@[i].key@ && at.deployments@[i].created_at == Some(moment),
{
    if 0 <= i < pkg.deployments@.len() {
        law_shown_deployment(at.deployments@[i], pkg.deployments@[i], pkg);
        law_shown_deployment(now.deployments@[i], pkg.deployments@[i], pkg);
    }
    if pkg.deployments@.len() == 0 && 0 <= i < pkg.classes@.len() {
        law_stand_in(at.deployments@[i], pkg.classes@[i], pkg, moment);
        law_stand_in(
            now.deployments@[i],
            pkg.classes@[i],
            pkg,
            now.deployments@[i].created_at->0,
        );
    }
}

/// What is handed in is accepted under its name or key and not kept; a body that is no JSON
/// document is not accepted; and what is deleted is told by its key.
pub proof fn law_writes_are_accepted(
    name: String,
    created: StatusResponse,
    key: Option<String>,
    accepted: StatusResponse,
    body: &Vec<u8>,
    handed: Option<StatusResponse>,
    gone: DeleteDeploymentResponse,
)
    requires
        call_ensures(create_package, (name,), created),
        call_ensures(deployment_accepted, (key,), accepted),
        call_ensures(create_deployment, (body,), handed),
        call_ensures(delete_deployment, (name,), gone),
    ensures
        created.id == name && created.status@ == "created"@,
        created.message matches Some(m) && m@ == "Dev server: package accepted but not persisted"@,
        key matches Some(k) ==> accepted.id@ == k@,
        key is None ==> accepted.id@ == "unknown"@,
        accepted.status@ == "created"@,
        accepted.message matches Some(m) && m@
            == "Dev server: deployment accepted but not persisted"@,
        handed is Some <==> json_member(body@, "key"@) is Ok,
        (handed is Some && json_member(body@, "key"@) matches Ok(Some(k))) ==> handed->0.id@
            == json_member(body@, "key"@)->Ok_0->0,
        json_member(body@, "key"@) == Ok::<Option<Seq<char>>, Seq<char>>(None) ==> handed->0.id@
            == "unknown"@,
        gone.id == name && gone.message@ == "deleted"@ && gone.deleted_envs@.len() == 0,
{
}

/// What can be read: one healthy environment, the topology of the packages, no script, and a
/// package by its name where it is shown.
pub proof fn law_reads(
    envs: Vec<ClusterInfoStub>,
    script: ScriptErrorResponse,
    state: &StubState,
    topology: TopologySnapshot,
    name: &str,
    found: Option<&OPackage>,
    routes: Vec<StubRoute>,
    i: int,
)
    requires
        call_ensures(list_envs, (), envs),
        call_ensures(script_not_available, (), script),
        call_ensures(StubState::get_topology, (state,), topology),
        call_ensures(StubState::get_package, (state, name), found),
        call_ensures(stub_routes, (), routes),
    ensures
        envs@.len() == 1 && envs@[0].name@ == "local-dev"@ && envs@[0].status@ == "Healthy"@,
        !script.success && script.errors@.len() == 1 && script.errors@[0]@
            == "Script compilation is not available in dev server mode"@,
        topology@ == with_packages(local_topology(), state.packages@),
        found matches Some(p) ==> p.name@ == name@ && state.packages@.contains(*p),
        found is None && 0 <= i < state.packages@.len() ==> state.packages@[i].name@ != name@,
        routes@.len() == 15,
        0 <= i < 15 ==> routes@[i].path@ == stub_path(routes@[i].handler) && routes@[i].verb
            == stub_verb(routes@[i].handler) && routes@[i].status == stub_status(
            routes@[i].handler,
        ),
{
    assert(views(script.errors@).len() == script.errors@.len());
    assert(views(script.errors@)[0] == script.errors@[0]@);
}

/// How long the server waits between two looks and for connections, and how long browsers may
/// keep what it allows.
pub proof fn law_fixed_times()
    ensures
        SHARD_INTERVAL_MS == 100,
        READY_INTERVAL_MS == 50,
        CONNECT_WAIT_SECONDS == 2,
        CORS_MAX_AGE_SECONDS == 3600,
{
}

} // verus!
