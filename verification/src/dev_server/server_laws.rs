//! What the development server starts, shows and prints.
use vstd::prelude::*;
use vstd::string::*;
use crate::dev_server::banner::banner;
use crate::dev_server::config::CollectionView;
use crate::dev_server::environments::{
    all_assigned, assigned, environments, law_proxy_for_every_pair, owned_endpoints,
    proxy_between, proxy_mesh, proxy_row, EnvironmentPlan, ProxyPlanView,
};
use crate::dev_server::stub_api::{
    accepts, local_topology, shown_as, stands_for, stub_handlers, stub_path, stub_status, stub_verb,
    with_classes, with_functions, with_packages, EdgeView, NodeView, StatusResponse, StubHandler,
    TopologyView,
};
use crate::models::deployment::{OClassDeployment, Timestamp};
use crate::models::package::{FunctionBinding, OClass, OPackage};
use crate::text::chars::{joined, padded};
use crate::text::number::decimal;

verus! {

/// Environments are numbered from one, and their gateways take the ports behind that of the
/// server, in the order of their names.
pub proof fn law_environments(port: u16, names: Seq<Seq<char>>, listen_ports: Seq<u16>, i: int)
    requires
        0 <= i < names.len(),
        port + names.len() <= u16::MAX,
    ensures
        environments(port, names, listen_ports).len() == names.len(),
        environments(port, names, listen_ports)[i].name == names[i],
        environments(port, names, listen_ports)[i].node_id == i + 1,
        environments(port, names, listen_ports)[i].gateway_port == port + 1 + i,
        environments(port, names, listen_ports)[i].listen_port == listen_ports[i],
{
}

/// Whether a proxy stands between two environments: the later one connects to it, and it leads
/// to the session of the earlier one.
pub open spec fn stands_between(
    p: ProxyPlanView,
    names: Seq<Seq<char>>,
    listen_ports: Seq<u16>,
    i: int,
    j: int,
) -> bool {
    &&& p.env_a == names[i]
    &&& p.env_b == names[j]
    &&& p.target_port == listen_ports[i]
    &&& p.owner == j
}

/// There is one proxy for each two environments, between those two, and no other.
pub proof fn law_proxies_are_the_pairs(
    names: Seq<Seq<char>>,
    listen_ports: Seq<u16>,
    n: int,
    i: int,
    j: int,
    k: int,
)
    requires
        0 <= n <= names.len(),
    ensures
        2 * proxy_mesh(names, listen_ports, n).len() == n * (2 * names.len() - n - 1),
        0 <= i < n && i < j < names.len() ==> exists|m: int|
            0 <= m < proxy_mesh(names, listen_ports, n).len() && stands_between(
                #[trigger] proxy_mesh(names, listen_ports, n)[m],
                names,
                listen_ports,
                i,
                j,
            ),
        0 <= k < proxy_mesh(names, listen_ports, n).len() ==> exists|a: int, b: int|
            0 <= a < n && a < b < names.len() && #[trigger] stands_between(
                proxy_mesh(names, listen_ports, n)[k],
                names,
                listen_ports,
                a,
                b,
            ),
    decreases n,
{
    let all = proxy_mesh(names, listen_ports, n);
    if 0 <= i < n && i < j < names.len() {
        law_proxy_for_every_pair(names, listen_ports, n, i, j);
        let m = choose|m: int|
            0 <= m < all.len() && all[m] == proxy_between(names, listen_ports, i, j);
        assert(stands_between(all[m], names, listen_ports, i, j));
    }
    if n > 0 {
        let before = proxy_mesh(names, listen_ports, n - 1);
        let row = proxy_row(names, listen_ports, n - 1, names.len() as int);
        law_proxies_are_the_pairs(names, listen_ports, n - 1, i, j, k);
        let len = names.len() as int;
        assert((n - 1) * (2 * len - (n - 1) - 1) + 2 * (len - n) == n * (2 * len - n - 1))
            by (nonlinear_arith);
        if 0 <= k < before.len() {
            let (a, b) = choose|a: int, b: int|
                0 <= a < n - 1 && a < b < names.len() && #[trigger] stands_between(
                    before[k],
                    names,
                    listen_ports,
                    a,
                    b,
                );
            assert(all[k] == before[k]);
            assert(0 <= a < n);
            assert(stands_between(all[k], names, listen_ports, a, b));
        } else if before.len() <= k < all.len() {
            assert(all[k] == row[k - before.len()]);
            assert(stands_between(all[k], names, listen_ports, n - 1, n + (k - before.len())));
        }
    }
}

/// An environment connects to the local ports of its own proxies, in their order, and to no
/// other.
pub proof fn law_own_endpoints(
    proxies: Seq<ProxyPlanView>,
    ports: Seq<u16>,
    owner: int,
    n: int,
)
    requires
        0 <= n,
    ensures
        owned_endpoints(proxies, ports, owner, 0).len() == 0,
        proxies[n].owner == owner ==> owned_endpoints(proxies, ports, owner, n + 1)
            == owned_endpoints(proxies, ports, owner, n).push(
            "tcp/127.0.0.1:"@ + decimal(ports[n] as nat),
        ),
        proxies[n].owner != owner ==> owned_endpoints(proxies, ports, owner, n + 1)
            == owned_endpoints(proxies, ports, owner, n),
{
}

/// A collection to which no node is assigned gets the node for each of its partitions, at least
/// for one: as primary, as only replica and as the number of the shard. Nothing else changes, and
/// a collection with assignments stays as it is.
pub proof fn law_assigned(request: CollectionView, node_id: u64, i: int)
    ensures
        ({
            let r = assigned(request, node_id);
            let count = if request.partition_count > 1 {
                request.partition_count as int
            } else {
                1
            };
            &&& r.name == request.name
            &&& r.partition_count == request.partition_count
            &&& r.replica_count == request.replica_count
            &&& r.shard_type == request.shard_type
            &&& r.options == request.options
            &&& r.invocations == request.invocations
            &&& request.shard_assignments.len() > 0 ==> r.shard_assignments
                == request.shard_assignments
            &&& request.shard_assignments.len() == 0 ==> r.shard_assignments.len() == count
            &&& request.shard_assignments.len() == 0 && 0 <= i < count ==> {
                &&& r.shard_assignments[i].primary == Some(node_id)
                &&& r.shard_assignments[i].replica == seq![node_id]
                &&& r.shard_assignments[i].shard_ids == seq![node_id]
            }
        }),
{
}

/// Each request of a list gets its own assignment, in the order of the list.
pub proof fn law_all_assigned(requests: Seq<CollectionView>, node_id: u64, i: int)
    ensures
        all_assigned(requests, node_id).len() == requests.len(),
        0 <= i < requests.len() ==> all_assigned(requests, node_id)[i] == assigned(
            requests[i],
            node_id,
        ),
{
}

/// The lines of the banner. A frame holds the address of the server and, for each environment,
/// its name and the address of its gateway; below it stand the package, a hint where there is
/// more than one environment, and each class with its functions.
pub proof fn law_banner(pkg: OPackage, port: u16, envs: Seq<EnvironmentPlan>, i: int)
    ensures
        ({
            let lines = banner(pkg, port, envs);
            let n = envs.len() as int;
            let hint: int = if n > 1 {
                1
            } else {
                0
            };
            &&& lines.len() == 6 + n + hint + pkg.classes@.len()
            &&& lines[0] == "╔══════════════════════════════════════════╗"@
            &&& lines[1] == "║       OaaS Local Dev Server              ║"@
            &&& lines[2] == "╠══════════════════════════════════════════╣"@
            &&& lines[3] == "║  PM API:  http://localhost:"@ + padded(decimal(port as nat), 14)
                + "║"@
            &&& 0 <= i < n ==> lines[4 + i] == "║  "@ + padded(envs[i].name@, 7)
                + "  http://localhost:"@ + padded(decimal(envs[i].gateway_port as nat), 14) + "║"@
            &&& lines[4 + n] == "╚══════════════════════════════════════════╝"@
            &&& lines[5 + n] == "  Package: "@ + pkg.name@
            &&& n > 1 ==> lines[6 + n] == "  Network debug: /api/debug/network"@
            &&& 0 <= i < pkg.classes@.len() ==> {
                let cls = pkg.classes@[i];
                let names = Seq::new(
                    cls.function_bindings@.len(),
                    |k: int| cls.function_bindings@[k].name@,
                );
                &&& names.len() == 0 ==> lines[6 + n + hint + i] == "  Class: "@ + cls.key@
                    + " (no functions)"@
                &&& names.len() > 0 ==> lines[6 + n + hint + i] == "  Class: "@ + cls.key@
                    + " → ["@ + joined(names, ", "@) + "]"@
            }
        }),
{
    if 0 <= i < pkg.classes@.len() {
        let cls = pkg.classes@[i];
        assert(crate::dev_server::banner::binding_names(cls.function_bindings@) =~= Seq::new(
            cls.function_bindings@.len(),
            |k: int| cls.function_bindings@[k].name@,
        ));
    }
}

/// What is shown of a deployment of the package: all that it says, with the package where it
/// names none, as running, and in the local environment where it names none.
pub proof fn law_shown_deployment(shown: OClassDeployment, dep: OClassDeployment, pkg: OPackage)
    requires
        shown_as(shown, dep, pkg),
    ensures
        shown.key == dep.key,
        shown.class_key == dep.class_key,
        shown.condition is Running,
        dep.package_name@.len() == 0 ==> shown.package_name@ == pkg.name@,
        dep.package_name@.len() > 0 ==> shown.package_name@ == dep.package_name@,
        dep.target_envs@.len() == 0 ==> shown.target_envs@.len() == 1 && shown.target_envs@[0]@
            == "local-dev"@,
        dep.target_envs@.len() > 0 ==> shown.target_envs@.len() == dep.target_envs@.len()
            && forall|i: int|
            0 <= i < dep.target_envs@.len() ==> (#[trigger] shown.target_envs@[i])@
                == dep.target_envs@[i]@,
{
    let a = crate::text::chars::views(shown.target_envs@);
    let b = crate::text::chars::views(dep.target_envs@);
    assert(a.len() == shown.target_envs@.len());
    if dep.target_envs@.len() == 0 {
        assert(a[0] == "local-dev"@);
    } else {
        assert forall|i: int| 0 <= i < dep.target_envs@.len() implies (
        #[trigger] shown.target_envs@[i])@ == dep.target_envs@[i]@ by {
            assert(a[i] == b[i]);
        }
    }
}

/// What is shown of a class without a deployment: one under its full name, running in the local
/// environment, made at the moment and otherwise empty.
pub proof fn law_stand_in(shown: OClassDeployment, cls: OClass, pkg: OPackage, moment: Timestamp)
    requires
        stands_for(shown, cls, pkg, moment),
    ensures
        shown.key@ == pkg.name@ + seq!['.'] + cls.key@,
        shown.package_name@ == pkg.name@,
        shown.class_key@ == cls.key@,
        shown.condition is Running,
        shown.target_envs@.len() == 1,
        shown.target_envs@[0]@ == "local-dev"@,
        shown.available_envs@.len() == 0,
        shown.functions@.len() == 0,
        shown.odgm is None,
        shown.status is None,
        shown.telemetry is None,
        shown.nfr_requirements is None,
        shown.created_at == Some(moment),
        shown.updated_at == Some(moment),
{
    reveal_strlit(".");
    assert("."@ =~= seq!['.']);
    let a = crate::text::chars::views(shown.target_envs@);
    assert(a.len() == shown.target_envs@.len());
    assert(a[0] == "local-dev"@);
}

/// A deployment that is handed in is accepted under its key, or as `unknown`, and not kept.
pub proof fn law_accepted(r: StatusResponse, key: Option<Seq<char>>)
    requires
        accepts(r, key),
    ensures
        key matches Some(k) ==> r.id@ == k,
        key is None ==> r.id@ == "unknown"@,
        r.status@ == "created"@,
        r.message matches Some(m) && m@ == "Dev server: deployment accepted but not persisted"@,
{
}

/// A node that is only named.
pub open spec fn bare_node(id: Seq<char>, node_type: Seq<char>) -> NodeView {
    NodeView { id, node_type, status: None, plain: true }
}

/// The topology begins with the local environment, which is healthy.
pub proof fn law_topology_begins()
    ensures
        local_topology().edges.len() == 0,
        local_topology().nodes.len() == 1,
        local_topology().nodes[0] == (NodeView {
            id: "env:local-dev"@,
            node_type: "environment"@,
            status: Some("Healthy"@),
            plain: true,
        }),
{
}

/// Each package adds a node and then its classes.
pub proof fn law_package_in_topology(t: TopologyView, packages: Seq<OPackage>, pkg: OPackage)
    ensures
        with_packages(t, seq![]) == t,
        ({
            let before = with_packages(t, packages);
            with_packages(t, packages.push(pkg)) == with_classes(
                TopologyView {
                    nodes: before.nodes.push(bare_node("pkg:"@ + pkg.name@, "package"@)),
                    edges: before.edges,
                },
                pkg,
                pkg.classes@,
            )
        }),
{
    assert(packages.push(pkg).drop_last() =~= packages);
}

/// Each class adds a node, an edge from its package, an edge to the local environment, and then
/// its functions.
pub proof fn law_class_in_topology(t: TopologyView, pkg: OPackage, classes: Seq<OClass>, cls: OClass)
    ensures
        with_classes(t, pkg, seq![]) == t,
        ({
            let before = with_classes(t, pkg, classes);
            let id = "cls:"@ + (pkg.name@ + "."@ + cls.key@);
            with_classes(t, pkg, classes.push(cls)) == with_functions(
                TopologyView {
                    nodes: before.nodes.push(bare_node(id, "class"@)),
                    edges: before.edges.push(
                        EdgeView { from_id: "pkg:"@ + pkg.name@, to_id: id },
                    ).push(EdgeView { from_id: id, to_id: "env:local-dev"@ }),
                },
                pkg,
                cls,
                cls.function_bindings@,
            )
        }),
{
    assert(classes.push(cls).drop_last() =~= classes);
}

/// Each function adds a node and an edge from its class.
pub proof fn law_function_in_topology(
    t: TopologyView,
    pkg: OPackage,
    cls: OClass,
    bindings: Seq<FunctionBinding>,
    b: FunctionBinding,
)
    ensures
        with_functions(t, pkg, cls, seq![]) == t,
        ({
            let before = with_functions(t, pkg, cls, bindings);
            let after = with_functions(t, pkg, cls, bindings.push(b));
            let id = "fn:"@ + (pkg.name@ + "."@ + cls.key@) + ":"@ + b.name@;
            &&& after.nodes == before.nodes.push(bare_node(id, "function"@))
            &&& after.edges == before.edges.push(
                EdgeView { from_id: "cls:"@ + (pkg.name@ + "."@ + cls.key@), to_id: id },
            )
        }),
{
    assert(bindings.push(b).drop_last() =~= bindings);
}

/// What is handed in is sent by `POST`, what is deleted by `DELETE`, and everything else is read
/// by `GET`. What is handed in counts as created, a deleted package leaves nothing to tell, and
/// scripts are neither worked on nor found.
pub proof fn law_operations_of_the_server(h: StubHandler)
    ensures
        stub_verb(h) is Post <==> h is CreatePackage || h is CreateDeployment || h is CompileScript
            || h is BuildScript || h is DeployScript || h is TestScript,
        stub_verb(h) is Delete <==> h is DeletePackage || h is DeleteDeployment,
        stub_status(h) == 201 <==> h is CreatePackage || h is CreateDeployment,
        stub_status(h) == 204 <==> h is DeletePackage,
        stub_status(h) == 404 <==> h is ScriptSource,
        stub_status(h) == 501 <==> h is CompileScript || h is BuildScript || h is DeployScript || h
            is TestScript,
        stub_status(h) == 200 <==> h is ListPackages || h is GetPackage || h is ListDeployments || h
            is DeleteDeployment || h is ListEnvs || h is GetTopology || h is ListArtifacts,
        stub_handlers().contains(h),
        stub_handlers().len() == 15,
{
    let all = stub_handlers();
    assert(all[0] == StubHandler::ListPackages && all[1] == StubHandler::CreatePackage && all[2]
        == StubHandler::GetPackage && all[3] == StubHandler::DeletePackage && all[4]
        == StubHandler::ListDeployments && all[5] == StubHandler::CreateDeployment && all[6]
        == StubHandler::DeleteDeployment && all[7] == StubHandler::ListEnvs);
    assert(all[8] == StubHandler::GetTopology && all[9] == StubHandler::ListArtifacts && all[10]
        == StubHandler::CompileScript && all[11] == StubHandler::BuildScript && all[12]
        == StubHandler::DeployScript && all[13] == StubHandler::TestScript && all[14]
        == StubHandler::ScriptSource);
}

/// Where the operations are found: packages, deployments, environments, the topology, artifacts
/// and scripts each under their own path, and a single package, deployment or script under it.
pub proof fn law_paths_of_the_server(h: StubHandler)
    ensures
        h is ListPackages || h is CreatePackage ==> stub_path(h) == "/api/v1/packages"@,
        h is GetPackage || h is DeletePackage ==> stub_path(h) == "/api/v1/packages/{name}"@,
        h is ListDeployments || h is CreateDeployment ==> stub_path(h) == "/api/v1/deployments"@,
        h is DeleteDeployment ==> stub_path(h) == "/api/v1/deployments/{key}"@,
        h is ListEnvs ==> stub_path(h) == "/api/v1/envs"@,
        h is GetTopology ==> stub_path(h) == "/api/v1/topology"@,
        h is ListArtifacts ==> stub_path(h) == "/api/v1/artifacts"@,
        h is CompileScript ==> stub_path(h) == "/api/v1/scripts/compile"@,
        h is BuildScript ==> stub_path(h) == "/api/v1/scripts/build"@,
        h is DeployScript ==> stub_path(h) == "/api/v1/scripts/deploy"@,
        h is TestScript ==> stub_path(h) == "/api/v1/scripts/test"@,
        h is ScriptSource ==> stub_path(h) == "/api/v1/scripts/{package}/{function}"@,
{
}

} // verus!
