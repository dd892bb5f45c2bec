use oprc::dev_server::banner::print_banner;
use oprc::dev_server::config::{
    create_requests_for_env, extract_env_names, package_to_create_requests, resolve_wasm_url,
};
use oprc::dev_server::environments::{
    assign_shards, collections_to_create, init_environment, peers_of, plan_environments,
    plan_proxies, wait_for_shards, wait_until_ready,
};
use oprc::dev_server::stub_api::{
    build_stub_api, build_stub_api_at, create_deployment, create_package, default_topo_source,
    delete_deployment, deployment_accepted, list_envs, script_not_available, stub_routes, StubHandler, StubVerb,
};
use oprc::models::deployment::{OClassDeployment, OdgmDataSpec, ProvisionConfig, Timestamp};
use oprc::models::enums::{
    ConsistencyModel, DeploymentCondition, FunctionAccessModifier, FunctionType,
};
use oprc::models::package::{FunctionBinding, OClass, OFunction, OPackage, StateSpecification};
use oprc::text_map::TextMap;

fn s(t: &str) -> String {
    t.to_string()
}

fn class(key: &str, consistency: Option<ConsistencyModel>) -> OClass {
    OClass {
        key: s(key),
        description: None,
        state_spec: consistency.map(|c| StateSpecification {
            consistency_model: c,
            ..Default::default()
        }),
        function_bindings: vec![],
        options: TextMap::new(),
    }
}

fn package(name: &str, classes: Vec<OClass>) -> OPackage {
    OPackage {
        name: s(name),
        version: None,
        classes,
        functions: vec![],
        dependencies: vec![],
        deployments: vec![],
        metadata: None,
    }
}

fn deployment(key: &str, envs: &[&str]) -> OClassDeployment {
    OClassDeployment {
        key: s(key),
        package_name: s("sync-test"),
        class_key: s(key),
        target_envs: envs.iter().map(|e| e.to_string()).collect(),
        ..Default::default()
    }
}

fn binding(name: &str, function: &str, stateless: bool) -> FunctionBinding {
    FunctionBinding {
        name: s(name),
        function_key: s(function),
        access_modifier: FunctionAccessModifier::Public,
        stateless,
    }
}

fn function(key: &str, url: Option<&str>, fuel: Option<u64>) -> OFunction {
    OFunction {
        key: s(key),
        function_type: FunctionType::Wasm,
        description: None,
        provision_config: Some(ProvisionConfig {
            wasm_module_url: url.map(|u| u.to_string()),
            wasm_fuel: fuel,
            other: None,
        }),
        config: TextMap::new(),
    }
}

fn make_sync_test_package() -> OPackage {
    let mut pkg =
        package("sync-test", vec![class("counter", Some(ConsistencyModel::ReadYourWrite))]);
    pkg.deployments = vec![deployment("counter", &["cloud", "edge"])];
    pkg
}

#[test]
fn config_derives_mst_shard_type() {
    let pkg = make_sync_test_package();
    let reqs = create_requests_for_env(&pkg, "cloud", "/work");
    assert_eq!(reqs.len(), 1);
    assert_eq!(
        reqs[0].shard_type, "mst",
        "READ_YOUR_WRITE should produce shard_type 'mst'"
    );
}

#[test]
fn environments_come_from_deployments() {
    let mut pkg = make_sync_test_package();
    assert_eq!(extract_env_names(&pkg), ["cloud", "edge"]);
    pkg.deployments.push(deployment("counter", &["edge", "fog", "cloud"]));
    assert_eq!(extract_env_names(&pkg), ["cloud", "edge", "fog"]);
    pkg.deployments = vec![deployment("counter", &[])];
    assert_eq!(extract_env_names(&pkg), ["local-dev"]);
    pkg.deployments = vec![];
    assert_eq!(extract_env_names(&pkg), ["local-dev"]);
}

#[test]
fn deployments_run_where_they_are_sent() {
    let mut pkg = make_sync_test_package();
    pkg.classes.push(class("log", None));
    pkg.deployments.push(deployment("log", &[]));
    pkg.deployments.push(deployment("missing", &[]));
    assert_eq!(create_requests_for_env(&pkg, "cloud", "").len(), 2);
    assert_eq!(create_requests_for_env(&pkg, "fog", "").len(), 1);
    let all = package_to_create_requests(&pkg, "");
    let names: Vec<&str> = all.iter().map(|r| r.name.as_str()).collect();
    assert_eq!(names, ["sync-test.counter", "sync-test.log"]);
}

#[test]
fn shard_types_follow_consistency() {
    for (consistency, expected, primary) in [
        (Some(ConsistencyModel::Strong), "raft", "true"),
        (Some(ConsistencyModel::BoundedStaleness), "mst", "false"),
        (Some(ConsistencyModel::Unspecified), "mst", "false"),
        (None, "none", "false"),
    ] {
        let mut pkg = package("p", vec![class("c", consistency)]);
        pkg.deployments = vec![deployment("c", &[])];
        let reqs = package_to_create_requests(&pkg, "");
        assert_eq!(reqs[0].shard_type, expected);
        assert_eq!(reqs[0].options.get("invoke_only_primary").unwrap(), primary);
    }
}

#[test]
fn deployment_settings_win() {
    let mut cls = class("c", Some(ConsistencyModel::Strong));
    cls.options.insert(s("a"), s("class"));
    cls.options.insert(s("b"), s("class"));
    let mut pkg = package("p", vec![cls]);
    let mut dep = deployment("c", &[]);
    let mut odgm = OdgmDataSpec::default();
    odgm.collections = vec![s("first"), s("second")];
    odgm.partition_count = Some(4);
    odgm.replica_count = Some(3);
    odgm.shard_type = Some(s("basic"));
    odgm.options.insert(s("b"), s("deployment"));
    odgm.options.insert(s("invoke_only_primary"), s("false"));
    dep.odgm = Some(odgm);
    pkg.deployments = vec![dep];
    let reqs = package_to_create_requests(&pkg, "");
    assert_eq!(reqs[0].name, "first");
    assert_eq!(reqs[0].partition_count, 4);
    assert_eq!(reqs[0].replica_count, 1);
    assert_eq!(reqs[0].shard_type, "basic");
    assert_eq!(reqs[0].options.get("a").unwrap(), "class");
    assert_eq!(reqs[0].options.get("b").unwrap(), "deployment");
    assert_eq!(reqs[0].options.get("invoke_only_primary").unwrap(), "false");
    assert!(reqs[0].shard_assignments.is_empty());
}

#[test]
fn partition_counts_beyond_the_range_wrap() {
    let mut pkg = package("p", vec![class("c", None)]);
    let mut dep = deployment("c", &[]);
    let mut odgm = OdgmDataSpec::default();
    odgm.partition_count = Some(u32::MAX);
    dep.odgm = Some(odgm);
    pkg.deployments = vec![dep];
    assert_eq!(package_to_create_requests(&pkg, "")[0].partition_count, -1);
}

#[test]
fn classes_without_deployments_have_collections() {
    let mut cls = class("c", Some(ConsistencyModel::Strong));
    cls.options.insert(s("a"), s("1"));
    let pkg = package("p", vec![cls, class("d", None)]);
    let reqs = package_to_create_requests(&pkg, "");
    assert_eq!(reqs.len(), 2);
    assert_eq!(reqs[0].name, "p.c");
    assert_eq!(reqs[0].shard_type, "none");
    assert_eq!(reqs[0].options.len(), 1);
    assert!(reqs[0].invocations.is_none());
    assert_eq!(reqs[1].name, "p.d");
}

#[test]
fn bindings_become_routes() {
    let mut cls = class("c", None);
    cls.function_bindings = vec![
        binding("run", "f", true),
        binding("bare", "missing", false),
        binding("twice", "f", false),
        binding("twice", "g", true),
    ];
    let mut pkg = package("p", vec![cls]);
    pkg.functions = vec![
        function("f", Some("f.wasm"), Some(100)),
        function("f", Some("other.wasm"), None),
        function("g", None, None),
    ];
    let reqs = package_to_create_requests(&pkg, "/work");
    let routes = &reqs[0].invocations.as_ref().unwrap().fn_routes;
    assert_eq!(routes.len(), 3);
    let run = routes.get("run").unwrap();
    assert_eq!(run.url, "wasm://run");
    assert_eq!(run.wasm_module_url.as_deref(), Some("file:///work/f.wasm"));
    assert_eq!(run.wasm_fuel, Some(100));
    assert!(run.stateless && !run.standby);
    let bare = routes.get("bare").unwrap();
    assert_eq!((bare.wasm_module_url.as_deref(), bare.wasm_fuel), (None, None));
    let twice = routes.get("twice").unwrap();
    assert!(twice.stateless);
    assert_eq!(twice.wasm_module_url, None);
}

#[test]
fn module_addresses_are_resolved() {
    assert_eq!(resolve_wasm_url("https://x/y.wasm", "/w"), "https://x/y.wasm");
    assert_eq!(resolve_wasm_url("oci://x/y:z", "/w"), "oci://x/y:z");
    assert_eq!(resolve_wasm_url("/abs/y.wasm", "/w"), "file:///abs/y.wasm");
    assert_eq!(resolve_wasm_url("./y.wasm", "/w"), "file:///w/./y.wasm");
    assert_eq!(resolve_wasm_url("y.wasm", "/"), "file:///y.wasm");
    assert_eq!(resolve_wasm_url("y.wasm", ""), "file://y.wasm");
    for (cwd, path) in [("/w", "y"), ("/w/", "y"), ("", "y"), ("/w", "")] {
        let joined = std::path::Path::new(cwd).join(path);
        assert_eq!(resolve_wasm_url(path, cwd), format!("file://{}", joined.display()));
    }
}

#[test]
fn environments_are_planned() {
    let names = vec![s("cloud"), s("edge"), s("fog")];
    let ports = vec![7001, 7002, 7003];
    let plans = plan_environments(8080, &names, &ports);
    assert_eq!(plans[0].gateway_port, 8081);
    assert_eq!(plans[2].gateway_port, 8083);
    assert_eq!(plans[2].node_id, 3);
    assert_eq!(plans[1].listen_port, 7002);
    let proxies = plan_proxies(&names, &ports);
    let got: Vec<(&str, &str, u16, usize)> = proxies
        .iter()
        .map(|p| (p.env_a.as_str(), p.env_b.as_str(), p.target_port, p.owner))
        .collect();
    assert_eq!(
        got,
        [("cloud", "edge", 7001, 1), ("cloud", "fog", 7001, 2), ("edge", "fog", 7002, 2)]
    );
    let started = vec![1, 2, 3];
    assert_eq!(peers_of(&proxies, &started, 0).len(), 0);
    assert_eq!(peers_of(&proxies, &started, 2), ["tcp/127.0.0.1:2", "tcp/127.0.0.1:3"]);
    assert_eq!(plan_proxies(&vec![s("a")], &vec![1]).len(), 0);
}

#[test]
fn environments_have_settings() {
    let settings = init_environment(8080, 2, 7002, &vec![s("tcp/a"), s("tcp/b")]);
    assert!(!settings.auto_connect);
    assert!(!settings.scouting_multicast_enabled && !settings.gossip_enabled);
    assert_eq!(settings.zenoh_port, 7002);
    assert_eq!(settings.peers.as_deref(), Some("tcp/a,tcp/b"));
    assert_eq!(settings.http_port, 8080);
    assert_eq!(settings.members, "2");
    assert_eq!(settings.gateway_timeout_seconds, 30);
    assert!(settings.gateway_websocket);
    assert_eq!(init_environment(8080, 1, 7001, &vec![]).peers, None);
}

#[test]
fn shards_are_assigned_to_the_node() {
    let mut pkg = package("p", vec![class("c", None)]);
    let mut dep = deployment("c", &[]);
    let mut odgm = OdgmDataSpec::default();
    odgm.partition_count = Some(2);
    dep.odgm = Some(odgm);
    pkg.deployments = vec![dep];
    let request = package_to_create_requests(&pkg, "").remove(0);
    let assigned = assign_shards(request, 7);
    assert_eq!(assigned.shard_assignments.len(), 2);
    assert_eq!(assigned.shard_assignments[1].primary, Some(7));
    assert_eq!(assigned.shard_assignments[1].replica, [7]);
    assert_eq!(assigned.shard_assignments[1].shard_ids, [7]);
    let again = assign_shards(assigned, 9);
    assert_eq!(again.shard_assignments[0].primary, Some(7));
    pkg.deployments[0].odgm.as_mut().unwrap().partition_count = Some(0);
    let request = package_to_create_requests(&pkg, "").remove(0);
    assert_eq!(assign_shards(request, 7).shard_assignments.len(), 1);
}

#[test]
fn collections_are_created_for_the_node() {
    let mut pkg = make_sync_test_package();
    pkg.classes.push(class("log", None));
    pkg.deployments.push(deployment("log", &["fog"]));
    let list = collections_to_create(&pkg, "edge", 2, "");
    assert_eq!(list.len(), 1);
    assert_eq!(list[0].name, "sync-test.counter");
    assert_eq!(list[0].shard_assignments[0].shard_ids, [2]);
    pkg.deployments[1].target_envs.clear();
    let list = collections_to_create(&pkg, "edge", 2, "");
    let names: Vec<&str> = list.iter().map(|r| r.name.as_str()).collect();
    assert_eq!(names, ["sync-test.counter", "sync-test.log"]);
}

#[test]
fn waiting_has_an_end() {
    assert!(wait_for_shards(0, 1, 2));
    assert!(!wait_for_shards(0, 2, 2));
    assert!(!wait_for_shards(600, 0, 2));
    assert!(wait_until_ready(99, false));
    assert!(!wait_until_ready(100, false));
    assert!(!wait_until_ready(0, true));
}

#[test]
fn banner_shows_addresses_and_classes() {
    let mut cls = class("c", None);
    cls.function_bindings = vec![binding("f", "f", false), binding("g", "g", false)];
    let pkg = package("demo", vec![cls, class("d", None)]);
    let plans = plan_environments(8080, &vec![s("cloud"), s("far-edge-1")], &vec![1, 2]);
    let lines = print_banner(&pkg, 8080, &plans);
    let port = 8080;
    assert_eq!(lines[0], "╔══════════════════════════════════════════╗");
    assert_eq!(lines[3], format!("║  PM API:  http://localhost:{:<14}║", port));
    for (i, env) in plans.iter().enumerate() {
        assert_eq!(
            lines[4 + i],
            format!("║  {:7}  http://localhost:{:<14}║", env.name, env.gateway_port)
        );
    }
    assert_eq!(lines[6], "╚══════════════════════════════════════════╝");
    assert_eq!(lines[7], "  Package: demo");
    assert_eq!(lines[8], "  Network debug: /api/debug/network");
    assert_eq!(lines[9], "  Class: c → [f, g]");
    assert_eq!(lines[10], "  Class: d (no functions)");
    assert_eq!(lines.len(), 11);
    let one = plan_environments(8080, &vec![s("local-dev")], &vec![1]);
    assert_eq!(print_banner(&pkg, 8080, &one).len(), 9);
}

#[test]
fn deployments_are_shown_running() {
    let mut pkg = make_sync_test_package();
    pkg.deployments[0].package_name = s("");
    pkg.deployments.push(deployment("other", &[]));
    pkg.deployments[1].package_name = s("theirs");
    let state = build_stub_api(pkg);
    assert_eq!(state.packages.len(), 1);
    assert_eq!(state.deployments.len(), 2);
    assert_eq!(state.deployments[0].package_name, "sync-test");
    assert_eq!(state.deployments[0].target_envs, ["cloud", "edge"]);
    assert_eq!(state.deployments[0].condition, DeploymentCondition::Running);
    assert_eq!(state.deployments[1].package_name, "theirs");
    assert_eq!(state.deployments[1].target_envs, ["local-dev"]);
}

#[test]
fn classes_are_shown_without_deployments() {
    let moment = Timestamp { seconds: 1, nanos: 2 };
    let pkg = package("p", vec![class("c", None)]);
    let state = build_stub_api_at(pkg, moment);
    let d = &state.deployments[0];
    assert_eq!(d.key, "p.c");
    assert_eq!(d.class_key, "c");
    assert_eq!(d.package_name, "p");
    assert_eq!(d.condition, DeploymentCondition::Running);
    assert_eq!(d.target_envs, ["local-dev"]);
    assert_eq!(d.created_at, Some(moment));
    assert_eq!(state.get_package("p").unwrap().name, "p");
    assert!(state.get_package("q").is_none());
    let now = build_stub_api(package("p", vec![class("c", None)]));
    assert!(now.deployments[0].created_at.unwrap().seconds > 1_600_000_000);
}

#[test]
fn topology_joins_packages_classes_and_functions() {
    let mut cls = class("c", None);
    cls.function_bindings = vec![binding("f", "f", false)];
    let state = build_stub_api(package("p", vec![cls, class("d", None)]));
    let topology = state.get_topology();
    let nodes: Vec<(&str, &str)> =
        topology.nodes.iter().map(|n| (n.id.as_str(), n.node_type.as_str())).collect();
    assert_eq!(
        nodes,
        [
            ("env:local-dev", "environment"),
            ("pkg:p", "package"),
            ("cls:p.c", "class"),
            ("fn:p.c:f", "function"),
            ("cls:p.d", "class"),
        ]
    );
    assert_eq!(topology.nodes[0].status.as_deref(), Some("Healthy"));
    assert!(topology.nodes[1].status.is_none());
    let edges: Vec<(&str, &str)> =
        topology.edges.iter().map(|e| (e.from_id.as_str(), e.to_id.as_str())).collect();
    assert_eq!(
        edges,
        [
            ("pkg:p", "cls:p.c"),
            ("cls:p.c", "env:local-dev"),
            ("cls:p.c", "fn:p.c:f"),
            ("pkg:p", "cls:p.d"),
            ("cls:p.d", "env:local-dev"),
        ]
    );
    for e in &topology.edges {
        assert!(topology.nodes.iter().any(|n| n.id == e.from_id));
        assert!(topology.nodes.iter().any(|n| n.id == e.to_id));
    }
}

#[test]
fn management_requests_are_answered() {
    let created = create_package(s("p"));
    assert_eq!((created.id.as_str(), created.status.as_str()), ("p", "created"));
    assert_eq!(
        created.message.as_deref(),
        Some("Dev server: package accepted but not persisted")
    );
    assert_eq!(deployment_accepted(Some(s("k"))).id, "k");
    assert_eq!(deployment_accepted(None).id, "unknown");
    let named = br#"{"class_key": "c", "key": "k"}"#.to_vec();
    assert_eq!(create_deployment(&named).unwrap().id, "k");
    assert_eq!(create_deployment(&b"{\"key\": 7}".to_vec()).unwrap().id, "unknown");
    assert!(create_deployment(&b"{".to_vec()).is_none());
    let created = create_deployment(&b"{}".to_vec()).unwrap();
    assert_eq!(created.id, "unknown");
    assert_eq!(
        created.message.as_deref(),
        Some("Dev server: deployment accepted but not persisted")
    );
    let deleted = delete_deployment(s("k"));
    assert_eq!((deleted.id.as_str(), deleted.message.as_str()), ("k", "deleted"));
    assert!(deleted.deleted_envs.is_empty());
    assert_eq!(list_envs()[0].name, "local-dev");
    assert_eq!(list_envs()[0].status, "Healthy");
    assert_eq!(default_topo_source(), "deployments");
    let script = script_not_available();
    assert!(!script.success);
    assert_eq!(script.errors, ["Script compilation is not available in dev server mode"]);
}

#[test]
fn management_routes_are_listed() {
    let routes = stub_routes();
    assert_eq!(routes.len(), 15);
    assert_eq!(routes[0].path, "/api/v1/packages");
    assert_eq!(routes[1].verb, StubVerb::Post);
    assert_eq!(routes[1].status, 201);
    assert_eq!(routes[3].status, 204);
    assert_eq!(routes[13].handler, StubHandler::TestScript);
    assert_eq!(routes[13].status, 501);
    assert_eq!(routes[14].path, "/api/v1/scripts/{package}/{function}");
    assert_eq!(routes[14].status, 404);
}
