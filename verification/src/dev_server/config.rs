//! The collections that a package is run with.
use vstd::prelude::*;
use vstd::string::*;
use crate::models::deployment::{OClassDeployment, OdgmDataSpec, ProvisionConfig};
use crate::models::enums::ConsistencyModel;
use crate::models::package::{FunctionBinding, OClass, OFunction, OPackage};
use crate::text::chars::{holds, same, str_view, text_view, views};
use crate::text::search::{contains_text, occurs, starts_with};
use crate::text_map::{texts, TextMap};

verus! {

/// Dev server runtime configuration: port + the standard OPackage definition.
#[derive(Debug)]
pub struct DevServerConfig {
    pub port: u16,
    pub package: OPackage,
}

/// How a function of a collection is called.
#[derive(Debug)]
pub struct FuncInvokeRoute {
    pub url: String,
    pub wasm_module_url: Option<String>,
    pub wasm_fuel: Option<u64>,
    pub stateless: bool,
    pub standby: bool,
    pub active_group: Vec<u64>,
}

/// The model of how a function is called.
#[verifier::ext_equal]
pub struct FuncRouteView {
    pub url: Seq<char>,
    pub wasm_module_url: Option<Seq<char>>,
    pub wasm_fuel: Option<u64>,
    pub stateless: bool,
    pub standby: bool,
    pub active_group: Seq<u64>,
}

impl View for FuncInvokeRoute {
    type V = FuncRouteView;

    open spec fn view(&self) -> FuncRouteView {
        FuncRouteView {
            url: self.url@,
            wasm_module_url: text_view(self.wasm_module_url),
            wasm_fuel: self.wasm_fuel,
            stateless: self.stateless,
            standby: self.standby,
            active_group: self.active_group@,
        }
    }
}

/// How the functions of a collection are called, under their names.
#[derive(Debug)]
pub struct InvocationRoute {
    pub fn_routes: TextMap<FuncInvokeRoute>,
    pub disabled_fn: Vec<String>,
}

/// The model of how functions are called.
#[verifier::ext_equal]
pub struct InvocationView {
    pub fn_routes: Map<Seq<char>, FuncRouteView>,
    pub disabled_fn: Seq<Seq<char>>,
}

/// The models of routes.
pub open spec fn route_views(m: Map<Seq<char>, FuncInvokeRoute>) -> Map<Seq<char>, FuncRouteView> {
    m.map_values(|r: FuncInvokeRoute| r@)
}

impl View for InvocationRoute {
    type V = InvocationView;

    open spec fn view(&self) -> InvocationView {
        InvocationView {
            fn_routes: route_views(self.fn_routes@),
            disabled_fn: views(self.disabled_fn@),
        }
    }
}

/// The nodes that hold a partition.
#[derive(Debug)]
pub struct ShardAssignment {
    pub primary: Option<u64>,
    pub replica: Vec<u64>,
    pub shard_ids: Vec<u64>,
}

/// The model of the nodes of a partition.
#[verifier::ext_equal]
pub struct AssignmentView {
    pub primary: Option<u64>,
    pub replica: Seq<u64>,
    pub shard_ids: Seq<u64>,
}

impl View for ShardAssignment {
    type V = AssignmentView;

    open spec fn view(&self) -> AssignmentView {
        AssignmentView {
            primary: self.primary,
            replica: self.replica@,
            shard_ids: self.shard_ids@,
        }
    }
}

/// A request to create a collection.
#[derive(Debug)]
pub struct CreateCollectionRequest {
    pub name: String,
    pub partition_count: i32,
    pub replica_count: i32,
    pub shard_assignments: Vec<ShardAssignment>,
    pub shard_type: String,
    pub options: TextMap<String>,
    pub invocations: Option<InvocationRoute>,
}

/// The model of a request to create a collection.
#[verifier::ext_equal]
pub struct CollectionView {
    pub name: Seq<char>,
    pub partition_count: i32,
    pub replica_count: i32,
    pub shard_assignments: Seq<AssignmentView>,
    pub shard_type: Seq<char>,
    pub options: Map<Seq<char>, Seq<char>>,
    pub invocations: Option<InvocationView>,
}

impl View for CreateCollectionRequest {
    type V = CollectionView;

    open spec fn view(&self) -> CollectionView {
        CollectionView {
            name: self.name@,
            partition_count: self.partition_count,
            replica_count: self.replica_count,
            shard_assignments: views(self.shard_assignments@),
            shard_type: self.shard_type@,
            options: texts(self.options@),
            invocations: match self.invocations {
                Some(i) => Some(i@),
                None => None,
            },
        }
    }
}

/// A path behind a directory.
pub open spec fn behind(dir: Seq<char>, path: Seq<char>) -> Seq<char> {
    if dir.len() == 0 || dir.last() == '/' {
        dir + path
    } else {
        dir + "/"@ + path
    }
}

/// The address of a WASM module: a full address stays as it is, and a path becomes an
/// absolute `file://` address. A path that does not begin with a slash is taken from the
/// working directory.
pub open spec fn resolved_url(url: Seq<char>, cwd: Seq<char>) -> Seq<char> {
    if occurs(url, "://"@) {
        url
    } else if "/"@.is_prefix_of(url) {
        "file://"@ + url
    } else {
        "file://"@ + behind(cwd, url)
    }
}

/// Resolve a WASM URL: if it looks like a relative file path, convert to
/// an absolute `file://` URL. Otherwise return as-is (http://, oci://, etc.).
pub fn resolve_wasm_url(url: &str, cwd: &str) -> (r: String)
    ensures
        r@ == resolved_url(url@, cwd@),
{
    if contains_text(url, "://") {
        return url.to_owned();
    }
    let mut r: String = "file://".to_owned();
    if !starts_with(url, "/") {
        let len: usize = cwd.unicode_len();
        let mut dir: String = cwd.to_owned();
        if len > 0 && cwd.get_char(len - 1) != '/' {
            dir.append("/");
        }
        dir.append(url);
        assert(dir@ =~= behind(cwd@, url@));
        r.append(dir.as_str());
    } else {
        r.append(url);
    }
    r
}

/// The position of the first function with a key, or the number of functions.
pub open spec fn function_at(functions: Seq<OFunction>, key: Seq<char>) -> int
    decreases functions.len(),
{
    if functions.len() == 0 {
        0
    } else {
        let before = function_at(functions.drop_last(), key);
        if before < functions.len() - 1 || functions.last().key@ == key {
            before
        } else {
            functions.len() as int
        }
    }
}

/// How the first function with a key is provided.
pub open spec fn provision_of(functions: Seq<OFunction>, key: Seq<char>) -> Option<ProvisionConfig> {
    if function_at(functions, key) < functions.len() {
        functions[function_at(functions, key)].provision_config
    } else {
        None
    }
}

/// The position of the first function with a key, if there is one.
fn find_function(functions: &Vec<OFunction>, key: &str) -> (r: Option<usize>)
    ensures
        match r {
            Some(i) => i < functions@.len() && i == function_at(functions@, key@),
            None => function_at(functions@, key@) == functions@.len(),
        },
{
    let mut i: usize = 0;
    while i < functions.len()
        invariant
            i <= functions@.len(),
            function_at(functions@.take(i as int), key@) == i,
        decreases functions@.len() - i,
    {
        proof {
            assert(functions@.take(i + 1).drop_last() =~= functions@.take(i as int));
            assert(functions@.take(i + 1).last() == functions@[i as int]);
        }
        if same(functions[i].key.as_str(), key) {
            proof {
                lemma_function_found(functions@, key@, i as int);
            }
            return Some(i);
        }
        i += 1;
    }
    assert(functions@.take(i as int) =~= functions@);
    None
}

/// A function that no other with its key comes before is the first one.
proof fn lemma_function_found(functions: Seq<OFunction>, key: Seq<char>, i: int)
    requires
        0 <= i < functions.len(),
        function_at(functions.take(i + 1), key) == i,
    ensures
        function_at(functions, key) == i,
    decreases functions.len(),
{
    if i + 1 < functions.len() {
        assert(functions.drop_last().take(i + 1) =~= functions.take(i + 1));
        lemma_function_found(functions.drop_last(), key, i);
    } else {
        assert(functions.take(i + 1) =~= functions);
    }
}

/// How a function that a class offers is called.
pub open spec fn route_of(binding: FunctionBinding, functions: Seq<OFunction>, cwd: Seq<char>) -> FuncRouteView {
    let provision = provision_of(functions, binding.function_key@);
    FuncRouteView {
        url: "wasm://"@ + binding.name@,
        wasm_module_url: match provision {
            Some(p) => match p.wasm_module_url {
                Some(u) => Some(resolved_url(u@, cwd)),
                None => None,
            },
            None => None,
        },
        wasm_fuel: match provision {
            Some(p) => p.wasm_fuel,
            None => None,
        },
        stateless: binding.stateless,
        standby: false,
        active_group: seq![],
    }
}

/// How the functions that a class offers are called, under their names. Of two with the same
/// name the later one counts.
pub open spec fn routes_of(
    bindings: Seq<FunctionBinding>,
    functions: Seq<OFunction>,
    cwd: Seq<char>,
) -> Map<Seq<char>, FuncRouteView>
    decreases bindings.len(),
{
    if bindings.len() == 0 {
        Map::empty()
    } else {
        routes_of(bindings.drop_last(), functions, cwd).insert(
            bindings.last().name@,
            route_of(bindings.last(), functions, cwd),
        )
    }
}

/// The calls of a class: none where it offers no function.
pub open spec fn invocations_of(cls: OClass, pkg: OPackage, cwd: Seq<char>) -> Option<InvocationView> {
    if cls.function_bindings@.len() == 0 {
        None
    } else {
        Some(
            InvocationView {
                fn_routes: routes_of(cls.function_bindings@, pkg.functions@, cwd),
                disabled_fn: seq![],
            },
        )
    }
}

/// The optional model of the calls of a class.
pub open spec fn invocation_view(i: Option<InvocationRoute>) -> Option<InvocationView> {
    match i {
        Some(i) => Some(i@),
        None => None,
    }
}

/// Resolve function bindings on a class into an `InvocationRoute` map.
pub fn build_invocations(cls: &OClass, pkg: &OPackage, cwd: &str) -> (r: Option<InvocationRoute>)
    ensures
        invocation_view(r) == invocations_of(*cls, *pkg, cwd@),
{
    let bindings: &Vec<FunctionBinding> = &cls.function_bindings;
    let mut fn_routes: TextMap<FuncInvokeRoute> = TextMap::new();
    let mut i: usize = 0;
    assert(bindings@.take(0) =~= Seq::<FunctionBinding>::empty());
    assert(route_views(fn_routes@) =~= routes_of(bindings@.take(0), pkg.functions@, cwd@));
    while i < bindings.len()
        invariant
            i <= bindings@.len(),
            route_views(fn_routes@) == routes_of(bindings@.take(i as int), pkg.functions@, cwd@),
        decreases bindings@.len() - i,
    {
        let binding: &FunctionBinding = &bindings[i];
        let mut wasm_module_url: Option<String> = None;
        let mut wasm_fuel: Option<u64> = None;
        match find_function(&pkg.functions, binding.function_key.as_str()) {
            Some(j) => match &pkg.functions[j].provision_config {
                Some(p) => {
                    match &p.wasm_module_url {
                        Some(u) => {
                            wasm_module_url = Some(resolve_wasm_url(u.as_str(), cwd));
                        },
                        None => {},
                    }
                    wasm_fuel = p.wasm_fuel;
                },
                None => {},
            },
            None => {},
        }
        let mut url: String = "wasm://".to_owned();
        url.append(binding.name.as_str());
        let route = FuncInvokeRoute {
            url,
            wasm_module_url,
            wasm_fuel,
            stateless: binding.stateless,
            standby: false,
            active_group: Vec::new(),
        };
        assert(route@ =~= route_of(*binding, pkg.functions@, cwd@));
        let ghost before = fn_routes@;
        fn_routes.insert(binding.name.clone(), route);
        proof {
            assert(bindings@.take(i + 1).drop_last() =~= bindings@.take(i as int));
            assert(bindings@.take(i + 1).last() == *binding);
            assert(route_views(fn_routes@) =~= route_views(before).insert(binding.name@, route@));
        }
        i += 1;
    }
    assert(bindings@.take(i as int) =~= bindings@);
    if bindings.len() == 0 {
        None
    } else {
        let disabled_fn: Vec<String> = Vec::new();
        assert(views(disabled_fn@) =~= seq![]);
        Some(InvocationRoute { fn_routes, disabled_fn })
    }
}

/// The full name of a class: its package and its key.
pub open spec fn full_name(pkg: OPackage, cls: OClass) -> Seq<char> {
    pkg.name@ + "."@ + cls.key@
}

/// Writes the full name of a class.
pub fn class_name(pkg: &OPackage, cls: &OClass) -> (r: String)
    ensures
        r@ == full_name(*pkg, *cls),
{
    let mut r: String = pkg.name.clone();
    r.append(".");
    r.append(cls.key.as_str());
    r
}

/// The shard type that goes with what a class promises its readers: `raft` where it promises
/// strong consistency, `mst` where it promises anything else, and `none` where it says nothing.
pub open spec fn derived_shard_type(consistency: Option<ConsistencyModel>) -> Seq<char> {
    match consistency {
        Some(ConsistencyModel::Strong) => "raft"@,
        Some(_) => "mst"@,
        None => "none"@,
    }
}

/// What a class promises its readers.
pub open spec fn consistency_of(cls: OClass) -> Option<ConsistencyModel> {
    match cls.state_spec {
        Some(s) => Some(s.consistency_model),
        None => None,
    }
}

/// The options of a deployment: those of the class, overlaid with those of the deployment,
/// and whether only the primary is invoked, where neither says so.
pub open spec fn merged_options(
    cls: Map<Seq<char>, Seq<char>>,
    deployment: Option<Map<Seq<char>, Seq<char>>>,
    strong: bool,
) -> Map<Seq<char>, Seq<char>> {
    let merged = match deployment {
        Some(d) => cls.union_prefer_right(d),
        None => cls,
    };
    if merged.contains_key("invoke_only_primary"@) {
        merged
    } else {
        merged.insert(
            "invoke_only_primary"@,
            if strong {
                "true"@
            } else {
                "false"@
            },
        )
    }
}

/// The collection of a deployment.
pub open spec fn deployment_collection(
    dep: OClassDeployment,
    cls: OClass,
    pkg: OPackage,
    cwd: Seq<char>,
) -> CollectionView {
    CollectionView {
        name: match dep.odgm {
            Some(o) => if o.collections@.len() > 0 {
                o.collections@[0]@
            } else {
                full_name(pkg, cls)
            },
            None => full_name(pkg, cls),
        },
        partition_count: match dep.odgm {
            Some(o) => match o.partition_count {
                Some(n) => n as i32,
                None => 1,
            },
            None => 1,
        },
        replica_count: 1,
        shard_assignments: seq![],
        shard_type: match dep.odgm {
            Some(o) => match o.shard_type {
                Some(t) => t@,
                None => derived_shard_type(consistency_of(cls)),
            },
            None => derived_shard_type(consistency_of(cls)),
        },
        options: merged_options(
            texts(cls.options@),
            match dep.odgm {
                Some(o) => Some(texts(o.options@)),
                None => None,
            },
            consistency_of(cls) == Some(ConsistencyModel::Strong),
        ),
        invocations: invocations_of(cls, pkg, cwd),
    }
}

/// The shard type of a deployment.
fn shard_type_of(odgm: &Option<OdgmDataSpec>, cls: &OClass) -> (r: String)
    ensures
        r@ == match *odgm {
            Some(o) => match o.shard_type {
                Some(t) => t@,
                None => derived_shard_type(consistency_of(*cls)),
            },
            None => derived_shard_type(consistency_of(*cls)),
        },
{
    match odgm {
        Some(o) => match &o.shard_type {
            Some(t) => {
                return t.clone();
            },
            None => {},
        },
        None => {},
    }
    match &cls.state_spec {
        Some(s) => match s.consistency_model {
            ConsistencyModel::Strong => "raft".to_owned(),
            _ => "mst".to_owned(),
        },
        None => "none".to_owned(),
    }
}

/// The options of a deployment.
fn options_of(odgm: &Option<OdgmDataSpec>, cls: &OClass, strong: bool) -> (r: TextMap<String>)
    ensures
        texts(r@) == merged_options(
            texts(cls.options@),
            match *odgm {
                Some(o) => Some(texts(o.options@)),
                None => None,
            },
            strong,
        ),
{
    let mut merged: TextMap<String> = cls.options.copy();
    match odgm {
        Some(o) => {
            merged.extend(&o.options);
            assert(texts(merged@) =~= texts(cls.options@).union_prefer_right(texts(o.options@)));
        },
        None => {},
    }
    if !merged.contains_key("invoke_only_primary") {
        let value: String = if strong {
            "true".to_owned()
        } else {
            "false".to_owned()
        };
        let ghost before = merged@;
        merged.insert("invoke_only_primary".to_owned(), value);
        assert(texts(merged@) =~= texts(before).insert("invoke_only_primary"@, value@));
    }
    merged
}

/// Build a `CreateCollectionRequest` from a deployment entry.
///
/// Options are merged in this order:
///   - the options of the class provide the class-invariant semantic base
///   - the options of the deployment overlay per-deployment capacity/perf tuning
///   - `invoke_only_primary` is derived from the consistency model
///   - the shard type is derived from the consistency model when not explicitly set
pub fn deployment_to_request(dep: &OClassDeployment, cls: &OClass, pkg: &OPackage, cwd: &str) -> (r:
    CreateCollectionRequest)
    ensures
        r@ == deployment_collection(*dep, *cls, *pkg, cwd@),
{
    let mut name: String = class_name(pkg, cls);
    let mut partition_count: u32 = 1;
    match &dep.odgm {
        Some(o) => {
            if o.collections.len() > 0 {
                name = o.collections[0].clone();
            }
            match o.partition_count {
                Some(n) => {
                    partition_count = n;
                },
                None => {},
            }
        },
        None => {},
    }
    let strong: bool = match &cls.state_spec {
        Some(s) => match s.consistency_model {
            ConsistencyModel::Strong => true,
            _ => false,
        },
        None => false,
    };
    let shard_assignments: Vec<ShardAssignment> = Vec::new();
    assert(views(shard_assignments@) =~= seq![]);
    CreateCollectionRequest {
        name,
        partition_count: partition_count as i32,
        replica_count: 1,
        shard_assignments,
        shard_type: shard_type_of(&dep.odgm, cls),
        options: options_of(&dep.odgm, cls, strong),
        invocations: build_invocations(cls, pkg, cwd),
    }
}

/// The collection of a class without a deployment.
pub open spec fn class_collection(cls: OClass, pkg: OPackage, cwd: Seq<char>) -> CollectionView {
    CollectionView {
        name: full_name(pkg, cls),
        partition_count: 1,
        replica_count: 1,
        shard_assignments: seq![],
        shard_type: "none"@,
        options: texts(cls.options@),
        invocations: invocations_of(cls, pkg, cwd),
    }
}

/// Build a `CreateCollectionRequest` from a class directly (fallback path).
pub fn class_to_request(cls: &OClass, pkg: &OPackage, cwd: &str) -> (r: CreateCollectionRequest)
    ensures
        r@ == class_collection(*cls, *pkg, cwd@),
{
    let shard_assignments: Vec<ShardAssignment> = Vec::new();
    assert(views(shard_assignments@) =~= seq![]);
    CreateCollectionRequest {
        name: class_name(pkg, cls),
        partition_count: 1,
        replica_count: 1,
        shard_assignments,
        shard_type: "none".to_owned(),
        options: cls.options.copy(),
        invocations: build_invocations(cls, pkg, cwd),
    }
}

/// The position of the first class with a key, or the number of classes.
pub open spec fn class_at(classes: Seq<OClass>, key: Seq<char>) -> int
    decreases classes.len(),
{
    if classes.len() == 0 {
        0
    } else {
        let before = class_at(classes.drop_last(), key);
        if before < classes.len() - 1 || classes.last().key@ == key {
            before
        } else {
            classes.len() as int
        }
    }
}

/// The position of the first class with a key, if there is one.
fn find_class(classes: &Vec<OClass>, key: &str) -> (r: Option<usize>)
    ensures
        match r {
            Some(i) => i < classes@.len() && i == class_at(classes@, key@),
            None => class_at(classes@, key@) == classes@.len(),
        },
{
    let mut i: usize = 0;
    while i < classes.len()
        invariant
            i <= classes@.len(),
            class_at(classes@.take(i as int), key@) == i,
        decreases classes@.len() - i,
    {
        proof {
            assert(classes@.take(i + 1).drop_last() =~= classes@.take(i as int));
            assert(classes@.take(i + 1).last() == classes@[i as int]);
        }
        if same(classes[i].key.as_str(), key) {
            proof {
                lemma_class_found(classes@, key@, i as int);
            }
            return Some(i);
        }
        i += 1;
    }
    assert(classes@.take(i as int) =~= classes@);
    None
}

/// A class that no other with its key comes before is the first one.
proof fn lemma_class_found(classes: Seq<OClass>, key: Seq<char>, i: int)
    requires
        0 <= i < classes.len(),
        class_at(classes.take(i + 1), key) == i,
    ensures
        class_at(classes, key) == i,
    decreases classes.len(),
{
    if i + 1 < classes.len() {
        assert(classes.drop_last().take(i + 1) =~= classes.take(i + 1));
        lemma_class_found(classes.drop_last(), key, i);
    } else {
        assert(classes.take(i + 1) =~= classes);
    }
}

/// Whether a deployment runs in an environment: where it names none, it runs in all.
pub open spec fn runs_in(dep: OClassDeployment, env: Option<Seq<char>>) -> bool {
    env matches Some(e) ==> dep.target_envs@.len() == 0 || views(dep.target_envs@).contains(e)
}

/// The collections of deployments, in their order: those that run in the environment, where
/// one is given, and whose class is in the package.
pub open spec fn deployment_collections(
    deps: Seq<OClassDeployment>,
    pkg: OPackage,
    env: Option<Seq<char>>,
    cwd: Seq<char>,
) -> Seq<CollectionView>
    decreases deps.len(),
{
    if deps.len() == 0 {
        seq![]
    } else {
        let before = deployment_collections(deps.drop_last(), pkg, env, cwd);
        let dep = deps.last();
        let at = class_at(pkg.classes@, dep.class_key@);
        if runs_in(dep, env) && at < pkg.classes@.len() {
            before.push(deployment_collection(dep, pkg.classes@[at], pkg, cwd))
        } else {
            before
        }
    }
}

/// The collections of classes without deployments.
pub open spec fn class_collections(pkg: OPackage, cwd: Seq<char>) -> Seq<CollectionView> {
    Seq::new(pkg.classes@.len(), |i: int| class_collection(pkg.classes@[i], pkg, cwd))
}

/// The collections of a package: one for each deployment, or one for each class where there
/// is no deployment.
pub open spec fn collections_of(pkg: OPackage, env: Option<Seq<char>>, cwd: Seq<char>) -> Seq<
    CollectionView,
> {
    if pkg.deployments@.len() > 0 {
        deployment_collections(pkg.deployments@, pkg, env, cwd)
    } else {
        class_collections(pkg, cwd)
    }
}

/// Builds the requests for the collections of a package.
fn requests(pkg: &OPackage, env: Option<&str>, cwd: &str) -> (r: Vec<CreateCollectionRequest>)
    ensures
        views(r@) == collections_of(*pkg, str_view(env), cwd@),
{
    let ghost e = str_view(env);
    let mut r: Vec<CreateCollectionRequest> = Vec::new();
    let mut i: usize = 0;
    if pkg.deployments.len() > 0 {
        assert(pkg.deployments@.take(0) =~= Seq::<OClassDeployment>::empty());
        assert(views(r@) =~= deployment_collections(pkg.deployments@.take(0), *pkg, e, cwd@));
        while i < pkg.deployments.len()
            invariant
                i <= pkg.deployments@.len(),
                e == str_view(env),
                views(r@) == deployment_collections(pkg.deployments@.take(i as int), *pkg, e, cwd@),
            decreases pkg.deployments@.len() - i,
        {
            proof {
                let deps = pkg.deployments@;
                assert(deps.take(i + 1).drop_last() =~= deps.take(i as int));
                assert(deps.take(i + 1).last() == deps[i as int]);
            }
            let dep: &OClassDeployment = &pkg.deployments[i];
            let here: bool = match env {
                Some(name) => dep.target_envs.len() == 0 || holds(&dep.target_envs, name),
                None => true,
            };
            if here {
                match find_class(&pkg.classes, dep.class_key.as_str()) {
                    Some(at) => {
                        let ghost before = r@;
                        let request: CreateCollectionRequest = deployment_to_request(
                            dep,
                            &pkg.classes[at],
                            pkg,
                            cwd,
                        );
                        r.push(request);
                        assert(views(r@) =~= views(before).push(request@));
                    },
                    None => {},
                }
            }
            i += 1;
        }
        assert(pkg.deployments@.take(i as int) =~= pkg.deployments@);
    } else {
        while i < pkg.classes.len()
            invariant
                i <= pkg.classes@.len(),
                views(r@) == class_collections(*pkg, cwd@).take(i as int),
            decreases pkg.classes@.len() - i,
        {
            let ghost before = r@;
            let request: CreateCollectionRequest = class_to_request(&pkg.classes[i], pkg, cwd);
            r.push(request);
            assert(views(r@) =~= views(before).push(request@));
            i += 1;
        }
        assert(views(r@) =~= class_collections(*pkg, cwd@));
    }
    r
}

/// Convert an OPackage into ODGM `CreateCollectionRequest`s.
///
/// **Primary path** (when the package has deployments): one collection per deployment
/// entry, using the deployment's ODGM infra config and the referenced class's
/// semantic options. An entry whose class is not in the package is skipped.
///
/// **Fallback** (when it has none): one collection per class, using defaults.
pub fn package_to_create_requests(pkg: &OPackage, cwd: &str) -> (r: Vec<CreateCollectionRequest>)
    ensures
        views(r@) == collections_of(*pkg, None, cwd@),
{
    requests(pkg, None, cwd)
}

/// The `CreateCollectionRequest`s of an OPackage for one environment: those of the
/// deployments that name the environment or none at all.
pub fn create_requests_for_env(pkg: &OPackage, env: &str, cwd: &str) -> (r: Vec<
    CreateCollectionRequest,
>)
    ensures
        views(r@) == collections_of(*pkg, Some(env@), cwd@),
{
    requests(pkg, Some(env), cwd)
}

/// The texts of a list without repetitions, in the order in which they first occur.
pub open spec fn first_seen(list: Seq<Seq<char>>) -> Seq<Seq<char>>
    decreases list.len(),
{
    if list.len() == 0 {
        seq![]
    } else {
        let before = first_seen(list.drop_last());
        if before.contains(list.last()) {
            before
        } else {
            before.push(list.last())
        }
    }
}

/// The target environments of deployments, one deployment after the other.
pub open spec fn all_targets(deps: Seq<OClassDeployment>) -> Seq<Seq<char>>
    decreases deps.len(),
{
    if deps.len() == 0 {
        seq![]
    } else {
        all_targets(deps.drop_last()) + views(deps.last().target_envs@)
    }
}

/// The environments of a package: those that its deployments name, or `local-dev`.
pub open spec fn env_names_of(pkg: OPackage) -> Seq<Seq<char>> {
    let seen = first_seen(all_targets(pkg.deployments@));
    if seen.len() > 0 {
        seen
    } else {
        seq!["local-dev"@]
    }
}

/// The environments in which a package is run: those that its deployments name, each once
/// and in the order in which they first occur, or `local-dev` where they name none.
pub fn extract_env_names(pkg: &OPackage) -> (r: Vec<String>)
    ensures
        views(r@) == env_names_of(*pkg),
{
    let deps: &Vec<OClassDeployment> = &pkg.deployments;
    let mut r: Vec<String> = Vec::new();
    let mut i: usize = 0;
    assert(deps@.take(0) =~= Seq::<OClassDeployment>::empty());
    assert(views(r@) =~= first_seen(all_targets(deps@.take(0))));
    while i < deps.len()
        invariant
            i <= deps@.len(),
            views(r@) == first_seen(all_targets(deps@.take(i as int))),
        decreases deps@.len() - i,
    {
        let ghost done = all_targets(deps@.take(i as int));
        let ghost here = views(deps@[i as int].target_envs@);
        proof {
            assert(deps@.take(i + 1).drop_last() =~= deps@.take(i as int));
            assert(deps@.take(i + 1).last() == deps@[i as int]);
            assert(done + here.take(0) =~= done);
        }
        let envs: &Vec<String> = &deps[i].target_envs;
        let mut j: usize = 0;
        while j < envs.len()
            invariant
                j <= envs@.len(),
                here == views(envs@),
                views(r@) == first_seen(done + here.take(j as int)),
            decreases envs@.len() - j,
        {
            proof {
                let next = done + here.take(j + 1);
                assert(next.drop_last() =~= done + here.take(j as int));
                assert(next.last() == envs@[j as int]@);
            }
            let ghost before = r@;
            if !holds(&r, envs[j].as_str()) {
                r.push(envs[j].clone());
                assert(views(r@) =~= views(before).push(envs@[j as int]@));
            }
            j += 1;
        }
        assert(here.take(j as int) =~= here);
        i += 1;
    }
    assert(deps@.take(i as int) =~= deps@);
    assert(views(r@).len() == r@.len());
    if r.len() == 0 {
        r.push("local-dev".to_owned());
        assert(views(r@) =~= seq!["local-dev"@]);
    }
    r
}

/// First occurrences are all different, and a text occurs among them where it is in the list.
proof fn lemma_first_seen(list: Seq<Seq<char>>, t: Seq<char>)
    ensures
        first_seen(list).no_duplicates(),
        first_seen(list).contains(t) == list.contains(t),
    decreases list.len(),
{
    if list.len() > 0 {
        let init = list.drop_last();
        lemma_first_seen(init, t);
        let before = first_seen(init);
        let after = first_seen(list);
        if list.contains(t) {
            let i = choose|i: int| 0 <= i < list.len() && list[i] == t;
            if i < init.len() {
                assert(init[i] == t);
            }
            if before.contains(t) {
                let j = choose|j: int| 0 <= j < before.len() && before[j] == t;
                assert(after[j] == t);
            } else {
                assert(after[before.len() as int] == t);
            }
        }
        if after.contains(t) {
            let j = choose|j: int| 0 <= j < after.len() && after[j] == t;
            if j < before.len() {
                assert(before[j] == t);
                let i = choose|i: int| 0 <= i < init.len() && init[i] == t;
                assert(list[i] == t);
            } else {
                assert(list[list.len() - 1] == t);
            }
        }
    }
}

/// The targets of deployments are those that one of them names.
proof fn lemma_all_targets(deps: Seq<OClassDeployment>, env: Seq<char>)
    ensures
        all_targets(deps).contains(env) <==> exists|i: int|
            0 <= i < deps.len() && views((#[trigger] deps[i]).target_envs@).contains(env),
    decreases deps.len(),
{
    if deps.len() > 0 {
        let init = deps.drop_last();
        lemma_all_targets(init, env);
        let before = all_targets(init);
        let here = views(deps.last().target_envs@);
        let all = before + here;
        if all.contains(env) {
            let k = choose|k: int| 0 <= k < all.len() && all[k] == env;
            if k < before.len() {
                assert(before[k] == env);
                let i = choose|i: int|
                    0 <= i < init.len() && views((#[trigger] init[i]).target_envs@).contains(env);
                assert(deps[i] == init[i]);
            } else {
                assert(here[k - before.len()] == env);
                assert(views(deps[deps.len() - 1].target_envs@).contains(env));
            }
        }
        if exists|i: int|
            0 <= i < deps.len() && views((#[trigger] deps[i]).target_envs@).contains(env) {
            let i = choose|i: int|
                0 <= i < deps.len() && views((#[trigger] deps[i]).target_envs@).contains(env);
            if i < init.len() {
                assert(init[i] == deps[i]);
                let k = choose|k: int| 0 <= k < before.len() && before[k] == env;
                assert(all[k] == env);
            } else {
                let k = choose|k: int| 0 <= k < here.len() && here[k] == env;
                assert(all[before.len() + k] == env);
            }
        }
    }
}

/// A package is always run in some environment, never twice in the same one, and in every
/// environment that a deployment names.
pub proof fn law_env_names(pkg: OPackage, env: Seq<char>)
    ensures
        env_names_of(pkg).len() > 0,
        env_names_of(pkg).no_duplicates(),
        (exists|i: int|
            0 <= i < pkg.deployments@.len() && views(
                (#[trigger] pkg.deployments@[i]).target_envs@,
            ).contains(env)) ==> env_names_of(pkg).contains(env),
{
    let targets = all_targets(pkg.deployments@);
    lemma_first_seen(targets, env);
    lemma_all_targets(pkg.deployments@, env);
    if targets.contains(env) {
        assert(first_seen(targets).contains(env));
    }
}

/// An option of a deployment overrides that of its class, and an option that only the class
/// has stays. Whether only the primary is invoked is always said.
pub proof fn law_deployment_options_win(
    cls: Map<Seq<char>, Seq<char>>,
    deployment: Map<Seq<char>, Seq<char>>,
    strong: bool,
    key: Seq<char>,
)
    ensures
        deployment.contains_key(key) ==> merged_options(cls, Some(deployment), strong)[key]
            == deployment[key],
        cls.contains_key(key) && !deployment.contains_key(key) ==> merged_options(
            cls,
            Some(deployment),
            strong,
        )[key] == cls[key],
        merged_options(cls, Some(deployment), strong).contains_key("invoke_only_primary"@),
        merged_options(cls, None, strong).contains_key("invoke_only_primary"@),
{
}

/// An explicit shard type is taken; without one a class with strong consistency gets `raft`,
/// one with any other promise `mst`, and one without a promise `none`. There is one replica.
pub proof fn law_shard_type(dep: OClassDeployment, cls: OClass, pkg: OPackage, cwd: Seq<char>)
    ensures
        deployment_collection(dep, cls, pkg, cwd).replica_count == 1,
        (dep.odgm matches Some(o) && o.shard_type matches Some(t) && deployment_collection(
            dep,
            cls,
            pkg,
            cwd,
        ).shard_type == t@) || ((dep.odgm is None || dep.odgm->0.shard_type is None)
            && deployment_collection(dep, cls, pkg, cwd).shard_type == derived_shard_type(
            consistency_of(cls),
        )),
{
}

/// A package whose deployments name no environment has the same collections in every one.
pub proof fn law_untargeted_runs_everywhere(pkg: OPackage, env: Seq<char>, cwd: Seq<char>)
    requires
        forall|i: int|
            0 <= i < pkg.deployments@.len() ==> (#[trigger] pkg.deployments@[i]).target_envs@.len()
                == 0,
    ensures
        collections_of(pkg, Some(env), cwd) == collections_of(pkg, None, cwd),
{
    lemma_untargeted(pkg.deployments@, pkg, env, cwd);
}

/// Deployments that name no environment have the same collections in every one.
proof fn lemma_untargeted(
    deps: Seq<OClassDeployment>,
    pkg: OPackage,
    env: Seq<char>,
    cwd: Seq<char>,
)
    requires
        forall|i: int| 0 <= i < deps.len() ==> (#[trigger] deps[i]).target_envs@.len() == 0,
    ensures
        deployment_collections(deps, pkg, Some(env), cwd) == deployment_collections(
            deps,
            pkg,
            None,
            cwd,
        ),
    decreases deps.len(),
{
    if deps.len() > 0 {
        assert(deps[deps.len() - 1].target_envs@.len() == 0);
        assert forall|i: int| 0 <= i < deps.drop_last().len() implies (
        #[trigger] deps.drop_last()[i]).target_envs@.len() == 0 by {
            assert(deps[i].target_envs@.len() == 0);
        }
        lemma_untargeted(deps.drop_last(), pkg, env, cwd);
    }
}

/// The first class with a key has that key, and no class before it has.
pub proof fn law_first_class(classes: Seq<OClass>, key: Seq<char>)
    ensures
        0 <= class_at(classes, key) <= classes.len(),
        class_at(classes, key) < classes.len() ==> classes[class_at(classes, key)].key@ == key,
        forall|i: int| 0 <= i < class_at(classes, key) ==> (#[trigger] classes[i]).key@ != key,
    decreases classes.len(),
{
    if classes.len() > 0 {
        let init = classes.drop_last();
        law_first_class(init, key);
        assert forall|i: int| 0 <= i < class_at(classes, key) implies (#[trigger] classes[i]).key@
            != key by {
            if i < init.len() {
                assert(init[i] == classes[i]);
            }
        }
    }
}

} // verus!
