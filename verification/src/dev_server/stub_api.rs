//! The management interface that the development server offers to the front end: the package
//! and its deployments as they are, and answers to what is not available.
use vstd::prelude::*;
use vstd::string::*;
use crate::dev_server::config::{class_name, full_name};
use crate::json::{json_member, read_json_member};
use crate::models::deployment::{now, OClassDeployment, Timestamp};
use crate::models::enums::DeploymentCondition;
use crate::models::package::{FunctionBinding, OClass, OPackage};
use crate::text::chars::{same, text_view, views};
use crate::text_map::TextMap;

verus! {

/// The packages and deployments that are shown.
#[derive(Debug)]
pub struct StubState {
    pub packages: Vec<OPackage>,
    pub deployments: Vec<OClassDeployment>,
}

/// What was done to an object of the interface.
#[derive(Debug)]
pub struct StatusResponse {
    pub id: String,
    pub status: String,
    pub message: Option<String>,
}

/// What was done to delete a deployment.
#[derive(Debug)]
pub struct DeleteDeploymentResponse {
    pub message: String,
    pub id: String,
    pub deleted_envs: Vec<String>,
}

/// An environment and how it is.
#[derive(Debug)]
pub struct ClusterInfoStub {
    pub name: String,
    pub status: String,
}

/// A node of the topology.
#[derive(Debug)]
pub struct TopologyNode {
    pub id: String,
    pub node_type: String,
    pub status: Option<String>,
    pub metadata: Option<TextMap<String>>,
    pub deployed_classes: Option<Vec<String>>,
}

/// The model of a node without metadata and deployed classes.
#[verifier::ext_equal]
pub struct NodeView {
    pub id: Seq<char>,
    pub node_type: Seq<char>,
    pub status: Option<Seq<char>>,
    pub plain: bool,
}

impl View for TopologyNode {
    type V = NodeView;

    open spec fn view(&self) -> NodeView {
        NodeView {
            id: self.id@,
            node_type: self.node_type@,
            status: text_view(self.status),
            plain: self.metadata is None && self.deployed_classes is None,
        }
    }
}

/// An edge of the topology.
#[derive(Debug)]
pub struct TopologyEdge {
    pub from_id: String,
    pub to_id: String,
}

/// The model of an edge.
#[verifier::ext_equal]
pub struct EdgeView {
    pub from_id: Seq<char>,
    pub to_id: Seq<char>,
}

impl View for TopologyEdge {
    type V = EdgeView;

    open spec fn view(&self) -> EdgeView {
        EdgeView { from_id: self.from_id@, to_id: self.to_id@ }
    }
}

/// The topology: nodes and the edges between them.
#[derive(Debug)]
pub struct TopologySnapshot {
    pub nodes: Vec<TopologyNode>,
    pub edges: Vec<TopologyEdge>,
}

/// The model of a topology.
#[verifier::ext_equal]
pub struct TopologyView {
    pub nodes: Seq<NodeView>,
    pub edges: Seq<EdgeView>,
}

impl View for TopologySnapshot {
    type V = TopologyView;

    open spec fn view(&self) -> TopologyView {
        TopologyView { nodes: views(self.nodes@), edges: views(self.edges@) }
    }
}

/// The source of a topology where none is asked for.
pub fn default_topo_source() -> (r: String)
    ensures
        r@ == "deployments"@,
{
    "deployments".to_owned()
}

/// Whether a shown deployment is one of the package: it has the name of the package where it
/// had none, is running, and has the local environment as its target where it had none.
pub open spec fn shown_as(shown: OClassDeployment, dep: OClassDeployment, pkg: OPackage) -> bool {
    &&& shown.same_rest(dep)
    &&& shown.package_name == if dep.package_name@.len() == 0 {
        pkg.name
    } else {
        dep.package_name
    }
    &&& shown.condition == DeploymentCondition::Running
    &&& views(shown.target_envs@) == if dep.target_envs@.len() == 0 {
        seq!["local-dev"@]
    } else {
        views(dep.target_envs@)
    }
}

/// The deployment of a package as it is shown.
fn show_deployment(dep: &OClassDeployment, pkg: &OPackage) -> (r: OClassDeployment)
    ensures
        shown_as(r, *dep, *pkg),
{
    let mut d: OClassDeployment = dep.copy();
    if d.package_name.as_str().unicode_len() == 0 {
        d.package_name = pkg.name.clone();
    }
    d.condition = DeploymentCondition::Running;
    if d.target_envs.len() == 0 {
        let mut envs: Vec<String> = Vec::new();
        envs.push("local-dev".to_owned());
        d.target_envs = envs;
        assert(views(d.target_envs@) =~= seq!["local-dev"@]);
    }
    d
}

/// Whether a shown deployment stands for a class without one: it is running in the local
/// environment under the full name of the class, and was made up at the moment.
pub open spec fn stands_for(shown: OClassDeployment, cls: OClass, pkg: OPackage, moment: Timestamp) -> bool {
    &&& shown.key@ == full_name(pkg, cls)
    &&& shown.package_name@ == pkg.name@
    &&& shown.class_key@ == cls.key@
    &&& shown.condition == DeploymentCondition::Running
    &&& views(shown.target_envs@) == seq!["local-dev"@]
    &&& shown.available_envs@.len() == 0
    &&& shown.nfr_requirements is None
    &&& shown.env_templates@ == Map::<Seq<char>, String>::empty()
    &&& shown.functions@.len() == 0
    &&& shown.odgm is None
    &&& shown.telemetry is None
    &&& shown.status is None
    &&& shown.created_at == Some(moment)
    &&& shown.updated_at == Some(moment)
}

/// The deployment that stands for a class.
fn stand_in(cls: &OClass, pkg: &OPackage, moment: Timestamp) -> (r: OClassDeployment)
    ensures
        stands_for(r, *cls, *pkg, moment),
{
    let mut d: OClassDeployment = OClassDeployment::default_at(moment);
    d.key = class_name(pkg, cls);
    d.package_name = pkg.name.clone();
    d.class_key = cls.key.clone();
    d.condition = DeploymentCondition::Running;
    let mut envs: Vec<String> = Vec::new();
    envs.push("local-dev".to_owned());
    d.target_envs = envs;
    assert(views(d.target_envs@) =~= seq!["local-dev"@]);
    d
}

/// Builds what is shown of a package at a moment.
///
/// **Primary path** (when the package has deployments): its deployment entries, running
/// and with `local-dev` as their target when they name none.
///
/// **Fallback** (when it has none): one deployment per class.
pub fn build_stub_api_at(pkg: OPackage, moment: Timestamp) -> (r: StubState)
    ensures
        r.packages@ == seq![pkg],
        pkg.deployments@.len() > 0 ==> r.deployments@.len() == pkg.deployments@.len() && forall|i:
            int|
            0 <= i < r.deployments@.len() ==> shown_as(
                #[trigger] r.deployments@[i],
                pkg.deployments@[i],
                pkg,
            ),
        pkg.deployments@.len() == 0 ==> r.deployments@.len() == pkg.classes@.len() && forall|i: int|
            0 <= i < r.deployments@.len() ==> stands_for(
                #[trigger] r.deployments@[i],
                pkg.classes@[i],
                pkg,
                moment,
            ),
{
    let mut deployments: Vec<OClassDeployment> = Vec::new();
    let mut i: usize = 0;
    if pkg.deployments.len() > 0 {
        while i < pkg.deployments.len()
            invariant
                i <= pkg.deployments@.len(),
                deployments@.len() == i,
                forall|j: int|
                    0 <= j < i ==> shown_as(
                        #[trigger] deployments@[j],
                        pkg.deployments@[j],
                        pkg,
                    ),
            decreases pkg.deployments@.len() - i,
        {
            deployments.push(show_deployment(&pkg.deployments[i], &pkg));
            i += 1;
        }
    } else {
        while i < pkg.classes.len()
            invariant
                i <= pkg.classes@.len(),
                deployments@.len() == i,
                forall|j: int|
                    0 <= j < i ==> stands_for(
                        #[trigger] deployments@[j],
                        pkg.classes@[j],
                        pkg,
                        moment,
                    ),
            decreases pkg.classes@.len() - i,
        {
            deployments.push(stand_in(&pkg.classes[i], &pkg, moment));
            i += 1;
        }
    }
    let mut packages: Vec<OPackage> = Vec::new();
    packages.push(pkg);
    assert(packages@ =~= seq![pkg]);
    StubState { packages, deployments }
}

/// Builds what is shown of a package now.
pub fn build_stub_api(pkg: OPackage) -> (r: StubState)
    ensures
        r.packages@ == seq![pkg],
        pkg.deployments@.len() > 0 ==> r.deployments@.len() == pkg.deployments@.len() && forall|i:
            int|
            0 <= i < r.deployments@.len() ==> shown_as(
                #[trigger] r.deployments@[i],
                pkg.deployments@[i],
                pkg,
            ),
        pkg.deployments@.len() == 0 ==> r.deployments@.len() == pkg.classes@.len() && forall|i: int|
            0 <= i < r.deployments@.len() ==> (#[trigger] r.deployments@[i]).created_at is Some
                && stands_for(
                r.deployments@[i],
                pkg.classes@[i],
                pkg,
                r.deployments@[i].created_at->0,
            ),
{
    build_stub_api_at(pkg, now())
}

/// Every deployment that is shown is running, and in some environment.
pub proof fn law_shown_deployments_run(shown: OClassDeployment, dep: OClassDeployment, pkg: OPackage)
    requires
        shown_as(shown, dep, pkg),
    ensures
        shown.condition == DeploymentCondition::Running,
        shown.target_envs@.len() > 0,
{
    assert(views(shown.target_envs@).len() == shown.target_envs@.len());
    assert(views(dep.target_envs@).len() == dep.target_envs@.len());
}

impl StubState {
    /// The package with a name, if it is shown.
    pub fn get_package(&self, name: &str) -> (r: Option<&OPackage>)
        ensures
            match r {
                Some(p) => p.name@ == name@ && exists|i: int|
                    0 <= i < self.packages@.len() && #[trigger] self.packages@[i] == *p && forall|
                        j: int,
                    |
                        0 <= j < i ==> (#[trigger] self.packages@[j]).name@ != name@,
                None => forall|i: int|
                    0 <= i < self.packages@.len() ==> (#[trigger] self.packages@[i]).name@ != name@,
            },
    {
        let mut i: usize = 0;
        while i < self.packages.len()
            invariant
                i <= self.packages@.len(),
                forall|j: int| 0 <= j < i ==> (#[trigger] self.packages@[j]).name@ != name@,
            decreases self.packages@.len() - i,
        {
            if same(self.packages[i].name.as_str(), name) {
                assert(self.packages@[i as int] == self.packages[i as int]);
                return Some(&self.packages[i]);
            }
            i += 1;
        }
        None
    }
}

/// The answer to a package that is handed in: it is accepted but not kept.
pub fn create_package(name: String) -> (r: StatusResponse)
    ensures
        r.id == name,
        r.status@ == "created"@,
        text_view(r.message) == Some("Dev server: package accepted but not persisted"@),
{
    StatusResponse {
        id: name,
        status: "created".to_owned(),
        message: Some("Dev server: package accepted but not persisted".to_owned()),
    }
}

/// Whether an answer accepts a deployment with a key; one without a key is called `unknown`.
pub open spec fn accepts(r: StatusResponse, key: Option<Seq<char>>) -> bool {
    &&& r.id@ == match key {
        Some(k) => k,
        None => "unknown"@,
    }
    &&& r.status@ == "created"@
    &&& text_view(r.message) == Some("Dev server: deployment accepted but not persisted"@)
}

/// The answer to a deployment that is handed in with a key or without one: it is accepted but
/// not kept.
pub fn deployment_accepted(key: Option<String>) -> (r: StatusResponse)
    ensures
        accepts(r, text_view(key)),
{
    let id: String = match key {
        Some(k) => k,
        None => "unknown".to_owned(),
    };
    StatusResponse {
        id,
        status: "created".to_owned(),
        message: Some("Dev server: deployment accepted but not persisted".to_owned()),
    }
}

/// The answer to a deployment that is handed in as a JSON document, by the text under its
/// `key`. There is none where the bytes are no JSON document.
pub fn create_deployment(body: &Vec<u8>) -> (r: Option<StatusResponse>)
    ensures
        match json_member(body@, "key"@) {
            Ok(key) => r is Some && accepts(r->0, key),
            Err(_) => r is None,
        },
{
    match read_json_member(body, "key") {
        Ok(key) => Some(deployment_accepted(key)),
        Err(_) => None,
    }
}

/// The answer to a request to delete a deployment.
pub fn delete_deployment(key: String) -> (r: DeleteDeploymentResponse)
    ensures
        r.message@ == "deleted"@,
        r.id == key,
        r.deleted_envs@.len() == 0,
{
    DeleteDeploymentResponse { message: "deleted".to_owned(), id: key, deleted_envs: Vec::new() }
}

/// The environments that are shown: the local one.
pub fn list_envs() -> (r: Vec<ClusterInfoStub>)
    ensures
        r@.len() == 1,
        r@[0].name@ == "local-dev"@,
        r@[0].status@ == "Healthy"@,
{
    let mut r: Vec<ClusterInfoStub> = Vec::new();
    r.push(ClusterInfoStub { name: "local-dev".to_owned(), status: "Healthy".to_owned() });
    r
}

/// What is said of scripts, which the development server does not compile.
pub const SCRIPT_UNAVAILABLE_MSG: &'static str = "Script compilation is not available in dev server mode";

/// The answer to a script: it failed, with these errors.
#[derive(Debug)]
pub struct ScriptErrorResponse {
    pub success: bool,
    pub errors: Vec<String>,
}

/// The answer to a script.
pub fn script_not_available() -> (r: ScriptErrorResponse)
    ensures
        !r.success,
        views(r.errors@) == seq!["Script compilation is not available in dev server mode"@],
{
    let mut errors: Vec<String> = Vec::new();
    errors.push(SCRIPT_UNAVAILABLE_MSG.to_owned());
    assert(views(errors@) =~= seq![SCRIPT_UNAVAILABLE_MSG@]);
    ScriptErrorResponse { success: false, errors }
}

/// A node of a kind, without more to say of it.
pub open spec fn node_view(id: Seq<char>, node_type: Seq<char>) -> NodeView {
    NodeView { id, node_type, status: None, plain: true }
}

/// The identity of a package in the topology.
pub open spec fn package_id(pkg: OPackage) -> Seq<char> {
    "pkg:"@ + pkg.name@
}

/// The identity of a class in the topology.
pub open spec fn class_id(pkg: OPackage, cls: OClass) -> Seq<char> {
    "cls:"@ + full_name(pkg, cls)
}

/// The identity of a function in the topology.
pub open spec fn function_id(pkg: OPackage, cls: OClass, binding: FunctionBinding) -> Seq<char> {
    "fn:"@ + full_name(pkg, cls) + ":"@ + binding.name@
}

/// The topology with the functions that a class offers, each behind its class.
pub open spec fn with_functions(
    t: TopologyView,
    pkg: OPackage,
    cls: OClass,
    bindings: Seq<FunctionBinding>,
) -> TopologyView
    decreases bindings.len(),
{
    if bindings.len() == 0 {
        t
    } else {
        let before = with_functions(t, pkg, cls, bindings.drop_last());
        let id = function_id(pkg, cls, bindings.last());
        TopologyView {
            nodes: before.nodes.push(node_view(id, "function"@)),
            edges: before.edges.push(EdgeView { from_id: class_id(pkg, cls), to_id: id }),
        }
    }
}

/// The topology with a class, behind its package and before the local environment.
pub open spec fn with_class(t: TopologyView, pkg: OPackage, cls: OClass) -> TopologyView {
    let id = class_id(pkg, cls);
    with_functions(
        TopologyView {
            nodes: t.nodes.push(node_view(id, "class"@)),
            edges: t.edges.push(EdgeView { from_id: package_id(pkg), to_id: id }).push(
                EdgeView { from_id: id, to_id: "env:local-dev"@ },
            ),
        },
        pkg,
        cls,
        cls.function_bindings@,
    )
}

/// The topology with classes of a package.
pub open spec fn with_classes(t: TopologyView, pkg: OPackage, classes: Seq<OClass>) -> TopologyView
    decreases classes.len(),
{
    if classes.len() == 0 {
        t
    } else {
        with_class(with_classes(t, pkg, classes.drop_last()), pkg, classes.last())
    }
}

/// The topology with packages.
pub open spec fn with_packages(t: TopologyView, packages: Seq<OPackage>) -> TopologyView
    decreases packages.len(),
{
    if packages.len() == 0 {
        t
    } else {
        let before = with_packages(t, packages.drop_last());
        let pkg = packages.last();
        with_classes(
            TopologyView {
                nodes: before.nodes.push(node_view(package_id(pkg), "package"@)),
                ..before
            },
            pkg,
            pkg.classes@,
        )
    }
}

/// The topology of the local environment alone.
pub open spec fn local_topology() -> TopologyView {
    TopologyView {
        nodes: seq![
            NodeView {
                id: "env:local-dev"@,
                node_type: "environment"@,
                status: Some("Healthy"@),
                plain: true,
            },
        ],
        edges: seq![],
    }
}

/// Adds a node of a kind.
fn push_node(t: &mut TopologySnapshot, id: String, node_type: &str)
    ensures
        final(t)@ == (TopologyView {
            nodes: old(t)@.nodes.push(node_view(id@, node_type@)),
            ..old(t)@
        }),
{
    t.nodes.push(
        TopologyNode {
            id,
            node_type: node_type.to_owned(),
            status: None,
            metadata: None,
            deployed_classes: None,
        },
    );
    assert(t@.nodes =~= old(t)@.nodes.push(node_view(id@, node_type@)));
}

/// Adds an edge.
fn push_edge(t: &mut TopologySnapshot, from_id: String, to_id: String)
    ensures
        final(t)@ == (TopologyView {
            edges: old(t)@.edges.push(EdgeView { from_id: from_id@, to_id: to_id@ }),
            ..old(t)@
        }),
{
    t.edges.push(TopologyEdge { from_id, to_id });
    assert(t@.edges =~= old(t)@.edges.push(EdgeView { from_id: from_id@, to_id: to_id@ }));
}

/// Adds the functions that a class offers.
fn push_functions(t: &mut TopologySnapshot, pkg: &OPackage, cls: &OClass, cls_id: &String)
    requires
        cls_id@ == class_id(*pkg, *cls),
    ensures
        final(t)@ == with_functions(old(t)@, *pkg, *cls, cls.function_bindings@),
{
    let bindings: &Vec<FunctionBinding> = &cls.function_bindings;
    let mut i: usize = 0;
    assert(bindings@.take(0) =~= Seq::<FunctionBinding>::empty());
    while i < bindings.len()
        invariant
            i <= bindings@.len(),
            bindings@ == cls.function_bindings@,
            cls_id@ == class_id(*pkg, *cls),
            t@ == with_functions(old(t)@, *pkg, *cls, bindings@.take(i as int)),
        decreases bindings@.len() - i,
    {
        proof {
            assert(bindings@.take(i + 1).drop_last() =~= bindings@.take(i as int));
            assert(bindings@.take(i + 1).last() == bindings@[i as int]);
        }
        let mut id: String = "fn:".to_owned();
        id.append(class_name(pkg, cls).as_str());
        id.append(":");
        id.append(bindings[i].name.as_str());
        push_node(t, id.clone(), "function");
        push_edge(t, cls_id.clone(), id);
        i += 1;
    }
    assert(bindings@.take(i as int) =~= bindings@);
}

/// Adds the classes of a package.
fn push_classes(t: &mut TopologySnapshot, pkg: &OPackage, pkg_id: &String)
    requires
        pkg_id@ == package_id(*pkg),
    ensures
        final(t)@ == with_classes(old(t)@, *pkg, pkg.classes@),
{
    let mut i: usize = 0;
    assert(pkg.classes@.take(0) =~= Seq::<OClass>::empty());
    while i < pkg.classes.len()
        invariant
            i <= pkg.classes@.len(),
            pkg_id@ == package_id(*pkg),
            t@ == with_classes(old(t)@, *pkg, pkg.classes@.take(i as int)),
        decreases pkg.classes@.len() - i,
    {
        proof {
            assert(pkg.classes@.take(i + 1).drop_last() =~= pkg.classes@.take(i as int));
            assert(pkg.classes@.take(i + 1).last() == pkg.classes@[i as int]);
        }
        let cls: &OClass = &pkg.classes[i];
        let mut id: String = "cls:".to_owned();
        id.append(class_name(pkg, cls).as_str());
        push_node(t, id.clone(), "class");
        push_edge(t, pkg_id.clone(), id.clone());
        push_edge(t, id.clone(), "env:local-dev".to_owned());
        push_functions(t, pkg, cls, &id);
        i += 1;
    }
    assert(pkg.classes@.take(i as int) =~= pkg.classes@);
}

impl StubState {
    /// The topology of the packages: the local environment, and each package with its
    /// classes and their functions.
    pub fn get_topology(&self) -> (r: TopologySnapshot)
        ensures
            r@ == with_packages(local_topology(), self.packages@),
    {
        let mut t = TopologySnapshot { nodes: Vec::new(), edges: Vec::new() };
        t.nodes.push(
            TopologyNode {
                id: "env:local-dev".to_owned(),
                node_type: "environment".to_owned(),
                status: Some("Healthy".to_owned()),
                metadata: None,
                deployed_classes: None,
            },
        );
        assert(t@ =~= local_topology());
        let mut i: usize = 0;
        assert(self.packages@.take(0) =~= Seq::<OPackage>::empty());
        while i < self.packages.len()
            invariant
                i <= self.packages@.len(),
                t@ == with_packages(local_topology(), self.packages@.take(i as int)),
            decreases self.packages@.len() - i,
        {
            proof {
                assert(self.packages@.take(i + 1).drop_last() =~= self.packages@.take(i as int));
                assert(self.packages@.take(i + 1).last() == self.packages@[i as int]);
            }
            let pkg: &OPackage = &self.packages[i];
            let mut id: String = "pkg:".to_owned();
            id.append(pkg.name.as_str());
            push_node(&mut t, id.clone(), "package");
            push_classes(&mut t, pkg, &id);
            i += 1;
        }
        assert(self.packages@.take(i as int) =~= self.packages@);
        t
    }
}

/// The operation behind a route.
#[derive(Debug, Clone, Copy, PartialEq, Eq, Structural)]
pub enum StubHandler {
    ListPackages,
    CreatePackage,
    GetPackage,
    DeletePackage,
    ListDeployments,
    CreateDeployment,
    DeleteDeployment,
    ListEnvs,
    GetTopology,
    ListArtifacts,
    CompileScript,
    BuildScript,
    DeployScript,
    TestScript,
    ScriptSource,
}

/// The method of a route.
#[derive(Debug, Clone, Copy, PartialEq, Eq, Structural)]
pub enum StubVerb {
    Get,
    Post,
    Delete,
}

/// A route: what a request to a path runs, and the status of its answer.
#[derive(Debug)]
pub struct StubRoute {
    pub path: &'static str,
    pub verb: StubVerb,
    pub handler: StubHandler,
    pub status: u16,
}

/// The path of an operation.
pub open spec fn stub_path(handler: StubHandler) -> Seq<char> {
    match handler {
        StubHandler::ListPackages => "/api/v1/packages"@,
        StubHandler::CreatePackage => "/api/v1/packages"@,
        StubHandler::GetPackage => "/api/v1/packages/{name}"@,
        StubHandler::DeletePackage => "/api/v1/packages/{name}"@,
        StubHandler::ListDeployments => "/api/v1/deployments"@,
        StubHandler::CreateDeployment => "/api/v1/deployments"@,
        StubHandler::DeleteDeployment => "/api/v1/deployments/{key}"@,
        StubHandler::ListEnvs => "/api/v1/envs"@,
        StubHandler::GetTopology => "/api/v1/topology"@,
        StubHandler::ListArtifacts => "/api/v1/artifacts"@,
        StubHandler::CompileScript => "/api/v1/scripts/compile"@,
        StubHandler::BuildScript => "/api/v1/scripts/build"@,
        StubHandler::DeployScript => "/api/v1/scripts/deploy"@,
        StubHandler::TestScript => "/api/v1/scripts/test"@,
        StubHandler::ScriptSource => "/api/v1/scripts/{package}/{function}"@,
    }
}

/// The method of an operation.
pub open spec fn stub_verb(handler: StubHandler) -> StubVerb {
    match handler {
        StubHandler::CreatePackage => StubVerb::Post,
        StubHandler::CreateDeployment => StubVerb::Post,
        StubHandler::CompileScript => StubVerb::Post,
        StubHandler::BuildScript => StubVerb::Post,
        StubHandler::DeployScript => StubVerb::Post,
        StubHandler::TestScript => StubVerb::Post,
        StubHandler::DeletePackage => StubVerb::Delete,
        StubHandler::DeleteDeployment => StubVerb::Delete,
        _ => StubVerb::Get,
    }
}

/// The status of an operation's answer: what is handed in counts as created, scripts are
/// not implemented and have no source, and everything else is in order.
pub open spec fn stub_status(handler: StubHandler) -> u16 {
    match handler {
        StubHandler::CreatePackage => 201,
        StubHandler::CreateDeployment => 201,
        StubHandler::DeletePackage => 204,
        StubHandler::CompileScript => 501,
        StubHandler::BuildScript => 501,
        StubHandler::DeployScript => 501,
        StubHandler::TestScript => 501,
        StubHandler::ScriptSource => 404,
        _ => 200,
    }
}

/// The operations in the order in which they are served.
pub open spec fn stub_handlers() -> Seq<StubHandler> {
    seq![
        StubHandler::ListPackages,
        StubHandler::CreatePackage,
        StubHandler::GetPackage,
        StubHandler::DeletePackage,
        StubHandler::ListDeployments,
        StubHandler::CreateDeployment,
        StubHandler::DeleteDeployment,
        StubHandler::ListEnvs,
        StubHandler::GetTopology,
        StubHandler::ListArtifacts,
        StubHandler::CompileScript,
        StubHandler::BuildScript,
        StubHandler::DeployScript,
        StubHandler::TestScript,
        StubHandler::ScriptSource,
    ]
}

/// The route of an operation.
fn stub_route(handler: StubHandler) -> (r: StubRoute)
    ensures
        r.handler == handler,
        r.path@ == stub_path(handler),
        r.verb == stub_verb(handler),
        r.status == stub_status(handler),
{
    let (path, verb, status): (&'static str, StubVerb, u16) = match handler {
        StubHandler::ListPackages => ("/api/v1/packages", StubVerb::Get, 200),
        StubHandler::CreatePackage => ("/api/v1/packages", StubVerb::Post, 201),
        StubHandler::GetPackage => ("/api/v1/packages/{name}", StubVerb::Get, 200),
        StubHandler::DeletePackage => ("/api/v1/packages/{name}", StubVerb::Delete, 204),
        StubHandler::ListDeployments => ("/api/v1/deployments", StubVerb::Get, 200),
        StubHandler::CreateDeployment => ("/api/v1/deployments", StubVerb::Post, 201),
        StubHandler::DeleteDeployment => ("/api/v1/deployments/{key}", StubVerb::Delete, 200),
        StubHandler::ListEnvs => ("/api/v1/envs", StubVerb::Get, 200),
        StubHandler::GetTopology => ("/api/v1/topology", StubVerb::Get, 200),
        StubHandler::ListArtifacts => ("/api/v1/artifacts", StubVerb::Get, 200),
        StubHandler::CompileScript => ("/api/v1/scripts/compile", StubVerb::Post, 501),
        StubHandler::BuildScript => ("/api/v1/scripts/build", StubVerb::Post, 501),
        StubHandler::DeployScript => ("/api/v1/scripts/deploy", StubVerb::Post, 501),
        StubHandler::TestScript => ("/api/v1/scripts/test", StubVerb::Post, 501),
        StubHandler::ScriptSource => ("/api/v1/scripts/{package}/{function}", StubVerb::Get, 404),
    };
    StubRoute { path, verb, handler, status }
}

/// The routes of the interface, one for each operation.
pub fn stub_routes() -> (r: Vec<StubRoute>)
    ensures
        r@.len() == stub_handlers().len(),
        forall|i: int|
            0 <= i < r@.len() ==> (#[trigger] r@[i]).handler == stub_handlers()[i] && r@[i].path@
                == stub_path(stub_handlers()[i]) && r@[i].verb == stub_verb(stub_handlers()[i])
                && r@[i].status == stub_status(stub_handlers()[i]),
{
    let mut r: Vec<StubRoute> = Vec::new();
    r.push(stub_route(StubHandler::ListPackages));
    r.push(stub_route(StubHandler::CreatePackage));
    r.push(stub_route(StubHandler::GetPackage));
    r.push(stub_route(StubHandler::DeletePackage));
    r.push(stub_route(StubHandler::ListDeployments));
    r.push(stub_route(StubHandler::CreateDeployment));
    r.push(stub_route(StubHandler::DeleteDeployment));
    r.push(stub_route(StubHandler::ListEnvs));
    r.push(stub_route(StubHandler::GetTopology));
    r.push(stub_route(StubHandler::ListArtifacts));
    r.push(stub_route(StubHandler::CompileScript));
    r.push(stub_route(StubHandler::BuildScript));
    r.push(stub_route(StubHandler::DeployScript));
    r.push(stub_route(StubHandler::TestScript));
    r.push(stub_route(StubHandler::ScriptSource));
    r
}

/// Whether a node with an identity is in a topology.
pub open spec fn has_node(t: TopologyView, id: Seq<char>) -> bool {
    exists|i: int| 0 <= i < t.nodes.len() && (#[trigger] t.nodes[i]).id == id
}

/// Whether every edge of a topology joins two of its nodes.
pub open spec fn joined_up(t: TopologyView) -> bool {
    forall|i: int|
        0 <= i < t.edges.len() ==> has_node(t, (#[trigger] t.edges[i]).from_id) && has_node(
            t,
            t.edges[i].to_id,
        )
}

/// Whether a topology has all nodes of another.
pub open spec fn extends(t: TopologyView, s: TopologyView) -> bool {
    s.nodes.is_prefix_of(t.nodes)
}

/// A node stays in a topology that is extended.
proof fn lemma_node_stays(t: TopologyView, s: TopologyView, id: Seq<char>)
    requires
        extends(t, s),
        has_node(s, id),
    ensures
        has_node(t, id),
{
    let i = choose|i: int| 0 <= i < s.nodes.len() && (#[trigger] s.nodes[i]).id == id;
    assert(t.nodes[i] == s.nodes[i]);
}

/// A node that is added is there, and an edge between nodes keeps a topology joined up.
proof fn lemma_step(s: TopologyView, t: TopologyView, node: NodeView, edges: Seq<EdgeView>)
    requires
        joined_up(s),
        t.nodes == s.nodes.push(node),
        t.edges == s.edges + edges,
        forall|i: int|
            0 <= i < edges.len() ==> (has_node(s, (#[trigger] edges[i]).from_id) || edges[i].from_id
                == node.id) && (has_node(s, edges[i].to_id) || edges[i].to_id == node.id),
    ensures
        joined_up(t),
        extends(t, s),
        has_node(t, node.id),
{
    assert(t.nodes[s.nodes.len() as int].id == node.id);
    assert(s.nodes =~= t.nodes.subrange(0, s.nodes.len() as int));
    assert forall|i: int| 0 <= i < t.edges.len() implies has_node(
        t,
        (#[trigger] t.edges[i]).from_id,
    ) && has_node(t, t.edges[i].to_id) by {
        let e = t.edges[i];
        if i < s.edges.len() {
            assert(s.edges[i] == e);
            lemma_node_stays(t, s, e.from_id);
            lemma_node_stays(t, s, e.to_id);
        } else {
            assert(edges[i - s.edges.len()] == e);
            if has_node(s, e.from_id) {
                lemma_node_stays(t, s, e.from_id);
            }
            if has_node(s, e.to_id) {
                lemma_node_stays(t, s, e.to_id);
            }
        }
    }
}

/// Adding functions keeps a topology joined up.
proof fn lemma_functions_joined(
    t: TopologyView,
    pkg: OPackage,
    cls: OClass,
    bindings: Seq<FunctionBinding>,
)
    requires
        joined_up(t),
        has_node(t, class_id(pkg, cls)),
    ensures
        joined_up(with_functions(t, pkg, cls, bindings)),
        extends(with_functions(t, pkg, cls, bindings), t),
    decreases bindings.len(),
{
    let after = with_functions(t, pkg, cls, bindings);
    if bindings.len() > 0 {
        lemma_functions_joined(t, pkg, cls, bindings.drop_last());
        let before = with_functions(t, pkg, cls, bindings.drop_last());
        lemma_node_stays(before, t, class_id(pkg, cls));
        let id = function_id(pkg, cls, bindings.last());
        let edges = seq![EdgeView { from_id: class_id(pkg, cls), to_id: id }];
        assert(after.edges =~= before.edges + edges);
        lemma_step(before, after, node_view(id, "function"@), edges);
        assert(t.nodes =~= after.nodes.subrange(0, t.nodes.len() as int)) by {
            assert(t.nodes =~= before.nodes.subrange(0, t.nodes.len() as int));
        }
    }
}

/// Adding classes keeps a topology joined up.
proof fn lemma_classes_joined(t: TopologyView, pkg: OPackage, classes: Seq<OClass>)
    requires
        joined_up(t),
        has_node(t, package_id(pkg)),
        has_node(t, "env:local-dev"@),
    ensures
        joined_up(with_classes(t, pkg, classes)),
        extends(with_classes(t, pkg, classes), t),
    decreases classes.len(),
{
    if classes.len() > 0 {
        lemma_classes_joined(t, pkg, classes.drop_last());
        let before = with_classes(t, pkg, classes.drop_last());
        let cls = classes.last();
        let id = class_id(pkg, cls);
        lemma_node_stays(before, t, package_id(pkg));
        lemma_node_stays(before, t, "env:local-dev"@);
        let edges = seq![
            EdgeView { from_id: package_id(pkg), to_id: id },
            EdgeView { from_id: id, to_id: "env:local-dev"@ },
        ];
        let middle = TopologyView {
            nodes: before.nodes.push(node_view(id, "class"@)),
            edges: before.edges.push(EdgeView { from_id: package_id(pkg), to_id: id }).push(
                EdgeView { from_id: id, to_id: "env:local-dev"@ },
            ),
        };
        assert(middle.edges =~= before.edges + edges);
        lemma_step(before, middle, node_view(id, "class"@), edges);
        lemma_functions_joined(middle, pkg, cls, cls.function_bindings@);
        let after = with_classes(t, pkg, classes);
        assert(t.nodes =~= after.nodes.subrange(0, t.nodes.len() as int)) by {
            assert(t.nodes =~= before.nodes.subrange(0, t.nodes.len() as int));
            assert(before.nodes =~= middle.nodes.subrange(0, before.nodes.len() as int));
            assert(middle.nodes =~= after.nodes.subrange(0, middle.nodes.len() as int));
        }
    } else {
        assert(t.nodes =~= t.nodes.subrange(0, t.nodes.len() as int));
    }
}

/// Every edge of a topology joins two of its nodes, and the local environment is one of them.
pub proof fn law_edges_join_nodes(packages: Seq<OPackage>)
    ensures
        joined_up(with_packages(local_topology(), packages)),
        has_node(with_packages(local_topology(), packages), "env:local-dev"@),
    decreases packages.len(),
{
    let after = with_packages(local_topology(), packages);
    if packages.len() == 0 {
        assert(after.nodes[0].id == "env:local-dev"@);
    } else {
        law_edges_join_nodes(packages.drop_last());
        let before = with_packages(local_topology(), packages.drop_last());
        let pkg = packages.last();
        let middle = TopologyView {
            nodes: before.nodes.push(node_view(package_id(pkg), "package"@)),
            ..before
        };
        assert(middle.edges =~= before.edges + Seq::<EdgeView>::empty());
        lemma_step(before, middle, node_view(package_id(pkg), "package"@), seq![]);
        lemma_node_stays(middle, before, "env:local-dev"@);
        lemma_classes_joined(middle, pkg, pkg.classes@);
        lemma_node_stays(after, middle, "env:local-dev"@);
    }
}

} // verus!
