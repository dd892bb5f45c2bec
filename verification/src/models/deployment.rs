//! Deployments of classes.
use vstd::prelude::*;
use crate::models::enums::DeploymentCondition;
use crate::text::chars::{copy_texts, views};
use crate::text_map::TextMap;

verus! {

/// A part of a model that is carried as a JSON document.
#[derive(Debug)]
pub struct JsonDocument {
    pub text: String,
}

/// A moment in time: seconds since the epoch and nanoseconds within the second. The
/// nanoseconds of a leap second go beyond a second.
#[derive(Debug, Clone, Copy, PartialEq, Eq, Structural)]
pub struct Timestamp {
    pub seconds: i64,
    pub nanos: u32,
}

/// Calls `chrono::Utc::now`. Nothing is said of the moment, but that its nanoseconds stay
/// below two seconds.
#[verifier::external_body]
pub(crate) fn now() -> (r: Timestamp)
    ensures
        r.nanos < 2_000_000_000,
{
    let moment = chrono::Utc::now();
    Timestamp { seconds: moment.timestamp(), nanos: moment.timestamp_subsec_nanos() }
}

/// How a function is provided: the WASM module that holds it and the fuel that a call may
/// burn, with the other settings as a document.
#[derive(Debug)]
pub struct ProvisionConfig {
    pub wasm_module_url: Option<String>,
    pub wasm_fuel: Option<u64>,
    pub other: Option<JsonDocument>,
}

/// A function of a deployment.
#[derive(Debug)]
pub struct FunctionDeploymentSpec {
    pub function_key: String,
    /// Short human-readable description for the function
    pub description: Option<String>,
    /// Optional available location / environment name where this function may run (e.g., "edge", "cloud")
    pub available_location: Option<String>,
    /// Per-function QoS requirements (inherited from package metadata or analyzer)
    pub qos_requirement: Option<JsonDocument>,
    /// Optional provision configuration copied from package (container image, ports, knative hints)
    pub provision_config: Option<ProvisionConfig>,
    /// Arbitrary config key/value pairs from package metadata (injected as ENV to runtimes)
    pub config: TextMap<String>,
}

/// Which deployments are asked for.
#[derive(Debug)]
pub struct DeploymentFilter {
    pub package_name: Option<String>,
    pub class_key: Option<String>,
    pub target_env: Option<String>,
    pub condition: Option<DeploymentCondition>,
}

impl Default for DeploymentFilter {
    fn default() -> (r: Self)
        ensures
            r == (DeploymentFilter {
                package_name: None,
                class_key: None,
                target_env: None,
                condition: None,
            }),
    {
        DeploymentFilter { package_name: None, class_key: None, target_env: None, condition: None }
    }
}

/// Concrete infrastructure configuration for a specific deployment instance.
///
/// This is the **per-deployment, low-level** counterpart to the options of a class.
/// Different deployments of the same class can have different values (e.g., one env with
/// `shard_type = "raft"` for strong consistency, another with `shard_type = "mst"` for
/// eventual).
#[derive(Debug)]
pub struct OdgmDataSpec {
    /// Logical ODGM collection names to materialize.
    /// Defaults to `["{package_name}.{class_key}"]` when empty.
    pub collections: Vec<String>,
    /// Desired partition count per collection (>=1). Partitions drive parallelism and hash space.
    pub partition_count: Option<u32>,
    /// Desired replica count per partition (>=1). PM selects based on availability NFRs.
    pub replica_count: Option<u32>,
    /// Low-level shard implementation / consistency strategy (e.g. "mst", "raft").
    pub shard_type: Option<String>,
    /// Mapping of environment (target_env) -> list of ODGM node ids assigned for that env.
    pub env_node_ids: TextMap<Vec<u64>>,
    /// Optional ODGM log env filter (maps to ODGM_LOG), e.g. "info,openraft=info,zenoh=warn".
    pub log: Option<String>,
    /// Per-deployment shard behavior overrides. Keys here have higher precedence than the
    /// options of the class and are merged on top at deployment time.
    pub options: TextMap<String>,
    pub zenoh_mode: Option<String>,
}

impl Default for OdgmDataSpec {
    fn default() -> (r: Self)
        ensures
            r.collections@.len() == 0,
            r.partition_count is None,
            r.replica_count is None,
            r.shard_type is None,
            r.env_node_ids@ == Map::<Seq<char>, Vec<u64>>::empty(),
            r.log is None,
            r.options@ == Map::<Seq<char>, String>::empty(),
            r.zenoh_mode is None,
    {
        OdgmDataSpec {
            collections: Vec::new(),
            partition_count: None,
            replica_count: None,
            shard_type: None,
            env_node_ids: TextMap::new(),
            log: None,
            options: TextMap::new(),
            zenoh_mode: None,
        }
    }
}

/// How a deployment is placed.
#[derive(Debug)]
pub struct DeploymentStatusSummary {
    /// Chosen replication factor (number of environments) for this deployment.
    pub replication_factor: u32,
    /// The concrete environments where the deployment is (or will be) placed.
    pub selected_envs: Vec<String>,
    /// Best-effort achieved quorum availability for the selected environments, as the bits
    /// of a double-precision number.
    pub achieved_quorum_availability_bits: Option<u64>,
    /// Optional last error observed during scheduling or rollout.
    pub last_error: Option<String>,
}

impl Default for DeploymentStatusSummary {
    fn default() -> (r: Self)
        ensures
            r.replication_factor == 0,
            r.selected_envs@.len() == 0,
            r.achieved_quorum_availability_bits is None,
            r.last_error is None,
    {
        DeploymentStatusSummary {
            replication_factor: 0,
            selected_envs: Vec::new(),
            achieved_quorum_availability_bits: None,
            last_error: None,
        }
    }
}

/// A deployment of a class.
#[derive(Debug)]
pub struct OClassDeployment {
    pub key: String,
    pub package_name: String,
    pub class_key: String,
    /// Explicit target environments to deploy to. If empty, the system will
    /// select environments automatically based on availability and NFRs.
    pub target_envs: Vec<String>,
    /// Optional allow-list of environments that are eligible for automatic
    /// selection. If empty, all known environments are considered.
    pub available_envs: Vec<String>,
    /// Non-functional requirements; none stands for the defaults.
    pub nfr_requirements: Option<JsonDocument>,
    /// Per-environment template overrides. Key = environment/cluster name,
    /// Value = template name or alias. Highest precedence for that env.
    pub env_templates: TextMap<String>,
    pub functions: Vec<FunctionDeploymentSpec>,
    pub condition: DeploymentCondition,
    pub odgm: Option<OdgmDataSpec>,
    /// Per-deployment telemetry/observability configuration
    pub telemetry: Option<JsonDocument>,
    /// Optional runtime status summary populated by the Package Manager.
    pub status: Option<DeploymentStatusSummary>,
    pub created_at: Option<Timestamp>,
    pub updated_at: Option<Timestamp>,
}

impl OClassDeployment {
    /// Whether this is the deployment that was filled in at a moment and is otherwise empty.
    pub open spec fn is_blank(self, created_at: Option<Timestamp>, updated_at: Option<Timestamp>) -> bool {
        &&& self.key@.len() == 0
        &&& self.package_name@.len() == 0
        &&& self.class_key@.len() == 0
        &&& self.target_envs@.len() == 0
        &&& self.available_envs@.len() == 0
        &&& self.nfr_requirements is None
        &&& self.env_templates@ == Map::<Seq<char>, String>::empty()
        &&& self.functions@.len() == 0
        &&& self.condition == DeploymentCondition::Pending
        &&& self.odgm is None
        &&& self.telemetry is None
        &&& self.status is None
        &&& self.created_at == created_at
        &&& self.updated_at == updated_at
    }

    /// An empty deployment that was filled in at a moment.
    pub fn default_at(moment: Timestamp) -> (r: Self)
        ensures
            r.is_blank(Some(moment), Some(moment)),
    {
        OClassDeployment {
            key: String::new(),
            package_name: String::new(),
            class_key: String::new(),
            target_envs: Vec::new(),
            available_envs: Vec::new(),
            nfr_requirements: None,
            env_templates: TextMap::new(),
            functions: Vec::new(),
            condition: DeploymentCondition::Pending,
            odgm: None,
            telemetry: None,
            status: None,
            created_at: Some(moment),
            updated_at: Some(moment),
        }
    }
}

impl Default for OClassDeployment {
    fn default() -> (r: Self)
        ensures
            r.created_at is Some,
            r.is_blank(r.created_at, r.created_at),
    {
        OClassDeployment::default_at(now())
    }
}

/// A field that breaks a rule of its model.
#[derive(Debug)]
pub struct FieldError {
    pub field: String,
    /// The position of the function that the field belongs to; none for a field of the
    /// deployment itself.
    pub function: Option<usize>,
    pub message: String,
}

/// The model of a broken rule.
#[verifier::ext_equal]
pub struct FieldErrorView {
    pub field: Seq<char>,
    pub function: Option<int>,
    pub message: Seq<char>,
}

impl View for FieldError {
    type V = FieldErrorView;

    open spec fn view(&self) -> FieldErrorView {
        FieldErrorView {
            field: self.field@,
            function: position_view(self.function),
            message: self.message@,
        }
    }
}

/// A position that may be missing.
pub open spec fn position_view(position: Option<usize>) -> Option<int> {
    match position {
        Some(i) => Some(i as int),
        None => None,
    }
}

/// The broken rule of a field that must not be empty.
pub open spec fn required(
    text: Seq<char>,
    field: Seq<char>,
    function: Option<int>,
    message: Seq<char>,
) -> Seq<FieldErrorView> {
    if text.len() == 0 {
        seq![FieldErrorView { field, function, message }]
    } else {
        seq![]
    }
}

/// The broken rules of the functions of a deployment.
pub open spec fn function_errors(functions: Seq<FunctionDeploymentSpec>) -> Seq<FieldErrorView>
    decreases functions.len(),
{
    if functions.len() == 0 {
        seq![]
    } else {
        function_errors(functions.drop_last()) + required(
            functions.last().function_key@,
            "function_key"@,
            Some(functions.len() - 1),
            "Function key cannot be empty"@,
        )
    }
}

impl OClassDeployment {
    /// The broken rules of a deployment.
    pub open spec fn errors(self) -> Seq<FieldErrorView> {
        required(self.key@, "key"@, None, "Deployment key cannot be empty"@) + required(
            self.package_name@,
            "package_name"@,
            None,
            "Package name cannot be empty"@,
        ) + required(self.class_key@, "class_key"@, None, "Class key cannot be empty"@) + function_errors(
            self.functions@,
        )
    }

    /// Checks the rules of a deployment: its keys, its package and the keys of its functions
    /// must not be empty. Each broken rule is listed, with the position of its function.
    pub fn validate(&self) -> (r: Result<(), Vec<FieldError>>)
        ensures
            match r {
                Ok(_) => self.errors().len() == 0,
                Err(e) => self.errors().len() > 0 && views(e@) == self.errors(),
            },
    {
        let mut r: Vec<FieldError> = Vec::new();
        check_required(&mut r, self.key.as_str(), "key", None, "Deployment key cannot be empty");
        check_required(
            &mut r,
            self.package_name.as_str(),
            "package_name",
            None,
            "Package name cannot be empty",
        );
        check_required(
            &mut r,
            self.class_key.as_str(),
            "class_key",
            None,
            "Class key cannot be empty",
        );
        let ghost start = views(r@);
        assert(start =~= required(self.key@, "key"@, None, "Deployment key cannot be empty"@) + required(
            self.package_name@,
            "package_name"@,
            None,
            "Package name cannot be empty"@,
        ) + required(self.class_key@, "class_key"@, None, "Class key cannot be empty"@));
        let mut i: usize = 0;
        assert(self.functions@.take(0) =~= Seq::<FunctionDeploymentSpec>::empty());
        assert(start + function_errors(self.functions@.take(0)) =~= start);
        while i < self.functions.len()
            invariant
                i <= self.functions@.len(),
                views(r@) == start + function_errors(self.functions@.take(i as int)),
            decreases self.functions@.len() - i,
        {
            proof {
                assert(self.functions@.take(i + 1).drop_last() =~= self.functions@.take(i as int));
                assert(self.functions@.take(i + 1).last() == self.functions@[i as int]);
            }
            check_required(
                &mut r,
                self.functions[i].function_key.as_str(),
                "function_key",
                Some(i),
                "Function key cannot be empty",
            );
            assert(views(r@) =~= start + function_errors(self.functions@.take(i + 1)));
            i += 1;
        }
        assert(self.functions@.take(i as int) =~= self.functions@);
        assert(views(r@).len() == r@.len());
        if r.len() == 0 {
            Ok(())
        } else {
            Err(r)
        }
    }
}

/// Adds the broken rule of a field that must not be empty.
fn check_required(
    errors: &mut Vec<FieldError>,
    text: &str,
    field: &str,
    function: Option<usize>,
    message: &str,
)
    ensures
        views(final(errors)@) == views(old(errors)@) + required(
            text@,
            field@,
            position_view(function),
            message@,
        ),
{
    if text.unicode_len() == 0 {
        errors.push(FieldError { field: field.to_owned(), function, message: message.to_owned() });
    }
    assert(views(errors@) =~= views(old(errors)@) + required(
        text@,
        field@,
        position_view(function),
        message@,
    ));
}

/// A copy of an optional text.
pub fn copy_text(t: &Option<String>) -> (r: Option<String>)
    ensures
        r == *t,
{
    match t {
        Some(s) => Some(s.clone()),
        None => None,
    }
}

impl JsonDocument {
    /// A copy of an optional document.
    fn copy_of(d: &Option<JsonDocument>) -> (r: Option<JsonDocument>)
        ensures
            r == *d,
    {
        match d {
            Some(d) => Some(JsonDocument { text: d.text.clone() }),
            None => None,
        }
    }
}

impl ProvisionConfig {
    /// A copy of an optional configuration.
    fn copy_of(p: &Option<ProvisionConfig>) -> (r: Option<ProvisionConfig>)
        ensures
            r == *p,
    {
        match p {
            Some(p) => Some(
                ProvisionConfig {
                    wasm_module_url: copy_text(&p.wasm_module_url),
                    wasm_fuel: p.wasm_fuel,
                    other: JsonDocument::copy_of(&p.other),
                },
            ),
            None => None,
        }
    }
}

impl FunctionDeploymentSpec {
    /// Whether two functions are the same.
    pub open spec fn same_as(self, other: FunctionDeploymentSpec) -> bool {
        &&& self.function_key == other.function_key
        &&& self.description == other.description
        &&& self.available_location == other.available_location
        &&& self.qos_requirement == other.qos_requirement
        &&& self.provision_config == other.provision_config
        &&& self.config@ == other.config@
    }

    /// A copy.
    pub fn copy(&self) -> (r: Self)
        ensures
            r.same_as(*self),
    {
        FunctionDeploymentSpec {
            function_key: self.function_key.clone(),
            description: copy_text(&self.description),
            available_location: copy_text(&self.available_location),
            qos_requirement: JsonDocument::copy_of(&self.qos_requirement),
            provision_config: ProvisionConfig::copy_of(&self.provision_config),
            config: self.config.copy(),
        }
    }
}

/// Whether two lists hold the same functions.
pub open spec fn same_functions(
    a: Seq<FunctionDeploymentSpec>,
    b: Seq<FunctionDeploymentSpec>,
) -> bool {
    a.len() == b.len() && forall|i: int| 0 <= i < a.len() ==> (#[trigger] a[i]).same_as(b[i])
}

/// A copy of functions.
fn copy_functions(list: &Vec<FunctionDeploymentSpec>) -> (r: Vec<FunctionDeploymentSpec>)
    ensures
        same_functions(r@, list@),
{
    let mut r: Vec<FunctionDeploymentSpec> = Vec::new();
    let mut i: usize = 0;
    while i < list.len()
        invariant
            i <= list@.len(),
            r@.len() == i,
            forall|j: int| 0 <= j < i ==> (#[trigger] r@[j]).same_as(list@[j]),
        decreases list@.len() - i,
    {
        r.push(list[i].copy());
        i += 1;
    }
    r
}

/// Whether two maps assign the same nodes to the same environments.
pub open spec fn same_nodes(a: Map<Seq<char>, Vec<u64>>, b: Map<Seq<char>, Vec<u64>>) -> bool {
    &&& a.dom() == b.dom()
    &&& forall|k: Seq<char>| #[trigger] a.contains_key(k) ==> a[k]@ == b[k]@
}

/// A copy of numbers.
fn copy_numbers(list: &Vec<u64>) -> (r: Vec<u64>)
    ensures
        r@ == list@,
{
    let mut r: Vec<u64> = Vec::new();
    let mut i: usize = 0;
    while i < list.len()
        invariant
            i <= list@.len(),
            r@ == list@.take(i as int),
        decreases list@.len() - i,
    {
        r.push(list[i]);
        i += 1;
    }
    assert(list@.take(i as int) =~= list@);
    r
}

/// A copy of a map of nodes.
fn copy_nodes(map: &TextMap<Vec<u64>>) -> (r: TextMap<Vec<u64>>)
    ensures
        same_nodes(r@, map@),
{
    let names: Vec<String> = map.keys();
    let mut r: TextMap<Vec<u64>> = TextMap::new();
    let mut i: usize = 0;
    while i < names.len()
        invariant
            i <= names@.len(),
            forall|k: Seq<char>|
                map@.contains_key(k) == (exists|j: int|
                    0 <= j < names@.len() && (#[trigger] names@[j])@ == k),
            forall|k: Seq<char>| #[trigger]
                r@.contains_key(k) ==> map@.contains_key(k) && r@[k]@ == map@[k]@,
            forall|j: int| 0 <= j < i ==> r@.contains_key((#[trigger] names@[j])@),
        decreases names@.len() - i,
    {
        assert(map@.contains_key(names@[i as int]@));
        match map.get(names[i].as_str()) {
            Some(list) => {
                r.insert(names[i].clone(), copy_numbers(list));
            },
            None => {},
        }
        i += 1;
    }
    assert forall|k: Seq<char>| r@.dom().contains(k) == map@.dom().contains(k) by {
        if map@.contains_key(k) {
            let j = choose|j: int| 0 <= j < names@.len() && (#[trigger] names@[j])@ == k;
            assert(r@.contains_key(names@[j]@));
        }
    }
    assert(r@.dom() =~= map@.dom());
    r
}

impl OdgmDataSpec {
    /// Whether two configurations are the same.
    pub open spec fn same_as(self, other: OdgmDataSpec) -> bool {
        &&& self.collections@ == other.collections@
        &&& self.partition_count == other.partition_count
        &&& self.replica_count == other.replica_count
        &&& self.shard_type == other.shard_type
        &&& same_nodes(self.env_node_ids@, other.env_node_ids@)
        &&& self.log == other.log
        &&& self.options@ == other.options@
        &&& self.zenoh_mode == other.zenoh_mode
    }

    /// A copy.
    pub fn copy(&self) -> (r: Self)
        ensures
            r.same_as(*self),
    {
        OdgmDataSpec {
            collections: copy_texts(&self.collections),
            partition_count: self.partition_count,
            replica_count: self.replica_count,
            shard_type: copy_text(&self.shard_type),
            env_node_ids: copy_nodes(&self.env_node_ids),
            log: copy_text(&self.log),
            options: self.options.copy(),
            zenoh_mode: copy_text(&self.zenoh_mode),
        }
    }
}

impl DeploymentStatusSummary {
    /// Whether two summaries are the same.
    pub open spec fn same_as(self, other: DeploymentStatusSummary) -> bool {
        &&& self.replication_factor == other.replication_factor
        &&& self.selected_envs@ == other.selected_envs@
        &&& self.achieved_quorum_availability_bits == other.achieved_quorum_availability_bits
        &&& self.last_error == other.last_error
    }

    /// A copy.
    pub fn copy(&self) -> (r: Self)
        ensures
            r.same_as(*self),
    {
        DeploymentStatusSummary {
            replication_factor: self.replication_factor,
            selected_envs: copy_texts(&self.selected_envs),
            achieved_quorum_availability_bits: self.achieved_quorum_availability_bits,
            last_error: copy_text(&self.last_error),
        }
    }
}

impl OClassDeployment {
    /// Whether two deployments agree in all that is not named by the package, the target
    /// environments and the condition.
    pub open spec fn same_rest(self, other: OClassDeployment) -> bool {
        &&& self.key == other.key
        &&& self.class_key == other.class_key
        &&& self.available_envs@ == other.available_envs@
        &&& self.nfr_requirements == other.nfr_requirements
        &&& self.env_templates@ == other.env_templates@
        &&& same_functions(self.functions@, other.functions@)
        &&& match (self.odgm, other.odgm) {
            (Some(a), Some(b)) => a.same_as(b),
            (None, None) => true,
            _ => false,
        }
        &&& self.telemetry == other.telemetry
        &&& match (self.status, other.status) {
            (Some(a), Some(b)) => a.same_as(b),
            (None, None) => true,
            _ => false,
        }
        &&& self.created_at == other.created_at
        &&& self.updated_at == other.updated_at
    }

    /// Whether two deployments are the same.
    pub open spec fn same_as(self, other: OClassDeployment) -> bool {
        &&& self.package_name == other.package_name
        &&& self.target_envs@ == other.target_envs@
        &&& self.condition == other.condition
        &&& self.same_rest(other)
    }

    /// A copy.
    pub fn copy(&self) -> (r: Self)
        ensures
            r.same_as(*self),
    {
        OClassDeployment {
            key: self.key.clone(),
            package_name: self.package_name.clone(),
            class_key: self.class_key.clone(),
            target_envs: copy_texts(&self.target_envs),
            available_envs: copy_texts(&self.available_envs),
            nfr_requirements: JsonDocument::copy_of(&self.nfr_requirements),
            env_templates: self.env_templates.copy(),
            functions: copy_functions(&self.functions),
            condition: self.condition,
            odgm: match &self.odgm {
                Some(o) => Some(o.copy()),
                None => None,
            },
            telemetry: JsonDocument::copy_of(&self.telemetry),
            status: match &self.status {
                Some(s) => Some(s.copy()),
                None => None,
            },
            created_at: self.created_at,
            updated_at: self.updated_at,
        }
    }
}

} // verus!
