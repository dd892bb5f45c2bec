//! What the models of packages and deployments are stored as, and when they are in order.
use vstd::prelude::*;
use vstd::string::*;
use crate::models::deployment::{
    function_errors, DeploymentStatusSummary, FieldErrorView, FunctionDeploymentSpec,
    OClassDeployment, OdgmDataSpec, Timestamp,
};
use crate::models::enums::{
    ConsistencyModel, DeploymentCondition, FunctionAccessModifier, FunctionType,
};

verus! {

/// The names under which the kinds of functions are stored.
pub proof fn law_function_type_names()
    ensures
        FunctionType::Builtin.text() == "BUILTIN"@,
        FunctionType::Custom.text() == "CUSTOM"@,
        FunctionType::Macro.text() == "MACRO"@,
        FunctionType::Logical.text() == "LOGICAL"@,
        FunctionType::Wasm.text() == "WASM"@,
{
}

/// The names under which the conditions of deployments are stored.
pub proof fn law_condition_names()
    ensures
        DeploymentCondition::Pending.text() == "PENDING"@,
        DeploymentCondition::Deploying.text() == "DEPLOYING"@,
        DeploymentCondition::Running.text() == "RUNNING"@,
        DeploymentCondition::Down.text() == "DOWN"@,
        DeploymentCondition::Deleted.text() == "DELETED"@,
{
}

/// The names under which it is stored who may call a function.
pub proof fn law_access_names()
    ensures
        FunctionAccessModifier::Public.text() == "PUBLIC"@,
        FunctionAccessModifier::Internal.text() == "INTERNAL"@,
        FunctionAccessModifier::Private.text() == "PRIVATE"@,
{
}

/// The names under which it is stored what readers can rely on.
pub proof fn law_consistency_names()
    ensures
        ConsistencyModel::Unspecified.text() == "NONE"@,
        ConsistencyModel::ReadYourWrite.text() == "READ_YOUR_WRITE"@,
        ConsistencyModel::BoundedStaleness.text() == "BOUNDED_STALENESS"@,
        ConsistencyModel::Strong.text() == "STRONG"@,
{
}

/// One for an empty text, and zero for any other.
pub open spec fn missing(text: Seq<char>) -> int {
    if text.len() == 0 {
        1
    } else {
        0
    }
}

/// How many functions have no key.
pub open spec fn nameless(functions: Seq<FunctionDeploymentSpec>) -> int {
    functions.fold_left(0int, |n: int, f: FunctionDeploymentSpec| n + missing(f.function_key@))
}

/// Each function without a key breaks one rule, and no other does.
proof fn lemma_function_errors(functions: Seq<FunctionDeploymentSpec>, i: int)
    ensures
        function_errors(functions).len() == nameless(functions),
        0 <= i < functions.len() ==> (functions[i].function_key@.len() == 0 <==> function_errors(
            functions,
        ).contains(
            FieldErrorView {
                field: "function_key"@,
                function: Some(i),
                message: "Function key cannot be empty"@,
            },
        )),
        forall|k: int|
            0 <= k < function_errors(functions).len() ==> ((#[trigger] function_errors(
                functions,
            )[k]).function matches Some(j) && 0 <= j < functions.len()),
    decreases functions.len(),
{
    reveal(Seq::fold_left);
    if functions.len() > 0 {
        let init = functions.drop_last();
        let last = functions.len() - 1;
        lemma_function_errors(init, i);
        let before = function_errors(init);
        let after = function_errors(functions);
        let e = FieldErrorView {
            field: "function_key"@,
            function: Some(i),
            message: "Function key cannot be empty"@,
        };
        assert(functions.last() == functions[last]);
        if before.contains(e) {
            let k = choose|k: int| 0 <= k < before.len() && before[k] == e;
            assert(after[k] == e);
        }
        if i == last && functions[last].function_key@.len() == 0 {
            assert(after[before.len() as int] == e);
        }
        if 0 <= i < functions.len() && after.contains(e) {
            let k = choose|k: int| 0 <= k < after.len() && after[k] == e;
            if k < before.len() {
                assert(before[k] == e);
            }
        }
        assert forall|k: int| 0 <= k < after.len() implies ((#[trigger] after[k]).function matches Some(
            j,
        ) && 0 <= j < functions.len()) by {
            if k < before.len() {
                assert(after[k] == before[k]);
            }
        }
    }
}

/// A deployment breaks one rule for each of its three names that is empty and for each function
/// without a key, and no other; it is in order where none of them is.
pub proof fn law_broken_rules(dep: OClassDeployment, i: int)
    ensures
        dep.errors().len() == missing(dep.key@) + missing(dep.package_name@) + missing(
            dep.class_key@,
        ) + nameless(dep.functions@),
        dep.key@.len() == 0 ==> dep.errors().contains(
            FieldErrorView {
                field: "key"@,
                function: None,
                message: "Deployment key cannot be empty"@,
            },
        ),
        dep.package_name@.len() == 0 ==> dep.errors().contains(
            FieldErrorView {
                field: "package_name"@,
                function: None,
                message: "Package name cannot be empty"@,
            },
        ),
        dep.class_key@.len() == 0 ==> dep.errors().contains(
            FieldErrorView {
                field: "class_key"@,
                function: None,
                message: "Class key cannot be empty"@,
            },
        ),
        0 <= i < dep.functions@.len() && dep.functions@[i].function_key@.len() == 0
            ==> dep.errors().contains(
            FieldErrorView {
                field: "function_key"@,
                function: Some(i),
                message: "Function key cannot be empty"@,
            },
        ),
{
    lemma_function_errors(dep.functions@, i);
    let all = dep.errors();
    let k = missing(dep.key@);
    let p = missing(dep.package_name@);
    let c = missing(dep.class_key@);
    if k == 1 {
        assert(all[0] == (FieldErrorView {
            field: "key"@,
            function: None,
            message: "Deployment key cannot be empty"@,
        }));
    }
    if p == 1 {
        assert(all[k] == (FieldErrorView {
            field: "package_name"@,
            function: None,
            message: "Package name cannot be empty"@,
        }));
    }
    if c == 1 {
        assert(all[k + p] == (FieldErrorView {
            field: "class_key"@,
            function: None,
            message: "Class key cannot be empty"@,
        }));
    }
    let more = function_errors(dep.functions@);
    let e = FieldErrorView {
        field: "function_key"@,
        function: Some(i),
        message: "Function key cannot be empty"@,
    };
    if more.contains(e) {
        let j = choose|j: int| 0 <= j < more.len() && more[j] == e;
        assert(all[k + p + c + j] == e);
    }
}

/// A deployment that is filled in at a moment holds nothing but that moment, and is pending.
pub proof fn law_blank_deployment(
    dep: OClassDeployment,
    created_at: Option<Timestamp>,
    updated_at: Option<Timestamp>,
    name: Seq<char>,
)
    requires
        dep.is_blank(created_at, updated_at),
    ensures
        dep.key@.len() == 0 && dep.package_name@.len() == 0 && dep.class_key@.len() == 0,
        dep.target_envs@.len() == 0 && dep.available_envs@.len() == 0 && dep.functions@.len() == 0,
        !dep.env_templates@.contains_key(name),
        dep.condition is Pending,
        dep.odgm is None && dep.telemetry is None && dep.status is None && dep.nfr_requirements
            is None,
        dep.created_at == created_at,
        dep.updated_at == updated_at,
{
}

/// A copy of a function says what the function says.
pub proof fn law_function_copy(a: FunctionDeploymentSpec, b: FunctionDeploymentSpec)
    requires
        a.same_as(b),
    ensures
        a.function_key@ == b.function_key@,
        a.description == b.description,
        a.available_location == b.available_location,
        a.qos_requirement == b.qos_requirement,
        a.provision_config == b.provision_config,
        a.config@ == b.config@,
{
}

/// A copy of the settings for the data grid says what they say.
pub proof fn law_data_copy(a: OdgmDataSpec, b: OdgmDataSpec, env: Seq<char>)
    requires
        a.same_as(b),
    ensures
        a.collections@ == b.collections@,
        a.partition_count == b.partition_count,
        a.replica_count == b.replica_count,
        a.shard_type == b.shard_type,
        a.log == b.log,
        a.options@ == b.options@,
        a.zenoh_mode == b.zenoh_mode,
        a.env_node_ids@.contains_key(env) == b.env_node_ids@.contains_key(env),
        a.env_node_ids@.contains_key(env) ==> a.env_node_ids@[env]@ == b.env_node_ids@[env]@,
{
    assert(a.env_node_ids@.dom().contains(env) == b.env_node_ids@.dom().contains(env));
}

/// A copy of a status says what the status says.
pub proof fn law_status_copy(a: DeploymentStatusSummary, b: DeploymentStatusSummary)
    requires
        a.same_as(b),
    ensures
        a.replication_factor == b.replication_factor,
        a.selected_envs@ == b.selected_envs@,
        a.achieved_quorum_availability_bits == b.achieved_quorum_availability_bits,
        a.last_error == b.last_error,
{
}

/// Deployments that agree but for their package, targets and condition agree in every other
/// field.
pub proof fn law_agreeing_deployments(a: OClassDeployment, b: OClassDeployment, i: int)
    requires
        a.same_rest(b),
    ensures
        a.key@ == b.key@,
        a.class_key@ == b.class_key@,
        a.available_envs@ == b.available_envs@,
        a.nfr_requirements == b.nfr_requirements,
        a.env_templates@ == b.env_templates@,
        a.functions@.len() == b.functions@.len(),
        0 <= i < a.functions@.len() ==> a.functions@[i].same_as(b.functions@[i]),
        a.odgm is Some == b.odgm is Some,
        a.odgm is Some ==> a.odgm->0.same_as(b.odgm->0),
        a.telemetry == b.telemetry,
        a.status is Some == b.status is Some,
        a.status is Some ==> a.status->0.same_as(b.status->0),
        a.created_at == b.created_at,
        a.updated_at == b.updated_at,
{
}

/// A copy of a deployment agrees with it in every field.
pub proof fn law_deployment_copy(a: OClassDeployment, b: OClassDeployment)
    requires
        a.same_as(b),
    ensures
        a.package_name@ == b.package_name@,
        a.target_envs@ == b.target_envs@,
        a.condition == b.condition,
        a.same_rest(b),
{
}

} // verus!
