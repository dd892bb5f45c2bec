use oprc::events::{ChangedKey, MutAction, MutationContext, MutationSource};
use oprc::models::deployment::{
    DeploymentFilter, DeploymentStatusSummary, FunctionDeploymentSpec, OClassDeployment,
    OdgmDataSpec, Timestamp,
};
use oprc::models::enums::{
    ConsistencyModel, DeploymentCondition, FunctionAccessModifier, FunctionType,
};
use oprc::text_map::TextMap;
use std::sync::Arc;

fn s(t: &str) -> String {
    t.to_string()
}

#[test]
fn function_type_wasm_serializes_to_wasm_string() {
    let json = FunctionType::Wasm.to_json();
    assert_eq!(json, br#""WASM""#);
}

#[test]
fn function_type_wasm_deserializes_from_wasm_string() {
    let ft = FunctionType::from_json(&br#""WASM""#.to_vec()).unwrap();
    assert_eq!(ft, FunctionType::Wasm);
}

#[test]
fn function_type_default_is_custom() {
    assert_eq!(FunctionType::default(), FunctionType::Custom);
}

#[test]
fn function_type_roundtrip_all_variants() {
    let variants = vec![
        FunctionType::Builtin,
        FunctionType::Custom,
        FunctionType::Macro,
        FunctionType::Logical,
        FunctionType::Wasm,
    ];
    for v in variants {
        let json = v.to_json();
        let back = FunctionType::from_json(&json).unwrap();
        assert_eq!(v, back);
    }
}

#[test]
fn unknown_names_have_no_value() {
    assert_eq!(FunctionType::from_json(&b"\"OTHER\"".to_vec()), None);
    assert_eq!(FunctionType::from_json(&b"WASM".to_vec()), None);
    assert_eq!(FunctionType::from_text("wasm"), None);
    assert_eq!(DeploymentCondition::from_text(""), None);
    assert_eq!(ConsistencyModel::from_text("EVENTUAL"), None);
    assert_eq!(FunctionAccessModifier::from_text("public"), None);
}

#[test]
fn enumerations_have_names_and_defaults() {
    for (v, t) in [
        (DeploymentCondition::Pending, "PENDING"),
        (DeploymentCondition::Deploying, "DEPLOYING"),
        (DeploymentCondition::Running, "RUNNING"),
        (DeploymentCondition::Down, "DOWN"),
        (DeploymentCondition::Deleted, "DELETED"),
    ] {
        assert_eq!(v.as_text(), t);
        assert_eq!(DeploymentCondition::from_text(t), Some(v));
    }
    for (v, t) in [
        (FunctionAccessModifier::Public, "PUBLIC"),
        (FunctionAccessModifier::Internal, "INTERNAL"),
        (FunctionAccessModifier::Private, "PRIVATE"),
    ] {
        assert_eq!(v.as_text(), t);
        assert_eq!(FunctionAccessModifier::from_text(t), Some(v));
    }
    for (v, t) in [
        (ConsistencyModel::Unspecified, "NONE"),
        (ConsistencyModel::ReadYourWrite, "READ_YOUR_WRITE"),
        (ConsistencyModel::BoundedStaleness, "BOUNDED_STALENESS"),
        (ConsistencyModel::Strong, "STRONG"),
    ] {
        assert_eq!(v.as_text(), t);
        assert_eq!(ConsistencyModel::from_text(t), Some(v));
    }
    assert_eq!(DeploymentCondition::default(), DeploymentCondition::Pending);
    assert_eq!(FunctionAccessModifier::default(), FunctionAccessModifier::Public);
    assert_eq!(ConsistencyModel::default(), ConsistencyModel::Unspecified);
}

#[test]
fn deployments_are_filled_in_now() {
    let d = OClassDeployment::default();
    let at = d.created_at.unwrap();
    assert!(at.seconds > 1_600_000_000);
    assert!(at.nanos < 2_000_000_000);
    assert_eq!(d.updated_at, Some(at));
    assert_eq!(d.condition, DeploymentCondition::Pending);
    assert!(d.key.is_empty() && d.target_envs.is_empty() && d.odgm.is_none());
    let moment = Timestamp { seconds: 5, nanos: 6 };
    assert_eq!(OClassDeployment::default_at(moment).updated_at, Some(moment));
}

#[test]
fn other_defaults_are_empty() {
    let f = DeploymentFilter::default();
    assert!(f.package_name.is_none() && f.class_key.is_none());
    assert!(f.target_env.is_none() && f.condition.is_none());
    let o = OdgmDataSpec::default();
    assert!(o.collections.is_empty() && o.options.is_empty() && o.env_node_ids.is_empty());
    assert!(o.partition_count.is_none() && o.shard_type.is_none());
    let d = DeploymentStatusSummary::default();
    assert_eq!(d.replication_factor, 0);
    assert!(d.achieved_quorum_availability_bits.is_none());
}

fn function(key: &str) -> FunctionDeploymentSpec {
    FunctionDeploymentSpec {
        function_key: s(key),
        description: None,
        available_location: None,
        qos_requirement: None,
        provision_config: None,
        config: TextMap::new(),
    }
}

#[test]
fn deployments_are_validated() {
    let mut d = OClassDeployment::default();
    d.functions.push(function("f"));
    d.functions.push(function(""));
    let errors = d.validate().unwrap_err();
    let got: Vec<(&str, Option<usize>, &str)> =
        errors.iter().map(|e| (e.field.as_str(), e.function, e.message.as_str())).collect();
    assert_eq!(
        got,
        [
            ("key", None, "Deployment key cannot be empty"),
            ("package_name", None, "Package name cannot be empty"),
            ("class_key", None, "Class key cannot be empty"),
            ("function_key", Some(1), "Function key cannot be empty"),
        ]
    );
    d.key = s("k");
    d.package_name = s("p");
    d.class_key = s("c");
    assert_eq!(d.validate().unwrap_err().len(), 1);
    d.functions.pop();
    assert!(d.validate().is_ok());
}

#[test]
fn deployments_are_copied() {
    let mut d = OClassDeployment::default();
    d.key = s("k");
    d.target_envs.push(s("edge"));
    d.functions.push(function("f"));
    d.env_templates.insert(s("edge"), s("t"));
    let mut o = OdgmDataSpec::default();
    o.env_node_ids.insert(s("edge"), vec![1, 2]);
    d.odgm = Some(o);
    let c = d.copy();
    assert_eq!(c.key, "k");
    assert_eq!(c.target_envs, ["edge"]);
    assert_eq!(c.functions[0].function_key, "f");
    assert_eq!(c.env_templates.get("edge").unwrap(), "t");
    assert_eq!(c.odgm.unwrap().env_node_ids.get("edge").unwrap(), &vec![1, 2]);
}

#[test]
fn mutations_have_a_source() {
    let changed = || vec![ChangedKey {
        key_canonical: s("k"),
        action: MutAction::Update,
        value: Some(vec![1]),
    }];
    let local: MutationContext<u8> = MutationContext::new(s("o"), s("c"), 3, 1, 2, changed());
    assert_eq!(local.source, MutationSource::Local);
    assert_eq!((local.partition_id, local.version_before, local.version_after), (3, 1, 2));
    assert!(local.event_config.is_none());
    let sync: MutationContext<u8> = MutationContext::new_sync(s("o"), s("c"), 3, 1, 2, changed());
    assert_eq!(sync.source, MutationSource::Sync);
    let configured = sync.with_event_config(Some(Arc::new(9)));
    assert_eq!(configured.event_config, Some(Arc::new(9)));
    assert_eq!(configured.object_id, "o");
    assert_eq!(configured.changed[0].action, MutAction::Update);
}
