//! Packages of classes and functions.
use vstd::prelude::*;
use crate::models::deployment::{JsonDocument, OClassDeployment, ProvisionConfig};
use crate::models::enums::{ConsistencyModel, FunctionAccessModifier, FunctionType};
use crate::text_map::TextMap;

verus! {

/// What the state of a class is like.
#[derive(Debug)]
pub struct StateSpecification {
    pub consistency_model: ConsistencyModel,
    /// The other settings, as a document.
    pub other: Option<JsonDocument>,
}

impl Default for StateSpecification {
    fn default() -> (r: Self)
        ensures
            r.consistency_model == ConsistencyModel::Unspecified,
            r.other is None,
    {
        StateSpecification { consistency_model: ConsistencyModel::Unspecified, other: None }
    }
}

/// A function under the name by which a class offers it.
#[derive(Debug)]
pub struct FunctionBinding {
    pub name: String,
    pub function_key: String,
    pub access_modifier: FunctionAccessModifier,
    pub stateless: bool,
}

/// A class.
#[derive(Debug)]
pub struct OClass {
    pub key: String,
    pub description: Option<String>,
    pub state_spec: Option<StateSpecification>,
    pub function_bindings: Vec<FunctionBinding>,
    /// What the class does, as key/value pairs.
    pub options: TextMap<String>,
}

/// A function.
#[derive(Debug)]
pub struct OFunction {
    pub key: String,
    pub function_type: FunctionType,
    pub description: Option<String>,
    pub provision_config: Option<ProvisionConfig>,
    pub config: TextMap<String>,
}

/// A package: classes, the functions behind them, and how they are deployed.
#[derive(Debug)]
pub struct OPackage {
    pub name: String,
    pub version: Option<String>,
    pub classes: Vec<OClass>,
    pub functions: Vec<OFunction>,
    pub dependencies: Vec<String>,
    pub deployments: Vec<OClassDeployment>,
    /// The other settings, as a document.
    pub metadata: Option<JsonDocument>,
}

} // verus!
