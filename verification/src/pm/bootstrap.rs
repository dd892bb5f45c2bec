//! What the package manager's server is made of, decided from its configuration.
use vstd::prelude::*;
use crate::router::{is_switched_on, switched_on};
use crate::text::chars::text_view;

verus! {

/// The compiler service of scripts.
#[derive(Debug)]
pub struct CompilerConfig {
    pub url: String,
    pub timeout_seconds: u64,
    pub max_retries: u32,
}

/// Where compiled scripts are kept and under which address they are served.
#[derive(Debug)]
pub struct ArtifactConfig {
    pub dir: String,
    pub base_url: String,
}

/// The settings that decide what the server is made of.
#[derive(Debug)]
pub struct AppConfig {
    pub compiler: Option<CompilerConfig>,
    pub artifact: ArtifactConfig,
    pub netsim_enabled: Option<String>,
}

/// The script service to set up: its compiler, and one store for artifacts and sources.
#[derive(Debug)]
pub struct ScriptPlan {
    pub compiler: CompilerConfig,
    pub store_dir: String,
    pub base_url: String,
}

/// What the server is made of, beside the services that it always has.
#[derive(Debug)]
pub struct ServerPlan {
    pub script: Option<ScriptPlan>,
    pub netsim: bool,
}

/// Decides what the server is made of: scripts are served where a compiler is configured,
/// and the network simulation is controlled where it is switched on.
pub fn plan_server(config: AppConfig) -> (r: ServerPlan)
    ensures
        r.netsim == switched_on(text_view(config.netsim_enabled)),
        match config.compiler {
            Some(compiler) => r.script == Some(
                ScriptPlan {
                    compiler,
                    store_dir: config.artifact.dir,
                    base_url: config.artifact.base_url,
                },
            ),
            None => r.script is None,
        },
{
    let netsim: bool = is_switched_on(&config.netsim_enabled);
    let script: Option<ScriptPlan> = match config.compiler {
        Some(compiler) => Some(
            ScriptPlan {
                compiler,
                store_dir: config.artifact.dir,
                base_url: config.artifact.base_url,
            },
        ),
        None => None,
    };
    ServerPlan { script, netsim }
}

} // verus!
