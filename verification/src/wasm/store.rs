//! WASM module compilation and caching.
use std::sync::Arc;
use vstd::prelude::*;
use wasmtime::component::Component;
use wasmtime::Engine;
use crate::text::chars::views;
use crate::text::search::{contains_text, occurs};
use crate::text_map::TextMap;

verus! {

/// The engine that compiles components.
#[verifier::external_type_specification]
#[verifier::external_body]
pub struct ExEngine(Engine);

/// A compiled component.
#[verifier::external_type_specification]
#[verifier::external_body]
pub struct ExComponent(Component);

/// Why a component cannot be compiled.
#[verifier::external_type_specification]
#[verifier::external_body]
pub struct ExError(wasmtime::Error);

/// Which WIT world a compiled WASM component targets.
#[derive(Debug, Clone, Copy, PartialEq, Eq, Structural)]
pub enum WorldType {
    /// Procedural world: guest exports `guest-function` (invoke-fn / invoke-obj).
    Legacy,
    /// OOP world: guest exports `guest-object` (on-invoke with object-proxy).
    ObjectOriented,
}

/// Compiled WASM component with metadata
pub struct CompiledModule {
    pub component: Component,
    pub source_url: String,
    pub world_type: WorldType,
}

/// Why a module cannot be loaded.
pub enum LoadError {
    /// The bytes are no component that the engine takes.
    Compile { cause: wasmtime::Error },
}

/// The names that a component exports, in the order in which it lists them.
pub uninterp spec fn component_exports(component: Component) -> Seq<Seq<char>>;

/// The names that the component in these bytes exports.
pub uninterp spec fn binary_exports(bytes: Seq<u8>) -> Seq<Seq<char>>;

/// Calls `Component::from_binary`. Whether it succeeds rests on the engine, the bytes and the
/// machine, and is left open; what it gives exports the names that the bytes hold.
#[verifier::external_body]
fn compile(engine: &Engine, bytes: &[u8]) -> (r: Result<Component, wasmtime::Error>)
    ensures
        r matches Ok(c) ==> component_exports(c) == binary_exports(bytes@),
{
    Component::from_binary(engine, bytes)
}

/// Calls `Component::component_type` and lists the names of its `exports`.
#[verifier::external_body]
fn export_names(engine: &Engine, component: &Component) -> (r: Vec<String>)
    ensures
        views(r@) == component_exports(*component),
{
    component.component_type().exports(engine).map(|(name, _)| name.to_string()).collect()
}

/// The world of a component that exports these names: the object world where one of them
/// speaks of a `guest-object`.
pub open spec fn world_of(exports: Seq<Seq<char>>) -> WorldType {
    if exists|i: int| 0 <= i < exports.len() && occurs(#[trigger] exports[i], "guest-object"@) {
        WorldType::ObjectOriented
    } else {
        WorldType::Legacy
    }
}

/// The world of a component that exports these names.
pub fn world_of_exports(exports: &Vec<String>) -> (r: WorldType)
    ensures
        r == world_of(views(exports@)),
{
    let mut i: usize = 0;
    while i < exports.len()
        invariant
            i <= exports@.len(),
            forall|j: int| 0 <= j < i ==> !occurs(#[trigger] views(exports@)[j], "guest-object"@),
        decreases exports@.len() - i,
    {
        if contains_text(exports[i].as_str(), "guest-object") {
            assert(occurs(views(exports@)[i as int], "guest-object"@));
            return WorldType::ObjectOriented;
        }
        i += 1;
    }
    WorldType::Legacy
}

/// Detect the world type by inspecting the component's exported interface names.
pub fn detect_world_type(engine: &Engine, component: &Component) -> (r: WorldType)
    ensures
        r == world_of(component_exports(*component)),
{
    let names: Vec<String> = export_names(engine, component);
    world_of_exports(&names)
}

/// Compiles and caches WASM components by function ID.
pub struct WasmModuleStore {
    engine: Engine,
    modules: TextMap<Arc<CompiledModule>>,
}

impl View for WasmModuleStore {
    type V = Map<Seq<char>, Arc<CompiledModule>>;

    closed spec fn view(&self) -> Map<Seq<char>, Arc<CompiledModule>> {
        self.modules@
    }
}

impl WasmModuleStore {
    /// The engine of the store.
    pub closed spec fn engine_of(self) -> Engine {
        self.engine
    }

    /// A store without modules.
    pub fn new(engine: Engine) -> (r: Self)
        ensures
            r@ == Map::<Seq<char>, Arc<CompiledModule>>::empty(),
            r.engine_of() == engine,
    {
        WasmModuleStore { engine, modules: TextMap::new() }
    }

    /// Caches what compiling gave under a function ID: the module with where it came from and
    /// its world, or nothing where compiling failed.
    pub fn keep(
        &mut self,
        fn_id: &str,
        source_url: &str,
        compiled: Result<Component, wasmtime::Error>,
    ) -> (r: Result<Arc<CompiledModule>, LoadError>)
        ensures
            final(self).engine_of() == old(self).engine_of(),
            match compiled {
                Ok(c) => {
                    &&& r is Ok
                    &&& final(self)@ == old(self)@.insert(fn_id@, r->Ok_0)
                    &&& r->Ok_0.component == c
                    &&& r->Ok_0.source_url@ == source_url@
                    &&& r->Ok_0.world_type == world_of(component_exports(c))
                },
                Err(cause) => {
                    &&& r == Err::<Arc<CompiledModule>, LoadError>(LoadError::Compile { cause })
                    &&& final(self)@ == old(self)@
                },
            },
    {
        match compiled {
            Ok(component) => {
                let world_type: WorldType = detect_world_type(&self.engine, &component);
                let module: Arc<CompiledModule> = Arc::new(
                    CompiledModule { component, source_url: source_url.to_owned(), world_type },
                );
                self.modules.insert(fn_id.to_owned(), module.clone());
                Ok(module)
            },
            Err(cause) => Err(LoadError::Compile { cause }),
        }
    }

    /// Whether loading bytes from a place led from one store to another: with the module that
    /// was cached, or without a change where the bytes could not be compiled.
    pub open spec fn loaded(
        self,
        next: Self,
        fn_id: Seq<char>,
        source_url: Seq<char>,
        bytes: Seq<u8>,
        r: Result<Arc<CompiledModule>, LoadError>,
    ) -> bool {
        &&& next.engine_of() == self.engine_of()
        &&& match r {
            Ok(m) => {
                &&& next@ == self@.insert(fn_id, m)
                &&& m.source_url@ == source_url
                &&& component_exports(m.component) == binary_exports(bytes)
                &&& m.world_type == world_of(binary_exports(bytes))
            },
            Err(_) => next@ == self@,
        }
    }

    /// Compiles the bytes that were fetched from a URL and caches the module. Whether they can
    /// be compiled is for the engine and its machine to say.
    pub fn load(&mut self, fn_id: &str, url: &str, bytes: &[u8]) -> (r: Result<
        Arc<CompiledModule>,
        LoadError,
    >)
        ensures
            old(self).loaded(*final(self), fn_id@, url@, bytes@, r),
    {
        let compiled: Result<Component, wasmtime::Error> = compile(&self.engine, bytes);
        self.keep(fn_id, url, compiled)
    }

    /// Load a WASM component directly from bytes (useful for testing).
    pub fn load_from_bytes(&mut self, fn_id: &str, bytes: &[u8]) -> (r: Result<
        Arc<CompiledModule>,
        LoadError,
    >)
        ensures
            old(self).loaded(*final(self), fn_id@, "bytes://"@, bytes@, r),
    {
        let compiled: Result<Component, wasmtime::Error> = compile(&self.engine, bytes);
        self.keep(fn_id, "bytes://", compiled)
    }

    /// Get a previously loaded module by function ID.
    pub fn get(&self, fn_id: &str) -> (r: Option<Arc<CompiledModule>>)
        ensures
            match r {
                Some(m) => self@.contains_key(fn_id@) && m == self@[fn_id@],
                None => !self@.contains_key(fn_id@),
            },
    {
        match self.modules.get(fn_id) {
            Some(m) => Some(m.clone()),
            None => None,
        }
    }

    /// Insert a pre-compiled module under a function ID (for deduplication).
    pub fn insert(&mut self, fn_id: &str, module: Arc<CompiledModule>)
        ensures
            final(self)@ == old(self)@.insert(fn_id@, module),
            final(self).engine_of() == old(self).engine_of(),
    {
        self.modules.insert(fn_id.to_owned(), module);
    }

    /// Remove a cached module.
    pub fn remove(&mut self, fn_id: &str) -> (r: bool)
        ensures
            final(self)@ == old(self)@.remove(fn_id@),
            final(self).engine_of() == old(self).engine_of(),
            r == old(self)@.contains_key(fn_id@),
    {
        self.modules.remove(fn_id).is_some()
    }

    /// Number of cached modules.
    pub fn len(&self) -> (r: usize)
        ensures
            r == self@.dom().len(),
            self@.dom().finite(),
    {
        self.modules.len()
    }

    /// Whether the cache is empty.
    pub fn is_empty(&self) -> (r: bool)
        ensures
            r == (self@ == Map::<Seq<char>, Arc<CompiledModule>>::empty()),
    {
        self.modules.is_empty()
    }

    /// Reference to the wasmtime engine.
    pub fn engine(&self) -> (r: &Engine)
        ensures
            *r == self.engine_of(),
    {
        &self.engine
    }
}

/// A module that was loaded is found under its function ID, in place of any module that was
/// there, and the other modules stay as they are.
pub proof fn law_loaded_module_is_found(
    before: WasmModuleStore,
    after: WasmModuleStore,
    fn_id: Seq<char>,
    source_url: Seq<char>,
    bytes: Seq<u8>,
    r: Result<Arc<CompiledModule>, LoadError>,
)
    requires
        before.loaded(after, fn_id, source_url, bytes, r),
        before@.dom().finite(),
    ensures
        r matches Ok(m) ==> after@.contains_key(fn_id) && after@[fn_id] == m,
        r is Ok ==> after@.dom().len() == before@.dom().len() + if before@.contains_key(fn_id) {
            0int
        } else {
            1
        },
        forall|other: Seq<char>|
            other != fn_id ==> (#[trigger] after@.contains_key(other) <==> before@.contains_key(
                other,
            )),
        forall|other: Seq<char>|
            other != fn_id && before@.contains_key(other) ==> #[trigger] after@[other]
                == before@[other],
{
    if r is Ok {
        assert(after@.dom() =~= before@.dom().insert(fn_id));
    }
}

/// A module that was removed is not found any more, and the other modules stay as they are.
pub proof fn law_removed_module_is_gone(
    modules: Map<Seq<char>, Arc<CompiledModule>>,
    fn_id: Seq<char>,
)
    ensures
        !modules.remove(fn_id).contains_key(fn_id),
        modules.remove(fn_id).remove(fn_id) == modules.remove(fn_id),
        forall|other: Seq<char>|
            other != fn_id && modules.contains_key(other) ==> #[trigger] modules.remove(
                fn_id,
            ).contains_key(other) && modules.remove(fn_id)[other] == modules[other],
{
    assert(modules.remove(fn_id).remove(fn_id) =~= modules.remove(fn_id));
}

} // verus!
