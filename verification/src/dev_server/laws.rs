//! What a package becomes on the development server.
use vstd::prelude::*;
use vstd::string::*;
use crate::dev_server::config::{
    all_targets, class_at, class_collection, collections_of, deployment_collection,
    deployment_collections, env_names_of, first_seen, function_at, invocations_of, provision_of,
    resolved_url, routes_of, FuncRouteView,
};
use crate::models::deployment::OClassDeployment;
use crate::models::package::{FunctionBinding, OClass, OFunction, OPackage};
use crate::text::chars::views;
use crate::text::laws::law_occurs;
use crate::text::search::occurs;

verus! {

/// Whether a deployment lists no name for its collection.
pub open spec fn names_no_collection(dep: OClassDeployment) -> bool {
    dep.odgm matches Some(o) ==> o.collections@.len() == 0
}

/// The collection of a deployment is called by the first name that the deployment lists. Where it
/// lists none, with or without settings for the data grid, it is called by the package, a dot and
/// the key of the class.
pub proof fn law_collection_name(
    dep: OClassDeployment,
    cls: OClass,
    pkg: OPackage,
    cwd: Seq<char>,
)
    ensures
        names_no_collection(dep) ==> deployment_collection(dep, cls, pkg, cwd).name == pkg.name@
            + seq!['.'] + cls.key@,
        dep.odgm matches Some(o) ==> o.collections@.len() > 0 ==> deployment_collection(
            dep,
            cls,
            pkg,
            cwd,
        ).name == o.collections@[0]@,
        class_collection(cls, pkg, cwd).name == pkg.name@ + seq!['.'] + cls.key@,
{
    reveal_strlit(".");
    assert("."@ =~= seq!['.']);
}

/// The shape of the collection of a deployment: as many partitions as it says, else one, always
/// one replica, nothing assigned yet, and the shard type that it says, else `raft` for a class
/// with strong consistency, `mst` for one with another, and `none` for one that says nothing.
pub proof fn law_collection_shape(
    dep: OClassDeployment,
    cls: OClass,
    pkg: OPackage,
    cwd: Seq<char>,
)
    ensures
        ({
            let c = deployment_collection(dep, cls, pkg, cwd);
            &&& c.replica_count == 1
            &&& c.shard_assignments.len() == 0
            &&& (dep.odgm matches Some(o) && o.partition_count is Some) ==> (
            dep.odgm->0.partition_count->0 <= i32::MAX ==> c.partition_count
                == dep.odgm->0.partition_count->0)
            &&& !(dep.odgm matches Some(o) && o.partition_count is Some) ==> c.partition_count == 1
            &&& (dep.odgm matches Some(o) && o.shard_type is Some) ==> c.shard_type
                == dep.odgm->0.shard_type->0@
            &&& !(dep.odgm matches Some(o) && o.shard_type is Some) ==> match cls.state_spec {
                Some(s) => if s.consistency_model is Strong {
                    c.shard_type == "raft"@
                } else {
                    c.shard_type == "mst"@
                },
                None => c.shard_type == "none"@,
            }
        }),
{
}

/// The shape of the collection of a class without a deployment.
pub proof fn law_class_collection_shape(cls: OClass, pkg: OPackage, cwd: Seq<char>, key: Seq<char>)
    ensures
        ({
            let c = class_collection(cls, pkg, cwd);
            &&& c.replica_count == 1
            &&& c.partition_count == 1
            &&& c.shard_assignments.len() == 0
            &&& c.shard_type == "none"@
            &&& c.options.contains_key(key) == cls.options@.contains_key(key)
            &&& cls.options@.contains_key(key) ==> c.options[key] == cls.options@[key]@
            &&& c.invocations == invocations_of(cls, pkg, cwd)
        }),
{
}

/// An option of a collection is the one of the deployment, else the one of the class. Whether
/// only the primary is invoked is always said: where neither says it, it is so for a class with
/// strong consistency alone. There is no other option.
pub proof fn law_collection_option(
    dep: OClassDeployment,
    cls: OClass,
    pkg: OPackage,
    cwd: Seq<char>,
    key: Seq<char>,
)
    ensures
        ({
            let all = deployment_collection(dep, cls, pkg, cwd).options;
            let own = dep.odgm matches Some(o) && o.options@.contains_key(key);
            let strong = cls.state_spec matches Some(s) && s.consistency_model is Strong;
            if own {
                all.contains_key(key) && all[key] == dep.odgm->0.options@[key]@
            } else if cls.options@.contains_key(key) {
                all.contains_key(key) && all[key] == cls.options@[key]@
            } else if key == "invoke_only_primary"@ {
                all.contains_key(key) && all[key] == if strong {
                    "true"@
                } else {
                    "false"@
                }
            } else {
                !all.contains_key(key)
            }
        }),
{
}

/// The first function with a key is the one that is looked at.
proof fn lemma_function_at(functions: Seq<OFunction>, key: Seq<char>, k: int)
    requires
        0 <= k <= functions.len(),
        k < functions.len() ==> functions[k].key@ == key,
        forall|i: int| 0 <= i < k ==> (#[trigger] functions[i]).key@ != key,
    ensures
        function_at(functions, key) == k,
    decreases functions.len(),
{
    if functions.len() > 0 {
        let init = functions.drop_last();
        assert forall|i: int| 0 <= i < init.len() implies #[trigger] init[i] == functions[i] by {}
        if k < functions.len() - 1 {
            lemma_function_at(init, key, k);
        } else {
            lemma_function_at(init, key, init.len() as int);
            assert(functions.last() == functions[functions.len() - 1]);
        }
    }
}

/// A function is provided as the first function of the package with its key says, and not at all
/// where there is none.
pub proof fn law_provision(functions: Seq<OFunction>, key: Seq<char>, k: int)
    requires
        0 <= k <= functions.len(),
        k < functions.len() ==> functions[k].key@ == key,
        forall|i: int| 0 <= i < k ==> (#[trigger] functions[i]).key@ != key,
    ensures
        k < functions.len() ==> provision_of(functions, key) == functions[k].provision_config,
        k == functions.len() ==> provision_of(functions, key) is None,
{
    lemma_function_at(functions, key, k);
}

/// Each further function of a class adds a route under its name, in place of an earlier one with
/// that name, and leaves the others alone: it leads to a WASM module by that name, with the
/// module and the fuel of the function behind it.
pub proof fn law_function_adds_its_route(
    bindings: Seq<FunctionBinding>,
    b: FunctionBinding,
    functions: Seq<OFunction>,
    cwd: Seq<char>,
    other: Seq<char>,
)
    ensures
        routes_of(seq![], functions, cwd) == Map::<Seq<char>, FuncRouteView>::empty(),
        ({
            let before = routes_of(bindings, functions, cwd);
            let after = routes_of(bindings.push(b), functions, cwd);
            let provision = provision_of(functions, b.function_key@);
            let route = after[b.name@];
            &&& after.contains_key(b.name@)
            &&& route.url == "wasm://"@ + b.name@
            &&& route.stateless == b.stateless
            &&& !route.standby
            &&& route.active_group.len() == 0
            &&& (provision matches Some(p) && p.wasm_module_url is Some) ==> route.wasm_module_url
                == Some(resolved_url(provision->0.wasm_module_url->0@, cwd))
            &&& !(provision matches Some(p) && p.wasm_module_url is Some) ==> route.wasm_module_url
                is None
            &&& provision matches Some(p) ==> route.wasm_fuel == p.wasm_fuel
            &&& provision is None ==> route.wasm_fuel is None
            &&& other != b.name@ ==> after.contains_key(other) == before.contains_key(other)
            &&& other != b.name@ && before.contains_key(other) ==> after[other] == before[other]
        }),
{
    assert(bindings.push(b).drop_last() =~= bindings);
    assert(bindings.push(b).last() == b);
}

/// A class without functions is not called at all; any other is called over the routes of its
/// functions, none of which is switched off.
pub proof fn law_invocations(cls: OClass, pkg: OPackage, cwd: Seq<char>)
    ensures
        cls.function_bindings@.len() == 0 <==> invocations_of(cls, pkg, cwd) is None,
        invocations_of(cls, pkg, cwd) matches Some(v) ==> v.disabled_fn.len() == 0 && v.fn_routes
            == routes_of(cls.function_bindings@, pkg.functions@, cwd),
{
}

/// A deployment and a class without one are called alike.
pub proof fn law_collections_are_called_alike(
    dep: OClassDeployment,
    cls: OClass,
    pkg: OPackage,
    cwd: Seq<char>,
)
    ensures
        deployment_collection(dep, cls, pkg, cwd).invocations == invocations_of(cls, pkg, cwd),
        class_collection(cls, pkg, cwd).invocations == invocations_of(cls, pkg, cwd),
{
}

/// The address of a module: one with a scheme stays, an absolute path becomes an address of a
/// file, and so does any other path behind the working directory, with one slash between them.
pub proof fn law_module_address(
    scheme: Seq<char>,
    rest: Seq<char>,
    path: Seq<char>,
    dir: Seq<char>,
)
    ensures
        resolved_url(scheme + "://"@ + rest, dir) == scheme + "://"@ + rest,
        !occurs(seq!['/'] + path, "://"@) ==> resolved_url(seq!['/'] + path, dir) == "file://"@
            + seq!['/'] + path,
        !occurs(path, "://"@) && (path.len() == 0 || path[0] != '/') && dir.len() > 0 && dir.last()
            != '/' ==> resolved_url(path, dir) == "file://"@ + dir + seq!['/'] + path,
        !occurs(path, "://"@) && (path.len() == 0 || path[0] != '/') && dir.len() > 0 && dir.last()
            == '/' ==> resolved_url(path, dir) == "file://"@ + dir + path,
        !occurs(path, "://"@) && (path.len() == 0 || path[0] != '/') && dir.len() == 0
            ==> resolved_url(path, dir) == "file://"@ + path,
{
    reveal_strlit("/");
    law_occurs(scheme, "://"@, rest);
    let p = seq!['/'] + path;
    assert("/"@ =~= p.subrange(0, 1));
    assert("file://"@ + p =~= "file://"@ + seq!['/'] + path);
    assert("/"@ =~= seq!['/']);
    if "/"@.is_prefix_of(path) {
        assert(path[0] == "/"@[0]);
    }
    assert("file://"@ + (dir + seq!['/'] + path) =~= "file://"@ + dir + seq!['/'] + path);
    assert("file://"@ + (dir + path) =~= "file://"@ + dir + path);
    if dir.len() == 0 {
        assert("file://"@ + (dir + path) =~= "file://"@ + path);
    }
}

/// Whether a deployment is meant for an environment: it lists that environment, or none at all.
pub open spec fn meant_for(dep: OClassDeployment, env: Seq<char>) -> bool {
    dep.target_envs@.len() == 0 || exists|i: int|
        0 <= i < dep.target_envs@.len() && (#[trigger] dep.target_envs@[i])@ == env
}

/// Each further deployment adds one collection, that of the first class with its key, behind the
/// others; it adds none where the package has no such class, and in one environment none where
/// the deployment is not meant for it.
pub proof fn law_deployment_adds_its_collection(
    deps: Seq<OClassDeployment>,
    dep: OClassDeployment,
    pkg: OPackage,
    env: Option<Seq<char>>,
    cwd: Seq<char>,
    k: int,
)
    requires
        0 <= k <= pkg.classes@.len(),
        k < pkg.classes@.len() ==> pkg.classes@[k].key@ == dep.class_key@,
        forall|i: int| 0 <= i < k ==> (#[trigger] pkg.classes@[i]).key@ != dep.class_key@,
    ensures
        deployment_collections(seq![], pkg, env, cwd).len() == 0,
        ({
            let before = deployment_collections(deps, pkg, env, cwd);
            let after = deployment_collections(deps.push(dep), pkg, env, cwd);
            if k < pkg.classes@.len() && (env is None || meant_for(dep, env->0)) {
                after == before.push(deployment_collection(dep, pkg.classes@[k], pkg, cwd))
            } else {
                after == before
            }
        }),
{
    assert(deps.push(dep).drop_last() =~= deps);
    lemma_class_at(pkg.classes@, dep.class_key@, k);
    if env is Some {
        let e = env->0;
        let targets = views(dep.target_envs@);
        if targets.contains(e) {
            let i = choose|i: int| 0 <= i < targets.len() && targets[i] == e;
            assert(dep.target_envs@[i]@ == e);
        }
        if exists|i: int| 0 <= i < dep.target_envs@.len() && (#[trigger] dep.target_envs@[i])@ == e {
            let i = choose|i: int|
                0 <= i < dep.target_envs@.len() && (#[trigger] dep.target_envs@[i])@ == e;
            assert(targets[i] == e);
        }
    }
}

/// The first class with a key is the one that is looked at.
proof fn lemma_class_at(classes: Seq<OClass>, key: Seq<char>, k: int)
    requires
        0 <= k <= classes.len(),
        k < classes.len() ==> classes[k].key@ == key,
        forall|i: int| 0 <= i < k ==> (#[trigger] classes[i]).key@ != key,
    ensures
        class_at(classes, key) == k,
    decreases classes.len(),
{
    if classes.len() > 0 {
        let init = classes.drop_last();
        assert forall|i: int| 0 <= i < init.len() implies #[trigger] init[i] == classes[i] by {}
        if k < classes.len() - 1 {
            lemma_class_at(init, key, k);
        } else {
            lemma_class_at(init, key, init.len() as int);
            assert(classes.last() == classes[classes.len() - 1]);
        }
    }
}

/// A package with deployments has the collections of those alone; without any it has one
/// collection for each class, in their order, in every environment.
pub proof fn law_collections_of_package(
    pkg: OPackage,
    env: Option<Seq<char>>,
    cwd: Seq<char>,
    i: int,
)
    ensures
        pkg.deployments@.len() > 0 ==> collections_of(pkg, env, cwd) == deployment_collections(
            pkg.deployments@,
            pkg,
            env,
            cwd,
        ),
        pkg.deployments@.len() == 0 ==> collections_of(pkg, env, cwd).len() == pkg.classes@.len(),
        pkg.deployments@.len() == 0 && 0 <= i < pkg.classes@.len() ==> collections_of(
            pkg,
            env,
            cwd,
        )[i] == class_collection(pkg.classes@[i], pkg, cwd),
{
}

/// The environments of a package are those that its deployments name, each where it is named
/// first; a package whose deployments name none runs in `local-dev` alone.
pub proof fn law_environments_of_package(
    pkg: OPackage,
    list: Seq<Seq<char>>,
    deps: Seq<OClassDeployment>,
    dep: OClassDeployment,
    t: Seq<char>,
)
    ensures
        all_targets(pkg.deployments@).len() == 0 ==> env_names_of(pkg) == seq!["local-dev"@],
        all_targets(pkg.deployments@).len() > 0 ==> env_names_of(pkg) == first_seen(
            all_targets(pkg.deployments@),
        ),
        all_targets(seq![]).len() == 0,
        all_targets(deps.push(dep)) == all_targets(deps) + Seq::new(
            dep.target_envs@.len(),
            |i: int| dep.target_envs@[i]@,
        ),
        first_seen(seq![]).len() == 0,
        list.contains(t) ==> first_seen(list.push(t)) == first_seen(list),
        !list.contains(t) ==> first_seen(list.push(t)) == first_seen(list).push(t),
{
    assert(deps.push(dep).drop_last() =~= deps);
    assert(views(dep.target_envs@) =~= Seq::new(
        dep.target_envs@.len(),
        |i: int| dep.target_envs@[i]@,
    ));
    assert(list.push(t).drop_last() =~= list);
    lemma_first_seen_same(list, t);
    let all = all_targets(pkg.deployments@);
    if all.len() > 0 {
        lemma_first_seen_same(all, all[0]);
        assert(all.contains(all[0]));
        assert(first_seen(all).len() > 0);
    }
}

/// Leaving repetitions out loses no text and adds none.
proof fn lemma_first_seen_same(list: Seq<Seq<char>>, t: Seq<char>)
    ensures
        first_seen(list).contains(t) == list.contains(t),
    decreases list.len(),
{
    if list.len() > 0 {
        let init = list.drop_last();
        lemma_first_seen_same(init, t);
        let before = first_seen(init);
        let after = first_seen(list);
        if list.contains(t) {
            let i = choose|i: int| 0 <= i < list.len() && list[i] == t;
            if i < init.len() {
                assert(init[i] == t);
            }
            if before.contains(t) {
                let j = choose|j: int| 0 <= j < before.len() && before[j] == t;
                assert(after[j] == t);
            } else {
                assert(after[before.len() as int] == t);
            }
        }
        if after.contains(t) {
            let j = choose|j: int| 0 <= j < after.len() && after[j] == t;
            if j < before.len() {
                assert(before[j] == t);
                let i = choose|i: int| 0 <= i < init.len() && init[i] == t;
                assert(list[i] == t);
            } else {
                assert(list[list.len() - 1] == t);
            }
        }
    }
}

} // verus!
