//! What holds of the simulated network across its operations.
use vstd::prelude::*;
use crate::netsim::state::{
    at_env, at_link, cut_link, delayed_link, everywhere, full_mesh, healed_link, linked_to,
    other_end, touches, with_row, BulkActionResponse, EnvActionResponse, LinkActionResponse,
    NetworkView,
};
use crate::netsim::types::{law_link_key_symmetric, law_link_key_unique, pair_key, LinkView};
use crate::netsim::zrpc_types::{peer_links, NetsimResponse, PeerLinkInfo};
use crate::text::chars::views;
use crate::text::order::text_le;

verus! {

/// Whether two networks have the same environments and a link between the same ends under
/// each pair; the links may differ in their state.
pub open spec fn same_wiring(x: NetworkView, y: NetworkView) -> bool {
    &&& x.env_names == y.env_names
    &&& x.links.dom() == y.links.dom()
    &&& forall|k: (Seq<char>, Seq<char>)| #[trigger]
        x.links.contains_key(k) ==> x.links[k].env_a == y.links[k].env_a && x.links[k].env_b
            == y.links[k].env_b
}

/// The network in which every two environments are connected.
pub open spec fn fresh_network(names: Seq<Seq<char>>) -> NetworkView {
    NetworkView { env_names: names, links: full_mesh(names, names.len() as int) }
}

/// Whether and how fast one environment reaches another does not depend on which of the two
/// is named first.
pub proof fn law_links_are_symmetric(net: NetworkView, a: Seq<char>, b: Seq<char>)
    ensures
        net.active(a, b) == net.active(b, a),
        net.delay(a, b) == net.delay(b, a),
{
    law_link_key_symmetric(a, b);
}

/// There is no delay where there is no traffic.
pub proof fn law_no_delay_when_cut(net: NetworkView, a: Seq<char>, b: Seq<char>)
    ensures
        !net.active(a, b) ==> net.delay(a, b) == 0,
{
}

/// A row of fresh links adds the pairs of one environment with the later ones.
proof fn lemma_with_row(
    names: Seq<Seq<char>>,
    links: Map<(Seq<char>, Seq<char>), LinkView>,
    i: int,
    n: int,
)
    requires
        0 <= i < n <= names.len(),
        forall|k: (Seq<char>, Seq<char>)| #[trigger]
            links.contains_key(k) ==> links[k].connected && links[k].latency_ms == 0,
    ensures
        forall|k: (Seq<char>, Seq<char>)| #[trigger]
            with_row(names, links, i, n).contains_key(k) ==> with_row(names, links, i, n)[k].connected
                && with_row(names, links, i, n)[k].latency_ms == 0,
        forall|k: (Seq<char>, Seq<char>)| #[trigger]
            with_row(names, links, i, n).contains_key(k) <==> links.contains_key(k) || exists|j: int|
                i < j < n && k == pair_key(names[i], #[trigger] names[j]),
    decreases n,
{
    if n > i + 1 {
        lemma_with_row(names, links, i, n - 1);
        let before = with_row(names, links, i, n - 1);
        let after = with_row(names, links, i, n);
        assert forall|k: (Seq<char>, Seq<char>)| #[trigger]
            after.contains_key(k) <==> links.contains_key(k) || exists|j: int|
                i < j < n && k == pair_key(names[i], #[trigger] names[j]) by {
            if after.contains_key(k) && !links.contains_key(k) {
                if k == pair_key(names[i], names[n - 1]) {
                    assert(i < n - 1 < n);
                } else {
                    assert(before.contains_key(k));
                    let j = choose|j: int|
                        i < j < n - 1 && k == pair_key(names[i], #[trigger] names[j]);
                    assert(i < j < n);
                }
            }
            if exists|j: int| i < j < n && k == pair_key(names[i], #[trigger] names[j]) {
                let j = choose|j: int| i < j < n && k == pair_key(names[i], #[trigger] names[j]);
                if j < n - 1 {
                    assert(before.contains_key(k));
                }
            }
            if links.contains_key(k) {
                assert(before.contains_key(k));
            }
        }
    }
}

/// Fresh links join exactly the pairs of environments, and carry traffic without delay.
proof fn lemma_full_mesh(names: Seq<Seq<char>>, n: int)
    requires
        0 <= n <= names.len(),
    ensures
        forall|k: (Seq<char>, Seq<char>)| #[trigger]
            full_mesh(names, n).contains_key(k) ==> full_mesh(names, n)[k].connected && full_mesh(
                names,
                n,
            )[k].latency_ms == 0,
        forall|k: (Seq<char>, Seq<char>)| #[trigger]
            full_mesh(names, n).contains_key(k) <==> exists|i: int, j: int|
                0 <= i < n && i < j < names.len() && k == pair_key(
                    #[trigger] names[i],
                    #[trigger] names[j],
                ),
    decreases n,
{
    if n > 0 {
        lemma_full_mesh(names, n - 1);
        let before = full_mesh(names, n - 1);
        let after = full_mesh(names, n);
        lemma_with_row(names, before, n - 1, names.len() as int);
        assert forall|k: (Seq<char>, Seq<char>)| #[trigger]
            after.contains_key(k) <==> exists|i: int, j: int|
                0 <= i < n && i < j < names.len() && k == pair_key(
                    #[trigger] names[i],
                    #[trigger] names[j],
                ) by {
            if after.contains_key(k) {
                if before.contains_key(k) {
                    let (i, j) = choose|i: int, j: int|
                        0 <= i < n - 1 && i < j < names.len() && k == pair_key(
                            #[trigger] names[i],
                            #[trigger] names[j],
                        );
                    assert(0 <= i < n && i < j < names.len() && k == pair_key(names[i], names[j]));
                } else {
                    let j = choose|j: int|
                        n - 1 < j < names.len() && k == pair_key(names[n - 1], #[trigger] names[j]);
                    assert(0 <= n - 1 < n && n - 1 < j < names.len() && k == pair_key(
                        names[n - 1],
                        names[j],
                    ));
                }
            }
            if exists|i: int, j: int|
                0 <= i < n && i < j < names.len() && k == pair_key(
                    #[trigger] names[i],
                    #[trigger] names[j],
                ) {
                let (i, j) = choose|i: int, j: int|
                    0 <= i < n && i < j < names.len() && k == pair_key(
                        #[trigger] names[i],
                        #[trigger] names[j],
                    );
                if i < n - 1 {
                    assert(before.contains_key(k));
                } else {
                    assert(n - 1 < j < names.len() && k == pair_key(names[n - 1], names[j]));
                }
            }
        }
    } else {
        assert forall|k: (Seq<char>, Seq<char>)| #[trigger]
            full_mesh(names, n).contains_key(k) <==> exists|i: int, j: int|
                0 <= i < n && i < j < names.len() && k == pair_key(
                    #[trigger] names[i],
                    #[trigger] names[j],
                ) by {
            assert(!full_mesh(names, n).contains_key(k));
        }
    }
}

/// A new network connects every environment with every other, without delay.
pub proof fn law_new_network_is_connected(names: Seq<Seq<char>>, a: Seq<char>, b: Seq<char>)
    requires
        names.contains(a),
        names.contains(b),
    ensures
        fresh_network(names).active(a, b),
        fresh_network(names).delay(a, b) == 0,
{
    lemma_full_mesh(names, names.len() as int);
    if a != b {
        let i = choose|i: int| 0 <= i < names.len() && names[i] == a;
        let j = choose|j: int| 0 <= j < names.len() && names[j] == b;
        law_link_key_symmetric(a, b);
        let k = pair_key(a, b);
        if i < j {
            assert(k == pair_key(names[i], names[j]));
        } else {
            assert(k == pair_key(names[j], names[i]));
        }
        assert(full_mesh(names, names.len() as int).contains_key(k));
    }
}

/// A new network has a link for each two environments and no other.
pub proof fn law_new_network_has_every_pair(names: Seq<Seq<char>>, k: (Seq<char>, Seq<char>))
    ensures
        fresh_network(names).links.contains_key(k) <==> exists|i: int, j: int|
            0 <= i < j < names.len() && k == pair_key(#[trigger] names[i], #[trigger] names[j]),
{
    lemma_full_mesh(names, names.len() as int);
    let links = fresh_network(names).links;
    if links.contains_key(k) {
        let (i, j) = choose|i: int, j: int|
            0 <= i < names.len() && i < j < names.len() && k == pair_key(
                #[trigger] names[i],
                #[trigger] names[j],
            );
        assert(0 <= i < j < names.len() && k == pair_key(names[i], names[j]));
    }
    if exists|i: int, j: int|
        0 <= i < j < names.len() && k == pair_key(#[trigger] names[i], #[trigger] names[j]) {
        let (i, j) = choose|i: int, j: int|
            0 <= i < j < names.len() && k == pair_key(#[trigger] names[i], #[trigger] names[j]);
        assert(0 <= i < names.len() && i < j < names.len() && k == pair_key(names[i], names[j]));
    }
}

/// Cutting a link stops the traffic between its two ends in both directions.
pub proof fn law_cut_stops_traffic(net: NetworkView, a: Seq<char>, b: Seq<char>)
    requires
        a != b,
    ensures
        !at_link(net, a, b, |l: LinkView| cut_link(l)).active(a, b),
        !at_link(net, a, b, |l: LinkView| cut_link(l)).active(b, a),
        at_link(net, a, b, |l: LinkView| cut_link(l)).delay(a, b) == 0,
{
    law_link_key_symmetric(a, b);
}

/// Restoring a link lets traffic through again, in both directions and without delay.
pub proof fn law_heal_restores_traffic(net: NetworkView, a: Seq<char>, b: Seq<char>)
    ensures
        at_link(net, a, b, |l: LinkView| healed_link(l)).active(a, b),
        at_link(net, a, b, |l: LinkView| healed_link(l)).active(b, a),
        at_link(net, a, b, |l: LinkView| healed_link(l)).delay(a, b) == 0,
{
    law_link_key_symmetric(a, b);
}

/// An operation on one link leaves the traffic between all other pairs as it was.
pub proof fn law_other_links_unchanged(
    net: NetworkView,
    a: Seq<char>,
    b: Seq<char>,
    change: spec_fn(LinkView) -> LinkView,
    c: Seq<char>,
    d: Seq<char>,
)
    requires
        !((c == a && d == b) || (c == b && d == a)),
    ensures
        at_link(net, a, b, change).active(c, d) == net.active(c, d),
        at_link(net, a, b, change).delay(c, d) == net.delay(c, d),
{
    law_link_key_unique(a, b, c, d);
}

/// Restoring a link undoes a cut of it: where the link was connected and had no delay, the
/// network is as before.
pub proof fn law_heal_undoes_cut(net: NetworkView, a: Seq<char>, b: Seq<char>)
    requires
        net.links.contains_key(pair_key(a, b)),
        net.links[pair_key(a, b)].connected,
        net.links[pair_key(a, b)].latency_ms == 0,
    ensures
        at_link(
            at_link(net, a, b, |l: LinkView| cut_link(l)),
            a,
            b,
            |l: LinkView| healed_link(l),
        ) == net,
{
    let back = at_link(
        at_link(net, a, b, |l: LinkView| cut_link(l)),
        a,
        b,
        |l: LinkView| healed_link(l),
    );
    assert(back.links =~= net.links);
}

/// A delay that is set shows while the link is connected, and not while it is cut.
pub proof fn law_delay_shows_when_connected(
    net: NetworkView,
    a: Seq<char>,
    b: Seq<char>,
    latency_ms: u64,
)
    requires
        a != b,
        net.links.contains_key(pair_key(a, b)),
    ensures
        at_link(net, a, b, |l: LinkView| delayed_link(l, latency_ms)).delay(a, b) == if net.active(
            a,
            b,
        ) {
            latency_ms
        } else {
            0
        },
        at_link(net, a, b, |l: LinkView| delayed_link(l, latency_ms)).active(a, b) == net.active(a, b),
{
}

/// An environment whose links are cut reaches no other environment.
pub proof fn law_cut_env_is_isolated(net: NetworkView, env: Seq<char>, b: Seq<char>)
    requires
        net.consistent(),
        env != b,
    ensures
        !at_env(net, env, |l: LinkView| cut_link(l)).active(env, b),
        !at_env(net, env, |l: LinkView| cut_link(l)).active(b, env),
{
    law_link_key_symmetric(env, b);
    let k = pair_key(env, b);
    if net.links.contains_key(k) {
        law_link_key_unique(env, b, net.links[k].env_a, net.links[k].env_b);
    }
}

/// An environment whose links are restored reaches every environment that it has a link to,
/// without delay.
pub proof fn law_healed_env_is_connected(net: NetworkView, env: Seq<char>, b: Seq<char>)
    requires
        net.consistent(),
        net.links.contains_key(pair_key(env, b)),
    ensures
        at_env(net, env, |l: LinkView| healed_link(l)).active(env, b),
        at_env(net, env, |l: LinkView| healed_link(l)).delay(env, b) == 0,
{
    let k = pair_key(env, b);
    law_link_key_unique(env, b, net.links[k].env_a, net.links[k].env_b);
}

/// An operation on the links of one environment leaves the traffic between others as it was.
pub proof fn law_other_envs_unchanged(
    net: NetworkView,
    env: Seq<char>,
    change: spec_fn(LinkView) -> LinkView,
    c: Seq<char>,
    d: Seq<char>,
)
    requires
        net.consistent(),
        c != env,
        d != env,
    ensures
        at_env(net, env, change).active(c, d) == net.active(c, d),
        at_env(net, env, change).delay(c, d) == net.delay(c, d),
{
    let k = pair_key(c, d);
    if net.links.contains_key(k) {
        law_link_key_unique(c, d, net.links[k].env_a, net.links[k].env_b);
        assert(!touches(net.links[k], env));
    }
}

/// With every link cut no environment reaches another.
pub proof fn law_cut_everywhere(net: NetworkView, a: Seq<char>, b: Seq<char>)
    requires
        a != b,
    ensures
        !everywhere(net, |l: LinkView| cut_link(l)).active(a, b),
        everywhere(net, |l: LinkView| cut_link(l)).delay(a, b) == 0,
{
}

/// Restoring every link brings back the new network, whatever was done to its links.
pub proof fn law_heal_everywhere(net: NetworkView, names: Seq<Seq<char>>)
    requires
        same_wiring(net, fresh_network(names)),
    ensures
        everywhere(net, |l: LinkView| healed_link(l)) == fresh_network(names),
{
    lemma_full_mesh(names, names.len() as int);
    let healed = everywhere(net, |l: LinkView| healed_link(l));
    let fresh = fresh_network(names);
    assert forall|k: (Seq<char>, Seq<char>)| #[trigger] healed.links.contains_key(k) implies healed.links[k]
        == fresh.links[k] by {
        assert(net.links.contains_key(k));
    }
    assert(healed.links =~= fresh.links);
}

/// Whether a change to a link leaves its ends alone, as every operation does.
pub open spec fn keeps_ends(change: spec_fn(LinkView) -> LinkView) -> bool {
    forall|l: LinkView| (#[trigger] change(l)).env_a == l.env_a && change(l).env_b == l.env_b
}

/// No operation adds or removes an environment or a link, or moves the ends of one.
pub proof fn law_operations_keep_wiring(
    net: NetworkView,
    a: Seq<char>,
    b: Seq<char>,
    env: Seq<char>,
    change: spec_fn(LinkView) -> LinkView,
)
    requires
        keeps_ends(change),
        net.links.contains_key(pair_key(a, b)),
    ensures
        same_wiring(at_link(net, a, b, change), net),
        same_wiring(at_env(net, env, change), net),
        same_wiring(everywhere(net, change), net),
{
    assert(at_link(net, a, b, change).links.dom() =~= net.links.dom());
    assert(at_env(net, env, change).links.dom() =~= net.links.dom());
    assert(everywhere(net, change).links.dom() =~= net.links.dom());
}

/// Cutting, restoring and delaying leave the ends of a link alone.
pub proof fn law_changes_keep_ends(latency_ms: u64)
    ensures
        keeps_ends(|l: LinkView| cut_link(l)),
        keeps_ends(|l: LinkView| healed_link(l)),
        keeps_ends(|l: LinkView| delayed_link(l, latency_ms)),
{
}

/// What the changes do to a link: a cut keeps its delay, a restoration takes the delay away, and
/// a delay neither cuts nor restores. None of them moves its ends.
pub proof fn law_link_changes(l: LinkView, ms: u64)
    ensures
        cut_link(l) == (LinkView {
            env_a: l.env_a,
            env_b: l.env_b,
            connected: false,
            latency_ms: l.latency_ms,
        }),
        healed_link(l) == (LinkView {
            env_a: l.env_a,
            env_b: l.env_b,
            connected: true,
            latency_ms: 0,
        }),
        delayed_link(l, ms) == (LinkView {
            env_a: l.env_a,
            env_b: l.env_b,
            connected: l.connected,
            latency_ms: ms,
        }),
{
}

/// Traffic flows from an environment to itself without delay, and to another exactly where their
/// link is connected, with the delay of that link.
pub proof fn law_traffic_follows_the_links(net: NetworkView, a: Seq<char>, b: Seq<char>)
    ensures
        net.active(a, a) && net.delay(a, a) == 0,
        a != b && !net.links.contains_key(pair_key(a, b)) ==> !net.active(a, b) && net.delay(a, b)
            == 0,
        a != b && net.links.contains_key(pair_key(a, b)) ==> net.active(a, b)
            == net.links[pair_key(a, b)].connected,
        a != b && net.active(a, b) ==> net.delay(a, b) == net.links[pair_key(a, b)].latency_ms,
        !net.active(a, b) ==> net.delay(a, b) == 0,
{
}

/// An operation on a link changes that link alone, one on an environment the links that have it
/// at one end, and one on all links each of them; the environments stay.
pub proof fn law_reach_of_operations(
    net: NetworkView,
    a: Seq<char>,
    b: Seq<char>,
    env: Seq<char>,
    change: spec_fn(LinkView) -> LinkView,
    k: (Seq<char>, Seq<char>),
)
    requires
        net.links.contains_key(k),
    ensures
        at_link(net, a, b, change).env_names == net.env_names,
        at_link(net, a, b, change).links[k] == if k == pair_key(a, b) {
            change(net.links[k])
        } else {
            net.links[k]
        },
        at_env(net, env, change).env_names == net.env_names,
        at_env(net, env, change).links.contains_key(k),
        at_env(net, env, change).links[k] == if net.links[k].env_a == env || net.links[k].env_b
            == env {
            change(net.links[k])
        } else {
            net.links[k]
        },
        everywhere(net, change).env_names == net.env_names,
        everywhere(net, change).links.contains_key(k),
        everywhere(net, change).links[k] == change(net.links[k]),
{
}

/// A row of fresh links has its ends in the order of the names, and touches no other link.
proof fn lemma_row_ends(
    names: Seq<Seq<char>>,
    links: Map<(Seq<char>, Seq<char>), LinkView>,
    i: int,
    n: int,
    j: int,
    k: (Seq<char>, Seq<char>),
)
    requires
        0 <= i < names.len(),
        n <= names.len(),
        names.no_duplicates(),
    ensures
        i < j < n ==> with_row(names, links, i, n)[pair_key(names[i], names[j])] == (LinkView {
            env_a: names[i],
            env_b: names[j],
            connected: true,
            latency_ms: 0,
        }),
        (forall|m: int| i < m < n ==> k != pair_key(names[i], #[trigger] names[m])) ==> with_row(
            names,
            links,
            i,
            n,
        )[k] == links[k],
    decreases n,
{
    if n > i + 1 {
        lemma_row_ends(names, links, i, n - 1, j, k);
        if i < j < n - 1 {
            law_link_key_unique(names[i], names[j], names[i], names[n - 1]);
        }
        if forall|m: int| i < m < n ==> k != pair_key(names[i], #[trigger] names[m]) {
            assert(k != pair_key(names[i], names[n - 1]));
        }
    }
}

/// Fresh links have their ends in the order of the names.
proof fn lemma_mesh_ends(names: Seq<Seq<char>>, n: int, i: int, j: int)
    requires
        0 <= i < n <= names.len(),
        i < j < names.len(),
        names.no_duplicates(),
    ensures
        full_mesh(names, n)[pair_key(names[i], names[j])] == (LinkView {
            env_a: names[i],
            env_b: names[j],
            connected: true,
            latency_ms: 0,
        }),
    decreases n,
{
    let before = full_mesh(names, n - 1);
    let k = pair_key(names[i], names[j]);
    lemma_row_ends(names, before, n - 1, names.len() as int, j, k);
    if i < n - 1 {
        lemma_mesh_ends(names, n - 1, i, j);
        assert forall|m: int| n - 1 < m < names.len() implies k != pair_key(
            names[n - 1],
            #[trigger] names[m],
        ) by {
            law_link_key_unique(names[i], names[j], names[n - 1], names[m]);
        }
    }
}

/// The link of two environments of a new network goes from the one that is named first to the
/// other, is connected and has no delay.
pub proof fn law_new_links(names: Seq<Seq<char>>, i: int, j: int)
    requires
        names.no_duplicates(),
        0 <= i < j < names.len(),
    ensures
        fresh_network(names).env_names == names,
        fresh_network(names).links[pair_key(names[i], names[j])] == (LinkView {
            env_a: names[i],
            env_b: names[j],
            connected: true,
            latency_ms: 0,
        }),
{
    lemma_mesh_ends(names, names.len() as int, i, j);
}

/// An environment is linked to the other ends of the links that have it at one end, and to
/// nothing else.
pub proof fn law_linked_environments(
    links: Map<(Seq<char>, Seq<char>), LinkView>,
    env: Seq<char>,
    other: Seq<char>,
)
    ensures
        linked_to(links, env).contains(other) <==> exists|k: (Seq<char>, Seq<char>)| #[trigger]
            links.contains_key(k) && ((links[k].env_a == env && links[k].env_b == other) || (
            links[k].env_b == env && links[k].env_a == other)),
{
    if linked_to(links, env).contains(other) {
        let k = choose|k: (Seq<char>, Seq<char>)| #[trigger]
            links.contains_key(k) && touches(links[k], env) && other_end(links[k], env) == other;
        assert(links.contains_key(k));
    }
    if exists|k: (Seq<char>, Seq<char>)| #[trigger]
        links.contains_key(k) && ((links[k].env_a == env && links[k].env_b == other) || (
        links[k].env_b == env && links[k].env_a == other)) {
        let k = choose|k: (Seq<char>, Seq<char>)| #[trigger]
            links.contains_key(k) && ((links[k].env_a == env && links[k].env_b == other) || (
            links[k].env_b == env && links[k].env_a == other));
        assert(touches(links[k], env) && other_end(links[k], env) == other);
    }
}

/// What is reported of an operation: the link with its state after it, the environment with those
/// it is linked to, each once and in text order, or all environments.
pub proof fn law_reports(
    link: LinkActionResponse,
    env: EnvActionResponse,
    bulk: BulkActionResponse,
    a: Seq<char>,
    b: Seq<char>,
    action: Seq<char>,
    state: LinkView,
    links: Map<(Seq<char>, Seq<char>), LinkView>,
    names: Seq<Seq<char>>,
    i: int,
    j: int,
)
    requires
        link.reports(a, b, action, state),
        env.reports(a, action, links),
        bulk.reports(action, names),
    ensures
        link.env_a@ == a && link.env_b@ == b && link.action@ == action,
        link.connected == state.connected && link.latency_ms == state.latency_ms,
        env.env@ == a && env.action@ == action,
        0 <= i < j < env.affected_links@.len() ==> text_le(
            env.affected_links@[i]@,
            env.affected_links@[j]@,
        ) && env.affected_links@[i]@ != env.affected_links@[j]@,
        linked_to(links, a).contains(b) <==> exists|n: int|
            0 <= n < env.affected_links@.len() && (#[trigger] env.affected_links@[n])@ == b,
        bulk.action@ == action,
        bulk.environments@.len() == names.len(),
        0 <= i < names.len() ==> bulk.environments@[i]@ == names[i],
{
    let listed = views(env.affected_links@);
    if 0 <= i < j < env.affected_links@.len() {
        assert(text_le(listed[i], listed[j]) && listed[i] != listed[j]);
    }
    if linked_to(links, a).contains(b) {
        assert(listed.to_set().contains(b));
        let n = choose|n: int| 0 <= n < listed.len() && listed[n] == b;
        assert(env.affected_links@[n]@ == b);
    }
    if exists|n: int| 0 <= n < env.affected_links@.len() && (#[trigger] env.affected_links@[n])@ == b {
        let n = choose|n: int|
            0 <= n < env.affected_links@.len() && (#[trigger] env.affected_links@[n])@ == b;
        assert(listed[n] == b);
        assert(listed.to_set().contains(b));
    }
    let all = views(bulk.environments@);
    assert(all.len() == bulk.environments@.len());
    if 0 <= i < names.len() {
        assert(all[i] == bulk.environments@[i]@);
    }
}

/// Each link that a router reports goes from the router to a peer, in the state that is reported,
/// and an error reports none.
pub proof fn law_router_reports(
    env_name: Seq<char>,
    infos: Seq<PeerLinkInfo>,
    response: NetsimResponse,
    i: int,
)
    ensures
        peer_links(env_name, infos).len() == infos.len(),
        0 <= i < infos.len() ==> peer_links(env_name, infos)[i] == (LinkView {
            env_a: env_name,
            env_b: infos[i].peer_env@,
            connected: infos[i].connected,
            latency_ms: infos[i].latency_ms,
        }),
        response is Error ==> response.reported().len() == 0,
        response matches NetsimResponse::Success { env_name: e, links } ==> response.reported()
            == peer_links(e@, links@),
{
}

} // verus!
