//! Which commands reach which cluster, and what the state of the network is made of.
use vstd::prelude::*;
use crate::crm::{NetsimAction, NetsimControlResponse};
use crate::keyed::{distinct, lemma_table_at, place, present};
use crate::netsim::types::{
    in_link_order, law_link_key_unique, link_model, link_pair, link_table, pair_key, LinkState,
    LinkView,
};
use crate::netsim::zrpc_types::peer_links;
use crate::pm::netsim::{
    kept_reports, law_every_report_is_listed, law_report_in_order_stands, link_calls, mesh_calls,
    others_than, reported_links, star_calls, stands, status_questions, CallView,
};
use crate::text::order::{lemma_text_le_antisymmetric, lemma_text_le_total, text_le};

verus! {

/// The link that an answer reports at position `j`: from the environment that answers to the
/// peer, in the state that the report gives.
pub open spec fn link_of(resp: NetsimControlResponse, j: int) -> LinkView {
    LinkView {
        env_a: resp.env_name@,
        env_b: resp.links@[j].peer_env@,
        connected: resp.links@[j].connected,
        latency_ms: resp.links@[j].latency_ms,
    }
}

/// Whether the `i`-th question was answered with at least `j + 1` links.
pub open spec fn answered(replies: Seq<Option<NetsimControlResponse>>, i: int, j: int) -> bool {
    0 <= i < replies.len() && replies[i] is Some && 0 <= j < replies[i]->0.links@.len()
}

/// Whether the `j`-th link of the `i`-th answer goes from `a` to `b`.
pub open spec fn tells(
    replies: Seq<Option<NetsimControlResponse>>,
    i: int,
    j: int,
    a: Seq<char>,
    b: Seq<char>,
) -> bool {
    &&& answered(replies, i, j)
    &&& replies[i]->0.env_name@ == a
    &&& replies[i]->0.links@[j].peer_env@ == b
}

/// How many links are reported before the `i`-th answer.
spec fn offset(replies: Seq<Option<NetsimControlResponse>>, i: int) -> int {
    reported_links(replies.take(i)).len() as int
}

/// Where a link of an answer stands among all that are reported.
proof fn lemma_reported_at(replies: Seq<Option<NetsimControlResponse>>, i: int, j: int)
    requires
        answered(replies, i, j),
    ensures
        offset(replies, i) + j < reported_links(replies).len(),
        reported_links(replies)[offset(replies, i) + j] == link_of(replies[i]->0, j),
    decreases replies.len(),
{
    let init = replies.drop_last();
    if i == replies.len() - 1 {
        assert(replies.take(i) =~= init);
        let more = peer_links(replies[i]->0.env_name@, replies[i]->0.links@);
        assert(reported_links(replies) == reported_links(init) + more);
        assert(more[j] == link_of(replies[i]->0, j));
    } else {
        lemma_reported_at(init, i, j);
        assert(init.take(i) =~= replies.take(i));
        let all = reported_links(replies);
        let before = reported_links(init);
        assert(all.len() >= before.len());
        assert(all[offset(replies, i) + j] == before[offset(replies, i) + j]);
    }
}

/// The answer that a reported link comes from.
proof fn lemma_source(replies: Seq<Option<NetsimControlResponse>>, n: int) -> (at: (int, int))
    requires
        0 <= n < reported_links(replies).len(),
    ensures
        answered(replies, at.0, at.1),
        n == offset(replies, at.0) + at.1,
        reported_links(replies)[n] == link_of(replies[at.0]->0, at.1),
    decreases replies.len(),
{
    let init = replies.drop_last();
    let before = reported_links(init);
    if n < before.len() {
        let at = lemma_source(init, n);
        assert(init.take(at.0) =~= replies.take(at.0));
        at
    } else {
        let i = replies.len() - 1;
        assert(replies.take(i) =~= init);
        let at = (i, n - before.len());
        lemma_reported_at(replies, at.0, at.1);
        at
    }
}

/// Links of earlier answers are reported earlier.
proof fn lemma_offsets(replies: Seq<Option<NetsimControlResponse>>, p: int, i: int)
    requires
        0 <= p < i <= replies.len(),
    ensures
        replies[p] is Some ==> offset(replies, p) + replies[p]->0.links@.len() <= offset(replies, i),
        offset(replies, p) <= offset(replies, i),
    decreases i,
{
    let here = replies.take(i);
    assert(here.drop_last() =~= replies.take(i - 1));
    if p < i - 1 {
        lemma_offsets(replies, p, i - 1);
    }
}

/// Every link that an answer reports is listed, whatever the other questions were answered, and
/// whether they were at all.
pub proof fn law_every_answer_is_listed(
    replies: Seq<Option<NetsimControlResponse>>,
    i: int,
    j: int,
)
    requires
        0 <= i < replies.len(),
        replies[i] is Some,
        0 <= j < replies[i]->0.links@.len(),
    ensures
        ({
            let env = replies[i]->0.env_name@;
            let peer = replies[i]->0.links@[j].peer_env@;
            let listed = kept_reports(reported_links(replies));
            &&& reported_links(replies).contains(link_of(replies[i]->0, j))
            &&& listed.contains_key(pair_key(env, peer))
            &&& listed.contains_key((env, peer)) || listed.contains_key((peer, env))
        }),
{
    lemma_reported_at(replies, i, j);
    let n = offset(replies, i) + j;
    let all = reported_links(replies);
    assert(all[n] == link_of(replies[i]->0, j));
    law_every_report_is_listed(all, pair_key(all[n].env_a, all[n].env_b));
}

/// Every link that is listed was reported as it is listed, under its two ends in order.
pub proof fn law_every_listed_link_was_reported(
    replies: Seq<Option<NetsimControlResponse>>,
    key: (Seq<char>, Seq<char>),
)
    requires
        kept_reports(reported_links(replies)).contains_key(key),
    ensures
        text_le(key.0, key.1),
        exists|i: int, j: int| #[trigger]
            answered(replies, i, j) && kept_reports(reported_links(replies))[key] == link_of(
                replies[i]->0,
                j,
            ) && (tells(replies, i, j, key.0, key.1) || tells(replies, i, j, key.1, key.0)),
{
    let all = reported_links(replies);
    law_every_report_is_listed(all, key);
    let n = choose|n: int|
        0 <= n < all.len() && pair_key((#[trigger] all[n]).env_a, all[n].env_b) == key
            && kept_reports(all)[key] == all[n];
    let at = lemma_source(replies, n);
    assert(answered(replies, at.0, at.1));
    lemma_text_le_total(all[n].env_a, all[n].env_b);
}

/// Of the reports of a link the first from the end that comes first by name is listed, before
/// any report from the other end.
pub proof fn law_first_end_is_believed(
    replies: Seq<Option<NetsimControlResponse>>,
    i: int,
    j: int,
    a: Seq<char>,
    b: Seq<char>,
)
    requires
        tells(replies, i, j, a, b),
        text_le(a, b),
        forall|p: int, q: int| #[trigger]
            tells(replies, p, q, a, b) ==> i < p || (i == p && j <= q),
    ensures
        kept_reports(reported_links(replies)).contains_key((a, b)),
        kept_reports(reported_links(replies))[(a, b)] == link_of(replies[i]->0, j),
{
    let all = reported_links(replies);
    let n = offset(replies, i) + j;
    lemma_reported_at(replies, i, j);
    assert forall|m: int|
        0 <= m < n && pair_key((#[trigger] all[m]).env_a, all[m].env_b) == pair_key(
            a,
            b,
        ) implies !text_le(all[m].env_a, all[m].env_b) by {
        let at = lemma_source(replies, m);
        if text_le(all[m].env_a, all[m].env_b) {
            assert(tells(replies, at.0, at.1, a, b));
            if i < at.0 {
                lemma_offsets(replies, i, at.0);
            }
        }
    }
    assert(stands(all, n));
    law_report_in_order_stands(all, n);
}

/// A link that only the other end reports is listed as that end reports it first.
pub proof fn law_other_end_is_believed_alone(
    replies: Seq<Option<NetsimControlResponse>>,
    i: int,
    j: int,
    a: Seq<char>,
    b: Seq<char>,
)
    requires
        tells(replies, i, j, a, b),
        !text_le(a, b),
        forall|p: int, q: int| #[trigger]
            tells(replies, p, q, a, b) ==> i < p || (i == p && j <= q),
        forall|p: int, q: int| !(#[trigger] tells(replies, p, q, b, a)),
    ensures
        kept_reports(reported_links(replies)).contains_key((b, a)),
        kept_reports(reported_links(replies))[(b, a)] == link_of(replies[i]->0, j),
{
    let all = reported_links(replies);
    let n = offset(replies, i) + j;
    lemma_reported_at(replies, i, j);
    assert forall|m: int|
        0 <= m < all.len() && pair_key((#[trigger] all[m]).env_a, all[m].env_b) == pair_key(
            a,
            b,
        ) implies !text_le(all[m].env_a, all[m].env_b) && n <= m by {
        let at = lemma_source(replies, m);
        law_link_key_unique(all[m].env_a, all[m].env_b, a, b);
        if all[m].env_a == b && all[m].env_b == a {
            assert(tells(replies, at.0, at.1, b, a));
        } else {
            assert(tells(replies, at.0, at.1, a, b));
            if i < at.0 {
                lemma_offsets(replies, i, at.0);
            }
        }
    }
    assert(stands(all, n));
    law_report_in_order_stands(all, n);
}

/// What is listed of a network: for each answer every link that it reports is in the list, and
/// every link in the list is one that some answer reports, in that state; no two join the same
/// ends.
pub proof fn law_network_state(
    links: Seq<LinkState>,
    replies: Seq<Option<NetsimControlResponse>>,
    i: int,
    j: int,
    n: int,
)
    requires
        distinct(links, link_pair()),
        link_table(links) == kept_reports(reported_links(replies)),
    ensures
        answered(replies, i, j) ==> exists|k: int|
            0 <= k < links.len() && ((#[trigger] links[k]@.env_a, links[k]@.env_b) == (
                replies[i]->0.env_name@,
                replies[i]->0.links@[j].peer_env@,
            ) || (links[k]@.env_b, links[k]@.env_a) == (
                replies[i]->0.env_name@,
                replies[i]->0.links@[j].peer_env@,
            )),
        0 <= n < links.len() ==> exists|p: int, q: int| #[trigger]
            answered(replies, p, q) && links[n]@ == link_of(replies[p]->0, q),
        forall|p: int, q: int|
            0 <= p < q < links.len() ==> !((#[trigger] links[p]@).env_a == (
            #[trigger] links[q]@).env_a && links[p]@.env_b == links[q]@.env_b) && !(links[p]@.env_a
                == links[q]@.env_b && links[p]@.env_b == links[q]@.env_a),
{
    let listed = kept_reports(reported_links(replies));
    if answered(replies, i, j) {
        let env = replies[i]->0.env_name@;
        let peer = replies[i]->0.links@[j].peer_env@;
        law_every_answer_is_listed(replies, i, j);
        let key = pair_key(env, peer);
        assert(present(links, link_pair(), key));
        let k = place(links, link_pair(), key);
        assert(link_pair()(links[k]) == key);
        law_link_key_unique(links[k]@.env_a, links[k]@.env_b, env, peer);
        assert(links[k]@.env_a == links[k].env_a@);
    }
    if 0 <= n < links.len() {
        lemma_table_at(links, link_pair(), link_model(), n);
        let key = link_pair()(links[n]);
        law_every_listed_link_was_reported(replies, key);
    }
    assert forall|p: int, q: int| 0 <= p < q < links.len() implies !((#[trigger] links[p]@).env_a
        == (#[trigger] links[q]@).env_a && links[p]@.env_b == links[q]@.env_b) && !(links[p]@.env_a
        == links[q]@.env_b && links[p]@.env_b == links[q]@.env_a) by {
        assert(link_pair()(links[p]) != link_pair()(links[q]));
        law_link_key_unique(links[p]@.env_a, links[p]@.env_b, links[q]@.env_a, links[q]@.env_b);
    }
}

/// A list of links is ordered by the first end, and where that is the same, by the second.
pub proof fn law_links_are_ordered(links: Seq<LinkState>, i: int, j: int)
    requires
        in_link_order(links),
        0 <= i < j < links.len(),
    ensures
        text_le(links[i].env_a@, links[j].env_a@),
        links[i].env_a@ == links[j].env_a@ ==> text_le(links[i].env_b@, links[j].env_b@),
{
    let (x, y) = (links[i]@, links[j]@);
    assert(x.env_a == links[i].env_a@);
    crate::text::order::lemma_text_le_reflexive(x.env_a);
}

/// A command for a link goes to both of its ends, each with the name of the other.
pub proof fn law_both_ends_are_told(
    a: Seq<char>,
    b: Seq<char>,
    action: NetsimAction,
    latency_ms: u64,
)
    ensures
        link_calls(a, b, action, latency_ms).len() == 2,
        link_calls(a, b, action, latency_ms)[0] == (CallView {
            cluster: a,
            action,
            peer: b,
            latency_ms,
        }),
        link_calls(a, b, action, latency_ms)[1] == (CallView {
            cluster: b,
            action,
            peer: a,
            latency_ms,
        }),
{
}

/// The commands for an environment concern each of the others in turn: first the environment is
/// told about the other, then the other about it, and nobody else is told anything.
pub proof fn law_star_in_turn(
    env: Seq<char>,
    others: Seq<Seq<char>>,
    action: NetsimAction,
    j: int,
)
    ensures
        star_calls(env, others, action).len() == 2 * others.len(),
        0 <= j < others.len() ==> star_calls(env, others, action)[2 * j] == (CallView {
            cluster: env,
            action,
            peer: others[j],
            latency_ms: 0,
        }) && star_calls(env, others, action)[2 * j + 1] == (CallView {
            cluster: others[j],
            action,
            peer: env,
            latency_ms: 0,
        }),
    decreases others.len(),
{
    if others.len() > 0 {
        law_star_in_turn(env, others.drop_last(), action, j);
    }
}

/// The commands for all links concern each two environments once: there are two commands for
/// each pair, and every command is one of them.
pub proof fn law_mesh_is_the_pairs(envs: Seq<Seq<char>>, action: NetsimAction, n: int, k: int)
    requires
        0 <= n <= envs.len(),
    ensures
        mesh_calls(envs, action, n).len() == n * (2 * envs.len() - n - 1),
        0 <= k < mesh_calls(envs, action, n).len() ==> exists|i: int, j: int|
            0 <= i < n && 0 <= i < j < envs.len() && ({
                let c = mesh_calls(envs, action, n)[k];
                &&& c.action == action
                &&& c.latency_ms == 0
                &&& (c.cluster == #[trigger] envs[i] && c.peer == #[trigger] envs[j]) || (c.cluster
                    == envs[j] && c.peer == envs[i])
            }),
    decreases n,
{
    if n > 0 {
        law_mesh_is_the_pairs(envs, action, n - 1, k);
        let before = mesh_calls(envs, action, n - 1);
        let later = envs.skip(n);
        let row = star_calls(envs[n - 1], later, action);
        law_star_in_turn(envs[n - 1], later, action, 0);
        let len = envs.len() as int;
        assert((n - 1) * (2 * len - (n - 1) - 1) + 2 * (len - n) == n * (2 * len - n - 1))
            by (nonlinear_arith);
        let all = mesh_calls(envs, action, n);
        if before.len() <= k < all.len() {
            let m = k - before.len();
            law_star_in_turn(envs[n - 1], later, action, m / 2);
            assert(all[k] == row[m]);
            assert(m == 2 * (m / 2) || m == 2 * (m / 2) + 1);
            let j = n + m / 2;
            assert(later[m / 2] == envs[j]);
            assert(0 <= n - 1 < n && n - 1 < j < envs.len());
            assert((all[k].cluster == envs[n - 1] && all[k].peer == envs[j]) || (all[k].cluster
                == envs[j] && all[k].peer == envs[n - 1]));
        } else if 0 <= k < before.len() {
            assert(all[k] == before[k]);
            let (i, j) = choose|i: int, j: int|
                0 <= i < n - 1 && 0 <= i < j < envs.len() && ({
                    let c = before[k];
                    &&& c.action == action
                    &&& c.latency_ms == 0
                    &&& (c.cluster == #[trigger] envs[i] && c.peer == #[trigger] envs[j]) || (
                    c.cluster == envs[j] && c.peer == envs[i])
                });
            assert(0 <= i < n);
            assert((all[k].cluster == envs[i] && all[k].peer == envs[j]) || (all[k].cluster
                == envs[j] && all[k].peer == envs[i]));
        }
    }
}

/// The others are all environments that have another name, in their order.
pub proof fn law_others(envs: Seq<Seq<char>>, e: Seq<char>, env: Seq<char>)
    ensures
        others_than(seq![], env).len() == 0,
        e != env ==> others_than(envs.push(e), env) == others_than(envs, env).push(e),
        e == env ==> others_than(envs.push(e), env) == others_than(envs, env),
{
    reveal(Seq::filter);
    assert(envs.push(e).drop_last() =~= envs);
}

/// Each environment is asked once for its state, and for nothing else.
pub proof fn law_everyone_is_asked(envs: Seq<Seq<char>>, i: int)
    ensures
        status_questions(envs).len() == envs.len(),
        0 <= i < envs.len() ==> status_questions(envs)[i].cluster == envs[i] && status_questions(
            envs,
        )[i].action is GetStatus && status_questions(envs)[i].peer.len() == 0
            && status_questions(envs)[i].latency_ms == 0,
{
}

/// The key of a link is its two ends in text order.
pub proof fn law_link_key_is_its_ends(a: Seq<char>, b: Seq<char>)
    ensures
        pair_key(a, b) == (a, b) || pair_key(a, b) == (b, a),
        text_le(pair_key(a, b).0, pair_key(a, b).1),
{
    lemma_text_le_total(a, b);
    if text_le(a, b) && text_le(b, a) {
        lemma_text_le_antisymmetric(a, b);
    }
}

} // verus!
