//! Network simulation manager: which commands go to which cluster, and what their answers
//! say of the network.
use vstd::prelude::*;
use crate::crm::{NetsimAction, NetsimControlResponse};
use crate::keyed::{distinct, lemma_table_at, lemma_table_push, lemma_table_update};
use crate::netsim::types::{
    in_link_order, link_key, link_model, link_pair, link_table, pair_key, sort_links, LinkState,
    LinkView,
};
use crate::netsim::zrpc_types::{peer_link, peer_links};
use crate::text::chars::{copy_texts, same, views};
use crate::text::order::{is_le, text_le};

verus! {

/// The clusters that can be reached.
#[derive(Debug)]
pub struct CrmManager {
    pub clusters: Vec<String>,
}

impl CrmManager {
    /// The names of the clusters.
    pub fn list_clusters(&self) -> (r: Vec<String>)
        ensures
            r@ == self.clusters@,
    {
        copy_texts(&self.clusters)
    }
}

/// A command for the controller of a cluster.
#[derive(Debug)]
pub struct NetsimCall {
    pub cluster: String,
    pub action: NetsimAction,
    pub peer: String,
    pub latency_ms: u64,
}

/// The model of a command.
#[verifier::ext_equal]
pub struct CallView {
    pub cluster: Seq<char>,
    pub action: NetsimAction,
    pub peer: Seq<char>,
    pub latency_ms: u64,
}

impl View for NetsimCall {
    type V = CallView;

    open spec fn view(&self) -> CallView {
        CallView {
            cluster: self.cluster@,
            action: self.action,
            peer: self.peer@,
            latency_ms: self.latency_ms,
        }
    }
}

/// The commands for one link: both ends are told about the other.
pub open spec fn link_calls(
    a: Seq<char>,
    b: Seq<char>,
    action: NetsimAction,
    latency_ms: u64,
) -> Seq<CallView> {
    seq![
        CallView { cluster: a, action, peer: b, latency_ms },
        CallView { cluster: b, action, peer: a, latency_ms },
    ]
}

/// The commands for the links from one environment to others, in their order.
pub open spec fn star_calls(
    env: Seq<char>,
    others: Seq<Seq<char>>,
    action: NetsimAction,
) -> Seq<CallView>
    decreases others.len(),
{
    if others.len() == 0 {
        seq![]
    } else {
        star_calls(env, others.drop_last(), action) + link_calls(env, others.last(), action, 0)
    }
}

/// The commands for the links from each of the first `n` environments to all later ones.
pub open spec fn mesh_calls(envs: Seq<Seq<char>>, action: NetsimAction, n: int) -> Seq<CallView>
    decreases n,
{
    if n <= 0 {
        seq![]
    } else {
        mesh_calls(envs, action, n - 1) + star_calls(envs[n - 1], envs.skip(n), action)
    }
}

/// The environments other than one.
pub open spec fn others_than(envs: Seq<Seq<char>>, env: Seq<char>) -> Seq<Seq<char>> {
    envs.filter(|e: Seq<char>| e != env)
}

/// Commands to send, in order, and the environments that they concern.
#[derive(Debug)]
pub struct NetsimPlan {
    pub calls: Vec<NetsimCall>,
    pub environments: Vec<String>,
}

/// Adds the commands for one link.
fn push_link(calls: &mut Vec<NetsimCall>, a: &str, b: &str, action: NetsimAction, latency_ms: u64)
    ensures
        views(final(calls)@) == views(old(calls)@) + link_calls(a@, b@, action, latency_ms),
{
    calls.push(NetsimCall { cluster: a.to_owned(), action, peer: b.to_owned(), latency_ms });
    calls.push(NetsimCall { cluster: b.to_owned(), action, peer: a.to_owned(), latency_ms });
    assert(views(calls@) =~= views(old(calls)@) + link_calls(a@, b@, action, latency_ms));
}

/// Adds the commands for the links from one environment to those from position `from` on.
fn push_star(calls: &mut Vec<NetsimCall>, env: &str, envs: &Vec<String>, from: usize, action: NetsimAction)
    requires
        from <= envs@.len(),
    ensures
        views(final(calls)@) == views(old(calls)@) + star_calls(
            env@,
            views(envs@).skip(from as int),
            action,
        ),
{
    let ghost tail = views(envs@).skip(from as int);
    let mut j: usize = from;
    assert(tail.take(0) =~= Seq::<Seq<char>>::empty());
    assert(views(calls@) + star_calls(env@, tail.take(0), action) =~= views(calls@));
    while j < envs.len()
        invariant
            from <= j <= envs@.len(),
            tail == views(envs@).skip(from as int),
            views(calls@) == views(old(calls)@) + star_calls(env@, tail.take(j - from), action),
        decreases envs@.len() - j,
    {
        push_link(calls, env, envs[j].as_str(), action, 0);
        proof {
            let next = tail.take(j + 1 - from);
            assert(next.drop_last() =~= tail.take(j - from));
            assert(next.last() == envs@[j as int]@);
            assert(views(calls@) =~= views(old(calls)@) + star_calls(env@, next, action));
        }
        j += 1;
    }
    assert(tail.take(j - from) =~= tail);
}

/// Plans network simulation commands for the clusters of a manager.
#[derive(Debug)]
pub struct NetsimManager {
    pub crm_manager: CrmManager,
}

impl NetsimManager {
    /// A manager for the given clusters.
    pub fn new(crm_manager: CrmManager) -> (r: Self)
        ensures
            r.crm_manager == crm_manager,
    {
        NetsimManager { crm_manager }
    }

    /// The names of the environments.
    pub open spec fn envs(self) -> Seq<Seq<char>> {
        views(self.crm_manager.clusters@)
    }

    /// Partition link between env_a and env_b (sends to BOTH CRMs).
    pub fn partition_link(&self, env_a: &str, env_b: &str) -> (r: Vec<NetsimCall>)
        ensures
            views(r@) == link_calls(env_a@, env_b@, NetsimAction::Partition, 0),
    {
        let mut calls: Vec<NetsimCall> = Vec::new();
        push_link(&mut calls, env_a, env_b, NetsimAction::Partition, 0);
        assert(views(calls@) =~= link_calls(env_a@, env_b@, NetsimAction::Partition, 0));
        calls
    }

    /// Heal link between env_a and env_b (sends to BOTH CRMs).
    pub fn heal_link(&self, env_a: &str, env_b: &str) -> (r: Vec<NetsimCall>)
        ensures
            views(r@) == link_calls(env_a@, env_b@, NetsimAction::Heal, 0),
    {
        let mut calls: Vec<NetsimCall> = Vec::new();
        push_link(&mut calls, env_a, env_b, NetsimAction::Heal, 0);
        assert(views(calls@) =~= link_calls(env_a@, env_b@, NetsimAction::Heal, 0));
        calls
    }

    /// Set latency on the link between env_a and env_b (both directions).
    pub fn set_link_latency(&self, env_a: &str, env_b: &str, latency_ms: u64) -> (r: Vec<
        NetsimCall,
    >)
        ensures
            views(r@) == link_calls(env_a@, env_b@, NetsimAction::SetLatency, latency_ms),
    {
        let mut calls: Vec<NetsimCall> = Vec::new();
        push_link(&mut calls, env_a, env_b, NetsimAction::SetLatency, latency_ms);
        assert(views(calls@) =~= link_calls(env_a@, env_b@, NetsimAction::SetLatency, latency_ms));
        calls
    }

    /// The environments other than one, in their order.
    fn others(&self, env: &str) -> (r: Vec<String>)
        ensures
            views(r@) == others_than(self.envs(), env@),
    {
        let ghost all = self.envs();
        let ghost keep = |e: Seq<char>| e != env@;
        let clusters: Vec<String> = self.crm_manager.list_clusters();
        let mut r: Vec<String> = Vec::new();
        let mut i: usize = 0;
        assert(views(r@) =~= all.take(0).filter(keep)) by {
            assert(all.take(0) =~= Seq::<Seq<char>>::empty());
            reveal(Seq::filter);
        }
        while i < clusters.len()
            invariant
                i <= clusters@.len(),
                all == views(clusters@),
                keep == (|e: Seq<char>| e != env@),
                views(r@) == all.take(i as int).filter(keep),
            decreases clusters@.len() - i,
        {
            let ghost before = r@;
            if !same(clusters[i].as_str(), env) {
                r.push(clusters[i].clone());
                assert(views(r@) =~= views(before).push(all[i as int]));
            }
            proof {
                assert(all.take(i + 1).drop_last() =~= all.take(i as int));
                assert(all.take(i + 1).last() == all[i as int]);
                reveal(Seq::filter);
            }
            i += 1;
        }
        assert(all.take(i as int) =~= all);
        r
    }

    /// The commands that change every link of an environment.
    fn star(&self, env: &str, action: NetsimAction) -> (r: NetsimPlan)
        ensures
            views(r.environments@) == others_than(self.envs(), env@),
            views(r.calls@) == star_calls(env@, others_than(self.envs(), env@), action),
    {
        let others: Vec<String> = self.others(env);
        let mut calls: Vec<NetsimCall> = Vec::new();
        push_star(&mut calls, env, &others, 0, action);
        assert(views(others@).skip(0) =~= views(others@));
        assert(views(calls@) =~= star_calls(env@, views(others@), action));
        NetsimPlan { calls, environments: others }
    }

    /// The commands that change every link.
    fn mesh(&self, action: NetsimAction) -> (r: NetsimPlan)
        ensures
            views(r.environments@) == self.envs(),
            views(r.calls@) == mesh_calls(self.envs(), action, self.envs().len() as int),
    {
        let envs: Vec<String> = self.crm_manager.list_clusters();
        let mut calls: Vec<NetsimCall> = Vec::new();
        let mut i: usize = 0;
        assert(views(calls@) =~= mesh_calls(views(envs@), action, 0));
        while i < envs.len()
            invariant
                i <= envs@.len(),
                views(calls@) == mesh_calls(views(envs@), action, i as int),
            decreases envs@.len() - i,
        {
            push_star(&mut calls, envs[i].as_str(), &envs, i + 1, action);
            i += 1;
        }
        NetsimPlan { calls, environments: envs }
    }

    /// Partition env from ALL other envs.
    pub fn partition_env(&self, env: &str) -> (r: NetsimPlan)
        ensures
            views(r.environments@) == others_than(self.envs(), env@),
            views(r.calls@) == star_calls(
                env@,
                others_than(self.envs(), env@),
                NetsimAction::Partition,
            ),
    {
        self.star(env, NetsimAction::Partition)
    }

    /// Heal env to ALL other envs.
    pub fn heal_env(&self, env: &str) -> (r: NetsimPlan)
        ensures
            views(r.environments@) == others_than(self.envs(), env@),
            views(r.calls@) == star_calls(
                env@,
                others_than(self.envs(), env@),
                NetsimAction::Heal,
            ),
    {
        self.star(env, NetsimAction::Heal)
    }

    /// Partition ALL links.
    pub fn partition_all(&self) -> (r: NetsimPlan)
        ensures
            views(r.environments@) == self.envs(),
            views(r.calls@) == mesh_calls(
                self.envs(),
                NetsimAction::Partition,
                self.envs().len() as int,
            ),
    {
        self.mesh(NetsimAction::Partition)
    }

    /// Heal ALL links.
    pub fn heal_all(&self) -> (r: NetsimPlan)
        ensures
            views(r.environments@) == self.envs(),
            views(r.calls@) == mesh_calls(self.envs(), NetsimAction::Heal, self.envs().len() as int),
    {
        self.mesh(NetsimAction::Heal)
    }

    /// List known environment names (= cluster names from CRM manager).
    pub fn env_names(&self) -> (r: Vec<String>)
        ensures
            views(r@) == self.envs(),
    {
        self.crm_manager.list_clusters()
    }

    /// The questions to ask for the state of the network: one for each environment.
    pub fn status_calls(&self) -> (r: NetsimPlan)
        ensures
            views(r.environments@) == self.envs(),
            views(r.calls@) == status_questions(self.envs()),
    {
        let envs: Vec<String> = self.crm_manager.list_clusters();
        let mut calls: Vec<NetsimCall> = Vec::new();
        let mut i: usize = 0;
        while i < envs.len()
            invariant
                i <= envs@.len(),
                views(calls@) == status_questions(views(envs@)).take(i as int),
            decreases envs@.len() - i,
        {
            let ghost before = calls@;
            let call = NetsimCall {
                cluster: envs[i].clone(),
                action: NetsimAction::GetStatus,
                peer: String::new(),
                latency_ms: 0,
            };
            assert(call.peer@ =~= seq![]);
            calls.push(call);
            assert(views(calls@) =~= views(before).push(call@));
            i += 1;
        }
        NetsimPlan { calls, environments: envs }
    }
}

/// The questions for the state of each environment.
pub open spec fn status_questions(envs: Seq<Seq<char>>) -> Seq<CallView> {
    Seq::new(
        envs.len(),
        |i: int|
            CallView {
                cluster: envs[i],
                action: NetsimAction::GetStatus,
                peer: seq![],
                latency_ms: 0,
            },
    )
}

/// The links that answers report, in order. A question without an answer reports none.
pub open spec fn reported_links(replies: Seq<Option<NetsimControlResponse>>) -> Seq<LinkView>
    decreases replies.len(),
{
    if replies.len() == 0 {
        seq![]
    } else {
        reported_links(replies.drop_last()) + match replies.last() {
            Some(resp) => peer_links(resp.env_name@, resp.links@),
            None => seq![],
        }
    }
}

/// Whether the ends of a link are named in text order.
pub open spec fn ends_in_order(l: LinkView) -> bool {
    text_le(l.env_a, l.env_b)
}

/// The report of each link that is kept, under the pair of its ends: the first that names the
/// ends in order, and where there is none, the first.
pub open spec fn kept_reports(links: Seq<LinkView>) -> Map<(Seq<char>, Seq<char>), LinkView>
    decreases links.len(),
{
    if links.len() == 0 {
        Map::empty()
    } else {
        let before = kept_reports(links.drop_last());
        let key = pair_key(links.last().env_a, links.last().env_b);
        if !before.contains_key(key) || (!ends_in_order(before[key]) && ends_in_order(
            links.last(),
        )) {
            before.insert(key, links.last())
        } else {
            before
        }
    }
}

/// Adds a link to a list. Where the list has one between the same ends, the link takes its
/// place if it names the ends in order and the other does not.
fn keep_report(links: &mut Vec<LinkState>, link: LinkState)
    requires
        distinct(old(links)@, link_pair()),
    ensures
        distinct(final(links)@, link_pair()),
        ({
            let table = link_table(old(links)@);
            let key = pair_key(link.env_a@, link.env_b@);
            link_table(final(links)@) == if !table.contains_key(key) || (!ends_in_order(table[key])
                && ends_in_order(link@)) {
                table.insert(key, link@)
            } else {
                table
            }
        }),
{
    let key: (String, String) = link_key(link.env_a.as_str(), link.env_b.as_str());
    let mut i: usize = 0;
    while i < links.len()
        invariant
            i <= links@.len(),
            links@ == old(links)@,
            distinct(links@, link_pair()),
            (key.0@, key.1@) == pair_key(link.env_a@, link.env_b@),
            forall|j: int| 0 <= j < i ==> link_pair()(#[trigger] links@[j]) != (key.0@, key.1@),
        decreases links@.len() - i,
    {
        let at: (String, String) = link_key(links[i].env_a.as_str(), links[i].env_b.as_str());
        if same(at.0.as_str(), key.0.as_str()) && same(at.1.as_str(), key.1.as_str()) {
            proof {
                lemma_table_at(links@, link_pair(), link_model(), i as int);
                lemma_table_update(links@, link_pair(), link_model(), i as int, link);
            }
            if !is_le(links[i].env_a.as_str(), links[i].env_b.as_str()) && is_le(
                link.env_a.as_str(),
                link.env_b.as_str(),
            ) {
                links.set(i, link);
            }
            return ;
        }
        i += 1;
    }
    proof {
        lemma_table_push(links@, link_pair(), link_model(), link);
    }
    links.push(link);
}

/// The state of the network as the environments report it, ordered by the names of the ends.
/// Of the reports of one link only one is kept: the first that names its ends in order, or
/// the first of all where none does.
pub fn get_network_state(envs: Vec<String>, replies: &Vec<Option<NetsimControlResponse>>) -> (r: (
    Vec<String>,
    Vec<LinkState>,
))
    ensures
        r.0 == envs,
        in_link_order(r.1@),
        distinct(r.1@, link_pair()),
        link_table(r.1@) == kept_reports(reported_links(replies@)),
{
    let mut links: Vec<LinkState> = Vec::new();
    let mut i: usize = 0;
    assert(replies@.take(0) =~= Seq::<Option<NetsimControlResponse>>::empty());
    assert(link_table(links@) =~= kept_reports(reported_links(replies@.take(0))));
    while i < replies.len()
        invariant
            i <= replies@.len(),
            distinct(links@, link_pair()),
            link_table(links@) == kept_reports(reported_links(replies@.take(i as int))),
        decreases replies@.len() - i,
    {
        let ghost done = reported_links(replies@.take(i as int));
        proof {
            assert(replies@.take(i + 1).drop_last() =~= replies@.take(i as int));
            assert(replies@.take(i + 1).last() == replies@[i as int]);
        }
        match &replies[i] {
            Some(resp) => {
                let ghost all = peer_links(resp.env_name@, resp.links@);
                let mut j: usize = 0;
                assert(done + all.take(0) =~= done);
                while j < resp.links.len()
                    invariant
                        j <= resp.links@.len(),
                        all == peer_links(resp.env_name@, resp.links@),
                        distinct(links@, link_pair()),
                        link_table(links@) == kept_reports(done + all.take(j as int)),
                    decreases resp.links@.len() - j,
                {
                    let link = LinkState {
                        env_a: resp.env_name.clone(),
                        env_b: resp.links[j].peer_env.clone(),
                        connected: resp.links[j].connected,
                        latency_ms: resp.links[j].latency_ms,
                    };
                    assert(link@ == peer_link(resp.env_name@, resp.links@[j as int]));
                    keep_report(&mut links, link);
                    proof {
                        let next = done + all.take(j + 1);
                        assert(next.drop_last() =~= done + all.take(j as int));
                        assert(next.last() == link@);
                    }
                    j += 1;
                }
                assert(all.take(j as int) =~= all);
            },
            None => {
                assert(done + Seq::<LinkView>::empty() =~= done);
            },
        }
        i += 1;
    }
    assert(replies@.take(i as int) =~= replies@);
    (envs, sort_links(&links))
}

/// Every two environments get commands, and each of the two is told about the other.
pub proof fn law_mesh_covers_every_pair(
    envs: Seq<Seq<char>>,
    action: NetsimAction,
    n: int,
    i: int,
    j: int,
)
    requires
        0 <= i < j < envs.len(),
        i < n <= envs.len(),
    ensures
        mesh_calls(envs, action, n).contains(
            CallView { cluster: envs[i], action, peer: envs[j], latency_ms: 0 },
        ),
        mesh_calls(envs, action, n).contains(
            CallView { cluster: envs[j], action, peer: envs[i], latency_ms: 0 },
        ),
    decreases n,
{
    let before = mesh_calls(envs, action, n - 1);
    let row = star_calls(envs[n - 1], envs.skip(n), action);
    let x = CallView { cluster: envs[i], action, peer: envs[j], latency_ms: 0 };
    let y = CallView { cluster: envs[j], action, peer: envs[i], latency_ms: 0 };
    if i < n - 1 {
        law_mesh_covers_every_pair(envs, action, n - 1, i, j);
        let a = choose|a: int| 0 <= a < before.len() && before[a] == x;
        let b = choose|b: int| 0 <= b < before.len() && before[b] == y;
        assert((before + row)[a] == x);
        assert((before + row)[b] == y);
    } else {
        law_star_covers_every_peer(envs[i], envs.skip(n), action, j - n);
        assert(envs.skip(n)[j - n] == envs[j]);
        let a = choose|a: int| 0 <= a < row.len() && row[a] == x;
        let b = choose|b: int| 0 <= b < row.len() && row[b] == y;
        assert((before + row)[before.len() + a] == x);
        assert((before + row)[before.len() + b] == y);
    }
}

/// An environment and each of the others are told about each other.
pub proof fn law_star_covers_every_peer(
    env: Seq<char>,
    others: Seq<Seq<char>>,
    action: NetsimAction,
    j: int,
)
    requires
        0 <= j < others.len(),
    ensures
        star_calls(env, others, action).contains(
            CallView { cluster: env, action, peer: others[j], latency_ms: 0 },
        ),
        star_calls(env, others, action).contains(
            CallView { cluster: others[j], action, peer: env, latency_ms: 0 },
        ),
    decreases others.len(),
{
    let before = star_calls(env, others.drop_last(), action);
    let last = link_calls(env, others.last(), action, 0);
    let x = CallView { cluster: env, action, peer: others[j], latency_ms: 0 };
    let y = CallView { cluster: others[j], action, peer: env, latency_ms: 0 };
    if j < others.len() - 1 {
        law_star_covers_every_peer(env, others.drop_last(), action, j);
        let a = choose|a: int| 0 <= a < before.len() && before[a] == x;
        let b = choose|b: int| 0 <= b < before.len() && before[b] == y;
        assert((before + last)[a] == x);
        assert((before + last)[b] == y);
    } else {
        assert((before + last)[before.len() as int] == x);
        assert((before + last)[before.len() as int + 1] == y);
    }
}

/// Whether a report is the one of its link that is to be listed: the first that names the ends
/// in order, or the first of all where none does.
pub open spec fn stands(links: Seq<LinkView>, i: int) -> bool {
    let key = pair_key(links[i].env_a, links[i].env_b);
    if ends_in_order(links[i]) {
        forall|j: int|
            0 <= j < i && pair_key((#[trigger] links[j]).env_a, links[j].env_b) == key
                ==> !ends_in_order(links[j])
    } else {
        forall|j: int|
            0 <= j < links.len() && pair_key((#[trigger] links[j]).env_a, links[j].env_b) == key
                ==> !ends_in_order(links[j]) && i <= j
    }
}

/// Of the reports of one link the first that names its ends in order is listed, whatever the
/// order of the environments, and the first of all where none does.
pub proof fn law_report_in_order_stands(links: Seq<LinkView>, i: int)
    requires
        0 <= i < links.len(),
        stands(links, i),
    ensures
        kept_reports(links).contains_key(pair_key(links[i].env_a, links[i].env_b)),
        kept_reports(links)[pair_key(links[i].env_a, links[i].env_b)] == links[i],
    decreases links.len(),
{
    let init = links.drop_last();
    let key = pair_key(links[i].env_a, links[i].env_b);
    assert forall|j: int| 0 <= j < init.len() implies #[trigger] init[j] == links[j] by {}
    if i < links.len() - 1 {
        assert(stands(init, i));
        law_report_in_order_stands(init, i);
        assert(links[links.len() - 1] == links.last());
    } else {
        law_every_report_is_listed(init, key);
        if kept_reports(init).contains_key(key) {
            let j = choose|j: int|
                0 <= j < init.len() && pair_key((#[trigger] init[j]).env_a, init[j].env_b) == key
                    && kept_reports(init)[key] == init[j];
            assert(links[j] == init[j]);
        }
    }
}

/// Every link that is reported is listed, with one of its reports, and no other is.
pub proof fn law_every_report_is_listed(links: Seq<LinkView>, key: (Seq<char>, Seq<char>))
    ensures
        kept_reports(links).contains_key(key) ==> exists|j: int|
            0 <= j < links.len() && pair_key((#[trigger] links[j]).env_a, links[j].env_b) == key
                && kept_reports(links)[key] == links[j],
        forall|j: int|
            0 <= j < links.len() && pair_key((#[trigger] links[j]).env_a, links[j].env_b) == key
                ==> kept_reports(links).contains_key(key),
    decreases links.len(),
{
    if links.len() > 0 {
        let init = links.drop_last();
        law_every_report_is_listed(init, key);
        assert forall|j: int| 0 <= j < init.len() implies #[trigger] init[j] == links[j] by {}
        let last = links[links.len() - 1];
        if kept_reports(links).contains_key(key) && kept_reports(links)[key] != last {
            let j = choose|j: int|
                0 <= j < init.len() && pair_key((#[trigger] init[j]).env_a, init[j].env_b) == key
                    && kept_reports(init)[key] == init[j];
            assert(links[j] == init[j]);
        } else if kept_reports(links).contains_key(key) {
            if pair_key(last.env_a, last.env_b) != key {
                let j = choose|j: int|
                    0 <= j < init.len() && pair_key((#[trigger] init[j]).env_a, init[j].env_b)
                        == key && kept_reports(init)[key] == init[j];
                assert(links[j] == init[j]);
            }
        }
        assert forall|j: int|
            0 <= j < links.len() && pair_key((#[trigger] links[j]).env_a, links[j].env_b)
                == key implies kept_reports(links).contains_key(key) by {
            if j < init.len() {
                assert(init[j] == links[j]);
            }
        }
    }
}

} // verus!
