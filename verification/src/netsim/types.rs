//! Links between environments.
use vstd::prelude::*;
use crate::keyed::{distinct, lemma_table_insert, lemma_table_push, place, present, table};
use crate::text::chars::same;
use crate::text::order::{
    is_le, lemma_text_le_antisymmetric, lemma_text_le_total, lemma_text_le_transitive, text_le,
};

verus! {

/// State of a single inter-environment link.
#[derive(Debug)]
pub struct LinkState {
    pub env_a: String,
    pub env_b: String,
    pub connected: bool,
    /// Latency injection in milliseconds (0 = no delay). Applied only when
    /// `connected` is true.
    pub latency_ms: u64,
}

/// The model of a link.
#[verifier::ext_equal]
pub struct LinkView {
    pub env_a: Seq<char>,
    pub env_b: Seq<char>,
    pub connected: bool,
    pub latency_ms: u64,
}

impl View for LinkState {
    type V = LinkView;

    open spec fn view(&self) -> LinkView {
        LinkView {
            env_a: self.env_a@,
            env_b: self.env_b@,
            connected: self.connected,
            latency_ms: self.latency_ms,
        }
    }
}

impl Clone for LinkState {
    fn clone(&self) -> (r: Self)
        ensures
            r == *self,
    {
        LinkState {
            env_a: self.env_a.clone(),
            env_b: self.env_b.clone(),
            connected: self.connected,
            latency_ms: self.latency_ms,
        }
    }
}

/// The health and the delay of the links between environments.
pub trait LinkChecker {
    /// Whether the link between two environments carries traffic.
    spec fn active(&self, env_a: Seq<char>, env_b: Seq<char>) -> bool;

    /// The delay on the link between two environments, in milliseconds.
    spec fn delay(&self, env_a: Seq<char>, env_b: Seq<char>) -> u64;

    /// Returns `true` if the link between `env_a` and `env_b` is active.
    fn is_active(&self, env_a: &str, env_b: &str) -> (r: bool)
        ensures
            r == self.active(env_a@, env_b@),
    ;

    /// Returns the configured latency in ms (0 if disconnected or unknown).
    fn latency_ms(&self, env_a: &str, env_b: &str) -> (r: u64)
        ensures
            r == self.delay(env_a@, env_b@),
            !self.active(env_a@, env_b@) ==> r == 0,
    ;
}

/// The two names of a link in text order: the key of the link whichever end comes first.
pub open spec fn pair_key(a: Seq<char>, b: Seq<char>) -> (Seq<char>, Seq<char>) {
    if text_le(a, b) {
        (a, b)
    } else {
        (b, a)
    }
}

/// Ordered pair key for the connectivity matrix.
pub fn link_key(a: &str, b: &str) -> (r: (String, String))
    ensures
        (r.0@, r.1@) == pair_key(a@, b@),
{
    if is_le(a, b) {
        (a.to_owned(), b.to_owned())
    } else {
        (b.to_owned(), a.to_owned())
    }
}

/// The key of a link does not depend on which end is named first.
pub proof fn law_link_key_symmetric(a: Seq<char>, b: Seq<char>)
    ensures
        pair_key(a, b) == pair_key(b, a),
{
    lemma_text_le_total(a, b);
    if text_le(a, b) && text_le(b, a) {
        lemma_text_le_antisymmetric(a, b);
    }
}

/// Two links have the same key only if they join the same two environments.
pub proof fn law_link_key_unique(a: Seq<char>, b: Seq<char>, c: Seq<char>, d: Seq<char>)
    ensures
        pair_key(a, b) == pair_key(c, d) <==> (a == c && b == d) || (a == d && b == c),
{
    law_link_key_symmetric(a, b);
}

/// The key of a link.
pub open spec fn link_pair() -> spec_fn(LinkState) -> (Seq<char>, Seq<char>) {
    |l: LinkState| pair_key(l.env_a@, l.env_b@)
}

/// The model of a link, as a function.
pub open spec fn link_model() -> spec_fn(LinkState) -> LinkView {
    |l: LinkState| l@
}

/// The links of a list by their keys.
pub open spec fn link_table(links: Seq<LinkState>) -> Map<(Seq<char>, Seq<char>), LinkView> {
    table(links, link_pair(), link_model())
}

/// Whether a link comes before another, or where it does, in a list that is ordered by the
/// first and then by the second name.
pub open spec fn link_le(x: LinkView, y: LinkView) -> bool {
    if x.env_a == y.env_a {
        text_le(x.env_b, y.env_b)
    } else {
        text_le(x.env_a, y.env_a)
    }
}

/// Whether the links of a list are in order.
pub open spec fn in_link_order(links: Seq<LinkState>) -> bool {
    forall|i: int, j: int| 0 <= i < j < links.len() ==> link_le(#[trigger] links[i]@, #[trigger] links[j]@)
}

/// Whether a link comes before another, or where it does.
fn link_before(x: &LinkState, y: &LinkState) -> (r: bool)
    ensures
        r == link_le(x@, y@),
{
    if same(x.env_a.as_str(), y.env_a.as_str()) {
        is_le(x.env_b.as_str(), y.env_b.as_str())
    } else {
        is_le(x.env_a.as_str(), y.env_a.as_str())
    }
}

/// The order of links is total.
proof fn lemma_link_le_total(x: LinkView, y: LinkView)
    ensures
        link_le(x, y) || link_le(y, x),
{
    lemma_text_le_total(x.env_a, y.env_a);
    lemma_text_le_total(x.env_b, y.env_b);
}

/// The order of links is transitive.
proof fn lemma_link_le_transitive(x: LinkView, y: LinkView, z: LinkView)
    requires
        link_le(x, y),
        link_le(y, z),
    ensures
        link_le(x, z),
{
    if x.env_a == y.env_a {
        if y.env_a == z.env_a {
            lemma_text_le_transitive(x.env_b, y.env_b, z.env_b);
        }
    } else if y.env_a != z.env_a {
        lemma_text_le_transitive(x.env_a, y.env_a, z.env_a);
        if x.env_a == z.env_a {
            lemma_text_le_antisymmetric(x.env_a, y.env_a);
        }
    }
}

/// Sorts links with different keys by the first and then by the second name.
pub fn sort_links(links: &Vec<LinkState>) -> (r: Vec<LinkState>)
    requires
        distinct(links@, link_pair()),
    ensures
        in_link_order(r@),
        distinct(r@, link_pair()),
        link_table(r@) == link_table(links@),
        r@.len() == links@.len(),
{
    let mut r: Vec<LinkState> = Vec::new();
    let mut i: usize = 0;
    assert(links@.take(0) =~= r@);
    while i < links.len()
        invariant
            i <= links@.len(),
            distinct(links@, link_pair()),
            distinct(links@.take(i as int), link_pair()),
            in_link_order(r@),
            distinct(r@, link_pair()),
            link_table(r@) == link_table(links@.take(i as int)),
            r@.len() == i,
        decreases links@.len() - i,
    {
        let x: LinkState = links[i].clone();
        let mut k: usize = 0;
        while k < r.len() && link_before(&r[k], &x)
            invariant
                k <= r@.len(),
                forall|j: int| 0 <= j < k ==> link_le(#[trigger] r@[j]@, x@),
            decreases r@.len() - k,
        {
            k += 1;
        }
        let ghost before = r@;
        let ghost done = links@.take(i as int);
        proof {
            let key = link_pair();
            assert(links@.take(i + 1) =~= done.push(x));
            assert(!present(done, key, key(x))) by {
                if present(done, key, key(x)) {
                    let j = place(done, key, key(x));
                    assert(key(done[j]) == key(x));
                    assert(key(links@[j]) != key(links@[i as int]));
                }
            }
            assert(link_table(done).dom().contains(key(x)) == link_table(before).dom().contains(
                key(x),
            ));
            lemma_table_push(done, key, link_model(), x);
            lemma_table_insert(before, key, link_model(), k as int, x);
        }
        r.insert(k, x);
        assert forall|a: int, b: int| 0 <= a < b < r@.len() implies link_le(
            #[trigger] r@[a]@,
            #[trigger] r@[b]@,
        ) by {
            lemma_link_order_insert(before, x, k as int, a, b);
        }
        i += 1;
    }
    assert(links@.take(i as int) =~= links@);
    r
}

/// Inserting a link behind those that come before it keeps the order.
proof fn lemma_link_order_insert(before: Seq<LinkState>, x: LinkState, k: int, a: int, b: int)
    requires
        in_link_order(before),
        0 <= k <= before.len(),
        forall|j: int| 0 <= j < k ==> link_le(#[trigger] before[j]@, x@),
        k < before.len() ==> !link_le(before[k]@, x@),
        0 <= a < b < before.len() + 1,
    ensures
        link_le(before.insert(k, x)[a]@, before.insert(k, x)[b]@),
{
    let after = before.insert(k, x);
    if a != k && b != k {
        let u = if a < k { a } else { a - 1 };
        let v = if b < k { b } else { b - 1 };
        assert(link_le(before[u]@, before[v]@));
    } else if b == k {
        assert(link_le(before[a]@, x@));
    } else {
        lemma_link_le_total(x@, before[k]@);
        if b - 1 > k {
            assert(link_le(before[k]@, before[b - 1]@));
            lemma_link_le_transitive(x@, before[k]@, before[b - 1]@);
        }
    }
}

} // verus!
