//! Pulling a WASM module from an OCI registry.
//!
//! A pull asks for the manifest of a reference, picks a layer and asks for its blob. Each of
//! the two requests may lead through a token request where the registry asks for
//! authentication. The requests themselves are made elsewhere: here it is decided which one
//! comes next, and what the answers mean.
use vstd::prelude::*;
use vstd::string::*;
use crate::json::{items_view, pair_views};
use crate::text::chars::{same, text_view, views};
use crate::text::search::{
    cut, last_at, lemma_first_at_unique, lowered, split_at_last, split_once, strip_prefix, to_lower,
};

verus! {

/// A reference to a module in a registry.
#[derive(Debug)]
pub struct OciReference {
    pub proto: String,
    pub registry: String,
    pub repo: String,
    pub reference: String,
}

/// The model of a reference.
#[verifier::ext_equal]
pub struct ReferenceView {
    pub proto: Seq<char>,
    pub registry: Seq<char>,
    pub repo: Seq<char>,
    pub reference: Seq<char>,
}

impl View for OciReference {
    type V = ReferenceView;

    open spec fn view(&self) -> ReferenceView {
        ReferenceView {
            proto: self.proto@,
            registry: self.registry@,
            repo: self.repo@,
            reference: self.reference@,
        }
    }
}

/// The repository and the tag or digest in the part of a reference behind the registry: a
/// digest stands behind the first at sign, else a tag behind the last colon, else the tag is
/// `latest`.
pub open spec fn repo_and_reference(rest: Seq<char>) -> (Seq<char>, Seq<char>) {
    match cut(rest, '@') {
        Some(p) => p,
        None => if last_at(rest, ':') >= 0 {
            (rest.take(last_at(rest, ':')), rest.skip(last_at(rest, ':') + 1))
        } else {
            (rest, "latest"@)
        },
    }
}

/// The protocol of an address and what follows its scheme.
pub open spec fn scheme_of(url: Seq<char>) -> Option<(Seq<char>, Seq<char>)> {
    if "oci+http://"@.is_prefix_of(url) {
        Some(("http"@, url.skip("oci+http://"@.len() as int)))
    } else if "oci://"@.is_prefix_of(url) {
        Some(("https"@, url.skip("oci://"@.len() as int)))
    } else {
        None
    }
}

/// The reference that an address stands for: the registry is what stands before the first
/// slash.
pub open spec fn reference_of(url: Seq<char>) -> Option<ReferenceView> {
    match scheme_of(url) {
        Some(s) => match cut(s.1, '/') {
            Some(p) => Some(
                ReferenceView {
                    proto: s.0,
                    registry: p.0,
                    repo: repo_and_reference(p.1).0,
                    reference: repo_and_reference(p.1).1,
                },
            ),
            None => None,
        },
        None => None,
    }
}

/// Reads the reference that an address stands for.
pub fn parse_reference(url: &str) -> (r: Result<OciReference, String>)
    ensures
        match r {
            Ok(x) => reference_of(url@) == Some(x@),
            Err(e) => reference_of(url@) is None && e@ == if scheme_of(url@) is None {
                "expected oci:// scheme"@
            } else {
                "OCI reference must be registry/repo:tag"@
            },
        },
{
    let (proto, rest): (&str, String) = match strip_prefix(url, "oci+http://") {
        Some(rest) => ("http", rest),
        None => match strip_prefix(url, "oci://") {
            Some(rest) => ("https", rest),
            None => {
                return Err("expected oci:// scheme".to_owned());
            },
        },
    };
    match split_once(rest.as_str(), '/') {
        Some((registry, rest)) => {
            let (repo, reference): (String, String) = match split_once(rest.as_str(), '@') {
                Some(p) => p,
                None => match split_at_last(rest.as_str(), ':') {
                    Some(p) => p,
                    None => (rest.clone(), "latest".to_owned()),
                },
            };
            Ok(OciReference { proto: proto.to_owned(), registry, repo, reference })
        },
        None => Err("OCI reference must be registry/repo:tag".to_owned()),
    }
}

/// Whether certificates are not to be checked: the setting says `true`, in any letter case,
/// or `1`.
pub fn is_insecure(setting: Option<String>) -> (r: bool)
    ensures
        r == (text_view(setting) matches Some(s) && (lowered(s) == "true"@ || s == "1"@)),
{
    match setting {
        Some(s) => same(to_lower(s.as_str()).as_str(), "true") || same(s.as_str(), "1"),
        None => false,
    }
}

/// The credentials for a registry: a user and a password, where both are set.
pub fn credentials(user: Option<String>, password: Option<String>) -> (r: Option<(String, String)>)
    ensures
        r == match (user, password) {
            (Some(u), Some(p)) => Some((u, p)),
            _ => None,
        },
{
    match (user, password) {
        (Some(u), Some(p)) => Some((u, p)),
        _ => None,
    }
}

/// The address under which a repository is served.
pub open spec fn base_url(x: ReferenceView) -> Seq<char> {
    x.proto + "://"@ + x.registry + "/v2/"@ + x.repo
}

/// The address of the manifest of a reference.
pub open spec fn manifest_url(x: ReferenceView) -> Seq<char> {
    base_url(x) + "/manifests/"@ + x.reference
}

/// The address of a blob of a reference.
pub open spec fn blob_url(x: ReferenceView, digest: Seq<char>) -> Seq<char> {
    base_url(x) + "/blobs/"@ + digest
}

/// The address for a token without credentials.
pub open spec fn anonymous_url(x: ReferenceView) -> Seq<char> {
    x.proto + "://"@ + x.registry + "/service/token?scope=repository:"@ + x.repo + ":pull"@
}

/// The kinds of manifest that are understood.
pub open spec fn manifest_types() -> Seq<Seq<char>> {
    seq![
        "application/vnd.oci.image.manifest.v1+json"@,
        "application/vnd.docker.distribution.manifest.v2+json"@,
    ]
}

impl OciReference {
    /// The address under which the repository is served.
    fn base(&self) -> (r: String)
        ensures
            r@ == base_url(self@),
    {
        let mut r: String = self.proto.clone();
        r.append("://");
        r.append(self.registry.as_str());
        r.append("/v2/");
        r.append(self.repo.as_str());
        r
    }

    /// The address of the manifest.
    pub fn manifest_url(&self) -> (r: String)
        ensures
            r@ == manifest_url(self@),
    {
        let mut r: String = self.base();
        r.append("/manifests/");
        r.append(self.reference.as_str());
        r
    }

    /// The address of a blob.
    pub fn blob_url(&self, digest: &str) -> (r: String)
        ensures
            r@ == blob_url(self@, digest@),
    {
        let mut r: String = self.base();
        r.append("/blobs/");
        r.append(digest);
        r
    }

    /// The address for a token without credentials.
    pub fn anonymous_url(&self) -> (r: String)
        ensures
            r@ == anonymous_url(self@),
    {
        let mut r: String = self.proto.clone();
        r.append("://");
        r.append(self.registry.as_str());
        r.append("/service/token?scope=repository:");
        r.append(self.repo.as_str());
        r.append(":pull");
        r
    }

    /// A copy of the reference.
    pub fn copy(&self) -> (r: Self)
        ensures
            r@ == self@,
    {
        OciReference {
            proto: self.proto.clone(),
            registry: self.registry.clone(),
            repo: self.repo.clone(),
            reference: self.reference.clone(),
        }
    }
}

/// A list of one text.
pub(crate) fn one_text(text: &str) -> (r: Vec<String>)
    ensures
        views(r@) == seq![text@],
{
    let mut r: Vec<String> = Vec::new();
    r.push(text.to_owned());
    assert(views(r@) =~= seq![text@]);
    r
}

/// A list of a text and its cause.
pub(crate) fn text_with(text: &str, cause: String) -> (r: Vec<String>)
    ensures
        views(r@) == seq![text@, cause@],
{
    let mut r: Vec<String> = Vec::new();
    r.push(text.to_owned());
    r.push(cause);
    assert(views(r@) =~= seq![text@, cause@]);
    r
}

/// The position of the layer to pull: the first WASM layer, else the first layer.
pub open spec fn chosen_layer(layers: Seq<(Option<Seq<char>>, Option<Seq<char>>)>) -> int
    decreases layers.len(),
{
    if layers.len() == 0 {
        0
    } else {
        let before = chosen_layer(layers.drop_last());
        if has_wasm(layers.drop_last()) {
            before
        } else if layers.last().0 == Some("application/wasm"@) {
            layers.len() - 1
        } else {
            0
        }
    }
}

/// Whether one of the layers is a WASM layer.
pub open spec fn has_wasm(layers: Seq<(Option<Seq<char>>, Option<Seq<char>>)>) -> bool {
    exists|i: int| 0 <= i < layers.len() && (#[trigger] layers[i]).0 == Some("application/wasm"@)
}

/// The digest of the layer to pull, given what the manifest lists: the media type and the
/// digest of each layer.
pub open spec fn layer_digest(
    listed: Result<Option<Seq<(Option<Seq<char>>, Option<Seq<char>>)>>, Seq<char>>,
) -> Option<Seq<char>> {
    match listed {
        Ok(Some(layers)) => if layers.len() > 0 {
            layers[chosen_layer(layers)].1
        } else {
            None
        },
        _ => None,
    }
}

/// Why no layer can be pulled: what is wrong with the manifest, and its cause where it is no
/// JSON document.
pub open spec fn layer_error(
    listed: Result<Option<Seq<(Option<Seq<char>>, Option<Seq<char>>)>>, Seq<char>>,
) -> Seq<Seq<char>> {
    match listed {
        Err(cause) => seq!["OCI manifest is not valid JSON"@, cause],
        Ok(None) => seq!["OCI manifest missing 'layers' array"@],
        Ok(Some(layers)) => if layers.len() == 0 {
            seq!["OCI manifest has no layers"@]
        } else {
            seq!["OCI layer missing 'digest'"@]
        },
    }
}

/// Picks the digest of the layer to pull from what a manifest lists.
pub fn pick_layer(listed: Result<Option<Vec<(Option<String>, Option<String>)>>, String>) -> (r:
    Result<String, Vec<String>>)
    ensures
        match r {
            Ok(d) => layer_digest(items_view(listed)) == Some(d@),
            Err(e) => layer_digest(items_view(listed)) is None && views(e@) == layer_error(
                items_view(listed),
            ),
        },
{
    match listed {
        Err(cause) => Err(text_with("OCI manifest is not valid JSON", cause)),
        Ok(None) => Err(one_text("OCI manifest missing 'layers' array")),
        Ok(Some(layers)) => {
            if layers.len() == 0 {
                return Err(one_text("OCI manifest has no layers"));
            }
            let ghost all = pair_views(layers@);
            let mut at: usize = 0;
            let mut found: bool = false;
            let mut i: usize = 0;
            while i < layers.len()
                invariant
                    i <= layers@.len(),
                    layers@.len() > 0,
                    all == pair_views(layers@),
                    at < layers@.len(),
                    at == chosen_layer(all.take(i as int)),
                    found == has_wasm(all.take(i as int)),
                decreases layers@.len() - i,
            {
                let wasm: bool = match &layers[i].0 {
                    Some(t) => same(t.as_str(), "application/wasm"),
                    None => false,
                };
                proof {
                    let next = all.take(i + 1);
                    assert(next.drop_last() =~= all.take(i as int));
                    assert(next.last() == all[i as int]);
                    assert(wasm == (all[i as int].0 == Some("application/wasm"@)));
                    if has_wasm(all.take(i as int)) {
                        let j = choose|j: int|
                            0 <= j < i && (#[trigger] all.take(i as int)[j]).0 == Some(
                                "application/wasm"@,
                            );
                        assert(next[j].0 == Some("application/wasm"@));
                    }
                    if wasm {
                        assert(next[i as int].0 == Some("application/wasm"@));
                    }
                    if has_wasm(next) && !wasm {
                        let j = choose|j: int|
                            0 <= j < i + 1 && (#[trigger] next[j]).0 == Some("application/wasm"@);
                        assert(all.take(i as int)[j].0 == Some("application/wasm"@));
                    }
                }
                if !found {
                    if wasm {
                        at = i;
                        found = true;
                    } else {
                        at = 0;
                    }
                }
                i += 1;
            }
            assert(all.take(i as int) =~= all);
            match &layers[at].1 {
                Some(d) => Ok(d.clone()),
                None => Err(one_text("OCI layer missing 'digest'")),
            }
        },
    }
}

/// The layer that is pulled is a WASM layer wherever there is one, and no WASM layer comes
/// before it; without one it is the first layer.
pub proof fn law_wasm_layer_preferred(layers: Seq<(Option<Seq<char>>, Option<Seq<char>>)>)
    requires
        layers.len() > 0,
    ensures
        0 <= chosen_layer(layers) < layers.len(),
        has_wasm(layers) ==> layers[chosen_layer(layers)].0 == Some("application/wasm"@),
        !has_wasm(layers) ==> chosen_layer(layers) == 0,
        forall|i: int|
            0 <= i < chosen_layer(layers) ==> (#[trigger] layers[i]).0 != Some("application/wasm"@),
    decreases layers.len(),
{
    let init = layers.drop_last();
    if init.len() > 0 {
        law_wasm_layer_preferred(init);
    }
    if has_wasm(init) {
        let j = choose|j: int| 0 <= j < init.len() && (#[trigger] init[j]).0 == Some(
            "application/wasm"@,
        );
        assert(layers[j].0 == Some("application/wasm"@));
        assert forall|i: int| 0 <= i < chosen_layer(layers) implies (#[trigger] layers[i]).0 != Some(
            "application/wasm"@,
        ) by {
            assert(init[i] == layers[i]);
        }
    } else if layers.last().0 == Some("application/wasm"@) {
        assert(layers[layers.len() - 1].0 == Some("application/wasm"@));
        assert forall|i: int| 0 <= i < chosen_layer(layers) implies (#[trigger] layers[i]).0 != Some(
            "application/wasm"@,
        ) by {
            assert(init[i] == layers[i]);
        }
    } else if has_wasm(layers) {
        let j = choose|j: int| 0 <= j < layers.len() && (#[trigger] layers[j]).0 == Some(
            "application/wasm"@,
        );
        assert(init[j] == layers[j]);
    }
}

/// An address that is put together from a registry, a repository and a tag reads as them.
/// The registry holds no slash, and neither the repository nor the tag an at sign; the tag
/// holds no colon.
pub proof fn law_tag_round_trip(registry: Seq<char>, repo: Seq<char>, tag: Seq<char>)
    requires
        !registry.contains('/'),
        !repo.contains('@'),
        !tag.contains('@'),
        !tag.contains(':'),
    ensures
        reference_of("oci://"@ + registry + seq!['/'] + repo + seq![':'] + tag) == Some(
            ReferenceView { proto: "https"@, registry, repo, reference: tag },
        ),
{
    let rest = repo + seq![':'] + tag;
    let url = "oci://"@ + registry + seq!['/'] + repo + seq![':'] + tag;
    assert(url =~= "oci://"@ + (registry + seq!['/'] + rest));
    lemma_scheme(registry + seq!['/'] + rest);
    lemma_registry(registry, rest);
    assert forall|j: int| 0 <= j < rest.len() implies rest[j] != '@' by {
        if j < repo.len() {
            assert(repo.contains(repo[j]));
        } else if j > repo.len() {
            assert(tag.contains(tag[j - repo.len() - 1]));
        }
    }
    lemma_first_at_unique(rest, '@', rest.len() as int);
    lemma_last_at(repo, ':', tag);
    assert(rest.take(repo.len() as int) =~= repo);
    assert(rest.skip(repo.len() as int + 1) =~= tag);
}

/// An address that is put together from a registry, a repository and a digest reads as them,
/// whatever the digest holds.
pub proof fn law_digest_round_trip(registry: Seq<char>, repo: Seq<char>, digest: Seq<char>)
    requires
        !registry.contains('/'),
        !repo.contains('@'),
    ensures
        reference_of("oci://"@ + registry + seq!['/'] + repo + seq!['@'] + digest) == Some(
            ReferenceView { proto: "https"@, registry, repo, reference: digest },
        ),
{
    let rest = repo + seq!['@'] + digest;
    let url = "oci://"@ + registry + seq!['/'] + repo + seq!['@'] + digest;
    assert(url =~= "oci://"@ + (registry + seq!['/'] + rest));
    lemma_scheme(registry + seq!['/'] + rest);
    lemma_registry(registry, rest);
    assert forall|j: int| 0 <= j < repo.len() implies rest[j] != '@' by {
        assert(repo.contains(repo[j]));
    }
    lemma_first_at_unique(rest, '@', repo.len() as int);
    assert(rest.take(repo.len() as int) =~= repo);
    assert(rest.skip(repo.len() as int + 1) =~= digest);
}

/// The scheme of an address over a safe connection.
proof fn lemma_scheme(tail: Seq<char>)
    ensures
        scheme_of("oci://"@ + tail) == Some(("https"@, tail)),
{
    reveal_strlit("oci://");
    reveal_strlit("oci+http://");
    let url = "oci://"@ + tail;
    assert("oci://"@ =~= url.subrange(0, "oci://"@.len() as int));
    assert(url.skip("oci://"@.len() as int) =~= tail);
    if "oci+http://"@.is_prefix_of(url) {
        assert(url[3] == "oci+http://"@[3]);
        assert(url[3] == "oci://"@[3]);
    }
}

/// The registry stands before the first slash.
proof fn lemma_registry(registry: Seq<char>, rest: Seq<char>)
    requires
        !registry.contains('/'),
    ensures
        cut(registry + seq!['/'] + rest, '/') == Some((registry, rest)),
{
    let s = registry + seq!['/'] + rest;
    assert forall|j: int| 0 <= j < registry.len() implies s[j] != '/' by {
        assert(registry.contains(registry[j]));
    }
    lemma_first_at_unique(s, '/', registry.len() as int);
    assert(s.take(registry.len() as int) =~= registry);
    assert(s.skip(registry.len() as int + 1) =~= rest);
}

/// The last mark stands before what holds none.
proof fn lemma_last_at(before: Seq<char>, c: char, after: Seq<char>)
    requires
        !after.contains(c),
    ensures
        last_at(before + seq![c] + after, c) == before.len(),
    decreases after.len(),
{
    let s = before + seq![c] + after;
    if after.len() > 0 {
        assert(after.contains(after.last()));
        assert(s.drop_last() =~= before + seq![c] + after.drop_last());
        assert forall|x: char| after.drop_last().contains(x) implies after.contains(x) by {
            let i = choose|i: int| 0 <= i < after.drop_last().len() && after.drop_last()[i] == x;
            assert(after[i] == x);
        }
        lemma_last_at(before, c, after.drop_last());
    }
}

} // verus!
