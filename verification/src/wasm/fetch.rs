//! Where a module comes from.
use vstd::prelude::*;
use vstd::string::*;
use crate::text::search::{starts_with, strip_prefix};
use crate::wasm::oci::{parse_reference, reference_of, scheme_of, OciReference, ReferenceView};

verus! {

/// The place of a module.
#[derive(Debug)]
pub enum ModuleSource {
    /// A file.
    File { path: String },
    /// A document on the web.
    Web { url: String },
    /// A layer of an artifact in an OCI registry.
    Registry { reference: OciReference },
}

/// The model of the place of a module.
#[verifier::ext_equal]
pub enum SourceView {
    File { path: Seq<char> },
    Web { url: Seq<char> },
    Registry { reference: ReferenceView },
}

impl View for ModuleSource {
    type V = SourceView;

    open spec fn view(&self) -> SourceView {
        match self {
            ModuleSource::File { path } => SourceView::File { path: path@ },
            ModuleSource::Web { url } => SourceView::Web { url: url@ },
            ModuleSource::Registry { reference } => SourceView::Registry { reference: reference@ },
        }
    }
}

/// Whether an address is one of the web.
pub open spec fn is_web(url: Seq<char>) -> bool {
    "http://"@.is_prefix_of(url) || "https://"@.is_prefix_of(url)
}

/// The place that an address stands for, by its scheme.
pub open spec fn source_of(url: Seq<char>) -> Option<SourceView> {
    if "file://"@.is_prefix_of(url) {
        Some(SourceView::File { path: url.skip("file://"@.len() as int) })
    } else if is_web(url) {
        Some(SourceView::Web { url })
    } else {
        match reference_of(url) {
            Some(reference) => Some(SourceView::Registry { reference }),
            None => None,
        }
    }
}

/// Why an address stands for no place.
pub open spec fn source_error(url: Seq<char>) -> Seq<char> {
    if scheme_of(url) is Some {
        "OCI reference must be registry/repo:tag"@
    } else {
        "unsupported WASM module URL scheme: "@ + url
    }
}

/// Decides where a module is fetched from.
///
/// Supported schemes:
/// - `file://path` — local filesystem
/// - `http://` / `https://` — plain HTTP fetch
/// - `oci://registry/repo:tag` — OCI registry pull (HTTPS)
/// - `oci+http://registry/repo:tag` — OCI registry pull (plain HTTP, for dev registries)
pub fn fetch_module(url: &str) -> (r: Result<ModuleSource, String>)
    ensures
        match r {
            Ok(s) => source_of(url@) == Some(s@),
            Err(e) => source_of(url@) is None && e@ == source_error(url@),
        },
{
    match strip_prefix(url, "file://") {
        Some(path) => {
            return Ok(ModuleSource::File { path });
        },
        None => {},
    }
    if starts_with(url, "http://") || starts_with(url, "https://") {
        return Ok(ModuleSource::Web { url: url.to_owned() });
    }
    if starts_with(url, "oci://") || starts_with(url, "oci+http://") {
        match parse_reference(url) {
            Ok(reference) => Ok(ModuleSource::Registry { reference }),
            Err(e) => Err(e),
        }
    } else {
        let mut text: String = "unsupported WASM module URL scheme: ".to_owned();
        text.append(url);
        Err(text)
    }
}

/// A step of fetching that can fail outside the library.
#[derive(Debug, Clone, Copy, PartialEq, Eq, Structural)]
pub enum FetchStep {
    ReadFile,
    Request,
    ReadBody,
}

/// What is said of a step that failed, given the path or the address.
pub fn fetch_failed(step: FetchStep, place: &str) -> (r: String)
    ensures
        r@ == match step {
            FetchStep::ReadFile => "failed to read WASM module from "@,
            FetchStep::Request => "failed to fetch WASM module from "@,
            FetchStep::ReadBody => "failed to read response body from "@,
        } + place@,
{
    let mut text: String = match step {
        FetchStep::ReadFile => "failed to read WASM module from ".to_owned(),
        FetchStep::Request => "failed to fetch WASM module from ".to_owned(),
        FetchStep::ReadBody => "failed to read response body from ".to_owned(),
    };
    text.append(place);
    text
}

/// Decides on the status of a document on the web: success lets its body be read, and
/// anything else is an error.
pub fn check_web_status(status: u16, url: &str) -> (r: Result<(), String>)
    ensures
        r is Ok <==> crate::web::is_success(status),
        r matches Err(e) ==> e@ == "HTTP "@ + crate::wasm::pull::status_text(status)
            + " fetching WASM module from "@ + url@,
{
    if status >= 200 && status < 300 {
        Ok(())
    } else {
        let mut text: String = "HTTP ".to_owned();
        text.append(crate::wasm::pull::describe_status(status).as_str());
        text.append(" fetching WASM module from ");
        text.append(url);
        Err(text)
    }
}

/// An address with a scheme of registries is never taken for anything else, and only an address
/// without any of the supported schemes is refused for its scheme.
pub proof fn law_schemes_do_not_mix(url: Seq<char>)
    ensures
        scheme_of(url) is Some ==> !"file://"@.is_prefix_of(url) && !is_web(url),
        scheme_of(url) is Some ==> (source_of(url) matches Some(s) ==> s is Registry),
        source_of(url) is None && scheme_of(url) is None <==> !"file://"@.is_prefix_of(url)
            && !is_web(url) && scheme_of(url) is None,
{
    reveal_strlit("file://");
    reveal_strlit("http://");
    reveal_strlit("https://");
    reveal_strlit("oci://");
    reveal_strlit("oci+http://");
    if scheme_of(url) is Some {
        if "oci+http://"@.is_prefix_of(url) {
            assert(url[0] == "oci+http://"@[0]);
        } else {
            assert(url[0] == "oci://"@[0]);
        }
        if "file://"@.is_prefix_of(url) {
            assert(url[0] == "file://"@[0]);
        }
        if "http://"@.is_prefix_of(url) {
            assert(url[0] == "http://"@[0]);
        }
        if "https://"@.is_prefix_of(url) {
            assert(url[0] == "https://"@[0]);
        }
    }
}

} // verus!
