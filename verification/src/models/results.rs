//! What the functions on packages and deployments give back, whatever they are given.
use vstd::prelude::*;
use vstd::utf8::encode_utf8;
use crate::json::json_text;
use crate::models::deployment::{
    DeploymentStatusSummary, FieldError, FunctionDeploymentSpec, OClassDeployment, OdgmDataSpec,
    Timestamp,
};
use crate::models::enums::{
    ConsistencyModel, DeploymentCondition, FunctionAccessModifier, FunctionType,
};
use crate::models::laws::{law_broken_rules, missing, nameless};
use crate::text::chars::views;

verus! {

/// A deployment is in order exactly where its three names and the keys of all its functions are
/// not empty; otherwise each broken rule is told once.
pub proof fn law_validation(dep: &OClassDeployment, r: Result<(), Vec<FieldError>>, i: int)
    requires
        call_ensures(OClassDeployment::validate, (dep,), r),
    ensures
        r is Ok <==> missing(dep.key@) + missing(dep.package_name@) + missing(dep.class_key@)
            + nameless(dep.functions@) == 0,
        r matches Err(e) ==> e@.len() == missing(dep.key@) + missing(dep.package_name@) + missing(
            dep.class_key@,
        ) + nameless(dep.functions@) && views(e@) == dep.errors(),
        dep.key@.len() == 0 || dep.package_name@.len() == 0 || dep.class_key@.len() == 0 ==> r
            is Err,
        0 <= i < dep.functions@.len() && dep.functions@[i].function_key@.len() == 0 ==> r is Err,
{
    law_broken_rules(*dep, i);
    if r is Err {
        assert(views(r->Err_0@).len() == r->Err_0@.len());
    }
}

/// A value is stored under its name.
pub proof fn law_stored_names(
    v: &FunctionType,
    c: &DeploymentCondition,
    a: &FunctionAccessModifier,
    m: &ConsistencyModel,
    vn: &'static str,
    cn: &'static str,
    an: &'static str,
    mn: &'static str,
    bytes: Vec<u8>,
)
    requires
        call_ensures(FunctionType::as_text, (v,), vn),
        call_ensures(DeploymentCondition::as_text, (c,), cn),
        call_ensures(FunctionAccessModifier::as_text, (a,), an),
        call_ensures(ConsistencyModel::as_text, (m,), mn),
        call_ensures(FunctionType::to_json, (v,), bytes),
    ensures
        vn@ == v.text() && cn@ == c.text() && an@ == a.text() && mn@ == m.text(),
        bytes@ == seq![34u8] + encode_utf8(v.text()) + seq![34u8],
        json_text(bytes@) == Some(v.text()),
{
}

/// What is empty says nothing but the moment, and a copy says what it was made of.
pub proof fn law_blanks_and_copies(
    moment: Timestamp,
    blank: OClassDeployment,
    dep: &OClassDeployment,
    copy: OClassDeployment,
    f: &FunctionDeploymentSpec,
    fc: FunctionDeploymentSpec,
    o: &OdgmDataSpec,
    oc: OdgmDataSpec,
    s: &DeploymentStatusSummary,
    sc: DeploymentStatusSummary,
)
    requires
        call_ensures(OClassDeployment::default_at, (moment,), blank),
        call_ensures(OClassDeployment::copy, (dep,), copy),
        call_ensures(FunctionDeploymentSpec::copy, (f,), fc),
        call_ensures(OdgmDataSpec::copy, (o,), oc),
        call_ensures(DeploymentStatusSummary::copy, (s,), sc),
    ensures
        blank.is_blank(Some(moment), Some(moment)),
        copy.same_as(*dep),
        fc.same_as(*f),
        oc.same_as(*o),
        sc.same_as(*s),
{
}

/// A name stands for the value that is stored under it, and any other text for none; so does a
/// JSON string for the kind of a function.
pub proof fn law_names_are_read(
    text: &str,
    data: &Vec<u8>,
    v: FunctionType,
    c: DeploymentCondition,
    a: FunctionAccessModifier,
    m: ConsistencyModel,
    vr: Option<FunctionType>,
    vj: Option<FunctionType>,
    cr: Option<DeploymentCondition>,
    ar: Option<FunctionAccessModifier>,
    mr: Option<ConsistencyModel>,
)
    requires
        call_ensures(FunctionType::from_text, (text,), vr),
        call_ensures(FunctionType::from_json, (data,), vj),
        call_ensures(DeploymentCondition::from_text, (text,), cr),
        call_ensures(FunctionAccessModifier::from_text, (text,), ar),
        call_ensures(ConsistencyModel::from_text, (text,), mr),
    ensures
        vr == Some(v) <==> text@ == v.text(),
        vj == Some(v) <==> json_text(data@) == Some(v.text()),
        cr == Some(c) <==> text@ == c.text(),
        ar == Some(a) <==> text@ == a.text(),
        mr == Some(m) <==> text@ == m.text(),
{
    if vr is Some {
        vr->0.law_names_differ(v);
    }
    if vj is Some {
        vj->0.law_names_differ(v);
    }
    if cr is Some {
        cr->0.law_names_differ(c);
    }
    if ar is Some {
        ar->0.law_names_differ(a);
    }
    if mr is Some {
        mr->0.law_names_differ(m);
    }
}

/// What is assumed where nothing is said: a function is custom and public, a deployment pending,
/// and readers can rely on nothing.
pub proof fn law_defaults(
    v: FunctionType,
    c: DeploymentCondition,
    a: FunctionAccessModifier,
    m: ConsistencyModel,
)
    requires
        call_ensures(<FunctionType as Default>::default, (), v),
        call_ensures(<DeploymentCondition as Default>::default, (), c),
        call_ensures(<FunctionAccessModifier as Default>::default, (), a),
        call_ensures(<ConsistencyModel as Default>::default, (), m),
    ensures
        v is Custom,
        c is Pending,
        a is Public,
        m is Unspecified,
{
}

} // verus!
