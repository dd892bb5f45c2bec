//! The text that the development server shows when it starts.
use vstd::prelude::*;
use vstd::string::*;
use crate::dev_server::environments::EnvironmentPlan;
use crate::models::package::{FunctionBinding, OClass, OPackage};
use crate::text::chars::{join, joined, pad_right, padded, views};
use crate::text::number::{decimal, to_decimal};

verus! {

/// The line with the address of the server.
pub open spec fn port_line(port: u16) -> Seq<char> {
    "║  PM API:  http://localhost:"@ + padded(decimal(port as nat), 14) + "║"@
}

/// The line with the address of a gateway.
pub open spec fn gateway_line(env: EnvironmentPlan) -> Seq<char> {
    "║  "@ + padded(env.name@, 7) + "  http://localhost:"@ + padded(
        decimal(env.gateway_port as nat),
        14,
    ) + "║"@
}

/// The names by which a class offers functions.
pub open spec fn binding_names(bindings: Seq<FunctionBinding>) -> Seq<Seq<char>> {
    Seq::new(bindings.len(), |i: int| bindings[i].name@)
}

/// The line on a class.
pub open spec fn class_line(cls: OClass) -> Seq<char> {
    if cls.function_bindings@.len() == 0 {
        "  Class: "@ + cls.key@ + " (no functions)"@
    } else {
        "  Class: "@ + cls.key@ + " → ["@ + joined(
            binding_names(cls.function_bindings@),
            ", "@,
        ) + "]"@
    }
}

/// The lines on gateways.
pub open spec fn gateway_lines(envs: Seq<EnvironmentPlan>) -> Seq<Seq<char>> {
    Seq::new(envs.len(), |i: int| gateway_line(envs[i]))
}

/// The lines on classes.
pub open spec fn class_lines(classes: Seq<OClass>) -> Seq<Seq<char>> {
    Seq::new(classes.len(), |i: int| class_line(classes[i]))
}

/// The lines of the banner.
pub open spec fn banner(pkg: OPackage, port: u16, envs: Seq<EnvironmentPlan>) -> Seq<Seq<char>> {
    seq![
        "╔══════════════════════════════════════════╗"@,
        "║       OaaS Local Dev Server              ║"@,
        "╠══════════════════════════════════════════╣"@,
        port_line(port),
    ] + gateway_lines(envs) + seq![
        "╚══════════════════════════════════════════╝"@,
        "  Package: "@ + pkg.name@,
    ] + (if envs.len() > 1 {
        seq!["  Network debug: /api/debug/network"@]
    } else {
        seq![]
    }) + class_lines(pkg.classes@)
}

/// Adds a line.
fn push_line(lines: &mut Vec<String>, line: String)
    ensures
        views(final(lines)@) == views(old(lines)@).push(line@),
{
    lines.push(line);
    assert(views(lines@) =~= views(old(lines)@).push(line@));
}

/// Writes the line on a class.
fn describe_class(cls: &OClass) -> (r: String)
    ensures
        r@ == class_line(*cls),
{
    let mut names: Vec<String> = Vec::new();
    let mut i: usize = 0;
    while i < cls.function_bindings.len()
        invariant
            i <= cls.function_bindings@.len(),
            views(names@) == binding_names(cls.function_bindings@).take(i as int),
        decreases cls.function_bindings@.len() - i,
    {
        let ghost before = names@;
        names.push(cls.function_bindings[i].name.clone());
        assert(views(names@) =~= views(before).push(cls.function_bindings@[i as int].name@));
        i += 1;
    }
    assert(views(names@) =~= binding_names(cls.function_bindings@));
    let mut r: String = "  Class: ".to_owned();
    r.append(cls.key.as_str());
    if names.len() == 0 {
        assert(views(names@).len() == names@.len());
        r.append(" (no functions)");
    } else {
        r.append(" → [");
        r.append(join(&names, ", ").as_str());
        r.append("]");
    }
    r
}

/// Writes the banner: the address of the server and of each gateway, the package and its
/// classes, and where the simulated network is found if there is more than one environment.
pub fn print_banner(pkg: &OPackage, port: u16, envs: &Vec<EnvironmentPlan>) -> (r: Vec<String>)
    ensures
        views(r@) == banner(*pkg, port, envs@),
{
    let mut lines: Vec<String> = Vec::new();
    push_line(&mut lines, "╔══════════════════════════════════════════╗".to_owned());
    push_line(&mut lines, "║       OaaS Local Dev Server              ║".to_owned());
    push_line(&mut lines, "╠══════════════════════════════════════════╣".to_owned());
    let mut line: String = "║  PM API:  http://localhost:".to_owned();
    line.append(pad_right(to_decimal(port as u64).as_str(), 14).as_str());
    line.append("║");
    push_line(&mut lines, line);
    let ghost head = views(lines@);
    assert(head =~= seq![
        "╔══════════════════════════════════════════╗"@,
        "║       OaaS Local Dev Server              ║"@,
        "╠══════════════════════════════════════════╣"@,
        port_line(port),
    ]);
    let mut i: usize = 0;
    assert(views(lines@) =~= head + gateway_lines(envs@).take(0));
    while i < envs.len()
        invariant
            i <= envs@.len(),
            views(lines@) == head + gateway_lines(envs@).take(i as int),
        decreases envs@.len() - i,
    {
        let mut line: String = "║  ".to_owned();
        line.append(pad_right(envs[i].name.as_str(), 7).as_str());
        line.append("  http://localhost:");
        line.append(pad_right(to_decimal(envs[i].gateway_port as u64).as_str(), 14).as_str());
        line.append("║");
        assert(line@ == gateway_line(envs@[i as int]));
        push_line(&mut lines, line);
        assert(views(lines@) =~= head + gateway_lines(envs@).take(i + 1));
        i += 1;
    }
    assert(gateway_lines(envs@).take(i as int) =~= gateway_lines(envs@));
    push_line(&mut lines, "╚══════════════════════════════════════════╝".to_owned());
    let mut line: String = "  Package: ".to_owned();
    line.append(pkg.name.as_str());
    push_line(&mut lines, line);
    if envs.len() > 1 {
        push_line(&mut lines, "  Network debug: /api/debug/network".to_owned());
    }
    let ghost top = views(lines@);
    assert(top =~= head + gateway_lines(envs@) + seq![
        "╚══════════════════════════════════════════╝"@,
        "  Package: "@ + pkg.name@,
    ] + (if envs@.len() > 1 {
        seq!["  Network debug: /api/debug/network"@]
    } else {
        seq![]
    }));
    let mut j: usize = 0;
    assert(views(lines@) =~= top + class_lines(pkg.classes@).take(0));
    while j < pkg.classes.len()
        invariant
            j <= pkg.classes@.len(),
            views(lines@) == top + class_lines(pkg.classes@).take(j as int),
        decreases pkg.classes@.len() - j,
    {
        push_line(&mut lines, describe_class(&pkg.classes[j]));
        assert(views(lines@) =~= top + class_lines(pkg.classes@).take(j + 1));
        j += 1;
    }
    assert(class_lines(pkg.classes@).take(j as int) =~= class_lines(pkg.classes@));
    lines
}

} // verus!
