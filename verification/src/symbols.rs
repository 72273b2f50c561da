//! Native symbol names for user functions, methods, generic instances and
//! runtime helpers.
use vstd::prelude::*;
use crate::text::{push_sanitized, sanitize_chars, str_eq, join, joined, views, owned};

verus! {

/// The package and module a symbol is defined in, when known.
#[derive(Debug, Clone)]
pub struct SymbolContext {
    pub package: Option<String>,
    pub module: Option<String>,
}

/// What a user symbol names.
#[derive(Debug)]
pub enum UserSymbolKind<'a> {
    Function { name: &'a str },
    Method { receiver: &'a str, method: &'a str },
    StaticMethod { owner: &'a str, method: &'a str },
    GenericInstance { base: &'a str, args: &'a [String] },
}

/// A name with every non-identifier character replaced by `_`; `_` when empty.
pub open spec fn sanitized_component(value: Seq<char>) -> Seq<char> {
    if value.len() == 0 {
        seq!['_']
    } else {
        sanitize_chars(value)
    }
}

/// The symbol of a user-level name: `main` stays `main`, anything else is
/// sanitised and prefixed with `ax_`.
pub open spec fn legacy_symbol(name: Seq<char>) -> Seq<char> {
    if name == "main"@ {
        "main"@
    } else {
        "ax_"@ + sanitized_component(name)
    }
}

/// The source name of a method, `Receiver.method`.
pub open spec fn dotted(owner: Seq<char>, member: Seq<char>) -> Seq<char> {
    owner + "."@ + member
}

/// The source name of a generic instance, `base<A, B>`.
pub open spec fn instance_name(base: Seq<char>, args: Seq<Seq<char>>) -> Seq<char> {
    if args.len() == 0 {
        base
    } else {
        base + "<"@ + joined(args, ", "@) + ">"@
    }
}

/// Replaces every character outside `[A-Za-z0-9_]` with `_`, and an empty name with `_`.
pub fn sanitize_component(value: &str) -> (r: String)
    ensures
        r@ == sanitized_component(value@),
{
    let mut sanitized = String::new();
    push_sanitized(&mut sanitized, value);
    assert(sanitized@ =~= sanitize_chars(value@));
    if value.is_empty() {
        proof {
            reveal_strlit("_");
        }
        owned("_")
    } else {
        sanitized
    }
}

fn legacy_ax_symbol(name: &str) -> (r: String)
    ensures
        r@ == legacy_symbol(name@),
{
    if str_eq(name, "main") {
        return owned("main");
    }
    sanitize_prefixed(name, "ax_")
}

fn sanitize_prefixed(name: &str, prefix: &str) -> (r: String)
    ensures
        r@ == prefix@ + sanitized_component(name@),
{
    let mut symbol = owned(prefix);
    let component = sanitize_component(name);
    symbol.append(component.as_str());
    symbol
}

/// The symbol of a free function.
pub fn user_function(name: &str) -> (r: String)
    ensures
        r@ == legacy_symbol(name@),
{
    legacy_ax_symbol(name)
}

/// The symbol of a method, named after `Receiver.method`.
pub fn user_method(receiver: &str, method: &str) -> (r: String)
    ensures
        r@ == legacy_symbol(dotted(receiver@, method@)),
{
    let mut name = owned(receiver);
    name.append(".");
    name.append(method);
    legacy_ax_symbol(name.as_str())
}

/// The symbol of a static method, named after `Owner.method`.
pub fn static_method(owner: &str, method: &str) -> (r: String)
    ensures
        r@ == legacy_symbol(dotted(owner@, method@)),
{
    let mut name = owned(owner);
    name.append(".");
    name.append(method);
    legacy_ax_symbol(name.as_str())
}

/// The symbol of a generic instance, named after `base<A, B>`.
pub fn generic_instance(base: &str, args: &[String]) -> (r: String)
    ensures
        r@ == legacy_symbol(instance_name(base@, views(args@))),
{
    if args.len() == 0 {
        return legacy_ax_symbol(base);
    }
    let mut name = owned(base);
    name.append("<");
    let inner = join(args, ", ");
    name.append(inner.as_str());
    name.append(">");
    legacy_ax_symbol(name.as_str())
}

/// The symbol of a runtime helper: the sanitised name, with no prefix.
pub fn runtime_helper(name: &str) -> (r: String)
    ensures
        r@ == sanitized_component(name@),
{
    proof {
        reveal_strlit("");
    }
    let r = sanitize_prefixed(name, "");
    assert(r@ =~= sanitized_component(name@));
    r
}

/// The plain symbol of a user item, whatever package or module it is in.
pub open spec fn plain_symbol(kind: UserSymbolKind) -> Seq<char> {
    match kind {
        UserSymbolKind::Function { name } => legacy_symbol(name@),
        UserSymbolKind::Method { receiver, method } => legacy_symbol(dotted(receiver@, method@)),
        UserSymbolKind::StaticMethod { owner, method } => legacy_symbol(dotted(owner@, method@)),
        UserSymbolKind::GenericInstance { base, args } => legacy_symbol(
            instance_name(base@, views(args@)),
        ),
    }
}

/// The symbol of a user item.
pub fn user_symbol(_context: &SymbolContext, kind: UserSymbolKind<'_>) -> (r: String)
    ensures
        r@ == plain_symbol(kind),
{
    match kind {
        UserSymbolKind::Function { name } => user_function(name),
        UserSymbolKind::Method { receiver, method } => user_method(receiver, method),
        UserSymbolKind::StaticMethod { owner, method } => static_method(owner, method),
        UserSymbolKind::GenericInstance { base, args } => generic_instance(base, args),
    }
}

/// The parts of a package-qualified symbol: the sanitised package and module
/// (where known), then the plain symbol.
pub open spec fn qualified_parts(
    package: Option<Seq<char>>,
    module: Option<Seq<char>>,
    plain: Seq<char>,
) -> Seq<Seq<char>> {
    let with_package = match package {
        Some(p) => seq![sanitized_component(p)],
        None => Seq::empty(),
    };
    let with_module = match module {
        Some(m) => with_package.push(sanitized_component(m)),
        None => with_package,
    };
    with_module.push(plain)
}

/// The view of an optional string.
pub open spec fn opt_string_view(o: Option<String>) -> Option<Seq<char>> {
    match o {
        Some(s) => Some(s@),
        None => None,
    }
}

/// The symbol of a user item, qualified by its package and module when they
/// are known: the parts are joined with `__`.
pub fn package_aware_user_symbol(context: &SymbolContext, kind: UserSymbolKind<'_>) -> (r: String)
    ensures
        context.package is None && context.module is None ==> r@ == plain_symbol(kind),
        context.package is Some || context.module is Some ==> r@ == joined(
            qualified_parts(
                opt_string_view(context.package),
                opt_string_view(context.module),
                plain_symbol(kind),
            ),
            "__"@,
        ),
{
    let legacy = user_symbol(context, kind);
    if context.package.is_none() && context.module.is_none() {
        return legacy;
    }
    let mut parts: Vec<String> = Vec::new();
    if let Some(package) = &context.package {
        parts.push(sanitize_component(package.as_str()));
    }
    if let Some(module) = &context.module {
        parts.push(sanitize_component(module.as_str()));
    }
    let ghost plain = legacy@;
    parts.push(legacy);
    assert(views(parts@) =~= qualified_parts(
        opt_string_view(context.package),
        opt_string_view(context.module),
        plain,
    ));
    join(parts.as_slice(), "__")
}

/// A symbol never begins with a character a linker would misread: every
/// character of a symbol other than `main` is `[A-Za-z0-9_]`.
pub proof fn symbols_are_identifiers(name: Seq<char>)
    ensures
        name != "main"@ ==> forall|i: int|
            0 <= i < legacy_symbol(name).len() ==> crate::text::is_ident_char(
                #[trigger] legacy_symbol(name)[i],
            ),
{
    reveal_strlit("ax_");
    if name != "main"@ {
        assert forall|i: int| 0 <= i < legacy_symbol(name).len() implies crate::text::is_ident_char(
            #[trigger] legacy_symbol(name)[i],
        ) by {
            if i >= 3 {
                assert(legacy_symbol(name)[i] == sanitized_component(name)[i - 3]);
            }
        }
    }
}

} // verus!
