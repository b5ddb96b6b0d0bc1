//! Route metadata that the handler attributes (`#[ws]`, `#[get]`, `#[post]`,
//! `#[put]`, `#[delete]`, `#[cache]`) derive from a handler's signature.
//!
//! The signature is described by plain values: the path segments of types,
//! the names and attributes of parameters.  Reading them from Rust syntax and
//! emitting code is the macro's part.

use vstd::prelude::*;
use vstd::string::*;

use crate::text::{
    chars_eq_str, chars_of, contains_seq, contains_str, copy_strings, find, find_first,
    lemma_find_from, occurs_at, parse_u64, parse_u64_spec, slice_of, string_of, strings_view,
    suffix_from, to_uppercase, trim, trim_seq, text_uppercase,
};

verus! {

// ---------------------------------------------------------------------------
// Route kinds
// ---------------------------------------------------------------------------

/// How a handler is reached.
#[derive(Debug, Clone, Copy, PartialEq, Eq, Structural)]
pub enum RouteType {
    WebSocket,
    HttpGet,
    HttpPost,
    HttpPut,
    HttpDelete,
}

/// A registered handler: its function name and how it is reached.
#[derive(Debug)]
pub struct RouteEntry {
    pub name: String,
    pub route_type: RouteType,
}

/// The handler attribute on a function.
#[derive(Debug, Clone, Copy, PartialEq, Eq, Structural)]
pub enum RouteAttribute {
    Ws,
    Get,
    Post,
    Put,
    Delete,
}

/// The route type named by an upper-cased function name under `#[get]`:
/// `GET`, `POST`, `PUT` or `DELETE` give that method, anything else GET.
pub open spec fn method_route_type(upper: Seq<char>) -> RouteType {
    if upper == "GET"@ {
        RouteType::HttpGet
    } else if upper == "POST"@ {
        RouteType::HttpPost
    } else if upper == "PUT"@ {
        RouteType::HttpPut
    } else if upper == "DELETE"@ {
        RouteType::HttpDelete
    } else {
        RouteType::HttpGet
    }
}

/// The route type for an upper-cased function name under `#[get]`.
pub fn route_type_for_method_name(upper: &str) -> (t: RouteType)
    ensures
        t == method_route_type(upper@),
{
    let u = chars_of(upper);
    if chars_eq_str(&u, "GET") {
        RouteType::HttpGet
    } else if chars_eq_str(&u, "POST") {
        RouteType::HttpPost
    } else if chars_eq_str(&u, "PUT") {
        RouteType::HttpPut
    } else if chars_eq_str(&u, "DELETE") {
        RouteType::HttpDelete
    } else {
        RouteType::HttpGet
    }
}

/// The route type an attribute registers for function `fn_name`: `#[get]`
/// looks at the upper-cased function name; the others are fixed.
pub open spec fn route_type_of(attr: RouteAttribute, fn_name: Seq<char>) -> RouteType {
    match attr {
        RouteAttribute::Ws => RouteType::WebSocket,
        RouteAttribute::Get => method_route_type(text_uppercase(fn_name)),
        RouteAttribute::Post => RouteType::HttpPost,
        RouteAttribute::Put => RouteType::HttpPut,
        RouteAttribute::Delete => RouteType::HttpDelete,
    }
}

/// The entry that attribute `attr` on function `fn_name` registers.
pub fn route_entry(attr: RouteAttribute, fn_name: &str) -> (e: RouteEntry)
    ensures
        e.name@ == fn_name@,
        e.route_type == route_type_of(attr, fn_name@),
{
    let route_type = match attr {
        RouteAttribute::Ws => RouteType::WebSocket,
        RouteAttribute::Get => {
            let upper = to_uppercase(fn_name);
            route_type_for_method_name(upper.as_str())
        },
        RouteAttribute::Post => RouteType::HttpPost,
        RouteAttribute::Put => RouteType::HttpPut,
        RouteAttribute::Delete => RouteType::HttpDelete,
    };
    RouteEntry { name: fn_name.to_owned(), route_type }
}

/// Under `#[get]` a handler is registered for another method only when its
/// upper-cased name is exactly that method's name (`post`, `Put`, `DELETE`);
/// every other name, including ones that merely begin with a method's name
/// (`posts`, `put_item`), gives GET.  The other attributes fix the method.
pub proof fn law_get_route_type(fn_name: Seq<char>)
    ensures
        text_uppercase(fn_name) == "POST"@ ==> route_type_of(RouteAttribute::Get, fn_name)
            == RouteType::HttpPost,
        text_uppercase(fn_name) == "PUT"@ ==> route_type_of(RouteAttribute::Get, fn_name)
            == RouteType::HttpPut,
        text_uppercase(fn_name) == "DELETE"@ ==> route_type_of(RouteAttribute::Get, fn_name)
            == RouteType::HttpDelete,
        text_uppercase(fn_name) != "POST"@ && text_uppercase(fn_name) != "PUT"@
            && text_uppercase(fn_name) != "DELETE"@ ==> route_type_of(RouteAttribute::Get, fn_name)
            == RouteType::HttpGet,
        route_type_of(RouteAttribute::Ws, fn_name) == RouteType::WebSocket,
        route_type_of(RouteAttribute::Post, fn_name) == RouteType::HttpPost,
        route_type_of(RouteAttribute::Put, fn_name) == RouteType::HttpPut,
        route_type_of(RouteAttribute::Delete, fn_name) == RouteType::HttpDelete,
{
    reveal_strlit("GET");
    reveal_strlit("POST");
    reveal_strlit("PUT");
    reveal_strlit("DELETE");
    assert("POST"@ != "GET"@) by {
        assert("POST"@.len() != "GET"@.len());
    }
    assert("DELETE"@ != "GET"@) by {
        assert("DELETE"@.len() != "GET"@.len());
    }
    assert("PUT"@ != "GET"@) by {
        assert("PUT"@[1] != "GET"@[1]);
    }
    assert("DELETE"@ != "POST"@) by {
        assert("DELETE"@.len() != "POST"@.len());
    }
    assert("PUT"@ != "POST"@) by {
        assert("PUT"@.len() != "POST"@.len());
    }
    assert("DELETE"@ != "PUT"@) by {
        assert("DELETE"@.len() != "PUT"@.len());
    }
}

// ---------------------------------------------------------------------------
// Type names in signatures
// ---------------------------------------------------------------------------

/// A type in a signature: a path (`a::b::C`), given by its segments' names,
/// or any other form of type.
#[derive(Debug, Clone)]
pub enum TypeShape {
    Path(Vec<String>),
    Other,
}

/// The name of a type: the last segment of a path, `any` otherwise.
pub open spec fn type_name_of(t: TypeShape) -> Seq<char> {
    match t {
        TypeShape::Path(segs) => if segs.len() > 0 {
            segs@.last()@
        } else {
            "any"@
        },
        TypeShape::Other => "any"@,
    }
}

/// Extract the type name from a type, defaulting to `any` if unknown.
pub fn extract_type_name(ty: &TypeShape) -> (r: String)
    ensures
        r@ == type_name_of(*ty),
{
    match ty {
        TypeShape::Path(segs) => {
            if segs.len() > 0 {
                segs[segs.len() - 1].clone()
            } else {
                "any".to_owned()
            }
        },
        TypeShape::Other => "any".to_owned(),
    }
}

/// A function parameter: `self` in some form, or a typed binding.
#[derive(Debug, Clone)]
pub enum ParamShape {
    Receiver,
    Typed(TypedParam),
}

/// A typed parameter: its attributes (each given by its path's segments),
/// its name when the pattern is a plain identifier, and its type.
#[derive(Debug, Clone)]
pub struct TypedParam {
    pub attrs: Vec<Vec<String>>,
    pub ident: Option<String>,
    pub ty: TypeShape,
}

/// The input type name of a handler: that of its first parameter when it is
/// typed, `any` otherwise.
pub open spec fn input_type_of(first: Option<ParamShape>) -> Seq<char> {
    match first {
        Some(ParamShape::Typed(p)) => type_name_of(p.ty),
        _ => "any"@,
    }
}

/// The output type name of a handler: that of its return type, `void` when
/// it has none.
pub open spec fn output_type_of(output: Option<TypeShape>) -> Seq<char> {
    match output {
        Some(t) => type_name_of(t),
        None => "void"@,
    }
}

/// Extract the input and output type names of a handler from its first
/// parameter and its return type.
pub fn extract_function_types(first: &Option<ParamShape>, output: &Option<TypeShape>) -> (r: (
    String,
    String,
))
    ensures
        r.0@ == input_type_of(*first),
        r.1@ == output_type_of(*output),
{
    let input = match first {
        Some(ParamShape::Typed(p)) => extract_type_name(&p.ty),
        _ => "any".to_owned(),
    };
    let out = match output {
        Some(t) => extract_type_name(t),
        None => "void".to_owned(),
    };
    (input, out)
}

// ---------------------------------------------------------------------------
// Path and body parameters
// ---------------------------------------------------------------------------

/// An attribute path (its segments) that is the single identifier `name`
/// (`Path::is_ident`).
pub open spec fn attr_is(a: Seq<Seq<char>>, name: Seq<char>) -> bool {
    a.len() == 1 && a[0] == name
}

/// Some attribute of the list is the identifier `name`.
pub open spec fn has_attr(attrs: Seq<Vec<String>>, name: Seq<char>) -> bool {
    exists|i: int| 0 <= i < attrs.len() && attr_is(strings_view(#[trigger] attrs[i]@), name)
}

/// Whether attribute `a` is the single identifier `name`.
fn attr_is_ident(a: &Vec<String>, name: &str) -> (r: bool)
    ensures
        r == attr_is(strings_view(a@), name@),
{
    if a.len() != 1 {
        return false;
    }
    let s = chars_of(a[0].as_str());
    chars_eq_str(&s, name)
}

/// Whether some attribute of `attrs` is the identifier `name`.
fn has_attr_ident(attrs: &Vec<Vec<String>>, name: &str) -> (r: bool)
    ensures
        r == has_attr(attrs@, name@),
{
    let mut i: usize = 0;
    while i < attrs.len()
        invariant
            i <= attrs.len(),
            forall|j: int| 0 <= j < i ==> !attr_is(strings_view(#[trigger] attrs@[j]@), name@),
        decreases attrs.len() - i,
    {
        if attr_is_ident(&attrs[i], name) {
            assert(attr_is(strings_view(attrs@[i as int]@), name@));
            return true;
        }
        i = i + 1;
    }
    false
}

/// The model of a type: the segment names of a path, nothing for another
/// form of type.
pub open spec fn type_view(t: TypeShape) -> Option<Seq<Seq<char>>> {
    match t {
        TypeShape::Path(segs) => Some(strings_view(segs@)),
        TypeShape::Other => None,
    }
}

/// A copy of a type description.
pub fn copy_type(t: &TypeShape) -> (r: TypeShape)
    ensures
        type_view(r) == type_view(*t),
{
    match t {
        TypeShape::Path(segs) => TypeShape::Path(copy_strings(segs)),
        TypeShape::Other => TypeShape::Other,
    }
}

/// A parameter marked `#[path]` or `#[body]`.
#[derive(Debug)]
pub enum RouteArg {
    Path { name: String, typ: TypeShape },
    Body { name: String, typ: TypeShape },
}

/// The kind of a route argument: `Some(true)` for a path parameter,
/// `Some(false)` for a body parameter, `None` for neither.  `#[path]` wins
/// over `#[body]`; only typed parameters with plain identifier patterns count.
pub open spec fn arg_kind(p: ParamShape) -> Option<bool> {
    match p {
        ParamShape::Receiver => None,
        ParamShape::Typed(t) => if t.ident is None {
            None
        } else if has_attr(t.attrs@, "path"@) {
            Some(true)
        } else if has_attr(t.attrs@, "body"@) {
            Some(false)
        } else {
            None
        },
    }
}

/// What a route argument says: path (`true`) or body, name, type.
pub open spec fn route_arg_model(a: RouteArg) -> (bool, Seq<char>, Option<Seq<Seq<char>>>) {
    match a {
        RouteArg::Path { name, typ } => (true, name@, type_view(typ)),
        RouteArg::Body { name, typ } => (false, name@, type_view(typ)),
    }
}

/// The route argument a parameter gives, if any.
pub open spec fn param_arg(p: ParamShape) -> Option<(bool, Seq<char>, Option<Seq<Seq<char>>>)> {
    match p {
        ParamShape::Typed(t) => match arg_kind(p) {
            Some(k) => Some((k, t.ident->0@, type_view(t.ty))),
            None => None,
        },
        ParamShape::Receiver => None,
    }
}

/// The route arguments of parameters `i..`, in order.
pub open spec fn route_args_from(ps: Seq<ParamShape>, i: int) -> Seq<
    (bool, Seq<char>, Option<Seq<Seq<char>>>),
>
    decreases ps.len() - i,
{
    if i < 0 || i >= ps.len() {
        Seq::empty()
    } else {
        match param_arg(ps[i]) {
            Some(a) => seq![a] + route_args_from(ps, i + 1),
            None => route_args_from(ps, i + 1),
        }
    }
}

/// The models of route arguments.
pub open spec fn route_args_view(v: Seq<RouteArg>) -> Seq<(bool, Seq<char>, Option<Seq<Seq<char>>>)> {
    v.map_values(|a: RouteArg| route_arg_model(a))
}

/// The route argument a parameter gives, if any.
fn route_arg_of(p: &ParamShape) -> (r: Option<RouteArg>)
    ensures
        r matches Some(a) ==> param_arg(*p) == Some(route_arg_model(a)),
        r is None ==> param_arg(*p) is None,
{
    match p {
        ParamShape::Receiver => None,
        ParamShape::Typed(t) => {
            let is_path = has_attr_ident(&t.attrs, "path");
            let is_body = has_attr_ident(&t.attrs, "body");
            match &t.ident {
                Some(name) => {
                    if is_path {
                        Some(RouteArg::Path { name: name.clone(), typ: copy_type(&t.ty) })
                    } else if is_body {
                        Some(RouteArg::Body { name: name.clone(), typ: copy_type(&t.ty) })
                    } else {
                        None
                    }
                },
                None => None,
            }
        },
    }
}

/// Parse route arguments from function parameters, extracting `#[path]` and
/// `#[body]` parameters in order.
pub fn parse_route_args(params: &Vec<ParamShape>) -> (args: Vec<RouteArg>)
    ensures
        route_args_view(args@) == route_args_from(params@, 0),
{
    let mut args: Vec<RouteArg> = Vec::new();
    let mut i: usize = 0;
    while i < params.len()
        invariant
            i <= params.len(),
            route_args_from(params@, 0) == route_args_view(args@) + route_args_from(
                params@,
                i as int,
            ),
        decreases params.len() - i,
    {
        let ghost before = route_args_view(args@);
        match route_arg_of(&params[i]) {
            Some(a) => {
                let ghost m = route_arg_model(a);
                args.push(a);
                assert(route_args_view(args@) =~= before.push(m));
                assert(before + route_args_from(params@, i as int) =~= route_args_view(args@)
                    + route_args_from(params@, i + 1));
            },
            None => {},
        }
        i = i + 1;
    }
    assert(route_args_view(args@) + Seq::empty() =~= route_args_view(args@));
    args
}

/// Whether an attribute marks a route parameter: `#[path]`, `#[body]` or
/// `#[param]`.  These markers exist only for the handler attributes and are
/// removed from the function they emit.
pub open spec fn is_arg_attr(a: Vec<String>) -> bool {
    attr_is(strings_view(a@), "path"@) || attr_is(strings_view(a@), "body"@) || attr_is(
        strings_view(a@),
        "param"@,
    )
}

/// The attributes of `attrs` other than the parameter markers, in order.
pub open spec fn kept_attrs(attrs: Seq<Vec<String>>) -> Seq<Vec<String>>
    decreases attrs.len(),
{
    if attrs.len() == 0 {
        Seq::empty()
    } else {
        let rest = kept_attrs(attrs.drop_first());
        if is_arg_attr(attrs[0]) {
            rest
        } else {
            seq![attrs[0]] + rest
        }
    }
}

/// Drops the parameter markers (`#[path]`, `#[body]`, `#[param]`) from a list.
fn strip_attrs(attrs: Vec<Vec<String>>) -> (r: Vec<Vec<String>>)
    ensures
        r@ == kept_attrs(attrs@),
{
    let mut rest = attrs;
    let mut out: Vec<Vec<String>> = Vec::new();
    while rest.len() > 0
        invariant
            out@ + kept_attrs(rest@) == kept_attrs(attrs@),
        decreases rest.len(),
    {
        let ghost before = rest@;
        let a = rest.remove(0);
        assert(rest@ =~= before.drop_first());
        if attr_is_ident(&a, "path") || attr_is_ident(&a, "body") || attr_is_ident(&a, "param") {
        } else {
            let ghost o = out@;
            out.push(a);
            assert(o + (seq![a] + kept_attrs(rest@)) =~= out@ + kept_attrs(rest@));
        }
    }
    assert(out@ + kept_attrs(rest@) =~= out@);
    out
}

/// A parameter with its marker attributes (`#[path]`, `#[body]`, `#[param]`)
/// dropped.
pub open spec fn stripped(before: ParamShape, after: ParamShape) -> bool {
    match (before, after) {
        (ParamShape::Receiver, ParamShape::Receiver) => true,
        (ParamShape::Typed(b), ParamShape::Typed(a)) => {
            &&& a.attrs@ == kept_attrs(b.attrs@)
            &&& a.ident == b.ident
            &&& a.ty == b.ty
        },
        _ => false,
    }
}

/// Strip the `#[path]`, `#[body]` and `#[param]` markers from function
/// parameters, keeping everything else in place.
pub fn strip_arg_attributes(params: Vec<ParamShape>) -> (r: Vec<ParamShape>)
    ensures
        r@.len() == params@.len(),
        forall|i: int| 0 <= i < r@.len() ==> stripped(params@[i], #[trigger] r@[i]),
{
    let mut rest = params;
    let ghost orig = rest@;
    let mut out: Vec<ParamShape> = Vec::new();
    while rest.len() > 0
        invariant
            out@.len() + rest@.len() == orig.len(),
            rest@ == orig.skip(out@.len() as int),
            forall|i: int| 0 <= i < out@.len() ==> stripped(orig[i], #[trigger] out@[i]),
        decreases rest.len(),
    {
        let ghost before = rest@;
        let ghost k = out@.len();
        let p = rest.remove(0);
        assert(p == orig[k as int]);
        let q = match p {
            ParamShape::Receiver => ParamShape::Receiver,
            ParamShape::Typed(t) => ParamShape::Typed(
                TypedParam { attrs: strip_attrs(t.attrs), ident: t.ident, ty: t.ty },
            ),
        };
        out.push(q);
        assert(rest@ =~= orig.skip(out@.len() as int));
    }
    out
}

// ---------------------------------------------------------------------------
// Cache metadata
// ---------------------------------------------------------------------------

/// Why a `#[cache(...)]` attribute is refused.
#[derive(Debug)]
pub enum CacheAttrError {
    /// The attribute does not mention `max_age`.
    MissingMaxAge,
    /// `max_age` has no `=` value.
    MissingValue,
    /// The value is not a `u64`; the offending text is kept.
    InvalidValue(String),
}

/// The text of a cache attribute error.
pub open spec fn cache_error_message(e: CacheAttrError) -> Seq<char> {
    match e {
        CacheAttrError::MissingMaxAge => "Missing max_age parameter. Usage: #[cache(max_age = 60)]"@,
        CacheAttrError::MissingValue => "Missing value for max_age parameter. Usage: #[cache(max_age = 60)]"@,
        CacheAttrError::InvalidValue(v) => "Invalid max_age value: '"@ + v@
            + "'. Expected a positive integer."@,
    }
}

impl CacheAttrError {
    /// The error's text, as the compile error shows it.
    pub fn message(&self) -> (m: String)
        ensures
            m@ == cache_error_message(*self),
    {
        match self {
            CacheAttrError::MissingMaxAge => "Missing max_age parameter. Usage: #[cache(max_age = 60)]".to_owned(),
            CacheAttrError::MissingValue => "Missing value for max_age parameter. Usage: #[cache(max_age = 60)]".to_owned(),
            CacheAttrError::InvalidValue(v) => {
                let mut m = "Invalid max_age value: '".to_owned();
                m.append(v.as_str());
                m.append("'. Expected a positive integer.");
                m
            },
        }
    }
}

/// The length of `s` once trailing commas are dropped from its first `n`
/// characters.
pub open spec fn comma_trim_len(s: Seq<char>, n: int) -> int
    decreases n,
{
    if 0 < n <= s.len() && s[n - 1] == ',' {
        comma_trim_len(s, n - 1)
    } else {
        n
    }
}

/// The value text of a cache attribute: the text between the first `=` and
/// the next `=` (or the end), trimmed, without trailing commas, trimmed
/// again; nothing when the attribute has no `=`.
pub open spec fn cache_value_text(attr: Seq<char>) -> Option<Seq<char>> {
    match find_first(attr, "="@) {
        None => None,
        Some(i) => {
            let rest = attr.skip(i + 1);
            let part = match find_first(rest, "="@) {
                Some(j) => rest.take(j),
                None => rest,
            };
            let t = trim_seq(part);
            Some(trim_seq(t.take(comma_trim_len(t, t.len() as int))))
        },
    }
}

proof fn lemma_comma_trim_bounds(s: Seq<char>, n: int)
    requires
        0 <= n <= s.len(),
    ensures
        0 <= comma_trim_len(s, n) <= n,
    decreases n,
{
    if n > 0 && s[n - 1] == ',' {
        lemma_comma_trim_bounds(s, n - 1);
    }
}

/// The value text of a cache attribute (see `cache_value_text`).
fn cache_value(attr: &Vec<char>) -> (r: Option<Vec<char>>)
    ensures
        r matches Some(v) ==> cache_value_text(attr@) == Some(v@),
        r is None ==> cache_value_text(attr@) is None,
{
    let eq = chars_of("=");
    match find(attr, &eq) {
        None => None,
        Some(i) => {
            proof {
                reveal_strlit("=");
                lemma_find_from(attr@, eq@, 0);
                assert(occurs_at(attr@, eq@, i as int));
                assert(eq@.len() == 1);
                assert(i + 1 <= attr.len());
            }
            let rest = suffix_from(attr, i + 1);
            let part = match find(&rest, &eq) {
                Some(j) => {
                    proof {
                        lemma_find_from(rest@, eq@, 0);
                        assert(occurs_at(rest@, eq@, j as int));
                    }
                    slice_of(&rest, 0, j)
                },
                None => rest,
            };
            let t = trim(&part);
            let mut n: usize = t.len();
            while n > 0 && t[n - 1] == ','
                invariant
                    n <= t.len(),
                    comma_trim_len(t@, t.len() as int) == comma_trim_len(t@, n as int),
                decreases n,
            {
                n = n - 1;
            }
            Some(trim(&slice_of(&t, 0, n)))
        },
    }
}

/// The `max_age` of a `#[cache(max_age = N)]` attribute, given as text.
pub fn parse_cache_max_age(attr: &str) -> (r: Result<u64, CacheAttrError>)
    ensures
        !contains_seq(attr@, "max_age"@) ==> r matches Err(CacheAttrError::MissingMaxAge),
        contains_seq(attr@, "max_age"@) && cache_value_text(attr@) is None ==> r matches Err(
            CacheAttrError::MissingValue,
        ),
        cache_value_text(attr@) matches Some(t) ==> (contains_seq(attr@, "max_age"@) ==> match parse_u64_spec(t) {
            Some(n) => r == Ok::<u64, CacheAttrError>(n),
            None => r matches Err(CacheAttrError::InvalidValue(v)) && v@ == t,
        }),
{
    let a = chars_of(attr);
    if !contains_str(&a, "max_age") {
        return Err(CacheAttrError::MissingMaxAge);
    }
    match cache_value(&a) {
        None => Err(CacheAttrError::MissingValue),
        Some(v) => match parse_u64(&v) {
            Some(n) => Ok(n),
            None => Err(CacheAttrError::InvalidValue(string_of(&v))),
        },
    }
}

/// The cache metadata registered for a handler: how long its response may be
/// cached, in seconds, and the handler's name.
#[derive(Debug)]
pub struct CacheMeta {
    pub max_age: u64,
    pub route_path: String,
}

/// The metadata of `#[cache(...)]` (attribute text `attr`) on function
/// `fn_name`.
pub fn cache_metadata(attr: &str, fn_name: &str) -> (r: Result<CacheMeta, CacheAttrError>)
    ensures
        !contains_seq(attr@, "max_age"@) ==> r matches Err(CacheAttrError::MissingMaxAge),
        contains_seq(attr@, "max_age"@) && cache_value_text(attr@) is None ==> r matches Err(
            CacheAttrError::MissingValue,
        ),
        cache_value_text(attr@) matches Some(t) ==> (contains_seq(attr@, "max_age"@) ==> match parse_u64_spec(t) {
            Some(n) => r matches Ok(m) && m.max_age == n && m.route_path@ == fn_name@,
            None => r matches Err(CacheAttrError::InvalidValue(v)) && v@ == t,
        }),
{
    match parse_cache_max_age(attr) {
        Ok(max_age) => Ok(CacheMeta { max_age, route_path: fn_name.to_owned() }),
        Err(e) => Err(e),
    }
}

/// The name of the type that carries a handler's cache metadata:
/// `{fn_name}CacheMeta`.
pub fn cache_meta_type_name(fn_name: &str) -> (r: String)
    ensures
        r@ == fn_name@ + "CacheMeta"@,
{
    let mut r = fn_name.to_owned();
    r.append("CacheMeta");
    r
}

} // verus!
