//! Static site generation: discovering `#[ssg]` routes in route files and
//! planning the pages that a build writes.
//!
//! A route file is given by the components of its path (as `Path::components`
//! yields them) and its text.  Reading the directory tree and the files, and
//! writing the pages, is left to the caller.

use vstd::prelude::*;
use vstd::string::*;

use crate::text::{
    chars_eq_str, chars_of, contains_seq, contains_str, find, find_first, has_prefix,
    ident_prefix, lemma_find_from, occurs_at, lines_of, numeric_prefix, parse_u64, parse_u64_spec,
    slice_of, split_lines, starts_with, string_of, suffix_from, take_ident, take_numeric,
    strings_view, trim, trim_seq, views_of,
};

verus! {

// ---------------------------------------------------------------------------
// Types
// ---------------------------------------------------------------------------

/// A page to generate: its route, the handler that produces it, and how often
/// it is regenerated (incremental static regeneration), in seconds.
#[derive(Debug, Clone)]
pub struct SsgRoute {
    pub path: String,
    pub handler: String,
    pub revalidate: Option<u64>,
}

/// The model of a route.
pub struct SsgRouteModel {
    pub path: Seq<char>,
    pub handler: Seq<char>,
    pub revalidate: Option<u64>,
}

impl View for SsgRoute {
    type V = SsgRouteModel;

    open spec fn view(&self) -> SsgRouteModel {
        SsgRouteModel { path: self.path@, handler: self.handler@, revalidate: self.revalidate }
    }
}

/// What a build did.
#[derive(Debug)]
pub struct SsgStats {
    pub pages_built: usize,
    pub pages_failed: usize,
    pub build_time_ms: u64,
    pub routes_with_isr: usize,
}

/// The routes to build, where the pages go, and how many pages may be built
/// at once.
pub struct SsgBuilder {
    pub routes: Vec<SsgRoute>,
    pub output_dir: String,
    pub parallel_jobs: usize,
}

/// A file found under the api directory: the components of its path and,
/// for a route file, its text.
pub struct RouteSource {
    pub components: Vec<String>,
    pub content: String,
}

// ---------------------------------------------------------------------------
// Route path from file path
// ---------------------------------------------------------------------------

/// A dynamic segment `[name]` becomes `/:name`; any other component `c`
/// becomes `/c`.
pub open spec fn route_segment(comp: Seq<char>) -> Seq<char> {
    if comp.len() > 0 && comp[0] == '[' && comp.last() == ']' {
        "/:"@ + comp.subrange(1, comp.len() - 1)
    } else {
        "/"@ + comp
    }
}

/// The route text contributed by components `i..`: components before the
/// first `api` are skipped, `api` components themselves are skipped, and
/// `route.rs` (once `api` was seen) ends the route.
pub open spec fn route_from(comps: Seq<Seq<char>>, i: int, after_api: bool) -> Seq<char>
    decreases comps.len() - i,
{
    if i < 0 || i >= comps.len() {
        Seq::empty()
    } else if comps[i] == "api"@ {
        route_from(comps, i + 1, true)
    } else if !after_api {
        route_from(comps, i + 1, false)
    } else if comps[i] == "route.rs"@ {
        Seq::empty()
    } else {
        route_segment(comps[i]) + route_from(comps, i + 1, true)
    }
}

/// The route of a file: `api/blog/[slug]/route.rs` gives `/blog/:slug`, and
/// an empty route is `/`.
pub open spec fn route_of_path(comps: Seq<Seq<char>>) -> Seq<char> {
    let r = route_from(comps, 0, false);
    if r.len() == 0 {
        "/"@
    } else {
        r
    }
}

/// The route segment for one path component.
fn segment_of(comp: &Vec<char>) -> (r: Vec<char>)
    ensures
        r@ == route_segment(comp@),
{
    let n = comp.len();
    if n > 0 && comp[0] == '[' && comp[n - 1] == ']' {
        let mut r = chars_of("/:");
        let inner = slice_of(comp, 1, n - 1);
        let mut i: usize = 0;
        let ghost start = r@;
        while i < inner.len()
            invariant
                i <= inner.len(),
                r@ == start + inner@.take(i as int),
            decreases inner.len() - i,
        {
            r.push(inner[i]);
            assert(inner@.take(i as int).push(inner@[i as int]) =~= inner@.take(i + 1));
            i = i + 1;
        }
        assert(inner@.take(inner.len() as int) =~= inner@);
        r
    } else {
        let mut r = chars_of("/");
        let ghost start = r@;
        let mut i: usize = 0;
        while i < n
            invariant
                n == comp.len(),
                i <= n,
                r@ == start + comp@.take(i as int),
            decreases n - i,
        {
            r.push(comp[i]);
            assert(comp@.take(i as int).push(comp@[i as int]) =~= comp@.take(i + 1));
            i = i + 1;
        }
        assert(comp@.take(n as int) =~= comp@);
        r
    }
}

/// Appends the characters of `b` to `a`.
fn extend_chars(a: &mut Vec<char>, b: &Vec<char>)
    ensures
        final(a)@ == old(a)@ + b@,
{
    let mut i: usize = 0;
    while i < b.len()
        invariant
            i <= b.len(),
            a@ == old(a)@ + b@.take(i as int),
        decreases b.len() - i,
    {
        a.push(b[i]);
        assert(b@.take(i as int).push(b@[i as int]) =~= b@.take(i + 1));
        i = i + 1;
    }
    assert(b@.take(b.len() as int) =~= b@);
}

/// Converts the components of a route file's path to a route pattern.
///
/// - `api/blog/[slug]/route.rs` → `/blog/:slug`
/// - `api/about/route.rs` → `/about`
pub fn path_to_route(components: &Vec<String>) -> (r: String)
    ensures
        r@ == route_of_path(strings_view(components@)),
{
    let ghost comps = strings_view(components@);
    let mut route: Vec<char> = Vec::new();
    let mut after_api = false;
    let mut i: usize = 0;
    while i < components.len()
        invariant_except_break
            comps == strings_view(components@),
            i <= components.len(),
            route_from(comps, 0, false) == route@ + route_from(comps, i as int, after_api),
        ensures
            route_from(comps, 0, false) == route@,
        decreases components.len() - i,
    {
        let comp = chars_of(components[i].as_str());
        assert(comp@ == comps[i as int]);
        if chars_eq_str(&comp, "api") {
            after_api = true;
        } else if !after_api {
        } else if chars_eq_str(&comp, "route.rs") {
            assert(route_from(comps, i as int, after_api) == Seq::<char>::empty());
            assert(route@ + Seq::<char>::empty() =~= route@);
            break;
        } else {
            let seg = segment_of(&comp);
            let ghost before = route@;
            extend_chars(&mut route, &seg);
            assert(before + (seg@ + route_from(comps, i + 1, true)) =~= route@ + route_from(
                comps,
                i + 1,
                true,
            ));
        }
        i = i + 1;
        proof {
            if i >= components.len() {
                assert(route_from(comps, i as int, after_api) == Seq::<char>::empty());
                assert(route@ + Seq::<char>::empty() =~= route@);
            }
        }
    }
    if route.len() == 0 {
        "/".to_owned()
    } else {
        string_of(&route)
    }
}


// ---------------------------------------------------------------------------
// Laws of routes
// ---------------------------------------------------------------------------

proof fn lemma_route_from_slash(comps: Seq<Seq<char>>, i: int, after_api: bool)
    ensures
        route_from(comps, i, after_api).len() == 0 || route_from(comps, i, after_api)[0] == '/',
    decreases comps.len() - i,
{
    reveal_strlit("/");
    reveal_strlit("/:");
    if 0 <= i < comps.len() {
        if comps[i] == "api"@ {
            lemma_route_from_slash(comps, i + 1, true);
        } else if !after_api {
            lemma_route_from_slash(comps, i + 1, false);
        } else if comps[i] == "route.rs"@ {
        } else {
            lemma_route_from_slash(comps, i + 1, true);
            assert(route_segment(comps[i])[0] == '/');
        }
    }
}

/// Every route is absolute: the route of any file path is non-empty and
/// starts with `/`.
pub proof fn law_route_is_absolute(comps: Seq<Seq<char>>)
    ensures
        route_of_path(comps).len() > 0,
        route_of_path(comps)[0] == '/',
{
    reveal_strlit("/");
    lemma_route_from_slash(comps, 0, false);
}

/// Components before the first `api` contribute nothing to the route.
proof fn lemma_route_skips_prefix(comps: Seq<Seq<char>>, n: int, i: int)
    requires
        0 <= i <= n <= comps.len(),
        forall|k: int| 0 <= k < n ==> #[trigger] comps[k] != "api"@,
    ensures
        route_from(comps, i, false) == route_from(comps, n, false),
    decreases n - i,
{
    if i < n {
        lemma_route_skips_prefix(comps, n, i + 1);
    }
}

/// The route of a route file in one directory below `api`: the components
/// before `api` (none of them `api`) are dropped, and the directory `c` gives
/// the route `/c` when it is a plain name, every character kept as it is
/// (`api/blog-posts/route.rs` gives `/blog-posts`), and `/:name` when it is
/// `[name]` (`api/[slug]/route.rs` gives `/:slug`).
pub proof fn law_route_of_one_directory(pre: Seq<Seq<char>>, c: Seq<char>)
    requires
        forall|k: int| 0 <= k < pre.len() ==> #[trigger] pre[k] != "api"@,
        c != "api"@,
        c != "route.rs"@,
    ensures
        !(c.len() > 0 && c[0] == '[' && c.last() == ']') ==> route_of_path(
            pre + seq!["api"@, c, "route.rs"@],
        ) == "/"@ + c,
        c.len() > 0 && c[0] == '[' && c.last() == ']' ==> route_of_path(
            pre + seq!["api"@, c, "route.rs"@],
        ) == "/:"@ + c.subrange(1, c.len() - 1),
{
    reveal_strlit("/");
    reveal_strlit("/:");
    reveal_strlit("api");
    reveal_strlit("route.rs");
    assert("route.rs"@ != "api"@) by {
        assert("route.rs"@.len() != "api"@.len());
    }
    let comps = pre + seq!["api"@, c, "route.rs"@];
    let n = pre.len() as int;
    assert forall|k: int| 0 <= k < n implies #[trigger] comps[k] != "api"@ by {
        assert(comps[k] == pre[k]);
    }
    lemma_route_skips_prefix(comps, n, 0);
    assert(comps[n] == "api"@);
    assert(comps[n + 1] == c);
    assert(comps[n + 2] == "route.rs"@);
    assert(route_from(comps, n + 2, true) == Seq::<char>::empty());
    assert(route_from(comps, n + 1, true) == route_segment(c) + route_from(comps, n + 2, true));
    assert(route_from(comps, n, false) == route_from(comps, n + 1, true));
    assert(route_segment(c) + Seq::<char>::empty() =~= route_segment(c));
    assert(route_segment(c).len() > 0);
}

// ---------------------------------------------------------------------------
// Handler name and revalidation time
// ---------------------------------------------------------------------------

/// The handler named on the first of lines `i..` that, trimmed, starts with
/// `pub async fn`: the identifier characters after it.
pub open spec fn handler_in_lines(ls: Seq<Seq<char>>, i: int) -> Option<Seq<char>>
    decreases ls.len() - i,
{
    if i < 0 || i >= ls.len() {
        None
    } else {
        let l = trim_seq(ls[i]);
        if has_prefix(l, "pub async fn"@) {
            Some(ident_prefix(trim_seq(l.skip("pub async fn"@.len() as int))))
        } else {
            handler_in_lines(ls, i + 1)
        }
    }
}

/// The handler of a route file: see `handler_in_lines`.
pub open spec fn handler_name_of(content: Seq<char>) -> Option<Seq<char>> {
    handler_in_lines(lines_of(content), 0)
}

/// The revalidation time a line gives: the line, trimmed, holds `#[ssg` and
/// `revalidate`, and the numeric characters right after the first
/// `revalidate = ` parse as a `u64`.
pub open spec fn revalidate_in_line(line: Seq<char>) -> Option<u64> {
    let t = trim_seq(line);
    if contains_seq(t, "#[ssg"@) && contains_seq(t, "revalidate"@) {
        match find_first(t, "revalidate = "@) {
            Some(start) => parse_u64_spec(
                numeric_prefix(t.skip(start + "revalidate = "@.len() as int)),
            ),
            None => None,
        }
    } else {
        None
    }
}

/// The revalidation time of the first of lines `i..` that gives one.
pub open spec fn revalidate_in_lines(ls: Seq<Seq<char>>, i: int) -> Option<u64>
    decreases ls.len() - i,
{
    if i < 0 || i >= ls.len() {
        None
    } else {
        match revalidate_in_line(ls[i]) {
            Some(n) => Some(n),
            None => revalidate_in_lines(ls, i + 1),
        }
    }
}

/// The revalidation time of a route file: see `revalidate_in_lines`.
pub open spec fn revalidate_of(content: Seq<char>) -> Option<u64> {
    revalidate_in_lines(lines_of(content), 0)
}

/// Extracts the handler function name: the identifier after `pub async fn`
/// on the first line that starts with it.
pub fn extract_handler_name(content: &str) -> (r: Option<String>)
    ensures
        r matches Some(name) ==> handler_name_of(content@) == Some(name@),
        r is None ==> handler_name_of(content@) is None,
{
    let text = chars_of(content);
    let lines = split_lines(&text);
    let ghost ls = lines_of(content@);
    let prefix = chars_of("pub async fn");
    let mut i: usize = 0;
    while i < lines.len()
        invariant
            i <= lines.len(),
            views_of(lines@) == ls,
            ls == lines_of(content@),
            prefix@ == "pub async fn"@,
            handler_in_lines(ls, 0) == handler_in_lines(ls, i as int),
        decreases lines.len() - i,
    {
        assert(lines@[i as int]@ == ls[i as int]);
        let line = trim(&lines[i]);
        if starts_with(&line, &prefix) {
            let rest = trim(&suffix_from(&line, prefix.len()));
            let name = take_ident(&rest);
            let out = string_of(&name);
            assert(line@ == trim_seq(ls[i as int]));
            assert(out@ == ident_prefix(trim_seq(line@.skip("pub async fn"@.len() as int))));
            assert(handler_in_lines(ls, i as int) == Some(out@));
            return Some(out);
        }
        i = i + 1;
    }
    None
}

/// The revalidation time a single line gives, if any.
fn revalidate_from_line(line: &Vec<char>) -> (r: Option<u64>)
    ensures
        r == revalidate_in_line(line@),
{
    let t = trim(line);
    if contains_str(&t, "#[ssg") && contains_str(&t, "revalidate") {
        let pat = chars_of("revalidate = ");
        match find(&t, &pat) {
            Some(start) => {
                proof {
                    lemma_find_from(t@, pat@, 0);
                    assert(find_first(t@, pat@) == Some(start as int));
                    assert(occurs_at(t@, pat@, start as int));
                    assert(start + pat.len() <= t.len());
                }
                let rest = suffix_from(&t, start + pat.len());
                let digits = take_numeric(&rest);
                parse_u64(&digits)
            },
            None => None,
        }
    } else {
        None
    }
}

/// Extracts the revalidation time from `#[ssg(revalidate = N)]`: the first
/// line holding `#[ssg`, `revalidate` and a number after `revalidate = `.
pub fn extract_revalidate(content: &str) -> (r: Option<u64>)
    ensures
        r == revalidate_of(content@),
{
    let text = chars_of(content);
    let lines = split_lines(&text);
    let ghost ls = lines_of(content@);
    let mut i: usize = 0;
    while i < lines.len()
        invariant
            i <= lines.len(),
            views_of(lines@) == ls,
            ls == lines_of(content@),
            revalidate_in_lines(ls, 0) == revalidate_in_lines(ls, i as int),
        decreases lines.len() - i,
    {
        assert(lines@[i as int]@ == ls[i as int]);
        match revalidate_from_line(&lines[i]) {
            Some(n) => {
                assert(revalidate_in_line(ls[i as int]) == Some(n));
                assert(revalidate_in_lines(ls, i as int) == Some(n));
                return Some(n);
            },
            None => {},
        }
        i = i + 1;
    }
    None
}

// ---------------------------------------------------------------------------
// Route files
// ---------------------------------------------------------------------------

/// What a route file yields: nothing unless its text holds `#[ssg`;
/// otherwise the route of its path, the handler (empty when no line names a
/// `pub async fn`) and the revalidation time.
pub open spec fn parse_route_spec(content: Seq<char>, comps: Seq<Seq<char>>) -> Option<
    SsgRouteModel,
> {
    if !contains_seq(content, "#[ssg"@) {
        None
    } else {
        Some(
            SsgRouteModel {
                path: route_of_path(comps),
                handler: match handler_name_of(content) {
                    Some(h) => h,
                    None => Seq::empty(),
                },
                revalidate: revalidate_of(content),
            },
        )
    }
}

/// Parses a route file to extract its SSG metadata: a route exactly when the
/// text holds `#[ssg`.  A file that names no `pub async fn` still yields its
/// route, with an empty handler name.
pub fn parse_ssg_route(content: &str, components: &Vec<String>) -> (r: Option<SsgRoute>)
    ensures
        r is Some <==> contains_seq(content@, "#[ssg"@),
        r matches Some(route) ==> parse_route_spec(content@, strings_view(components@)) == Some(
            route@,
        ),
        r is None ==> parse_route_spec(content@, strings_view(components@)) is None,
{
    let text = chars_of(content);
    if !contains_str(&text, "#[ssg") {
        return None;
    }
    let path = path_to_route(components);
    let handler = match extract_handler_name(content) {
        Some(h) => h,
        None => String::new(),
    };
    let revalidate = extract_revalidate(content);
    Some(SsgRoute { path, handler, revalidate })
}

/// The path names a route file: its last component is `route.rs`.
pub open spec fn is_route_path(comps: Seq<Seq<char>>) -> bool {
    comps.len() > 0 && comps.last() == "route.rs"@
}

/// Whether the path whose components are given names a route file.
pub fn is_route_file(components: &Vec<String>) -> (r: bool)
    ensures
        r == is_route_path(strings_view(components@)),
{
    let n = components.len();
    if n == 0 {
        return false;
    }
    let last = chars_of(components[n - 1].as_str());
    chars_eq_str(&last, "route.rs")
}

/// The model of a file found under the api directory.
pub open spec fn source_view(f: RouteSource) -> (Seq<Seq<char>>, Seq<char>) {
    (strings_view(f.components@), f.content@)
}

/// The routes that files `i..` yield, in order: route files whose text
/// parses as an SSG route.
pub open spec fn routes_from(fs: Seq<(Seq<Seq<char>>, Seq<char>)>, i: int) -> Seq<SsgRouteModel>
    decreases fs.len() - i,
{
    if i < 0 || i >= fs.len() {
        Seq::empty()
    } else {
        let rest = routes_from(fs, i + 1);
        if is_route_path(fs[i].0) {
            match parse_route_spec(fs[i].1, fs[i].0) {
                Some(r) => seq![r] + rest,
                None => rest,
            }
        } else {
            rest
        }
    }
}

/// The models of routes.
pub open spec fn routes_view(v: Seq<SsgRoute>) -> Seq<SsgRouteModel> {
    v.map_values(|r: SsgRoute| r@)
}

/// Discovers the SSG routes among the files found under an api directory:
/// every `route.rs` whose text holds `#[ssg`, in the
/// order in which the files are given.
pub fn discover_ssg_routes(files: &Vec<RouteSource>) -> (routes: Vec<SsgRoute>)
    ensures
        routes_view(routes@) == routes_from(files@.map_values(|f: RouteSource| source_view(f)), 0),
{
    let ghost fs = files@.map_values(|f: RouteSource| source_view(f));
    let mut routes: Vec<SsgRoute> = Vec::new();
    let mut i: usize = 0;
    while i < files.len()
        invariant
            i <= files.len(),
            fs == files@.map_values(|f: RouteSource| source_view(f)),
            routes_from(fs, 0) == routes_view(routes@) + routes_from(fs, i as int),
        decreases files.len() - i,
    {
        let f = &files[i];
        assert(fs[i as int] == source_view(*f));
        let ghost before = routes_view(routes@);
        if is_route_file(&f.components) {
            match parse_ssg_route(f.content.as_str(), &f.components) {
                Some(route) => {
                    routes.push(route);
                    assert(routes_view(routes@) =~= before.push(route@));
                    assert(before + routes_from(fs, i as int) =~= routes_view(routes@)
                        + routes_from(fs, i + 1));
                },
                None => {},
            }
        }
        i = i + 1;
    }
    assert(routes_view(routes@) + Seq::<SsgRouteModel>::empty() =~= routes_view(routes@));
    routes
}

// ---------------------------------------------------------------------------
// Pages
// ---------------------------------------------------------------------------

/// The number of leading `'/'` characters of `s` from index `i` on.
pub open spec fn slash_run_end(s: Seq<char>, i: int) -> int
    decreases s.len() - i,
{
    if 0 <= i < s.len() && s[i] == '/' {
        slash_run_end(s, i + 1)
    } else {
        i
    }
}

/// A route path without its leading slashes (`trim_start_matches('/')`):
/// the directory, relative to the output directory, that holds its page.
pub open spec fn page_dir_spec(route: Seq<char>) -> Seq<char> {
    route.skip(slash_run_end(route, 0))
}

proof fn lemma_slash_run_bounds(s: Seq<char>, i: int)
    requires
        0 <= i <= s.len(),
    ensures
        i <= slash_run_end(s, i) <= s.len(),
    decreases s.len() - i,
{
    if i < s.len() && s[i] == '/' {
        lemma_slash_run_bounds(s, i + 1);
    }
}

/// The directory, relative to the output directory, that holds the page of
/// a route: the route without its leading slashes.  The page itself is
/// `index.html` in it.
pub fn page_dir(route_path: &str) -> (r: String)
    ensures
        r@ == page_dir_spec(route_path@),
{
    let s = chars_of(route_path);
    let mut i: usize = 0;
    while i < s.len() && s[i] == '/'
        invariant
            i <= s.len(),
            slash_run_end(s@, 0) == slash_run_end(s@, i as int),
        decreases s.len() - i,
    {
        i = i + 1;
    }
    string_of(&suffix_from(&s, i))
}

/// The placeholder page written for a route.
pub open spec fn page_html_spec(route: Seq<char>) -> Seq<char> {
    "<!DOCTYPE html>\n<html>\n<head><title>"@ + route + "</title></head>\n<body><h1>SSG Page: "@
        + route + "</h1></body>\n</html>"@
}

/// The placeholder page written for a route.
pub fn page_html(route_path: &str) -> (r: String)
    ensures
        r@ == page_html_spec(route_path@),
{
    let mut r = "<!DOCTYPE html>\n<html>\n<head><title>".to_owned();
    r.append(route_path);
    r.append("</title></head>\n<body><h1>SSG Page: ");
    r.append(route_path);
    r.append("</h1></body>\n</html>");
    r
}

// ---------------------------------------------------------------------------
// Builder
// ---------------------------------------------------------------------------

/// Calls `num_cpus::get`, the number of logical CPUs available to this
/// process; its documentation promises at least 1.  The value depends on the
/// machine, so nothing else is promised.
#[verifier::external_body]
pub(crate) fn available_cpus() -> (n: usize)
    ensures
        n >= 1,
{
    num_cpus::get()
}

/// The number of routes that set a revalidation time.
pub open spec fn count_isr(routes: Seq<SsgRouteModel>) -> nat
    decreases routes.len(),
{
    if routes.len() == 0 {
        0
    } else {
        count_isr(routes.drop_last()) + if routes.last().revalidate is Some {
            1nat
        } else {
            0nat
        }
    }
}

/// The number of entries of `s` equal to `b`.
pub open spec fn count_bool(s: Seq<bool>, b: bool) -> nat
    decreases s.len(),
{
    if s.len() == 0 {
        0
    } else {
        count_bool(s.drop_last(), b) + if s.last() == b {
            1nat
        } else {
            0nat
        }
    }
}

/// The ISR count is the number of routes that set a revalidation time.
pub proof fn law_isr_count_is_routes_with_revalidate(routes: Seq<SsgRouteModel>)
    ensures
        count_isr(routes) == routes.filter(|r: SsgRouteModel| r.revalidate is Some).len(),
    decreases routes.len(),
{
    let pred = |r: SsgRouteModel| r.revalidate is Some;
    if routes.len() > 0 {
        law_isr_count_is_routes_with_revalidate(routes.drop_last());
        let sub = routes.drop_last().filter(pred);
        reveal(Seq::filter);
        assert(routes.filter(pred) == (if pred(routes.last()) {
            sub.push(routes.last())
        } else {
            sub
        }));
    }
}

/// Adding a route adds one to the ISR count exactly when the new route sets a
/// revalidation time; no routes count none.
pub proof fn law_isr_count_push(routes: Seq<SsgRouteModel>, r: SsgRouteModel)
    ensures
        count_isr(Seq::<SsgRouteModel>::empty()) == 0,
        r.revalidate is Some ==> count_isr(routes.push(r)) == count_isr(routes) + 1,
        r.revalidate is None ==> count_isr(routes.push(r)) == count_isr(routes),
{
    assert(routes.push(r).drop_last() =~= routes);
    law_isr_count_is_routes_with_revalidate(routes);
    law_isr_count_is_routes_with_revalidate(routes.push(r));
    assert(routes.push(r).last() == r);
}

/// No more routes are regenerated incrementally than there are routes.
pub proof fn law_isr_count_bounded(routes: Seq<SsgRouteModel>)
    ensures
        count_isr(routes) <= routes.len(),
    decreases routes.len(),
{
    if routes.len() > 0 {
        law_isr_count_bounded(routes.drop_last());
    }
}

/// Every page is counted once, as built or as failed: the two counts of a
/// build's statistics add up to the number of pages attempted.
pub proof fn law_pages_accounted(s: Seq<bool>)
    ensures
        count_bool(s, true) + count_bool(s, false) == s.len(),
    decreases s.len(),
{
    if s.len() > 0 {
        law_pages_accounted(s.drop_last());
    }
}

impl SsgBuilder {
    /// A builder with no routes, writing under `output_dir`, with one
    /// parallel job per available CPU.
    pub fn new(output_dir: String) -> (b: Self)
        ensures
            b.routes@.len() == 0,
            b.output_dir == output_dir,
            b.parallel_jobs >= 1,
    {
        SsgBuilder { routes: Vec::new(), output_dir, parallel_jobs: available_cpus() }
    }

    /// The number of routes that are regenerated incrementally.
    pub fn isr_route_count(&self) -> (n: usize)
        ensures
            n == count_isr(routes_view(self.routes@)),
    {
        let ghost rs = routes_view(self.routes@);
        let mut n: usize = 0;
        let mut i: usize = 0;
        while i < self.routes.len()
            invariant
                i <= self.routes.len(),
                rs == routes_view(self.routes@),
                n == count_isr(rs.take(i as int)),
            decreases self.routes.len() - i,
        {
            assert(rs.take(i + 1).drop_last() =~= rs.take(i as int));
            proof {
                law_isr_count_bounded(rs.take(i as int));
            }
            if self.routes[i].revalidate.is_some() {
                n = n + 1;
            }
            i = i + 1;
        }
        assert(rs.take(i as int) =~= rs);
        n
    }

    /// The statistics of a build: `outcomes[k]` tells whether the k-th page
    /// was built, one outcome per route, so that every route is counted once,
    /// as built or as failed.
    pub fn summarize(&self, outcomes: &Vec<bool>, build_time_ms: u64) -> (stats: SsgStats)
        requires
            outcomes.len() == self.routes.len(),
        ensures
            stats.pages_built + stats.pages_failed == self.routes.len(),
            stats.pages_built == count_bool(outcomes@, true),
            stats.pages_failed == count_bool(outcomes@, false),
            stats.build_time_ms == build_time_ms,
            stats.routes_with_isr == count_isr(routes_view(self.routes@)),
    {
        let mut built: usize = 0;
        let mut failed: usize = 0;
        let mut i: usize = 0;
        while i < outcomes.len()
            invariant
                i <= outcomes.len(),
                built == count_bool(outcomes@.take(i as int), true),
                failed == count_bool(outcomes@.take(i as int), false),
            decreases outcomes.len() - i,
        {
            assert(outcomes@.take(i + 1).drop_last() =~= outcomes@.take(i as int));
            proof {
                law_pages_accounted(outcomes@.take(i as int));
            }
            if outcomes[i] {
                built = built + 1;
            } else {
                failed = failed + 1;
            }
            i = i + 1;
        }
        assert(outcomes@.take(i as int) =~= outcomes@);
        proof {
            law_pages_accounted(outcomes@);
        }
        SsgStats {
            pages_built: built,
            pages_failed: failed,
            build_time_ms,
            routes_with_isr: self.isr_route_count(),
        }
    }
}

} // verus!
