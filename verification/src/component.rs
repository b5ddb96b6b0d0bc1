//! Components for server-side rendering: the registry of discovered
//! components, the rendered output, and the reading of a renderer's reply.
//!
//! A component is a file under `web/components` (at any depth) with a
//! `.jsx`, `.js`, `.tsx` or `.ts` extension in any letter case, whose stem
//! starts with a letter and holds only letters, digits and `_`.  The first
//! file found under a name wins; later ones are skipped.  Walking the
//! directories and resolving each component file to its absolute path is the
//! caller's part.

use vstd::prelude::*;
use vstd::string::*;

use crate::keyed::{key_index, key_index_from, keys_unique, lemma_key_index_push, lemma_key_index_unique};
use crate::text::{
    chars_of, chars_eq_str, strings_view, trim, trim_seq, is_alphabetic, is_alphanumeric, slice_of, string_of, to_lowercase,
    char_alphabetic, char_alphanumeric, text_lowercase,
};

verus! {

// ---------------------------------------------------------------------------
// File names
// ---------------------------------------------------------------------------

/// The index of the last `'.'` in `s` before index `n`, if any.
pub open spec fn last_dot_before(s: Seq<char>, n: int) -> Option<int>
    decreases n,
{
    if n <= 0 || n > s.len() {
        None
    } else if s[n - 1] == '.' {
        Some(n - 1)
    } else {
        last_dot_before(s, n - 1)
    }
}

/// The stem and extension of a file name, as `Path::file_stem` and
/// `Path::extension` give them: split at the last `'.'`, except that `..`
/// and names whose only `'.'` is the first character have no extension.
pub open spec fn split_file_name(f: Seq<char>) -> (Seq<char>, Option<Seq<char>>) {
    if f == ".."@ {
        (f, None)
    } else {
        match last_dot_before(f, f.len() as int) {
            None => (f, None),
            Some(k) => if k == 0 {
                (f, None)
            } else {
                (f.take(k), Some(f.skip(k + 1)))
            },
        }
    }
}

/// A component extension, compared after Unicode lower-casing:
/// `jsx`, `js`, `tsx` or `ts`.
pub open spec fn valid_extension(ext: Seq<char>) -> bool {
    let l = text_lowercase(ext);
    l == "jsx"@ || l == "js"@ || l == "tsx"@ || l == "ts"@
}

/// A valid component name: it starts with an alphabetic character and holds
/// only alphanumeric characters and `'_'`.
pub open spec fn valid_component_name(name: Seq<char>) -> bool {
    &&& name.len() > 0
    &&& char_alphabetic(name[0])
    &&& forall|i: int| 0 <= i < name.len() ==> char_alphanumeric(#[trigger] name[i]) || name[i] == '_'
}

/// The component a file provides, if any: its stem, when its extension is a
/// component extension and its stem a valid name.
pub open spec fn component_name_of(file_name: Seq<char>) -> Option<Seq<char>> {
    let (stem, ext) = split_file_name(file_name);
    match ext {
        Some(e) => if valid_extension(e) && valid_component_name(stem) {
            Some(stem)
        } else {
            None
        },
        None => None,
    }
}

proof fn lemma_last_dot(s: Seq<char>, n: int)
    requires
        0 <= n <= s.len(),
    ensures
        last_dot_before(s, n) matches Some(k) ==> 0 <= k < n && s[k] == '.',
    decreases n,
{
    if n > 0 && s[n - 1] != '.' {
        lemma_last_dot(s, n - 1);
    }
}

/// The stem and extension of a file name.
fn split_name(f: &Vec<char>) -> (r: (Vec<char>, Option<Vec<char>>))
    ensures
        r.0@ == split_file_name(f@).0,
        r.1 matches Some(e) ==> split_file_name(f@).1 == Some(e@),
        r.1 is None ==> split_file_name(f@).1 is None,
{
    if chars_eq_str(f, "..") {
        return (slice_of(f, 0, f.len()), None);
    }
    let mut n: usize = f.len();
    while n > 0 && f[n - 1] != '.'
        invariant
            n <= f.len(),
            last_dot_before(f@, f.len() as int) == last_dot_before(f@, n as int),
        decreases n,
    {
        n = n - 1;
    }
    assert(f@.take(f.len() as int) =~= f@);
    if n <= 1 {
        (slice_of(f, 0, f.len()), None)
    } else {
        (slice_of(f, 0, n - 1), Some(slice_of(f, n, f.len())))
    }
}

/// Whether `ext` is a component extension (`jsx`, `js`, `tsx`, `ts`, in any
/// letter case).
pub fn is_valid_extension(ext: &str) -> (r: bool)
    ensures
        r == valid_extension(ext@),
{
    let lower = to_lowercase(ext);
    let l = chars_of(lower.as_str());
    chars_eq_str(&l, "jsx") || chars_eq_str(&l, "js") || chars_eq_str(&l, "tsx")
        || chars_eq_str(&l, "ts")
}

/// Whether `name` is a valid component name.
fn is_valid_name(name: &Vec<char>) -> (r: bool)
    ensures
        r == valid_component_name(name@),
{
    if name.len() == 0 || !is_alphabetic(name[0]) {
        return false;
    }
    let mut i: usize = 0;
    while i < name.len()
        invariant
            i <= name.len(),
            forall|j: int| 0 <= j < i ==> char_alphanumeric(#[trigger] name@[j]) || name@[j]
                == '_',
        decreases name.len() - i,
    {
        if !(is_alphanumeric(name[i]) || name[i] == '_') {
            return false;
        }
        i = i + 1;
    }
    true
}

/// The component a file provides, if any (see `component_name_of`).
pub fn component_name(file_name: &str) -> (r: Option<String>)
    ensures
        r matches Some(n) ==> component_name_of(file_name@) == Some(n@),
        r is None ==> component_name_of(file_name@) is None,
{
    let f = chars_of(file_name);
    let (stem, ext) = split_name(&f);
    match ext {
        None => None,
        Some(e) => {
            let es = string_of(&e);
            if is_valid_extension(es.as_str()) && is_valid_name(&stem) {
                Some(string_of(&stem))
            } else {
                None
            }
        },
    }
}

// ---------------------------------------------------------------------------
// Registry
// ---------------------------------------------------------------------------

/// A component file found while walking `web/components`: its file name and
/// its absolute path.
pub struct ComponentFile {
    pub file_name: String,
    pub path: String,
}

/// The registry's model: component names with the absolute paths of their
/// files, in the order of discovery.
pub type RegistryModel = Seq<(Seq<char>, Seq<char>)>;

/// The registry after one file: a file that provides a component whose name
/// is not yet registered adds it; any other file changes nothing.
pub open spec fn register_file(v: RegistryModel, file_name: Seq<char>, path: Seq<char>) -> RegistryModel {
    match component_name_of(file_name) {
        Some(n) => if key_index(v, n) is Some {
            v
        } else {
            v.push((n, path))
        },
        None => v,
    }
}

/// The registry after files `i..`, taken in order.
pub open spec fn register_files(v: RegistryModel, fs: Seq<(Seq<char>, Seq<char>)>, i: int) -> RegistryModel
    decreases fs.len() - i,
{
    if i < 0 || i >= fs.len() {
        v
    } else {
        register_files(register_file(v, fs[i].0, fs[i].1), fs, i + 1)
    }
}

/// The paths of files `i..` that are skipped: files that provide a component
/// whose name is already registered when they come.
pub open spec fn skipped_from(v: RegistryModel, fs: Seq<(Seq<char>, Seq<char>)>, i: int) -> Seq<Seq<char>>
    decreases fs.len() - i,
{
    if i < 0 || i >= fs.len() {
        Seq::empty()
    } else {
        let head = match component_name_of(fs[i].0) {
            Some(n) => if key_index(v, n) is Some {
                seq![fs[i].1]
            } else {
                Seq::empty()
            },
            None => Seq::empty(),
        };
        head + skipped_from(register_file(v, fs[i].0, fs[i].1), fs, i + 1)
    }
}

/// The models of component files: file name and path.
pub open spec fn files_view(fs: Seq<ComponentFile>) -> Seq<(Seq<char>, Seq<char>)> {
    fs.map_values(|f: ComponentFile| (f.file_name@, f.path@))
}

/// Discovered components: name to absolute path.
pub struct ComponentRegistry {
    components: Vec<(String, String)>,
}

impl View for ComponentRegistry {
    type V = RegistryModel;

    closed spec fn view(&self) -> RegistryModel {
        self.components@.map_values(|e: (String, String)| (e.0@, e.1@))
    }
}

impl ComponentRegistry {
    /// The registry's invariant: no name is registered twice.
    pub closed spec fn wf(&self) -> bool {
        keys_unique(self@)
    }

    /// An empty registry.
    pub fn new() -> (r: Self)
        ensures
            r.wf(),
            r@ == Seq::<(Seq<char>, Seq<char>)>::empty(),
    {
        let r = ComponentRegistry { components: Vec::new() };
        assert(r@ =~= Seq::<(Seq<char>, Seq<char>)>::empty());
        r
    }

    /// The position of component `name`.
    fn index_of(&self, name: &String) -> (r: Option<usize>)
        ensures
            r matches Some(i) ==> key_index(self@, name@) == Some(i as int) && i
                < self.components.len(),
            r is None ==> key_index(self@, name@) is None,
    {
        let mut i: usize = 0;
        while i < self.components.len()
            invariant
                i <= self.components.len(),
                key_index(self@, name@) == key_index_from(self@, name@, i as int),
            decreases self.components.len() - i,
        {
            if self.components[i].0 == *name {
                assert(self@[i as int].0 == name@);
                return Some(i);
            }
            assert(self@[i as int].0 != name@);
            i = i + 1;
        }
        None
    }

    /// The component name a file provides, if it is a component file; the
    /// stem is checked, not whether the name is registered.
    pub fn extract_component_name(&self, file_name: &str) -> (r: Option<String>)
        ensures
            r matches Some(n) ==> split_file_name(file_name@).0 == n@ && valid_component_name(n@),
            r is None ==> !valid_component_name(split_file_name(file_name@).0),
    {
        let f = chars_of(file_name);
        let (stem, _ext) = split_name(&f);
        if is_valid_name(&stem) {
            Some(string_of(&stem))
        } else {
            None
        }
    }

    /// Registers the components that `files` provide, in order.  A file whose
    /// component name is already registered is skipped; the paths of the
    /// skipped files are returned.
    pub fn discover(&mut self, files: &Vec<ComponentFile>) -> (skipped: Vec<String>)
        requires
            old(self).wf(),
        ensures
            final(self).wf(),
            final(self)@ == register_files(old(self)@, files_view(files@), 0),
            strings_view(skipped@) == skipped_from(old(self)@, files_view(files@), 0),
    {
        let ghost fs = files_view(files@);
        let mut skipped: Vec<String> = Vec::new();
        let mut i: usize = 0;
        while i < files.len()
            invariant
                i <= files.len(),
                fs == files_view(files@),
                self.wf(),
                register_files(old(self)@, fs, 0) == register_files(self@, fs, i as int),
                skipped_from(old(self)@, fs, 0) == strings_view(skipped@) + skipped_from(
                    self@,
                    fs,
                    i as int,
                ),
            decreases files.len() - i,
        {
            let f = &files[i];
            assert(fs[i as int] == (f.file_name@, f.path@));
            let ghost before = self@;
            let ghost skipped_before = strings_view(skipped@);
            match component_name(f.file_name.as_str()) {
                None => {},
                Some(name) => {
                    match self.index_of(&name) {
                        Some(_) => {
                            skipped.push(f.path.clone());
                            assert(strings_view(skipped@) =~= skipped_before.push(f.path@));
                        },
                        None => {
                            proof {
                                lemma_key_index_push(before, name@, f.path@, name@);
                            }
                            self.components.push((name, f.path.clone()));
                            assert(self@ =~= before.push((name@, f.path@)));
                        },
                    }
                },
            }
            assert(self@ == register_file(before, fs[i as int].0, fs[i as int].1));
            assert(skipped_from(old(self)@, fs, 0) =~= strings_view(skipped@) + skipped_from(
                self@,
                fs,
                i + 1,
            ));
            i = i + 1;
        }
        assert(strings_view(skipped@) + Seq::<Seq<char>>::empty() =~= strings_view(skipped@));
        skipped
    }

    /// The absolute path of component `name`, if registered.
    pub fn get(&self, name: &str) -> (r: Option<String>)
        requires
            self.wf(),
        ensures
            r matches Some(p) ==> key_index(self@, name@) matches Some(i) && self@[i].1 == p@,
            r is None ==> key_index(self@, name@) is None,
    {
        let key = name.to_owned();
        match self.index_of(&key) {
            Some(i) => Some(self.components[i].1.clone()),
            None => None,
        }
    }

    /// The names of all registered components, in the order of discovery;
    /// no name occurs twice.
    pub fn list(&self) -> (names: Vec<String>)
        requires
            self.wf(),
        ensures
            names@.map_values(|n: String| n@) == self@.map_values(
                |e: (Seq<char>, Seq<char>)| e.0,
            ),
            names@.map_values(|n: String| n@).no_duplicates(),
    {
        let mut names: Vec<String> = Vec::new();
        let mut i: usize = 0;
        while i < self.components.len()
            invariant
                i <= self.components.len(),
                names@.map_values(|n: String| n@) == self@.take(i as int).map_values(
                    |e: (Seq<char>, Seq<char>)| e.0,
                ),
            decreases self.components.len() - i,
        {
            names.push(self.components[i].0.clone());
            assert(self@.take(i + 1).map_values(|e: (Seq<char>, Seq<char>)| e.0) =~= self@.take(
                i as int,
            ).map_values(|e: (Seq<char>, Seq<char>)| e.0).push(self@[i as int].0));
            assert(names@.map_values(|n: String| n@) =~= self@.take(i + 1).map_values(
                |e: (Seq<char>, Seq<char>)| e.0,
            ));
            i = i + 1;
        }
        assert(self@.take(i as int) =~= self@);
        let ghost ns = names@.map_values(|n: String| n@);
        assert forall|a: int, b: int| 0 <= a < ns.len() && 0 <= b < ns.len() && a != b implies ns[a]
            != ns[b] by {
            assert(ns[a] == self@[a].0);
            assert(ns[b] == self@[b].0);
            if a < b {
                assert(self@[a].0 != self@[b].0);
            } else {
                assert(self@[b].0 != self@[a].0);
            }
        }
        names
    }
}


// ---------------------------------------------------------------------------
// Laws of discovery
// ---------------------------------------------------------------------------

/// Discovery only appends: every component registered before keeps its
/// position and path (the first file found under a name wins), and no name is
/// registered twice.
pub proof fn law_discovery_appends(v: RegistryModel, fs: Seq<(Seq<char>, Seq<char>)>, i: int)
    requires
        keys_unique(v),
        0 <= i,
    ensures
        v.len() <= register_files(v, fs, i).len(),
        register_files(v, fs, i).take(v.len() as int) == v,
        keys_unique(register_files(v, fs, i)),
    decreases fs.len() - i,
{
    if i < fs.len() {
        let v2 = register_file(v, fs[i].0, fs[i].1);
        match component_name_of(fs[i].0) {
            Some(n) => {
                if key_index(v, n) is None {
                    lemma_key_index_push(v, n, fs[i].1, n);
                }
            },
            None => {},
        }
        assert(v2.take(v.len() as int) =~= v);
        law_discovery_appends(v2, fs, i + 1);
        let r = register_files(v2, fs, i + 1);
        assert(r.take(v.len() as int) =~= r.take(v2.len() as int).take(v.len() as int));
    } else {
        assert(v.take(v.len() as int) =~= v);
    }
}

/// Every registered name is a valid component name, provided the names
/// registered before were.
pub proof fn law_discovered_names_valid(v: RegistryModel, fs: Seq<(Seq<char>, Seq<char>)>, i: int)
    requires
        forall|k: int| 0 <= k < v.len() ==> valid_component_name(#[trigger] v[k].0),
    ensures
        forall|k: int|
            0 <= k < register_files(v, fs, i).len() ==> valid_component_name(
                #[trigger] register_files(v, fs, i)[k].0,
            ),
    decreases fs.len() - i,
{
    if 0 <= i < fs.len() {
        let v2 = register_file(v, fs[i].0, fs[i].1);
        assert forall|k: int| 0 <= k < v2.len() implies valid_component_name(#[trigger] v2[k].0) by {
            if k < v.len() {
                assert(v2[k] == v[k]);
            }
        }
        law_discovered_names_valid(v2, fs, i + 1);
        assert(register_files(v, fs, i) == register_files(v2, fs, i + 1));
    }
}

/// Every component that a discovered file provides is registered
/// afterwards, under its name.
pub proof fn law_discovered_files_registered(
    v: RegistryModel,
    fs: Seq<(Seq<char>, Seq<char>)>,
    i: int,
    k: int,
)
    requires
        keys_unique(v),
        0 <= i <= k < fs.len(),
        component_name_of(fs[k].0) is Some,
    ensures
        key_index(register_files(v, fs, i), component_name_of(fs[k].0)->0) is Some,
    decreases k - i,
{
    let n = component_name_of(fs[k].0)->0;
    let v2 = register_file(v, fs[i].0, fs[i].1);
    match component_name_of(fs[i].0) {
        Some(m) => {
            if key_index(v, m) is None {
                lemma_key_index_push(v, m, fs[i].1, m);
            }
        },
        None => {},
    }
    if i == k {
        lemma_key_index_unique(v2, n);
        lemma_key_index_unique(v, n);
        if key_index(v, n) is None {
            lemma_key_index_push(v, n, fs[i].1, n);
        }
        assert(key_index(v2, n) is Some);
        law_discovery_appends(v2, fs, i + 1);
        let r = register_files(v2, fs, i + 1);
        let j = key_index(v2, n)->0;
        assert(r[j] == r.take(v2.len() as int)[j]);
        lemma_key_index_unique(r, n);
    } else {
        law_discovery_appends(v, fs, i);
        law_discovered_files_registered(v2, fs, i + 1, k);
    }
}

// ---------------------------------------------------------------------------
// Rendering
// ---------------------------------------------------------------------------

/// Output from server-side rendering a component.
#[derive(Debug, Clone)]
pub struct RenderedOutput {
    /// Rendered HTML string
    pub html: String,
    /// Serialized props for client hydration
    pub hydration_data: String,
}

impl RenderedOutput {
    /// Create a new RenderedOutput with both HTML and hydration data.
    pub fn new(html: String, hydration_data: String) -> (r: Self)
        ensures
            r.html == html,
            r.hydration_data == hydration_data,
    {
        RenderedOutput { html, hydration_data }
    }

    /// Create a RenderedOutput with HTML only (empty hydration data).
    pub fn with_html(html: String) -> (r: Self)
        ensures
            r.html == html,
            r.hydration_data@ == Seq::<char>::empty(),
    {
        RenderedOutput { html, hydration_data: String::new() }
    }
}

/// The renderer's reply to a render request, as read from its JSON: the
/// `error` field (as displayed), and the `html` and `hydrationData` fields
/// when they are strings.
pub struct RenderResponse {
    pub error: Option<String>,
    pub html: Option<String>,
    pub hydration_data: Option<String>,
}

/// Why a render failed.
#[derive(Debug)]
pub enum RenderError {
    /// No component of that name is registered.
    ComponentNotFound(String),
    /// The renderer reported an error.
    RenderFailed(String),
    /// The reply has no string `html` field.
    MissingHtml,
    /// The reply has no string `hydrationData` field.
    MissingHydrationData,
}

/// The text of a render error.
pub open spec fn render_error_message(e: RenderError) -> Seq<char> {
    match e {
        RenderError::ComponentNotFound(n) => "Component not found: "@ + n@,
        RenderError::RenderFailed(m) => "Component render error: "@ + m@,
        RenderError::MissingHtml => "Response missing 'html' field"@,
        RenderError::MissingHydrationData => "Response missing 'hydrationData' field"@,
    }
}

impl RenderError {
    /// The error's text, as displayed.
    pub fn message(&self) -> (m: String)
        ensures
            m@ == render_error_message(*self),
    {
        match self {
            RenderError::ComponentNotFound(n) => {
                let mut m = "Component not found: ".to_owned();
                m.append(n.as_str());
                m
            },
            RenderError::RenderFailed(e) => {
                let mut m = "Component render error: ".to_owned();
                m.append(e.as_str());
                m
            },
            RenderError::MissingHtml => "Response missing 'html' field".to_owned(),
            RenderError::MissingHydrationData => "Response missing 'hydrationData' field".to_owned(),
        }
    }
}

impl ComponentRegistry {
    /// The path of the component to render, or `ComponentNotFound`.
    pub fn path_for_render(&self, name: &str) -> (r: Result<String, RenderError>)
        requires
            self.wf(),
        ensures
            r matches Ok(p) ==> key_index(self@, name@) matches Some(i) && self@[i].1 == p@,
            r is Err ==> key_index(self@, name@) is None && (r matches Err(
                RenderError::ComponentNotFound(n),
            ) && n@ == name@),
    {
        match self.get(name) {
            Some(p) => Ok(p),
            None => Err(RenderError::ComponentNotFound(name.to_owned())),
        }
    }
}

/// Reads the renderer's reply: an error field fails the render; otherwise
/// both the `html` and the `hydrationData` strings must be there.
pub fn interpret_render_response(resp: RenderResponse) -> (r: Result<RenderedOutput, RenderError>)
    ensures
        resp.error matches Some(e) ==> r == Err::<RenderedOutput, RenderError>(
            RenderError::RenderFailed(e),
        ),
        resp.error is None && resp.html is None ==> r == Err::<RenderedOutput, RenderError>(
            RenderError::MissingHtml,
        ),
        resp.error is None && resp.html is Some && resp.hydration_data is None ==> r == Err::<
            RenderedOutput,
            RenderError,
        >(RenderError::MissingHydrationData),
        resp.error is None && resp.html is Some && resp.hydration_data is Some ==> r == Ok::<
            RenderedOutput,
            RenderError,
        >(RenderedOutput { html: resp.html->0, hydration_data: resp.hydration_data->0 }),
{
    match resp.error {
        Some(e) => Err(RenderError::RenderFailed(e)),
        None => match resp.html {
            None => Err(RenderError::MissingHtml),
            Some(html) => match resp.hydration_data {
                None => Err(RenderError::MissingHydrationData),
                Some(h) => Ok(RenderedOutput::new(html, h)),
            },
        },
    }
}


// ---------------------------------------------------------------------------
// The renderer's reply line
// ---------------------------------------------------------------------------

/// What `serde_json::from_str` makes of a reply text, read as a render
/// reply: for a JSON value, its `error` member as displayed (when present),
/// and its `html` and `hydrationData` members when they are strings; for
/// text that is not JSON, the parser's error message.
pub uninterp spec fn render_reply_of(text: Seq<char>) -> Result<
    (Option<Seq<char>>, Option<Seq<char>>, Option<Seq<char>>),
    Seq<char>,
>;

/// The model of an optional string.
pub open spec fn opt_view(o: Option<String>) -> Option<Seq<char>> {
    match o {
        Some(s) => Some(s@),
        None => None,
    }
}

/// The model of a render reply: its three members.
pub open spec fn reply_model(x: RenderResponse) -> (Option<Seq<char>>, Option<Seq<char>>, Option<Seq<char>>) {
    (opt_view(x.error), opt_view(x.html), opt_view(x.hydration_data))
}

/// Calls `serde_json::from_str::<Value>` on the reply text and reads the
/// members of the value: `get("error")` displayed with `to_string`, and the
/// `html` and `hydrationData` members through `as_str`; a parse error gives
/// its message.  The result is named `render_reply_of`.
#[verifier::external_body]
fn parse_render_reply(text: &str) -> (r: Result<RenderResponse, String>)
    ensures
        r matches Ok(x) ==> render_reply_of(text@) is Ok && render_reply_of(text@)->Ok_0
            == reply_model(x),
        r matches Err(m) ==> render_reply_of(text@) is Err && render_reply_of(text@)->Err_0
            == m@,
{
    match serde_json::from_str::<serde_json::Value>(text) {
        Ok(v) => Ok(
            RenderResponse {
                error: v.get("error").map(serde_json::Value::to_string),
                html: v["html"].as_str().map(str::to_string),
                hydration_data: v["hydrationData"].as_str().map(str::to_string),
            },
        ),
        Err(e) => Err(e.to_string()),
    }
}

/// Why a reply line gives no rendered output.
#[derive(Debug)]
pub enum ReplyError {
    /// The renderer closed its output: the line is empty.
    Empty,
    /// The line is not JSON; the parser's message is kept.
    Invalid(String),
    /// The reply reports an error or lacks a member.
    Render(RenderError),
}

impl ReplyError {
    /// The error's text, as displayed.
    pub fn message(&self) -> (m: String)
        ensures
            *self is Empty ==> m@ == "Empty response from Bun"@,
            self matches ReplyError::Invalid(e) ==> m@ == e@,
            self matches ReplyError::Render(e) ==> m@ == render_error_message(*e),
    {
        match self {
            ReplyError::Empty => "Empty response from Bun".to_owned(),
            ReplyError::Invalid(e) => e.clone(),
            ReplyError::Render(e) => e.message(),
        }
    }
}

/// Reads one line of the renderer's output: an empty line (end of output)
/// is `Empty`; otherwise the trimmed line is parsed as JSON and read as a
/// render reply (see `interpret_render_response`).
pub fn read_render_reply(line: &str) -> (r: Result<RenderedOutput, ReplyError>)
    ensures
        line@.len() == 0 ==> r matches Err(ReplyError::Empty),
        line@.len() > 0 ==> match render_reply_of(trim_seq(line@)) {
            Err(m) => r matches Err(ReplyError::Invalid(e)) && e@ == m,
            Ok((error, html, hydration)) => match error {
                Some(e) => r matches Err(ReplyError::Render(RenderError::RenderFailed(x))) && x@
                    == e,
                None => match html {
                    None => r matches Err(ReplyError::Render(RenderError::MissingHtml)),
                    Some(h) => match hydration {
                        None => r matches Err(
                            ReplyError::Render(RenderError::MissingHydrationData),
                        ),
                        Some(d) => r matches Ok(out) && out.html@ == h && out.hydration_data@
                            == d,
                    },
                },
            },
        },
{
    let chars = chars_of(line);
    if chars.len() == 0 {
        return Err(ReplyError::Empty);
    }
    let text = string_of(&trim(&chars));
    match parse_render_reply(text.as_str()) {
        Err(m) => Err(ReplyError::Invalid(m)),
        Ok(reply) => match interpret_render_response(reply) {
            Ok(out) => Ok(out),
            Err(e) => Err(ReplyError::Render(e)),
        },
    }
}

} // verus!
