//! The decisions of the `virust` command-line tool: build modes, project
//! scaffolding text, and the steps of the development server.
//!
//! Running processes, watching files and touching the file system are the
//! caller's part; the functions here say what to do.

use vstd::prelude::*;
use vstd::string::*;

use crate::ssg::available_cpus;
use crate::text::{chars_eq_str, chars_of, contains_seq, lemma_find_from, occurs_at, string_of};

verus! {

/// The text of a new project's `src/main.rs` before its crate name.
pub const MAIN_RS_HEAD: &'static str = "use virust_runtime::VirustApp;\nuse std::env;\n\n#[tokio::main]\nasync fn main() -> anyhow::Result<()> {\n    let args: Vec<String> = env::args().collect();\n    let port = args.iter()\n        .position(|x| x == \"--port\")\n        .and_then(|i| args.get(i + 1))\n        .and_then(|p| p.parse::<u16>().ok())\n        .unwrap_or(3000);\n\n    let app = VirustApp::new();\n    let router = app.router();\n\n    // Register user routes from the api module\n    let router = ";

/// The text of a new project's `src/main.rs` after its crate name.
pub const MAIN_RS_TAIL: &'static str = "::api::register_routes(router);\n\n    let listener = tokio::net::TcpListener::bind(format!(\"127.0.0.1:{}\", port)).await?;\n    println!(\"\u{1F680} Server running on http://127.0.0.1:{}\", port);\n\n    axum::serve(listener, router).await?;\n\n    Ok(())\n}\n";

/// Path dependencies, before the first framework path.
pub const PATH_DEPS_1: &'static str = "[dependencies]\nvirust-runtime = { path = \"";

/// Path dependencies, between the first and second framework paths.
pub const PATH_DEPS_2: &'static str = "/crates/virust-runtime\" }\nvirust-macros = { path = \"";

/// Path dependencies, between the second and third framework paths.
pub const PATH_DEPS_3: &'static str = "/crates/virust-macros\" }\nvirust-protocol = { path = \"";

/// Path dependencies, after the third framework path.
pub const PATH_DEPS_4: &'static str = "/crates/virust-protocol\" }";

/// Dependencies on the framework's git repository.
pub const GIT_DEPS: &'static str = "[dependencies]\nvirust-runtime = { git = \"https://github.com/hangsiahong/virust.git\", branch = \"master\" }\nvirust-macros = { git = \"https://github.com/hangsiahong/virust.git\", branch = \"master\" }\nvirust-protocol = { git = \"https://github.com/hangsiahong/virust.git\", branch = \"master\" }";

/// A new project's `Cargo.toml` before its name.
pub const CARGO_TOML_HEAD: &'static str = "[package]\nname = \"";

/// A new project's `Cargo.toml` between its name and its dependencies block.
pub const CARGO_TOML_MIDDLE: &'static str = "\"\nversion = \"0.1.0\"\nedition = \"2021\"\n\n";

/// A new project's `Cargo.toml` after its dependencies block.
pub const CARGO_TOML_TAIL: &'static str = "\nserde = { version = \"1\", features = [\"derive\"] }\nserde_json = \"1\"\ntokio = { version = \"1\", features = [\"full\"] }\ninventory = \"0.3\"\naxum = \"0.7\"\nanyhow = \"1\"\nlazy_static = \"1.4\"\nchrono = \"0.4\"\nuuid = { version = \"1.0\", features = [\"v4\"] }\n";

/// The `web/package.json` that the development server writes when there is none.
pub const DEV_PACKAGE_JSON: &'static str = "{\n  \"name\": \"virust-app\",\n  \"version\": \"0.1.0\",\n  \"type\": \"module\",\n  \"scripts\": {\n    \"dev\": \"vite\",\n    \"build\": \"vite build\",\n    \"preview\": \"vite preview\"\n  },\n  \"devDependencies\": {\n    \"vite\": \"^5.0.0\"\n  }\n}";

/// The `web/package.json` written when a template writes none.
pub const MINIMAL_PACKAGE_JSON: &'static str = "{\n  \"name\": \"virust-app\",\n  \"version\": \"0.1.0\"\n}";

// ---------------------------------------------------------------------------
// virust build
// ---------------------------------------------------------------------------

/// How `virust build` builds.
#[derive(Debug, Clone, Copy, PartialEq, Eq, Structural)]
pub enum BuildMode {
    /// `cargo build` of the project.
    Cargo,
    /// Static site generation.
    Ssg,
}

/// The build mode named on the command line, if the name is known.
pub open spec fn build_mode_of(name: Seq<char>) -> Option<BuildMode> {
    if name == "ssg"@ {
        Some(BuildMode::Ssg)
    } else if name == "cargo"@ {
        Some(BuildMode::Cargo)
    } else {
        None
    }
}

/// The build mode named `name` (`ssg` or `cargo`).
pub fn parse_build_mode(name: &str) -> (r: Option<BuildMode>)
    ensures
        r == build_mode_of(name@),
{
    let n = chars_of(name);
    if chars_eq_str(&n, "ssg") {
        Some(BuildMode::Ssg)
    } else if chars_eq_str(&n, "cargo") {
        Some(BuildMode::Cargo)
    } else {
        None
    }
}

/// The output directory of a static build: the one given, or `dist`.
pub fn ssg_output_dir(output: Option<String>) -> (r: String)
    ensures
        output matches Some(o) ==> r == o,
        output is None ==> r@ == "dist"@,
{
    match output {
        Some(o) => o,
        None => "dist".to_owned(),
    }
}

/// The number of parallel jobs of a static build: the one given, or the
/// number of available CPUs (at least 1).
pub fn ssg_parallel_jobs(jobs: Option<usize>) -> (r: usize)
    ensures
        jobs matches Some(j) ==> r == j,
        jobs is None ==> r >= 1,
{
    match jobs {
        Some(j) => j,
        None => available_cpus(),
    }
}

/// The arguments of the `cargo` call that builds a project.
pub fn cargo_build_args(release: bool) -> (args: Vec<&'static str>)
    ensures
        release ==> args@.len() == 2 && args@[0]@ == "build"@ && args@[1]@ == "--release"@,
        !release ==> args@.len() == 1 && args@[0]@ == "build"@,
{
    let mut args: Vec<&'static str> = Vec::new();
    args.push("build");
    if release {
        args.push("--release");
    }
    args
}

/// Where the server binary of a build is.
pub fn server_binary_path(release: bool) -> (r: &'static str)
    ensures
        release ==> r@ == "target/release/virust-server"@,
        !release ==> r@ == "target/debug/virust-server"@,
{
    if release {
        "target/release/virust-server"
    } else {
        "target/debug/virust-server"
    }
}

// ---------------------------------------------------------------------------
// virust init
// ---------------------------------------------------------------------------

/// The project templates of `virust init`.
#[derive(Debug, Clone, Copy, PartialEq, Eq, Structural)]
pub enum TemplateKind {
    Basic,
    Chat,
    Todo,
    SsrBlog,
    SsrDashboard,
    FullstackTodo,
}

/// The template named `name`; unknown names give the basic template.
pub open spec fn template_of(name: Seq<char>) -> TemplateKind {
    if name == "chat"@ {
        TemplateKind::Chat
    } else if name == "todo"@ {
        TemplateKind::Todo
    } else if name == "ssr-blog"@ {
        TemplateKind::SsrBlog
    } else if name == "ssr-dashboard"@ {
        TemplateKind::SsrDashboard
    } else if name == "fullstack-todo"@ {
        TemplateKind::FullstackTodo
    } else {
        TemplateKind::Basic
    }
}

/// The template named `name`.
pub fn template_kind(name: &str) -> (t: TemplateKind)
    ensures
        t == template_of(name@),
{
    let n = chars_of(name);
    if chars_eq_str(&n, "chat") {
        TemplateKind::Chat
    } else if chars_eq_str(&n, "todo") {
        TemplateKind::Todo
    } else if chars_eq_str(&n, "ssr-blog") {
        TemplateKind::SsrBlog
    } else if chars_eq_str(&n, "ssr-dashboard") {
        TemplateKind::SsrDashboard
    } else if chars_eq_str(&n, "fullstack-todo") {
        TemplateKind::FullstackTodo
    } else {
        TemplateKind::Basic
    }
}

/// A project name as a crate name: every `-` becomes `_`.
pub open spec fn crate_name_of(name: Seq<char>) -> Seq<char> {
    name.map_values(|c: char| if c == '-' { '_' } else { c })
}

/// The crate name of project `name`.
pub fn crate_name(name: &str) -> (r: String)
    ensures
        r@ == crate_name_of(name@),
{
    let n = chars_of(name);
    let mut out: Vec<char> = Vec::new();
    let mut i: usize = 0;
    while i < n.len()
        invariant
            i <= n.len(),
            out@ == crate_name_of(n@.take(i as int)),
        decreases n.len() - i,
    {
        let c = n[i];
        out.push(if c == '-' { '_' } else { c });
        assert(crate_name_of(n@.take(i + 1)) =~= crate_name_of(n@.take(i as int)).push(
            if c == '-' { '_' } else { c },
        ));
        i = i + 1;
    }
    assert(n@.take(i as int) =~= n@);
    string_of(&out)
}

/// The `[dependencies]` block naming the framework's crates: by path under
/// `virust_path` when it is given, from the git repository otherwise.
pub open spec fn dependencies_text(virust_path: Option<Seq<char>>) -> Seq<char> {
    match virust_path {
        Some(p) => PATH_DEPS_1@ + p + PATH_DEPS_2@ + p + PATH_DEPS_3@ + p + PATH_DEPS_4@,
        None => GIT_DEPS@,
    }
}

/// An occurrence in the middle part of `a + b + c` is an occurrence in the
/// whole, shifted by `a`'s length; and any occurrence means `contains_seq`.
proof fn lemma_contains_middle(a: Seq<char>, b: Seq<char>, c: Seq<char>, pat: Seq<char>, k: int)
    requires
        occurs_at(b, pat, k),
    ensures
        contains_seq(a + b + c, pat),
{
    let s = a + b + c;
    let i = a.len() + k;
    assert(s.subrange(i, i + pat.len()) =~= b.subrange(k, k + pat.len()));
    assert(occurs_at(s, pat, i));
    lemma_find_from(s, pat, 0);
}

/// Both forms of the dependencies block name all three framework crates:
/// `virust-runtime`, `virust-macros` and `virust-protocol`.
pub proof fn law_dependencies_name_all_crates(virust_path: Option<Seq<char>>)
    ensures
        contains_seq(dependencies_text(virust_path), "virust-runtime = "@),
        contains_seq(dependencies_text(virust_path), "virust-macros = "@),
        contains_seq(dependencies_text(virust_path), "virust-protocol = "@),
{
    reveal_strlit("virust-runtime = ");
    reveal_strlit("virust-macros = ");
    reveal_strlit("virust-protocol = ");
    reveal_strlit("[dependencies]\nvirust-runtime = { git = \"https://github.com/hangsiahong/virust.git\", branch = \"master\" }\nvirust-macros = { git = \"https://github.com/hangsiahong/virust.git\", branch = \"master\" }\nvirust-protocol = { git = \"https://github.com/hangsiahong/virust.git\", branch = \"master\" }");
    reveal_strlit("[dependencies]\nvirust-runtime = { path = \"");
    reveal_strlit("/crates/virust-runtime\" }\nvirust-macros = { path = \"");
    reveal_strlit("/crates/virust-macros\" }\nvirust-protocol = { path = \"");
    let e = Seq::<char>::empty();
    match virust_path {
        None => {
            let g = GIT_DEPS@;
            assert(g.subrange(15, 32) =~= "virust-runtime = "@);
            assert(g.subrange(105, 121) =~= "virust-macros = "@);
            assert(g.subrange(194, 212) =~= "virust-protocol = "@);
            assert(e + g + e =~= g);
            lemma_contains_middle(e, g, e, "virust-runtime = "@, 15);
            lemma_contains_middle(e, g, e, "virust-macros = "@, 105);
            lemma_contains_middle(e, g, e, "virust-protocol = "@, 194);
        },
        Some(p) => {
            let d1 = PATH_DEPS_1@;
            let d2 = PATH_DEPS_2@;
            let d3 = PATH_DEPS_3@;
            let d4 = PATH_DEPS_4@;
            let t = dependencies_text(virust_path);
            assert(d1.subrange(15, 32) =~= "virust-runtime = "@);
            assert(d2.subrange(26, 42) =~= "virust-macros = "@);
            assert(d3.subrange(25, 43) =~= "virust-protocol = "@);
            assert(t =~= e + d1 + (p + d2 + p + d3 + p + d4));
            lemma_contains_middle(e, d1, p + d2 + p + d3 + p + d4, "virust-runtime = "@, 15);
            assert(t =~= (d1 + p) + d2 + (p + d3 + p + d4));
            lemma_contains_middle(d1 + p, d2, p + d3 + p + d4, "virust-macros = "@, 26);
            assert(t =~= (d1 + p + d2 + p) + d3 + (p + d4));
            lemma_contains_middle(d1 + p + d2 + p, d3, p + d4, "virust-protocol = "@, 25);
        },
    }
}

/// The `[dependencies]` block of a new project.
pub fn dependencies_block(virust_path: Option<&str>) -> (r: String)
    ensures
        r@ == dependencies_text(match virust_path {
            Some(p) => Some(p@),
            None => None,
        }),
{
    match virust_path {
        Some(p) => {
            let mut r = PATH_DEPS_1.to_owned();
            r.append(p);
            r.append(PATH_DEPS_2);
            r.append(p);
            r.append(PATH_DEPS_3);
            r.append(p);
            r.append(PATH_DEPS_4);
            r
        },
        None => GIT_DEPS.to_owned(),
    }
}

/// The `Cargo.toml` of a new project named `name`.
pub open spec fn cargo_toml_text(name: Seq<char>, dependencies: Seq<char>) -> Seq<char> {
    CARGO_TOML_HEAD@ + name + CARGO_TOML_MIDDLE@ + dependencies + CARGO_TOML_TAIL@
}

/// The `Cargo.toml` of a new project named `name` with the given
/// dependencies block.
pub fn cargo_toml(name: &str, dependencies: &str) -> (r: String)
    ensures
        r@ == cargo_toml_text(name@, dependencies@),
{
    let mut r = CARGO_TOML_HEAD.to_owned();
    r.append(name);
    r.append(CARGO_TOML_MIDDLE);
    r.append(dependencies);
    r.append(CARGO_TOML_TAIL);
    r
}

/// The `src/main.rs` of a new project named `name`.
pub open spec fn main_rs_text(name: Seq<char>) -> Seq<char> {
    MAIN_RS_HEAD@ + crate_name_of(name) + MAIN_RS_TAIL@
}

/// The `src/main.rs` of a new project named `name`.
pub fn main_rs(name: &str) -> (r: String)
    ensures
        r@ == main_rs_text(name@),
{
    let krate = crate_name(name);
    let mut r = MAIN_RS_HEAD.to_owned();
    r.append(krate.as_str());
    r.append(MAIN_RS_TAIL);
    r
}

/// The `web/package.json` written when a template writes none.
pub fn minimal_package_json() -> (r: &'static str)
    ensures
        r@ == MINIMAL_PACKAGE_JSON@,
{
    MINIMAL_PACKAGE_JSON
}

// ---------------------------------------------------------------------------
// Development server
// ---------------------------------------------------------------------------

/// Why the development server does not start.
#[derive(Debug, Clone, Copy, PartialEq, Eq, Structural)]
pub enum DevStartError {
    /// There is no `Cargo.toml`.
    NotAProject,
    /// There is no `web` directory.
    NoWebDir,
}

/// What the development server prepares before it starts.
#[derive(Debug, Clone, Copy, PartialEq, Eq, Structural)]
pub struct DevSetup {
    /// Write a default `web/package.json`.
    pub create_package_json: bool,
    /// Run `npm install` in `web`.
    pub install_dependencies: bool,
}

/// The preparation the development server needs, given which of
/// `Cargo.toml`, `web`, `web/package.json` and `web/node_modules` exist.
pub fn dev_setup(
    has_cargo_toml: bool,
    has_web_dir: bool,
    has_package_json: bool,
    has_node_modules: bool,
) -> (r: Result<DevSetup, DevStartError>)
    ensures
        !has_cargo_toml ==> r == Err::<DevSetup, DevStartError>(DevStartError::NotAProject),
        has_cargo_toml && !has_web_dir ==> r == Err::<DevSetup, DevStartError>(
            DevStartError::NoWebDir,
        ),
        has_cargo_toml && has_web_dir ==> r == Ok::<DevSetup, DevStartError>(
            DevSetup {
                create_package_json: !has_package_json,
                install_dependencies: !has_node_modules,
            },
        ),
{
    if !has_cargo_toml {
        Err(DevStartError::NotAProject)
    } else if !has_web_dir {
        Err(DevStartError::NoWebDir)
    } else {
        Ok(
            DevSetup {
                create_package_json: !has_package_json,
                install_dependencies: !has_node_modules,
            },
        )
    }
}

/// The default `web/package.json` of the development server.
pub fn default_package_json() -> (r: &'static str)
    ensures
        r@ == DEV_PACKAGE_JSON@,
{
    DEV_PACKAGE_JSON
}

/// What happened since the development server last looked.
#[derive(Debug, Clone, Copy, PartialEq, Eq, Structural)]
pub enum DevEvent {
    /// A watched file changed.
    FileChanged,
    /// The backend process exited, successfully or not.
    BackendExited { success: bool },
    /// Nothing happened.
    Idle,
}

/// What the development server does next.
#[derive(Debug, Clone, Copy, PartialEq, Eq, Structural)]
pub enum DevAction {
    /// Stop the backend and start it again.
    RestartBackend,
    /// Start the backend (it is not running).
    StartBackend,
    /// Keep going.
    Continue,
}

/// The development server stops: the backend failed.
#[derive(Debug, Clone, Copy, PartialEq, Eq, Structural)]
pub enum DevStopped {
    BackendFailed,
}

/// One step of the development server's loop: a changed file restarts the
/// backend; a backend that exited successfully is started again, one that
/// failed stops the server.
pub fn dev_step(event: DevEvent) -> (r: Result<DevAction, DevStopped>)
    ensures
        event == DevEvent::FileChanged ==> r == Ok::<DevAction, DevStopped>(
            DevAction::RestartBackend,
        ),
        event == (DevEvent::BackendExited { success: true }) ==> r == Ok::<DevAction, DevStopped>(
            DevAction::StartBackend,
        ),
        event == (DevEvent::BackendExited { success: false }) ==> r == Err::<
            DevAction,
            DevStopped,
        >(DevStopped::BackendFailed),
        event == DevEvent::Idle ==> r == Ok::<DevAction, DevStopped>(DevAction::Continue),
{
    match event {
        DevEvent::FileChanged => Ok(DevAction::RestartBackend),
        DevEvent::BackendExited { success } => if success {
            Ok(DevAction::StartBackend)
        } else {
            Err(DevStopped::BackendFailed)
        },
        DevEvent::Idle => Ok(DevAction::Continue),
    }
}

/// What happened while `virust dev` runs the project.
pub enum SessionEvent {
    /// A component file changed; its name is given.
    ComponentChanged(String),
    /// The user interrupted the server.
    Interrupted,
    /// `cargo run` exited, successfully or not.
    ProjectExited { success: bool },
}

/// What `virust dev` does next.
pub enum SessionAction {
    /// Tell connected pages that the named component changed.
    ReloadComponent(String),
    /// Stop the project and end the session successfully.
    Shutdown,
    /// End the session successfully.
    Finish,
    /// End the session with an error: the project failed.
    Fail,
}

/// One step of `virust dev`: a changed component is announced for reload;
/// an interrupt shuts the project down; the project's exit ends the session,
/// with an error when it failed.
pub fn session_step(event: SessionEvent) -> (r: SessionAction)
    ensures
        event matches SessionEvent::ComponentChanged(n) ==> r == SessionAction::ReloadComponent(n),
        event is Interrupted ==> r is Shutdown,
        event == (SessionEvent::ProjectExited { success: true }) ==> r is Finish,
        event == (SessionEvent::ProjectExited { success: false }) ==> r is Fail,
{
    match event {
        SessionEvent::ComponentChanged(n) => SessionAction::ReloadComponent(n),
        SessionEvent::Interrupted => SessionAction::Shutdown,
        SessionEvent::ProjectExited { success } => if success {
            SessionAction::Finish
        } else {
            SessionAction::Fail
        },
    }
}

} // verus!
