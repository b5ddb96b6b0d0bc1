use virust::cli::{
    cargo_build_args, cargo_toml, crate_name, default_package_json, dependencies_block,
    dev_setup, dev_step, main_rs, minimal_package_json, parse_build_mode, server_binary_path,
    session_step, ssg_output_dir, ssg_parallel_jobs, template_kind, BuildMode, DevAction,
    DevEvent, DevSetup, DevStartError, DevStopped, SessionAction, SessionEvent, TemplateKind,
};

#[test]
fn build_modes() {
    assert_eq!(parse_build_mode("ssg"), Some(BuildMode::Ssg));
    assert_eq!(parse_build_mode("cargo"), Some(BuildMode::Cargo));
    assert_eq!(parse_build_mode("SSG"), None);
    assert_eq!(ssg_output_dir(None), "dist");
    assert_eq!(ssg_output_dir(Some("out".to_string())), "out");
    assert_eq!(ssg_parallel_jobs(Some(3)), 3);
    assert!(ssg_parallel_jobs(None) >= 1);
    assert_eq!(cargo_build_args(true), vec!["build", "--release"]);
    assert_eq!(cargo_build_args(false), vec!["build"]);
    assert_eq!(server_binary_path(true), "target/release/virust-server");
    assert_eq!(server_binary_path(false), "target/debug/virust-server");
}

#[test]
fn templates_and_names() {
    assert_eq!(template_kind("chat"), TemplateKind::Chat);
    assert_eq!(template_kind("todo"), TemplateKind::Todo);
    assert_eq!(template_kind("ssr-blog"), TemplateKind::SsrBlog);
    assert_eq!(template_kind("ssr-dashboard"), TemplateKind::SsrDashboard);
    assert_eq!(template_kind("fullstack-todo"), TemplateKind::FullstackTodo);
    assert_eq!(template_kind("anything"), TemplateKind::Basic);
    assert_eq!(crate_name("my-cool-app"), "my_cool_app");
    assert_eq!(crate_name("plain"), "plain");
}

#[test]
fn scaffolding_text() {
    let deps = dependencies_block(Some("/src/virust"));
    assert_eq!(
        deps,
        "[dependencies]\nvirust-runtime = { path = \"/src/virust/crates/virust-runtime\" }\nvirust-macros = { path = \"/src/virust/crates/virust-macros\" }\nvirust-protocol = { path = \"/src/virust/crates/virust-protocol\" }"
    );
    let git = dependencies_block(None);
    assert!(git.starts_with("[dependencies]\nvirust-runtime = { git = "));
    let toml = cargo_toml("my-app", &git);
    assert!(toml.starts_with("[package]\nname = \"my-app\"\nversion = \"0.1.0\"\nedition = \"2021\"\n\n[dependencies]"));
    assert!(toml.ends_with("uuid = { version = \"1.0\", features = [\"v4\"] }\n"));
    let main = main_rs("my-app");
    assert!(main.contains("let router = my_app::api::register_routes(router);"));
    assert!(main.contains("println!(\"\u{1F680} Server running on http://127.0.0.1:{}\", port);"));
    assert_eq!(minimal_package_json(), "{\n  \"name\": \"virust-app\",\n  \"version\": \"0.1.0\"\n}");
    assert!(default_package_json().contains("\"vite\": \"^5.0.0\""));
}

#[test]
fn dev_server_decisions() {
    assert_eq!(dev_setup(false, true, true, true), Err(DevStartError::NotAProject));
    assert_eq!(dev_setup(true, false, true, true), Err(DevStartError::NoWebDir));
    assert_eq!(
        dev_setup(true, true, false, true),
        Ok(DevSetup { create_package_json: true, install_dependencies: false })
    );
    assert_eq!(dev_step(DevEvent::FileChanged), Ok(DevAction::RestartBackend));
    assert_eq!(dev_step(DevEvent::BackendExited { success: true }), Ok(DevAction::StartBackend));
    assert_eq!(dev_step(DevEvent::BackendExited { success: false }), Err(DevStopped::BackendFailed));
    assert_eq!(dev_step(DevEvent::Idle), Ok(DevAction::Continue));
    assert!(matches!(
        session_step(SessionEvent::ComponentChanged("Nav".to_string())),
        SessionAction::ReloadComponent(ref n) if n == "Nav"
    ));
    assert!(matches!(session_step(SessionEvent::Interrupted), SessionAction::Shutdown));
    assert!(matches!(session_step(SessionEvent::ProjectExited { success: true }), SessionAction::Finish));
    assert!(matches!(session_step(SessionEvent::ProjectExited { success: false }), SessionAction::Fail));
}
