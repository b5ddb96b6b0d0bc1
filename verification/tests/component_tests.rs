use virust::component::{
    component_name, interpret_render_response, is_valid_extension, ComponentFile,
    ComponentRegistry, RenderError, RenderResponse, RenderedOutput, read_render_reply, ReplyError,
};

fn file(dir: &str, name: &str) -> ComponentFile {
    ComponentFile { file_name: name.to_string(), path: format!("{}/{}", dir, name) }
}

#[test]
fn test_new_registry() {
    let registry = ComponentRegistry::new();
    assert_eq!(registry.list().len(), 0);
}

#[test]
fn test_component_count_empty() {
    let registry = ComponentRegistry::new();
    assert_eq!(registry.list().len(), 0);
}

#[test]
fn test_discover_components() {
    let dir = "/tmp/web/components";
    let mut registry = ComponentRegistry::new();
    registry.discover(&vec![file(dir, "App.jsx"), file(dir, "LikeButton.jsx")]);

    assert_eq!(registry.list().len(), 2);
    assert!(registry.get("App").is_some());
    assert!(registry.get("LikeButton").is_some());
    assert!(registry.get("NonExistent").is_none());
}

#[test]
fn test_nested_components() {
    let dir = "/tmp/web/components/ui";
    let mut registry = ComponentRegistry::new();
    registry.discover(&vec![file(dir, "Header.tsx"), file(dir, "Footer.tsx")]);

    assert_eq!(registry.list().len(), 2);
    assert!(registry.get("Header").is_some());
    assert!(registry.get("Footer").is_some());
}

#[test]
fn test_ignore_non_component_files() {
    let dir = "/tmp/web/components";
    let mut registry = ComponentRegistry::new();
    registry.discover(&vec![
        file(dir, "App.jsx"),
        file(dir, "styles.css"),
        file(dir, "config.json"),
        file(dir, "README.md"),
    ]);

    assert_eq!(registry.list().len(), 1);
    assert!(registry.get("App").is_some());
    assert!(registry.get("styles").is_none());
    assert!(registry.get("config").is_none());
    assert!(registry.get("README").is_none());
}

#[test]
fn test_case_insensitive_extensions() {
    let dir = "/tmp/web/components";
    let mut registry = ComponentRegistry::new();
    registry.discover(&vec![
        file(dir, "ComponentJSX.JSX"),
        file(dir, "ComponentTSX.TSX"),
        file(dir, "MixedCase.JsX"),
    ]);

    assert_eq!(registry.list().len(), 3);
    assert!(registry.get("ComponentJSX").is_some());
    assert!(registry.get("ComponentTSX").is_some());
    assert!(registry.get("MixedCase").is_some());
}

#[test]
fn test_invalid_component_names() {
    let dir = "/tmp/web/components";
    let mut registry = ComponentRegistry::new();
    registry.discover(&vec![
        file(dir, "Valid.jsx"),
        file(dir, "123Invalid.jsx"),
        file(dir, "Invalid-Name.jsx"),
        file(dir, ".jsx"),
    ]);

    assert_eq!(registry.list().len(), 1);
    assert!(registry.get("Valid").is_some());
    assert!(registry.get("123Invalid").is_none());
    assert!(registry.get("Invalid-Name").is_none());
}

#[test]
fn test_new_rendered_output() {
    let html = "<div>Hello World</div>".to_string();
    let hydration_data = r#"{"props":{"name":"World"}}"#.to_string();

    let output = RenderedOutput::new(html.clone(), hydration_data.clone());

    assert_eq!(output.html, html);
    assert_eq!(output.hydration_data, hydration_data);
}

#[test]
fn test_with_html() {
    let html = "<div>Static Content</div>".to_string();

    let output = RenderedOutput::with_html(html.clone());

    assert_eq!(output.html, html);
    assert_eq!(output.hydration_data, "");
}

#[test]
fn duplicate_names_keep_the_first_file() {
    let mut registry = ComponentRegistry::new();
    let skipped = registry.discover(&vec![
        file("/a", "Card.jsx"),
        file("/b", "Card.tsx"),
        file("/c", "Other.ts"),
    ]);
    assert_eq!(skipped, vec!["/b/Card.tsx".to_string()]);
    assert_eq!(registry.get("Card"), Some("/a/Card.jsx".to_string()));
    assert_eq!(registry.list(), vec!["Card".to_string(), "Other".to_string()]);
    // A later discovery keeps what was registered.
    let skipped = registry.discover(&vec![file("/d", "Card.js"), file("/d", "New.js")]);
    assert_eq!(skipped, vec!["/d/Card.js".to_string()]);
    assert_eq!(registry.get("Card"), Some("/a/Card.jsx".to_string()));
    assert_eq!(registry.list().len(), 3);
}

#[test]
fn component_names_from_file_names() {
    assert_eq!(component_name("App.jsx"), Some("App".to_string()));
    assert_eq!(component_name("my_widget2.ts"), Some("my_widget2".to_string()));
    // Split at the last dot: the stem keeps its own dot and is refused.
    assert_eq!(component_name("App.test.jsx"), None);
    assert_eq!(component_name("App"), None);
    assert_eq!(component_name(".jsx"), None);
    assert_eq!(component_name("App.jsx.bak"), None);
    assert_eq!(component_name("_private.jsx"), None);
    // Unicode letters are letters.
    assert_eq!(component_name("Ünïcode.tsx"), Some("Ünïcode".to_string()));
    assert_eq!(component_name("App."), None);
}

#[test]
fn extensions_ignore_case() {
    assert!(is_valid_extension("jsx"));
    assert!(is_valid_extension("JS"));
    assert!(is_valid_extension("tSx"));
    assert!(is_valid_extension("TS"));
    assert!(!is_valid_extension("css"));
    assert!(!is_valid_extension("jsxx"));
    assert!(!is_valid_extension(""));
}

#[test]
fn extract_component_name_checks_the_stem() {
    let registry = ComponentRegistry::new();
    assert_eq!(registry.extract_component_name("Header.tsx"), Some("Header".to_string()));
    assert_eq!(registry.extract_component_name("9lives.tsx"), None);
    assert_eq!(registry.extract_component_name("a-b.tsx"), None);
}

#[test]
fn render_replies() {
    let ok = interpret_render_response(RenderResponse {
        error: None,
        html: Some("<p>hi</p>".to_string()),
        hydration_data: Some("{}".to_string()),
    })
    .unwrap();
    assert_eq!(ok.html, "<p>hi</p>");
    assert_eq!(ok.hydration_data, "{}");

    let err = interpret_render_response(RenderResponse {
        error: Some("\"boom\"".to_string()),
        html: Some("<p>hi</p>".to_string()),
        hydration_data: Some("{}".to_string()),
    })
    .unwrap_err();
    assert_eq!(err.message(), "Component render error: \"boom\"");

    let err = interpret_render_response(RenderResponse {
        error: None,
        html: None,
        hydration_data: Some("{}".to_string()),
    })
    .unwrap_err();
    assert!(matches!(err, RenderError::MissingHtml));
    assert_eq!(err.message(), "Response missing 'html' field");

    let err = interpret_render_response(RenderResponse {
        error: None,
        html: Some("x".to_string()),
        hydration_data: None,
    })
    .unwrap_err();
    assert!(matches!(err, RenderError::MissingHydrationData));
    assert_eq!(err.message(), "Response missing 'hydrationData' field");
}

#[test]
fn render_needs_a_registered_component() {
    let mut registry = ComponentRegistry::new();
    registry.discover(&vec![file("/w/components", "Hello.jsx")]);
    assert_eq!(registry.path_for_render("Hello").unwrap(), "/w/components/Hello.jsx");
    let err = registry.path_for_render("Missing").unwrap_err();
    assert_eq!(err.message(), "Component not found: Missing");
}

#[test]
fn reply_lines_are_read() {
    let out = read_render_reply("{\"html\":\"<p>Hi</p>\",\"hydrationData\":\"{}\"}\n").unwrap();
    assert_eq!(out.html, "<p>Hi</p>");
    assert_eq!(out.hydration_data, "{}");

    assert!(matches!(read_render_reply(""), Err(ReplyError::Empty)));
    assert_eq!(read_render_reply("").unwrap_err().message(), "Empty response from Bun");
    assert!(matches!(read_render_reply("not json\n"), Err(ReplyError::Invalid(_))));

    match read_render_reply("{\"error\":\"boom\"}\n") {
        Err(ReplyError::Render(RenderError::RenderFailed(e))) => assert_eq!(e, "\"boom\""),
        _ => panic!("expected a render failure"),
    }
    assert!(matches!(
        read_render_reply("{\"hydrationData\":\"{}\"}"),
        Err(ReplyError::Render(RenderError::MissingHtml))
    ));
    assert!(matches!(
        read_render_reply("{\"html\":\"x\",\"hydrationData\":7}"),
        Err(ReplyError::Render(RenderError::MissingHydrationData))
    ));
    assert!(matches!(read_render_reply("[1, 2]"), Err(ReplyError::Render(RenderError::MissingHtml))));
}
