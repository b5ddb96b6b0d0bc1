use virust::ssg::{
    discover_ssg_routes, extract_handler_name, extract_revalidate, is_route_file, page_dir,
    page_html, parse_ssg_route, path_to_route, RouteSource, SsgBuilder, SsgRoute,
};

/// The components of an absolute path, as `Path::components` gives them.
fn comps(path: &str) -> Vec<String> {
    let mut v = vec!["/".to_string()];
    v.extend(path.split('/').filter(|s| !s.is_empty()).map(|s| s.to_string()));
    v
}

fn source(path: &str, content: &str) -> RouteSource {
    RouteSource { components: comps(path), content: content.to_string() }
}

#[test]
fn test_discover_ssg_routes() {
    let files = vec![source(
        "/tmp/test_ssg_discovery/api/blog/[slug]/route.rs",
        r#"
use virust_macros::{get, ssg};

#[get]
#[ssg(revalidate = 60)]
pub async fn get_blog_post() -> String {
    "test".to_string()
}
"#,
    )];

    let routes = discover_ssg_routes(&files);

    assert_eq!(routes.len(), 1);
    assert_eq!(routes[0].path, "/blog/:slug");
    assert_eq!(routes[0].handler, "get_blog_post");
    assert_eq!(routes[0].revalidate, Some(60));
}

#[test]
fn test_discover_multiple_routes() {
    let files = vec![
        source(
            "/tmp/test_ssg_multiple/api/home/route.rs",
            "\n#[ssg]\npub async fn get_home() -> String {\n    \"home\".to_string()\n}\n",
        ),
        source(
            "/tmp/test_ssg_multiple/api/blog/[id]/route.rs",
            r#"
#[ssg(revalidate = 3600)]
pub async fn get_blog() -> String {
    "blog".to_string()
}
"#,
        ),
    ];

    let routes = discover_ssg_routes(&files);

    assert_eq!(routes.len(), 2);

    let home = routes.iter().find(|r| r.path == "/home").unwrap();
    assert_eq!(home.handler, "get_home");
    assert_eq!(home.revalidate, None);

    let blog = routes.iter().find(|r| r.path == "/blog/:id").unwrap();
    assert_eq!(blog.handler, "get_blog");
    assert_eq!(blog.revalidate, Some(3600));
}

#[test]
fn test_path_to_route_conversion() {
    let files = vec![
        source(
            "/tmp/test_path_conversion/api/about/route.rs",
            "\n#[ssg]\npub async fn about() -> String {\n    \"about\".to_string()\n}\n",
        ),
        source(
            "/tmp/test_path_conversion/api/users/[userId]/posts/[postId]/route.rs",
            "\n#[ssg]\npub async fn get_post() -> String {\n    \"post\".to_string()\n}\n",
        ),
    ];

    let routes = discover_ssg_routes(&files);

    assert_eq!(routes.len(), 2);

    let about = routes.iter().find(|r| r.path == "/about").unwrap();
    assert_eq!(about.handler, "about");

    let post = routes.iter().find(|r| r.path == "/users/:userId/posts/:postId").unwrap();
    assert_eq!(post.handler, "get_post");
}

#[test]
fn path_to_route_examples() {
    assert_eq!(path_to_route(&comps("/home/user/api/blog/[slug]/route.rs")), "/blog/:slug");
    assert_eq!(path_to_route(&comps("api/about/route.rs")), "/about");
    assert_eq!(path_to_route(&comps("/srv/api/route.rs")), "/");
    // Components before `api` are dropped, and so is any later `api`.
    assert_eq!(path_to_route(&comps("/x/api/v1/api/items/route.rs")), "/v1/items");
    // Without `api` nothing is kept.
    assert_eq!(path_to_route(&comps("/blog/[slug]/route.rs")), "/");
    // `[]` is an empty parameter.
    assert_eq!(path_to_route(&comps("/api/[]/route.rs")), "/:");
    // `route.rs` ends the route.
    assert_eq!(path_to_route(&comps("/api/a/route.rs/b")), "/a");
}

#[test]
fn handler_names() {
    assert_eq!(
        extract_handler_name("fn helper() {}\n  pub async fn list_items(x: u8) {}\npub async fn other() {}"),
        Some("list_items".to_string())
    );
    assert_eq!(extract_handler_name("async fn hidden() {}"), None);
    // The name may be empty when nothing identifier-like follows.
    assert_eq!(extract_handler_name("pub async fn (x)"), Some(String::new()));
    assert_eq!(extract_handler_name("\tpub async fn\u{3000}spaced_out() {}"), Some("spaced_out".to_string()));
}

#[test]
fn revalidate_times() {
    assert_eq!(extract_revalidate("#[ssg(revalidate = 60)]"), Some(60));
    assert_eq!(extract_revalidate("#[ssg]\n#[ssg(revalidate = 3600)]"), Some(3600));
    // The number must follow `revalidate = ` exactly.
    assert_eq!(extract_revalidate("#[ssg(revalidate=60)]"), None);
    // The first line that parses wins; lines that do not parse are passed over.
    assert_eq!(extract_revalidate("#[ssg(revalidate = x)]\r\n#[ssg(revalidate = 5)]"), Some(5));
    // Values beyond u64 do not parse.
    assert_eq!(extract_revalidate("#[ssg(revalidate = 18446744073709551616)]"), None);
    assert_eq!(extract_revalidate("#[ssg(revalidate = 18446744073709551615)]"), Some(u64::MAX));
    // Non-ASCII numerals are numeric but do not parse.
    assert_eq!(extract_revalidate("#[ssg(revalidate = ٣)]"), None);
    assert_eq!(extract_revalidate("// revalidate = 10"), None);
}

#[test]
fn parse_route_needs_the_ssg_marker() {
    let path = comps("/p/api/x/route.rs");
    assert!(parse_ssg_route("pub async fn x() {}", &path).is_none());
    let plain: SsgRoute = parse_ssg_route("#[ssg]\nasync fn x() {}", &path).unwrap();
    assert_eq!(plain.path, "/x");
    assert_eq!(plain.handler, "");
    let bare: SsgRoute = parse_ssg_route("#[ssg]", &path).unwrap();
    assert_eq!(bare.handler, "");
    assert_eq!(bare.revalidate, None);
    let r: SsgRoute = parse_ssg_route("#[ssg]\npub async fn x() {}", &path).unwrap();
    assert_eq!(r.path, "/x");
    assert_eq!(r.handler, "x");
    assert_eq!(r.revalidate, None);
}

#[test]
fn only_route_files_are_read() {
    assert!(is_route_file(&comps("/a/api/route.rs")));
    assert!(!is_route_file(&comps("/a/api/routes.rs")));
    assert!(!is_route_file(&Vec::new()));
    let files = vec![source("/a/api/x/mod.rs", "#[ssg]\npub async fn x() {}")];
    assert!(discover_ssg_routes(&files).is_empty());
}

#[test]
fn pages_and_stats() {
    assert_eq!(page_dir("/test"), "test");
    assert_eq!(page_dir("//a/b"), "a/b");
    assert_eq!(page_dir("/"), "");
    assert_eq!(
        page_html("/test"),
        "<!DOCTYPE html>\n<html>\n<head><title>/test</title></head>\n<body><h1>SSG Page: /test</h1></body>\n</html>"
    );

    let mut builder = SsgBuilder::new("/tmp/out".to_string());
    assert!(builder.parallel_jobs >= 1);
    assert_eq!(builder.output_dir, "/tmp/out");
    builder.routes.push(SsgRoute { path: "/a".to_string(), handler: "a".to_string(), revalidate: Some(60) });
    builder.routes.push(SsgRoute { path: "/b".to_string(), handler: "b".to_string(), revalidate: None });
    builder.routes.push(SsgRoute { path: "/c".to_string(), handler: "c".to_string(), revalidate: None });
    assert_eq!(builder.isr_route_count(), 1);
    let stats = builder.summarize(&vec![true, false, true], 12);
    assert_eq!(stats.pages_built, 2);
    assert_eq!(stats.pages_failed, 1);
    assert_eq!(stats.build_time_ms, 12);
    assert_eq!(stats.routes_with_isr, 1);
    assert_eq!(stats.pages_built + stats.pages_failed, builder.routes.len());
}
