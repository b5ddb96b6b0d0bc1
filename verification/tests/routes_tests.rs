use virust::routes::{
    cache_meta_type_name, cache_metadata, extract_function_types, extract_type_name,
    parse_cache_max_age, parse_route_args, route_entry, route_type_for_method_name,
    strip_arg_attributes, CacheAttrError, ParamShape, RouteArg, RouteAttribute, RouteType,
    TypeShape, TypedParam,
};

fn ty(path: &str) -> TypeShape {
    TypeShape::Path(path.split("::").map(|s| s.to_string()).collect())
}

fn param(attrs: &[&str], name: &str, t: &str) -> ParamShape {
    ParamShape::Typed(TypedParam {
        attrs: attrs.iter().map(|a| vec![a.to_string()]).collect(),
        ident: Some(name.to_string()),
        ty: ty(t),
    })
}

fn arg_summary(args: &[RouteArg]) -> Vec<(bool, String)> {
    args.iter()
        .map(|a| match a {
            RouteArg::Path { name, .. } => (true, name.clone()),
            RouteArg::Body { name, .. } => (false, name.clone()),
        })
        .collect()
}

#[test]
fn test_body_macro_expansion() {
    // #[post] async fn create_todo(#[body] payload: CreateTodoRequest) -> String
    let entry = route_entry(RouteAttribute::Post, "create_todo");
    assert_eq!(entry.name, "create_todo");
    assert_eq!(entry.route_type, RouteType::HttpPost);
    let params = vec![param(&["body"], "payload", "CreateTodoRequest")];
    let args = parse_route_args(&params);
    assert_eq!(arg_summary(&args), vec![(false, "payload".to_string())]);
    let stripped = strip_arg_attributes(params);
    match &stripped[0] {
        ParamShape::Typed(t) => assert!(t.attrs.is_empty()),
        ParamShape::Receiver => panic!("parameter changed kind"),
    }
}

#[test]
fn test_different_return() {
    // #[get] async fn get_user(#[path] id: String) -> i32
    let entry = route_entry(RouteAttribute::Get, "get_user");
    assert_eq!(entry.route_type, RouteType::HttpGet);
    let params = vec![param(&["path"], "id", "String")];
    assert_eq!(arg_summary(&parse_route_args(&params)), vec![(true, "id".to_string())]);
    let (input, output) = extract_function_types(&Some(params[0].clone()), &Some(ty("i32")));
    assert_eq!(input, "String");
    assert_eq!(output, "i32");
}

#[test]
fn test_multi_path() {
    // #[get] async fn get_user(#[param] id: String, #[param] name: String) -> String
    let params = vec![param(&["param"], "id", "String"), param(&["param"], "name", "String")];
    assert!(parse_route_args(&params).is_empty());
    let stripped = strip_arg_attributes(params);
    match &stripped[1] {
        ParamShape::Typed(t) => assert!(t.attrs.is_empty()),
        ParamShape::Receiver => panic!("parameter changed kind"),
    }
    assert_eq!(route_entry(RouteAttribute::Get, "get_user").route_type, RouteType::HttpGet);
}

#[test]
fn test_path_and_body_params() {
    let cases = [
        (RouteAttribute::Post, "update_item", RouteType::HttpPost),
        (RouteAttribute::Put, "replace_item", RouteType::HttpPut),
        (RouteAttribute::Delete, "delete_item", RouteType::HttpDelete),
        (RouteAttribute::Get, "get_item", RouteType::HttpGet),
    ];
    for (attr, name, expected) in cases {
        assert_eq!(route_entry(attr, name).route_type, expected);
        let params = vec![param(&["path"], "id", "String"), param(&["body"], "data", "UpdateRequest")];
        assert_eq!(
            arg_summary(&parse_route_args(&params)),
            vec![(true, "id".to_string()), (false, "data".to_string())]
        );
    }
}

#[test]
fn test_various_return_types() {
    let returns = [
        ("i32", "i32"),
        ("String", "String"),
        ("bool", "bool"),
        ("Vec", "Vec"),
        ("std::option::Option", "Option"),
        ("Result", "Result"),
    ];
    for (t, expected) in returns {
        let (_, output) = extract_function_types(&Some(param(&["path"], "id", "String")), &Some(ty(t)));
        assert_eq!(output, expected);
    }
}

#[test]
fn test_metadata() {
    let m = cache_metadata("max_age = 60", "test_cache_route").unwrap();
    assert_eq!(m.max_age, 60);
    assert_eq!(m.route_path, "test_cache_route");

    let m = cache_metadata("max_age = 300", "another_cache_route").unwrap();
    assert_eq!(m.max_age, 300);
    assert_eq!(m.route_path, "another_cache_route");

    let m = cache_metadata("max_age = 3600", "long_cache_route").unwrap();
    assert_eq!(m.max_age, 3600);
    assert_eq!(m.route_path, "long_cache_route");

    assert_eq!(cache_meta_type_name("test_cache_route"), "test_cache_routeCacheMeta");
}

#[test]
fn get_handlers_named_after_methods() {
    assert_eq!(route_entry(RouteAttribute::Get, "post").route_type, RouteType::HttpPost);
    assert_eq!(route_entry(RouteAttribute::Get, "Put").route_type, RouteType::HttpPut);
    assert_eq!(route_entry(RouteAttribute::Get, "delete").route_type, RouteType::HttpDelete);
    assert_eq!(route_entry(RouteAttribute::Get, "get").route_type, RouteType::HttpGet);
    assert_eq!(route_entry(RouteAttribute::Get, "index").route_type, RouteType::HttpGet);
    // The long s upper-cases to S.
    assert_eq!(route_entry(RouteAttribute::Get, "po\u{17f}t").route_type, RouteType::HttpPost);
    assert_eq!(route_entry(RouteAttribute::Ws, "chat").route_type, RouteType::WebSocket);
    assert_eq!(route_type_for_method_name("DELETE"), RouteType::HttpDelete);
    assert_eq!(route_type_for_method_name("delete"), RouteType::HttpGet);
}

#[test]
fn type_names() {
    assert_eq!(extract_type_name(&ty("a::b::C")), "C");
    assert_eq!(extract_type_name(&TypeShape::Path(Vec::new())), "any");
    assert_eq!(extract_type_name(&TypeShape::Other), "any");
    let (input, output) = extract_function_types(&None, &None);
    assert_eq!(input, "any");
    assert_eq!(output, "void");
    let (input, _) = extract_function_types(&Some(ParamShape::Receiver), &None);
    assert_eq!(input, "any");
}

#[test]
fn path_wins_over_body_and_patterns_must_be_names() {
    let both = param(&["body", "path"], "x", "String");
    assert_eq!(arg_summary(&parse_route_args(&vec![both])), vec![(true, "x".to_string())]);
    let unnamed = ParamShape::Typed(TypedParam {
        attrs: vec![vec!["path".to_string()]],
        ident: None,
        ty: ty("String"),
    });
    assert!(parse_route_args(&vec![unnamed, ParamShape::Receiver]).is_empty());
    // A qualified attribute path is not `path`.
    let qualified = ParamShape::Typed(TypedParam {
        attrs: vec![vec!["serde".to_string(), "path".to_string()]],
        ident: Some("q".to_string()),
        ty: ty("String"),
    });
    assert!(parse_route_args(&vec![qualified]).is_empty());
}

#[test]
fn cache_attribute_errors() {
    assert!(matches!(parse_cache_max_age("ttl = 300"), Err(CacheAttrError::MissingMaxAge)));
    assert!(matches!(parse_cache_max_age("max_age"), Err(CacheAttrError::MissingValue)));
    match parse_cache_max_age("max_age = soon") {
        Err(e) => {
            assert!(matches!(e, CacheAttrError::InvalidValue(ref v) if v == "soon"));
            assert_eq!(e.message(), "Invalid max_age value: 'soon'. Expected a positive integer.");
        }
        Ok(n) => panic!("parsed {}", n),
    }
    assert_eq!(
        CacheAttrError::MissingMaxAge.message(),
        "Missing max_age parameter. Usage: #[cache(max_age = 60)]"
    );
    assert_eq!(
        CacheAttrError::MissingValue.message(),
        "Missing value for max_age parameter. Usage: #[cache(max_age = 60)]"
    );
    assert_eq!(parse_cache_max_age("max_age = 60,").unwrap(), 60);
    assert_eq!(parse_cache_max_age("max_age = +7").unwrap(), 7);
    assert_eq!(parse_cache_max_age("max_age = 5 = 6").unwrap(), 5);
}

#[test]
fn other_parameter_attributes_are_kept() {
    let params = vec![param(&["allow", "path", "param", "body", "cfg_attr"], "id", "String")];
    let stripped = strip_arg_attributes(params);
    match &stripped[0] {
        ParamShape::Typed(t) => assert_eq!(
            t.attrs,
            vec![vec!["allow".to_string()], vec!["cfg_attr".to_string()]]
        ),
        ParamShape::Receiver => panic!("parameter changed kind"),
    }
}
