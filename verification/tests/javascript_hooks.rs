use igniter_js::parsers::javascript::phoenix::{
    extend_hook_object_to_ast, find_live_socket_node_from_ast, remove_objects_of_hooks_from_ast,
};

#[test]
fn test_extend_hook_object_to_ast() {
    let code = r#"
        let liveSocket = new LiveSocket("/live", Socket, {
          hooks: { ...Hooks, CopyMixInstallationHook },
          longPollFallbackMs: 2500,
          params: { _csrf_token: csrfToken },
        });
        "#;

    let new_objects = vec!["ObjectOne", "CopyMixInstallationHook", "ObjectTwo"];
    let result = extend_hook_object_to_ast(code, new_objects);
    assert!(result.is_ok());

    let code = r#"
        let NoneSocket = new LiveSocket("/live", Socket, {
          hooks: { ...Hooks, CopyMixInstallationHook },
          longPollFallbackMs: 2500,
          params: { _csrf_token: csrfToken },
        });
        "#;

    let new_objects = vec!["ObjectOne", "CopyMixInstallationHook", "ObjectTwo"];
    let result = extend_hook_object_to_ast(code, new_objects);
    assert!(result.is_err());

    let code = r#"
        let liveSocket = new LiveNoneSocket("/live", Socket, {
          hooks: { ...Hooks, CopyMixInstallationHook },
          longPollFallbackMs: 2500,
          params: { _csrf_token: csrfToken },
        });
        "#;

    let new_objects = vec!["ObjectOne", "CopyMixInstallationHook", "ObjectTwo"];
    let result = extend_hook_object_to_ast(code, new_objects);
    assert!(result.is_err());

    let code = r#"
        let liveSocket = new LiveSocket("/live", Socket, {
          longPollFallbackMs: 2500,
          params: { _csrf_token: csrfToken },
        });
        "#;

    let new_objects = vec!["ObjectOne", "CopyMixInstallationHook", "ObjectTwo"];
    let result = extend_hook_object_to_ast(code, new_objects);
    assert!(result.is_ok());

    let code = r#"
        let liveSocket = new LiveSocket("/live", Socket, {
          longPollFallbackMs: 2500,
          params: { _csrf_token: csrfToken },
        });
        "#;

    let new_objects = vec!["ObjectOne", "CopyMixInstallationHook", "...ObjectTwo"];
    let result = extend_hook_object_to_ast(code, new_objects);
    assert!(result.is_ok());

    let code = r#"
        let liveSocket = new LiveSocket("/live", Socket, {
          hooks: { ...Hooks, ObjectOneTwo, ...CopyMixInstallationHook },
          longPollFallbackMs: 2500,
          params: { _csrf_token: csrfToken },
        });
        "#;

    let new_objects = vec![
        "ObjectOne",
        "...CopyMixInstallationHook",
        "ObjectOneTwo",
        "...CopyMixInstallationHook",
    ];
    let result = extend_hook_object_to_ast(code, new_objects);
    assert!(result.is_ok());
    println!("{}", result.unwrap())
}

#[test]
fn test_find_live_socket_node_from_ast() {
    let code = r#"
        let liveSocket = new LiveSocket("/live", Socket, {
          hooks: { ...Hooks, CopyMixInstallationHook },
          longPollFallbackMs: 2500,
          params: { _csrf_token: csrfToken },
        });
        "#;

    let result = find_live_socket_node_from_ast(code);
    assert!(result.is_ok());

    let code = r#"
        let liveNoneSocket = new LiveSocket("/live", Socket, {
          hooks: { ...Hooks, CopyMixInstallationHook },
          longPollFallbackMs: 2500,
          params: { _csrf_token: csrfToken },
        });
        "#;

    let result = find_live_socket_node_from_ast(code);
    assert!(result.is_err());

    let code = r#"
        let liveSocket = {};
        "#;

    let result = find_live_socket_node_from_ast(code);
    assert!(result.is_err());
}

#[test]
fn test_remove_objects_of_hooks_from_ast() {
    let code = r#"
        let liveSocket = new LiveSocket("/live", Socket, {
          hooks: { ...Hooks, CopyMixInstallationHook, ObjectOne},
          longPollFallbackMs: 2500,
          params: { _csrf_token: csrfToken },
        });
        "#;

    let result = remove_objects_of_hooks_from_ast(
        code,
        vec!["...Hooks", "ObjectOne", "CopyMixInstallationHook"],
    );

    assert!(result.is_ok());

    let code = r#"
        let liveSocket = new None("/live", Socket, {
          hooks: { ...Hooks, CopyMixInstallationHook, ObjectOne},
          longPollFallbackMs: 2500,
          params: { _csrf_token: csrfToken },
        });
        "#;

    let result = remove_objects_of_hooks_from_ast(
        code,
        vec!["...Hooks", "ObjectOne", "CopyMixInstallationHook"],
    );

    assert!(result.is_err())
}

#[test]
fn extend_adds_what_is_missing_behind_what_is_there() {
    let code = "let liveSocket = new LiveSocket(\"/live\", Socket, {hooks:{...Hooks, A}, x:1});";
    assert_eq!(
        extend_hook_object_to_ast(code, vec!["A", "B"]).unwrap(),
        "let liveSocket = new LiveSocket(\"/live\", Socket, {\n    hooks: {\n        ...Hooks,\n        A,\n        B\n    },\n    x: 1\n});\n"
    );
}

#[test]
fn extend_creates_the_hooks_as_the_last_option() {
    let code = "let liveSocket = new LiveSocket(\"/live\", Socket, {x:1});";
    assert_eq!(
        extend_hook_object_to_ast(code, vec!["A"]).unwrap(),
        "let liveSocket = new LiveSocket(\"/live\", Socket, {\n    x: 1,\n    hooks: {\n        A\n    }\n});\n"
    );
}

#[test]
fn extend_keeps_repeats_within_one_call() {
    let code = "let liveSocket = new LiveSocket(\"/live\", Socket, {x:1});";
    assert_eq!(
        extend_hook_object_to_ast(code, vec!["A", "...B", "A"]).unwrap(),
        "let liveSocket = new LiveSocket(\"/live\", Socket, {\n    x: 1,\n    hooks: {\n        A,\n        ...B,\n        A\n    }\n});\n"
    );
}

#[test]
fn extend_twice_adds_nothing_the_second_time() {
    let code = "let liveSocket = new LiveSocket(\"/live\", Socket, {hooks: {}});";
    let names = vec!["A", "...B", "A", "C", "...B"];
    let once = extend_hook_object_to_ast(code, names.clone()).unwrap();
    let twice = extend_hook_object_to_ast(&once, names).unwrap();
    assert_eq!(once, twice);
    assert_eq!(
        once,
        "let liveSocket = new LiveSocket(\"/live\", Socket, {\n    hooks: {\n        A,\n        ...B,\n        A,\n        C,\n        ...B\n    }\n});\n"
    );
}

#[test]
fn a_shorthand_entry_and_a_spread_of_one_name_differ() {
    let code = "let liveSocket = new LiveSocket(\"/live\", Socket, {hooks: {...Hooks}});";
    assert_eq!(
        extend_hook_object_to_ast(code, vec!["Hooks", "...Hooks"]).unwrap(),
        "let liveSocket = new LiveSocket(\"/live\", Socket, {\n    hooks: {\n        ...Hooks,\n        Hooks\n    }\n});\n"
    );
}

#[test]
fn a_keyed_value_in_the_hooks_does_not_stand_for_its_name() {
    let code = "let liveSocket = new LiveSocket(\"/live\", Socket, {hooks: {A: 1}});";
    assert_eq!(
        extend_hook_object_to_ast(code, vec!["A"]).unwrap(),
        "let liveSocket = new LiveSocket(\"/live\", Socket, {\n    hooks: {\n        A: 1,\n        A\n    }\n});\n"
    );
}

#[test]
fn extend_reports_a_missing_variable() {
    let code = "let other = new LiveSocket(\"/live\", Socket, {});";
    assert_eq!(
        extend_hook_object_to_ast(code, vec!["A"]),
        Err(
            "Unfortunately, the item you are looking for does not exist or has already been deleted."
                .to_string()
        )
    );
    assert_eq!(find_live_socket_node_from_ast(code), Err(false));
}

#[test]
fn extend_reports_a_variable_of_another_shape() {
    assert_eq!(
        extend_hook_object_to_ast("let liveSocket = {};", vec!["A"]),
        Err(
            "The variable was found, but it is not initialised with a call of the expected constructor."
                .to_string()
        )
    );
    assert_eq!(
        extend_hook_object_to_ast("let liveSocket;", vec!["A"]),
        Err(
            "The variable was found, but it is not initialised with a call of the expected constructor."
                .to_string()
        )
    );
    assert_eq!(
        extend_hook_object_to_ast("let liveSocket = new LiveSocket(\"/live\", Socket);", vec!["A"]),
        Err(
            "The requested item was found, but an error occurred while modifying it. It might not match the type you require."
                .to_string()
        )
    );
    assert_eq!(
        extend_hook_object_to_ast("let liveSocket = new LiveSocket;", vec!["A"]),
        Err(
            "The requested item was found, but an error occurred while modifying it. It might not match the type you require."
                .to_string()
        )
    );
}

#[test]
fn extend_reports_a_text_that_does_not_parse() {
    assert_eq!(
        extend_hook_object_to_ast("let liveSocket = ;", vec!["A"]),
        Err("Failed to parse JavaScript content".to_string())
    );
    assert_eq!(
        remove_objects_of_hooks_from_ast("let liveSocket = ;", vec!["A"]),
        Err("Failed to parse JavaScript content".to_string())
    );
    assert_eq!(find_live_socket_node_from_ast("let liveSocket = ;"), Err(false));
}

#[test]
fn the_first_declaration_of_the_name_decides() {
    let code = "var liveSocket = 1;\nvar liveSocket = new LiveSocket(\"/live\", Socket, {});";
    assert!(extend_hook_object_to_ast(code, vec!["A"]).is_err());
    let code = "var liveSocket = new LiveSocket(\"/live\", Socket, {});\nvar liveSocket = 1;";
    assert_eq!(
        extend_hook_object_to_ast(code, vec!["A"]).unwrap(),
        "var liveSocket = new LiveSocket(\"/live\", Socket, {\n    hooks: {\n        A\n    }\n});\nvar liveSocket = 1;\n"
    );
}

#[test]
fn the_socket_is_found_inside_a_function() {
    let code = "function f() { var liveSocket = new LiveSocket({hooks: 1, hooks: {}}); }";
    assert_eq!(
        extend_hook_object_to_ast(code, vec!["A"]).unwrap(),
        "function f() {\n    var liveSocket = new LiveSocket({\n        hooks: 1,\n        hooks: {\n            A\n        }\n    });\n}\n"
    );
    assert_eq!(find_live_socket_node_from_ast(code), Ok(true));
}

#[test]
fn remove_drops_the_named_entries_and_keeps_the_order_of_the_rest() {
    let code =
        "let liveSocket = new LiveSocket(\"/live\", Socket, {hooks:{...Hooks, A, B, ...C}, x:1});";
    assert_eq!(
        remove_objects_of_hooks_from_ast(code, vec!["Hooks", "B", "...C"]).unwrap(),
        "let liveSocket = new LiveSocket(\"/live\", Socket, {\n    hooks: {\n        ...Hooks,\n        A\n    },\n    x: 1\n});\n"
    );
}

#[test]
fn remove_adds_empty_hooks_where_there_are_none() {
    let code = "let liveSocket = new LiveSocket(\"/live\", Socket, {x:1});";
    assert_eq!(
        remove_objects_of_hooks_from_ast(code, vec!["A"]).unwrap(),
        "let liveSocket = new LiveSocket(\"/live\", Socket, {\n    x: 1,\n    hooks: {}\n});\n"
    );
}
