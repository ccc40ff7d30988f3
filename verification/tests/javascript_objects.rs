use igniter_js::parsers::javascript::ast::{
    contains_variable_from_ast, extend_var_object_property_by_names_to_ast, outcome_of,
    statistics_from_ast,
    FindCondition,
};
use std::collections::HashSet;

#[test]
fn test_statistics_from_ast() {
    let code = r#"
            import { foo } from 'bar';
            import * as jar from 'jar';
            console.log('Start JS file');
            class Foo {
                constructor() {
                    debugger;
                    console.log('Hello');
                }
            }
            function bar() {
                console.log('World');
                debugger;
            }
        "#;
    let parsed = statistics_from_ast(code).unwrap();
    assert_eq!(parsed.functions, 1);
    assert_eq!(parsed.classes, 1);
    assert_eq!(parsed.debuggers, 2);
    assert_eq!(parsed.imports, 2);
    assert_eq!(parsed.trys, 0);
    assert_eq!(parsed.throws, 0);
}

#[test]
fn test_extend_var_object_property_by_names_to_ast() {
    let code = r#"
            const Components = {...Hoks, PreOrderd};

            // Export the components as default
            export default Components;
            "#;

    let object_names = [
        "...ExtendedObject".to_string(),
        "ObjectOne".to_string(),
        "PreOrderd".to_string(),
        "CopyCodeHooks".to_string(),
        "...Hoks".to_string(),
        "ObjectOne".to_string(),
    ];
    let unique_names: HashSet<String> = object_names.into_iter().collect();
    let mut vec_of_strs: Vec<&str> = unique_names.iter().map(|s| s.as_str()).collect();
    vec_of_strs.sort();

    let result = extend_var_object_property_by_names_to_ast(code, "Components", vec_of_strs.clone());
    assert!(result.is_ok());
    println!("{}", result.unwrap());

    let result =
        extend_var_object_property_by_names_to_ast(code, "NoneComponent", vec_of_strs.clone());
    assert!(result.is_err());

    let code = r#"
            const Components = () => {1 + 1};

            // Export the components as default
            export default Components;
            "#;

    let result = extend_var_object_property_by_names_to_ast(code, "Components", vec_of_strs.clone());
    assert!(result.is_err());
}

#[test]
fn test_contains_variable_from_ast() {
    let code = r#"
            let liveSocket = new LiveSocket("/live", Socket, {
              hooks: { ...Hooks, CopyMixInstallationHook },
              longPollFallbackMs: 2500,
              params: { _csrf_token: csrfToken },
            });
            "#;

    let result = contains_variable_from_ast(code, "liveSocket");

    println!("{:#?}", result.unwrap())
}

#[test]
fn statistics_count_nested_nodes_once_each() {
    let code = "import a from \"a\";\nclass A { m() { try { throw 1; } catch (e) { debugger; } } }\nfunction f() { function g() { try {} finally {} } }\n";
    let stats = statistics_from_ast(code).unwrap();
    assert_eq!(stats.imports, 1);
    assert_eq!(stats.classes, 1);
    assert_eq!(stats.functions, 3);
    assert_eq!(stats.trys, 2);
    assert_eq!(stats.throws, 1);
    assert_eq!(stats.debuggers, 1);
}

#[test]
fn statistics_of_an_empty_text_are_zero() {
    let stats = statistics_from_ast("").unwrap();
    assert_eq!(
        (stats.functions, stats.classes, stats.debuggers, stats.imports, stats.trys, stats.throws),
        (0, 0, 0, 0, 0, 0)
    );
}

#[test]
fn statistics_need_a_text_that_parses() {
    assert_eq!(
        statistics_from_ast("function (").err(),
        Some("Failed to parse JavaScript content".to_string())
    );
}

#[test]
fn extend_object_adds_what_is_missing() {
    let code = "const Components = {...Hoks, PreOrderd, Keyed: 1};";
    let names = vec!["...ExtendedObject", "...Hoks", "CopyCodeHooks", "Keyed", "ObjectOne", "PreOrderd"];
    assert_eq!(
        extend_var_object_property_by_names_to_ast(code, "Components", names).unwrap(),
        "const Components = {\n    ...Hoks,\n    PreOrderd,\n    Keyed: 1,\n    ...ExtendedObject,\n    CopyCodeHooks,\n    ObjectOne\n};\n"
    );
}

#[test]
fn extend_object_succeeds_where_nothing_is_missing() {
    let code = "const Components = {\n    A\n};\n";
    assert_eq!(
        extend_var_object_property_by_names_to_ast(code, "Components", vec!["A"]).unwrap(),
        code
    );
}

#[test]
fn extend_object_tells_a_missing_variable_from_a_wrong_shape() {
    let code = "const Components = () => {1 + 1};";
    assert_eq!(
        extend_var_object_property_by_names_to_ast(code, "Components", vec!["A"]),
        Err(
            "The requested item was found, but an error occurred while modifying it. It might not match the type you require."
                .to_string()
        )
    );
    assert_eq!(
        extend_var_object_property_by_names_to_ast(code, "Other", vec!["A"]),
        Err(
            "Unfortunately, the item you are looking for does not exist or has already been deleted."
                .to_string()
        )
    );
    assert_eq!(
        extend_var_object_property_by_names_to_ast("const = ;", "Other", vec!["A"]),
        Err("Failed to parse JavaScript content".to_string())
    );
}

#[test]
fn extend_object_finds_a_nested_declaration() {
    let code = "function f() { let Inner = {}; }";
    assert_eq!(
        extend_var_object_property_by_names_to_ast(code, "Inner", vec!["A", "A"]).unwrap(),
        "function f() {\n    let Inner = {\n        A,\n        A\n    };\n}\n"
    );
}

#[test]
fn contains_variable_sees_let_at_the_top_only() {
    assert_eq!(contains_variable_from_ast("let a = 1, b = 2;", "b"), Ok(true));
    assert_eq!(contains_variable_from_ast("let a = 1, b = 2;", "c"), Err(false));
    assert_eq!(contains_variable_from_ast("const a = 1;", "a"), Err(false));
    assert_eq!(contains_variable_from_ast("var a = 1;", "a"), Err(false));
    assert_eq!(contains_variable_from_ast("function f() { let a = 1; }", "a"), Err(false));
    assert_eq!(contains_variable_from_ast("let {a} = o;", "a"), Err(false));
    assert_eq!(contains_variable_from_ast("let = ;", "a"), Err(false));
}

#[test]
fn messages_of_a_search() {
    assert_eq!(
        FindCondition::Found.message(),
        "The requested item was successfully found and applied."
    );
    assert_eq!(
        FindCondition::NotFound(String::new()).message(),
        "Unfortunately, the item you are looking for does not exist or has already been deleted."
    );
    assert_eq!(FindCondition::NotFound("gone".to_string()).message(), "gone");
    assert_eq!(
        FindCondition::FoundError(String::new()).message(),
        "The requested item was found, but an error occurred while modifying it. It might not match the type you require."
    );
    assert_eq!(FindCondition::FoundError("odd".to_string()).message(), "odd");
}

#[test]
fn the_outcome_is_the_text_only_where_the_target_was_found() {
    let written: Result<String, String> = Ok("text".to_string());
    assert_eq!(outcome_of(&FindCondition::Found, written.clone()), written);
    assert_eq!(
        outcome_of(&FindCondition::Found, Err("Failed to emit module".to_string())),
        Err("Failed to emit module".to_string())
    );
    assert_eq!(
        outcome_of(&FindCondition::FoundError("odd".to_string()), written.clone()),
        Err("odd".to_string())
    );
    assert_eq!(
        outcome_of(&FindCondition::NotFound(String::new()), written),
        Err(
            "Unfortunately, the item you are looking for does not exist or has already been deleted."
                .to_string()
        )
    );
}
