use igniter_js::parsers::javascript::ast::{
    insert_import_to_ast, is_module_imported_from_ast, remove_import_from_ast,
};

#[test]
fn test_is_module_imported_from_ast() {
    let code = r#"
            import "phoenix_html";
            import { Socket, SocketV1 } from "phoenix";
            import { TS } from "tsobject";

            // This is first test we need to have
            console.log("We are here");

            const min = ()          => {return "Shahryar" + "Tavakkoli"};
            "#;

    let import = r#"
                import "phoenix_html";
                import { Socket, SocketV1 } from "phoenix";
                import { TS } from "tsobject";
            "#;
    let result = is_module_imported_from_ast(code, import);

    assert!(result.is_ok(), "Expected Ok(true), but got {:?}", result);

    let import = r#"
                import { NoneRepeated } from "orepeat";
            "#;
    let result = is_module_imported_from_ast(code, import);
    assert!(result.is_err(), "Expected Ok(true), but got {:?}", result);

    let import = r#"
                import "phoenix_html";
                import { NoneRepeated } from "orepeat";
                import { TS } from "tsobject";
            "#;
    let result = is_module_imported_from_ast(code, import);

    assert!(result.is_err(), "Expected Ok(true), but got {:?}", result);
}

#[test]
fn test_insert_import_to_ast() {
    let code = r#"
            import "phoenix_html";
            import { Socket, SocketV1 } from "phoenix";
            import { TS } from "tsobject";
            import ScrollArea from "./scrollArea.js";

            // This is first test we need to have
            console.log("We are here");

            const min = ()          => {return "Shahryar" + "Tavakkoli"};
            "#;

    let import = r#"
                import "phoenix_html";
                import { Socket, SocketV1 } from "phoenix";
                import { TS } from "tsobject";
                import { NoneRepeated } from "orepeat";
                import ScrollArea from "./scrollArea.js";
            "#;
    let result = insert_import_to_ast(code, import).expect("Failed to generate code");

    assert!(result.contains("import \"phoenix_html\";"));
    assert!(result.contains("import { Socket, SocketV1 } from \"phoenix\";"));
    assert!(result.contains("import { TS } from \"tsobject\";"));
    assert!(result.contains("import { NoneRepeated } from \"orepeat\";"));

    let imports_start = result.find("import \"phoenix_html\";").unwrap();
    let imports_end = result
        .find("import { NoneRepeated } from \"orepeat\";")
        .unwrap();
    assert!(imports_start < imports_end);

    assert!(result.contains("// This is first test we need to have"));

    println!("{}", result)
}

#[test]
fn test_remove_import_from_ast() {
    let code = r#"
            import "phoenix_html";
            import { Socket, SocketV1 } from "phoenix";
            import { TS } from "tsobject";

            // This is first test we need to have
            console.log("We are here");

            const min = ()          => {return "Shahryar" + "Tavakkoli"};
            "#;

    let import = r#"
                import { TS } from "tsobject";
                import { Socket, SocketV1 } from "phoenix";
                import { NoneRepeated } from "orepeat";
                import { NoneRepeated1 } from "orepeat1";
            "#;
    let result = remove_import_from_ast(code, import).expect("Failed to generate code");

    assert!(result.contains("import \"phoenix_html\";"));
    assert!(!result.contains("import { Socket, SocketV1 } from \"phoenix\";"));
    assert!(!result.contains("import { TS } from \"tsobject\";"));

    let code = r#"
        import { foo } from "module-name";
        import bar from "another-module";
        let Hooks = {};
        "#;

    let result = remove_import_from_ast(code, "import bar from \"another-module\";")
        .expect("Failed to generate code");

    println!("{}", result);
}

#[test]
fn insert_puts_new_imports_behind_the_old_ones_in_the_order_given() {
    let code = "import a from \"a\";\nimport b from \"b\";\nlet x = 1;\n";
    let lines = "import d from \"d\";\nimport b2 from \"b\";\nimport c from \"c\";\n";
    let result = insert_import_to_ast(code, lines).unwrap();
    assert_eq!(
        result,
        "import a from \"a\";\nimport b from \"b\";\nimport d from \"d\";\nimport c from \"c\";\nlet x = 1;\n"
    );
}

#[test]
fn insert_goes_to_the_top_where_nothing_is_imported() {
    let result = insert_import_to_ast("let x = 1;\n", "import a from \"a\";").unwrap();
    assert_eq!(result, "import a from \"a\";\nlet x = 1;\n");
}

#[test]
fn insert_twice_is_insert_once() {
    let code = "import a from \"a\";\nconsole.log(a);\n";
    let lines = "import { b } from \"b\";\nimport \"c\";\nimport { b as other } from \"b\";\n";
    let once = insert_import_to_ast(code, lines).unwrap();
    let twice = insert_import_to_ast(&once, lines).unwrap();
    assert_eq!(once, twice);
    assert_eq!(
        once,
        "import a from \"a\";\nimport { b } from \"b\";\nimport \"c\";\nconsole.log(a);\n"
    );
}

#[test]
fn insert_skips_a_module_that_is_imported_with_other_names() {
    let code = "import { Socket } from \"phoenix\";\n";
    let result = insert_import_to_ast(code, "import { LongPoll } from \"phoenix\";").unwrap();
    assert_eq!(result, code);
}

#[test]
fn insert_refuses_lines_that_do_not_parse() {
    let result = insert_import_to_ast("let x = 1;", "import { from ;;");
    assert_eq!(result, Err("Failed to parse imports".to_string()));
}

#[test]
fn insert_refuses_a_source_that_does_not_parse() {
    let result = insert_import_to_ast("let = = ;", "import a from \"a\";");
    assert_eq!(result, Err("Failed to parse JavaScript content".to_string()));
}

#[test]
fn insert_refuses_a_line_that_is_no_import() {
    let result = insert_import_to_ast("let x = 1;", "import a from \"a\";\nconsole.log(1);");
    assert_eq!(result, Err("Expected import declarations only".to_string()));
}

#[test]
fn remove_keeps_the_order_of_the_other_imports() {
    let code = "import a from \"a\";\nimport b from \"b\";\nimport x from \"x\";\nimport c from \"c\";\n";
    let result = remove_import_from_ast(code, "import \"x\";").unwrap();
    assert_eq!(
        result,
        "import a from \"a\";\nimport b from \"b\";\nimport c from \"c\";\n"
    );
}

#[test]
fn remove_refuses_texts_that_do_not_parse() {
    assert_eq!(
        remove_import_from_ast("let = = ;", "import \"x\";"),
        Err("Failed to parse JavaScript content".to_string())
    );
    assert_eq!(
        remove_import_from_ast("let x = 1;", "import { from ;;"),
        Err("Failed to parse imports".to_string())
    );
}

#[test]
fn query_needs_an_import_among_the_lines() {
    let code = "import a from \"a\";\n";
    assert_eq!(is_module_imported_from_ast(code, ""), Err(false));
    assert_eq!(is_module_imported_from_ast(code, "console.log(1);"), Err(false));
    assert_eq!(is_module_imported_from_ast(code, "import \"a\";"), Ok(true));
    assert_eq!(is_module_imported_from_ast(code, "import \"A\";"), Err(false));
    assert_eq!(is_module_imported_from_ast("let = = ;", "import \"a\";"), Err(false));
}

#[test]
fn insert_reads_the_lines_beside_a_text_of_wide_characters() {
    let code = "\"\u{e9}\u{e9}\u{e9}\u{e9}\u{e9}\u{e9}\u{e9}\u{e9}\u{e9}\u{e9}\u{e9}\u{e9}\u{e9}\u{e9}\u{e9}\u{e9}\";";
    for lines in ["import { a } from \"b\";", " import { a } from \"b\";", "import { a, } from \"b\";"] {
        assert_eq!(
            insert_import_to_ast(code, lines).unwrap(),
            format!("import {{ a }} from \"b\";\n{}\n", code)
        );
    }
}
