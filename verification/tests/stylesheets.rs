use igniter_js::parsers::css::ast::{
    clean_import, generate_css_with_comments, import_lines_of, import_rule, insert_import_to_ast,
    is_imported_from_ast, place_comments, rule_import, ImportChecker, ImportInserter,
    InlineCommentCollector,
};
use igniter_js::parsers::css::helpers::parse;
use swc_css_ast::{AtRulePrelude, ImportPrelude, Rule};
use swc_css_visit::{Visit, VisitMutWith, VisitWith};

#[test]
fn test_css_is_imported_from_ast() {
    let css_code = r#"
                @import "reset.css";
                @import url("theme.css");
                body { color: black; }
            "#;

    assert_eq!(
        is_imported_from_ast(css_code, "reset.css").is_ok(),
        true,
        "reset.css should be imported"
    );
    assert_eq!(
        is_imported_from_ast(css_code, "theme.css").is_ok(),
        true,
        "theme.css should be imported"
    );
    assert_eq!(
        is_imported_from_ast(css_code, "main.css").is_err(),
        false,
        "main.css should not be imported"
    );

    let css_code = r#"
            @import "tailwindcss/base";
            @import "tailwindcss/components";
            @import "tailwindcss/utilities";
            "#;

    assert_eq!(
        is_imported_from_ast(css_code, "tailwindcss/base").is_ok(),
        true,
        "tailwindcss/base should be imported"
    );
    assert_eq!(
        is_imported_from_ast(css_code, "tailwindcss/components").is_ok(),
        true,
        "tailwindcss/components should be imported"
    );
    assert_eq!(
        is_imported_from_ast(css_code, "tailwindcss/utilities").is_ok(),
        true,
        "tailwindcss/utilities should be imported"
    );
}

#[test]
fn test_css_insert_import_to_ast() {
    let css_code = r#"
            @import "reset.css";
            /* This file is for your main application CSS */

            body { color: black; }
            /* Another comment */

            .hide-scrollbar{
                -ms-overflow-style: none;  /* Internet Explorer 10+ */
                scrollbar-width: none;  /* Firefox */
            }
            /* Another last comment */
            .hide-scrollbar::-webkit-scrollbar {
                display: none;  /* Safari and Chrome */
            }
        "#;

    let new_imports = r#"
            @import "theme.css";
            @import "theme.css";
            @import "reset.css";
            @import "reset.css";
            @import "custom.css";
        "#;

    let result = insert_import_to_ast(css_code, new_imports).unwrap();
    println!("{}", result);
}

#[test]
fn insert_puts_new_imports_in_front_and_keeps_the_comments() {
    let css_code = r#"
            @import "reset.css";
            /* This file is for your main application CSS */

            body { color: black; }
            /* Another comment */

            .hide-scrollbar{
                -ms-overflow-style: none;  /* Internet Explorer 10+ */
                scrollbar-width: none;  /* Firefox */
            }
        "#;
    let new_imports = r#"
            @import "theme.css";
            @import "theme.css";
            @import "reset.css";
            custom.css
            @import url("x.css");
        "#;
    assert_eq!(
        insert_import_to_ast(css_code, new_imports).unwrap(),
        "@import \"theme.css\";\n@import \"custom.css\";\n@import \"url(\\\"x.css\\\")\";\n@import \"reset.css\";\n/* This file is for your main application CSS */\nbody {\n  color: black;\n}\n/* Another comment */\n.hide-scrollbar {\n  -ms-overflow-style: none;\n  scrollbar-width: none;\n}"
    );
}

#[test]
fn insert_into_an_empty_stylesheet() {
    assert_eq!(
        insert_import_to_ast("", "b.css\nb.css\n  \n@import \"c.css\""),
        Ok("@import \"b.css\";\n@import \"c.css\";".to_string())
    );
}

#[test]
fn insert_of_stylesheet_imports_twice_is_insert_once() {
    let lines = "@import \"a.css\";\n@import \"b.css\";";
    let once = insert_import_to_ast("body { color: black; }", lines).unwrap();
    let twice = insert_import_to_ast(&once, lines).unwrap();
    assert_eq!(once, "@import \"a.css\";\n@import \"b.css\";\nbody {\n  color: black;\n}");
    assert_eq!(once, twice);
}

#[test]
fn is_imported_tells_the_address() {
    assert_eq!(is_imported_from_ast("@import \"a.css\";", "a.css"), Ok(true));
    assert_eq!(is_imported_from_ast("@import url(\"a.css\");", "a.css"), Ok(true));
    assert_eq!(is_imported_from_ast("@import url(a.css);", "a.css"), Ok(false));
    assert_eq!(is_imported_from_ast("@import \"a.css\";", "A.css"), Ok(false));
    assert_eq!(is_imported_from_ast("@media screen { @import \"a.css\"; }", "a.css"), Ok(true));
    assert_eq!(is_imported_from_ast("", "a.css"), Ok(false));
}

#[test]
fn a_comment_in_front_of_a_pseudo_element_goes_behind_its_line() {
    let parsed = parse(".x/* c */::before { color: red; }\n.y { color: blue; }").unwrap();
    assert_eq!(
        generate_css_with_comments(&parsed).unwrap(),
        ".x::before { /* /* c */ */\n  color: red;\n}\n.y {\n  color: blue;\n}"
    );
}

#[test]
fn comments_around_rules_get_lines_of_their_own() {
    let parsed = parse("a { color: red; }\n/* low */\n/* lower */\nb { }\n").unwrap();
    assert_eq!(
        generate_css_with_comments(&parsed).unwrap(),
        "a {\n  color: red;\n}\n/* low */\n/* lower */\nb {}"
    );
}

#[test]
fn place_comments_puts_a_note_behind_the_first_line_that_holds_its_anchor() {
    let mut lines = vec![
        ".a::before {".to_string(),
        "  color: red;".to_string(),
        "  background-color: blue;".to_string(),
        "}".to_string(),
    ];
    let notes = vec![
        ("color".to_string(), " /* one */".to_string()),
        ("::before".to_string(), " /* two */".to_string()),
        ("margin".to_string(), " /* three */".to_string()),
        ("".to_string(), " /* four */".to_string()),
    ];
    place_comments(&mut lines, &notes);
    assert_eq!(
        lines,
        vec![
            ".a::before { /* four */ /* two */".to_string(),
            "  color: red; /* one */".to_string(),
            "  background-color: blue;".to_string(),
            "}".to_string(),
        ]
    );
}

#[test]
fn place_comments_puts_no_comment_twice_in_one_line() {
    let mut lines = vec!["a:hover {".to_string(), "  color: red;".to_string()];
    let notes = vec![
        ("color".to_string(), " /* c */".to_string()),
        (":hover".to_string(), " /* h */".to_string()),
        ("color".to_string(), " /* c */".to_string()),
    ];
    place_comments(&mut lines, &notes);
    let once = lines.clone();
    place_comments(&mut lines, &notes);
    assert_eq!(lines, once);
    assert_eq!(
        once,
        vec!["a:hover { /* h */".to_string(), "  color: red; /* c */".to_string()]
    );
}

#[test]
fn place_comments_drops_a_note_without_a_line() {
    let mut lines = vec!["a {".to_string(), "}".to_string()];
    let notes = vec![("color".to_string(), " /* c */".to_string())];
    place_comments(&mut lines, &notes);
    assert_eq!(lines, vec!["a {".to_string(), "}".to_string()]);
    let mut none: Vec<String> = Vec::new();
    place_comments(&mut none, &notes);
    assert!(none.is_empty());
}

#[test]
fn clean_import_reads_a_line() {
    assert_eq!(clean_import("@import \"theme.css\";"), "theme.css");
    assert_eq!(clean_import("@import@import   theme.css ;;"), "theme.css ");
    assert_eq!(clean_import("\"\"a\"b\"\""), "a\"b");
    assert_eq!(clean_import("theme.css"), "theme.css");
    assert_eq!(clean_import("@import url(\"x.css\");"), "url(\"x.css\")");
    assert_eq!(clean_import(""), "");
}

#[test]
fn import_lines_of_keeps_the_first_copy_of_each_line() {
    assert_eq!(
        import_lines_of("  b\r\n a \n\n\t\nb\nc\r"),
        vec!["b".to_string(), "a".to_string(), "c".to_string()]
    );
    assert_eq!(import_lines_of(""), Vec::<String>::new());
    assert_eq!(import_lines_of("\n"), Vec::<String>::new());
}

#[test]
fn parse_takes_a_stylesheet_with_errors_in_it() {
    assert!(parse("a { ").is_ok());
    assert_eq!(is_imported_from_ast("a { ", "b.css"), Ok(false));
    assert_eq!(
        insert_import_to_ast("a { ", "b.css"),
        Ok("@import \"b.css\";\na {}".to_string())
    );
}

#[test]
fn the_inserter_works_as_a_pass_of_the_traversal() {
    let mut sheet = parse("@import \"a.css\";\nb { color: red; }").unwrap().into_stylesheet();
    let mut inserter = ImportInserter {
        new_import_strings: vec!["@import \"c.css\";".to_string(), "a.css".to_string()],
        existing_imports: vec!["d.css".to_string()],
    };
    sheet.visit_mut_with(&mut inserter);
    assert_eq!(sheet.rules.len(), 3);
    assert_eq!(rule_import(&sheet.rules[0]), Some("c.css".to_string()));
    assert_eq!(rule_import(&sheet.rules[1]), Some("a.css".to_string()));
    assert!(inserter.new_import_strings.is_empty());
    assert_eq!(inserter.existing_imports, vec!["d.css".to_string(), "a.css".to_string()]);

    let mut parsed = parse("@import \"a.css\";\nb { color: red; }").unwrap();
    let mut inserter = ImportInserter {
        new_import_strings: vec!["@import \"c.css\";".to_string(), "a.css".to_string()],
        existing_imports: vec!["d.css".to_string()],
    };
    parsed.insert_imports(&mut inserter);
    assert_eq!(parsed.stylesheet().rules.len(), 3);
    assert_eq!(
        generate_css_with_comments(&parsed).unwrap(),
        "@import \"c.css\";\n@import \"a.css\";\nb {\n  color: red;\n}"
    );
}

#[test]
fn the_inserter_skips_what_it_knows() {
    let mut sheet = parse("b { color: red; }").unwrap().into_stylesheet();
    let mut inserter = ImportInserter {
        new_import_strings: vec!["d.css".to_string(), "e.css".to_string(), "e.css;".to_string()],
        existing_imports: vec!["d.css".to_string()],
    };
    inserter.insert_into(&mut sheet);
    assert_eq!(sheet.rules.len(), 3);
    assert_eq!(rule_import(&sheet.rules[0]), Some("e.css".to_string()));
    assert_eq!(rule_import(&sheet.rules[1]), Some("e.css".to_string()));
    assert_eq!(rule_import(&sheet.rules[2]), None);
    assert_eq!(rule_import(&import_rule("x.css")), Some("x.css".to_string()));
}

fn first_import(code: &str) -> ImportPrelude {
    let sheet = parse(code).unwrap().into_stylesheet();
    match &sheet.rules[0] {
        Rule::AtRule(at_rule) => match at_rule.prelude.as_deref() {
            Some(AtRulePrelude::ImportPrelude(import)) => import.clone(),
            _ => panic!("no import"),
        },
        _ => panic!("no rule"),
    }
}

#[test]
fn the_import_pass_looks_at_one_import() {
    let import = first_import("@import url(\"a.css\") screen;");
    let mut pass = ImportChecker { search_import: "a.css", found: false };
    pass.visit_import_prelude(&import);
    assert!(pass.found);
    let mut pass = ImportChecker { search_import: "b.css", found: false };
    pass.visit_import_prelude(&import);
    assert!(!pass.found);
    pass.check(&first_import("@import \"b.css\";"));
    assert!(pass.found);
    pass.visit_import_prelude(&import);
    assert!(pass.found);
}

#[test]
fn the_comment_pass_notes_what_stands_at_a_node() {
    let parsed = parse(".x/* c */::before { color: red; }").unwrap();
    let mut pass =
        InlineCommentCollector { comments: parsed.comments(), collected_comments: Vec::new() };
    parsed.stylesheet().rules[0].visit_with(&mut pass);
    assert_eq!(
        pass.collected_comments,
        vec![("::before".to_string(), " /* /* c */ */".to_string())]
    );
    pass.note("color", &vec!["one".to_string(), "two".to_string()]);
    assert_eq!(
        pass.collected_comments[1..],
        [
            ("color".to_string(), " /* one */".to_string()),
            ("color".to_string(), " /* two */".to_string())
        ]
    );
}
