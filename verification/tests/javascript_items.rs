use igniter_js::parsers::javascript::ast::{
    contains_let_binding, find_insertion_point, imports_all, insert_imports, only_imports,
    remove_imports, FindCondition, NodeCounter, NodeKind, ObjectExtender, Operation,
};
use igniter_js::parsers::javascript::helpers::{
    code_gen_from_ast_module, code_gen_from_ast_vist, is_duplicate_import,
    is_partial_duplicate_import, parse, specifier_equals, Pass,
};
use igniter_js::parsers::javascript::phoenix::HookExtender;
use swc_ecma_ast::{Decl, ImportSpecifier, ModuleDecl, ModuleItem, Stmt, VarDecl};
use swc_ecma_visit::VisitMut;

fn items(code: &str) -> Vec<ModuleItem> {
    parse(code).unwrap().into_body()
}

fn specifiers(code: &str) -> Vec<ImportSpecifier> {
    match items(code).remove(0) {
        ModuleItem::ModuleDecl(ModuleDecl::Import(decl)) => decl.specifiers,
        _ => panic!("no import"),
    }
}

fn sources(body: &[ModuleItem]) -> Vec<String> {
    body.iter()
        .map(|item| match item {
            ModuleItem::ModuleDecl(ModuleDecl::Import(decl)) => {
                format!("import {}", decl.src.value.to_string_lossy())
            }
            _ => "other".to_string(),
        })
        .collect()
}

#[test]
fn parse_reports_a_text_that_is_no_module() {
    assert_eq!(parse("let = ;").err(), Some("Failed to parse module".to_string()));
    assert!(parse("").is_ok());
}

#[test]
fn code_gen_writes_the_module_with_its_comments() {
    let parsed = parse("// first\nlet a=1; /* second */\n").unwrap();
    assert_eq!(parsed.module().body.len(), 1);
    assert_eq!(
        code_gen_from_ast_module(parsed),
        Ok("// first\nlet a = 1; /* second */ \n".to_string())
    );
}

#[test]
fn a_duplicate_import_has_the_same_specifier() {
    let body = items("import a from \"a\";\nlet x = 1;\nimport { b } from \"b\";");
    let same = items("import \"b\";").remove(0);
    let other_case = items("import \"B\";").remove(0);
    let no_import = items("let b = 1;").remove(0);
    assert!(is_duplicate_import(&same, &body));
    assert!(!is_duplicate_import(&other_case, &body));
    assert!(!is_duplicate_import(&no_import, &body));
    assert!(!is_duplicate_import(&same, &[]));
}

#[test]
fn a_partial_duplicate_binds_a_name_that_the_first_import_lacks() {
    let body = items("import { a, b as c } from \"m\";\nimport d from \"m\";\nimport * as n from \"n\";");
    let check = |code: &str| is_partial_duplicate_import(&items(code).remove(0), &body);
    assert!(!check("import { a } from \"m\";"));
    assert!(!check("import { x as c, a } from \"m\";"));
    assert!(!check("import \"m\";"));
    assert!(check("import { b } from \"m\";"));
    assert!(check("import d from \"m\";"));
    assert!(check("import a from \"m\";"));
    assert!(!check("import * as n from \"n\";"));
    assert!(check("import * as m from \"n\";"));
    assert!(!check("import { a } from \"other\";"));
    assert!(!check("let a = 1;"));
}

#[test]
fn specifiers_are_equal_by_kind_and_local_name() {
    let named = specifiers("import { a, b as c, d } from \"m\";");
    let default = specifiers("import a from \"m\";");
    let star = specifiers("import * as a from \"m\";");
    let renamed = specifiers("import { x as a } from \"m\";");
    assert!(specifier_equals(&named[0], &named[0]));
    assert!(specifier_equals(&named[0], &renamed[0]));
    assert!(!specifier_equals(&named[0], &named[2]));
    assert!(!specifier_equals(&named[0], &default[0]));
    assert!(!specifier_equals(&default[0], &star[0]));
    assert!(specifier_equals(&default[0], &default[0]));
    assert!(specifier_equals(&star[0], &star[0]));
}

#[test]
fn the_insertion_point_is_behind_the_last_import() {
    assert_eq!(find_insertion_point(&items("")), 0);
    assert_eq!(find_insertion_point(&items("let x = 1;")), 0);
    assert_eq!(find_insertion_point(&items("import \"a\";\nlet x = 1;")), 1);
    assert_eq!(find_insertion_point(&items("let x = 1;\nimport \"a\";\nlet y = 1;")), 2);
}

#[test]
fn insert_imports_works_on_the_items() {
    let mut body = items("import \"a\";\nlet x = 1;\nimport \"b\";\nlet y = 2;");
    let new = items("import \"c\";\nimport \"a\";\nimport \"d\";\nimport \"c\";");
    assert!(insert_imports(&mut body, new));
    assert_eq!(
        sources(&body),
        vec!["import a", "other", "import b", "import c", "import d", "other"]
    );
}

#[test]
fn insert_imports_inserts_nothing_where_a_candidate_is_no_import() {
    let mut body = items("import \"a\";");
    let new = items("import \"c\";\nlet z = 1;");
    assert!(!only_imports(&new));
    assert!(!insert_imports(&mut body, new));
    assert_eq!(sources(&body), vec!["import a"]);
    assert!(only_imports(&items("")));
}

#[test]
fn remove_imports_works_on_the_items() {
    let mut body = items("import \"a\";\nlet x = 1;\nimport \"b\";\nimport \"x\";\nimport \"c\";\nimport \"x\";");
    let named = items("import \"x\";\nlet x = 1;\nimport \"nowhere\";");
    remove_imports(&mut body, &named);
    assert_eq!(sources(&body), vec!["import a", "other", "import b", "import c"]);
}

#[test]
fn imports_all_needs_every_candidate_in_place() {
    let body = items("import \"a\";\nimport \"b\";");
    assert!(imports_all(&body, &items("import \"b\";\nimport \"a\";")));
    assert!(imports_all(&body, &items("import \"b\";\nlet x = 1;")));
    assert!(!imports_all(&body, &items("import \"b\";\nimport \"c\";")));
    assert!(!imports_all(&body, &items("let x = 1;")));
    assert!(!imports_all(&body, &items("")));
}

#[test]
fn contains_let_binding_reads_the_top_of_the_module() {
    let body = items("let a = 1;\nconst b = 2;\nfunction f() { let c = 3; }");
    assert!(contains_let_binding(&body, "a"));
    assert!(!contains_let_binding(&body, "b"));
    assert!(!contains_let_binding(&body, "c"));
}

#[test]
fn code_gen_from_ast_vist_runs_a_pass_and_writes_the_module() {
    let code = "let liveSocket = new LiveSocket(\"/live\", Socket, {});";
    let mut pass = Pass::Hooks(HookExtender::new("liveSocket", vec!["A"]));
    assert_eq!(
        code_gen_from_ast_vist(code, &mut pass),
        Ok("let liveSocket = new LiveSocket(\"/live\", Socket, {\n    hooks: {\n        A\n    }\n});\n".to_string())
    );
    match pass {
        Pass::Hooks(extender) => assert_eq!(extender.find, FindCondition::Found),
        _ => panic!("another pass came back"),
    }

    let mut pass = Pass::Objects(ObjectExtender::new("missing", vec!["A"]));
    assert_eq!(code_gen_from_ast_vist("let a = {};", &mut pass), Ok("let a = {};\n".to_string()));
    match pass {
        Pass::Objects(extender) => {
            assert_eq!(extender.find, FindCondition::NotFound(String::new()))
        }
        _ => panic!("another pass came back"),
    }

    let mut pass = Pass::Kinds(NodeCounter::new());
    assert_eq!(
        code_gen_from_ast_vist("class A {}\ndebugger;", &mut pass),
        Ok("class A {\n}\ndebugger;\n".to_string())
    );
    match pass {
        Pass::Kinds(counter) => {
            assert_eq!(counter.seen, vec![NodeKind::Class, NodeKind::Debugger]);
            assert_eq!(counter.tally().classes, 1);
        }
        _ => panic!("another pass came back"),
    }

    let mut pass = Pass::Kinds(NodeCounter::new());
    assert_eq!(
        code_gen_from_ast_vist("class {", &mut pass),
        Err("Failed to parse JavaScript content".to_string())
    );
}

#[test]
fn a_counter_that_does_not_read_counts_nothing() {
    let mut counter = NodeCounter::new();
    counter.record(NodeKind::Try);
    counter.operation = Operation::Edit;
    counter.record(NodeKind::Throw);
    assert_eq!(counter.seen, vec![NodeKind::Try]);
    let stats = counter.tally();
    assert_eq!((stats.trys, stats.throws), (1, 0));
}

fn first_var_decl(code: &str) -> Box<VarDecl> {
    match items(code).remove(0) {
        ModuleItem::Stmt(Stmt::Decl(Decl::Var(var_decl))) => var_decl,
        _ => panic!("no variable declaration"),
    }
}

fn written(var_decl: Box<VarDecl>) -> String {
    swc_ecma_codegen::to_code(&Stmt::Decl(Decl::Var(var_decl)))
}

#[test]
fn a_pass_stops_at_the_declarators_of_a_declaration_before_those_below_it() {
    let mut var_decl = first_var_decl(
        "var a = function () { var liveSocket = new LiveSocket({}); }, liveSocket = 1;",
    );
    let mut pass = HookExtender::new("liveSocket", vec!["A"]);
    pass.visit_mut_var_decl(&mut var_decl);
    assert_eq!(
        pass.find,
        FindCondition::FoundError(
            "The variable was found, but it is not initialised with a call of the expected constructor."
                .to_string()
        )
    );
    assert_eq!(
        written(var_decl),
        "var a = function() {\n    var liveSocket = new LiveSocket({});\n}, liveSocket = 1;\n"
    );
}

#[test]
fn a_pass_goes_on_below_a_declaration_that_does_not_bind_the_name() {
    let mut var_decl =
        first_var_decl("var a = function () { var liveSocket = new LiveSocket({}); }, b = 1;");
    let mut pass = HookExtender::new("liveSocket", vec!["A"]);
    pass.visit_mut_var_decl(&mut var_decl);
    assert_eq!(pass.find, FindCondition::Found);
    assert_eq!(
        written(var_decl),
        "var a = function() {\n    var liveSocket = new LiveSocket({\n        hooks: {\n            A\n        }\n    });\n}, b = 1;\n"
    );

    let mut var_decl = first_var_decl("var a = function () { var Inner = {}; }, b = 1;");
    let mut pass = ObjectExtender::new("Inner", vec!["A"]);
    pass.visit_mut_var_decl(&mut var_decl);
    assert_eq!(pass.find, FindCondition::Found);
    assert_eq!(
        written(var_decl),
        "var a = function() {\n    var Inner = {\n        A\n    };\n}, b = 1;\n"
    );
}

#[test]
fn a_pass_that_looks_for_nothing_changes_nothing() {
    let code = "var liveSocket = new LiveSocket({});";
    let mut var_decl = first_var_decl(code);
    let mut pass = HookExtender::new("liveSocket", vec!["A"]);
    pass.find = FindCondition::Found;
    pass.visit_mut_var_decl(&mut var_decl);
    assert_eq!(written(var_decl), "var liveSocket = new LiveSocket({});\n");

    let mut var_decl = first_var_decl("var Inner = {};");
    let mut pass = ObjectExtender::new("Inner", vec!["A"]);
    pass.operation = Operation::Read;
    pass.visit_mut_var_decl(&mut var_decl);
    assert_eq!(pass.find, FindCondition::NotFound(String::new()));
    assert_eq!(written(var_decl), "var Inner = {};\n");
}

#[test]
fn a_counter_counts_a_node_and_what_stands_below_it() {
    let mut counter = NodeCounter::new();
    counter.record(NodeKind::Import);
    match items("throw function () { debugger; class A { m() { try {} finally {} } } };").remove(0) {
        ModuleItem::Stmt(Stmt::Throw(mut node)) => counter.visit_mut_throw_stmt(&mut node),
        _ => panic!("no throw statement"),
    }
    assert_eq!(
        counter.seen,
        vec![
            NodeKind::Import,
            NodeKind::Throw,
            NodeKind::Function,
            NodeKind::Debugger,
            NodeKind::Class,
            NodeKind::Function,
            NodeKind::Try
        ]
    );
    match items("debugger;").remove(0) {
        ModuleItem::Stmt(Stmt::Debugger(mut node)) => {
            counter.operation = Operation::Edit;
            counter.visit_mut_debugger_stmt(&mut node);
            assert_eq!(counter.seen.len(), 7);
            counter.operation = Operation::Read;
            counter.visit_mut_debugger_stmt(&mut node);
            assert_eq!(counter.seen.len(), 8);
            assert_eq!(counter.seen[7], NodeKind::Debugger);
        }
        _ => panic!("no debugger statement"),
    }
    match items("import a from \"a\";\nfunction f() {}\nclass B {}\ntry { f() } catch (e) { throw e; }") {
        mut body => {
            let mut counter = NodeCounter::new();
            match &mut body[0] {
                ModuleItem::ModuleDecl(ModuleDecl::Import(node)) => {
                    counter.visit_mut_import_decl(node)
                }
                _ => panic!("no import"),
            }
            match &mut body[1] {
                ModuleItem::Stmt(Stmt::Decl(Decl::Fn(node))) => {
                    counter.visit_mut_function(&mut node.function)
                }
                _ => panic!("no function"),
            }
            match &mut body[2] {
                ModuleItem::Stmt(Stmt::Decl(Decl::Class(node))) => {
                    counter.visit_mut_class(&mut node.class)
                }
                _ => panic!("no class"),
            }
            match &mut body[3] {
                ModuleItem::Stmt(Stmt::Try(node)) => counter.visit_mut_try_stmt(node),
                _ => panic!("no try statement"),
            }
            assert_eq!(
                counter.seen,
                vec![
                    NodeKind::Import,
                    NodeKind::Function,
                    NodeKind::Class,
                    NodeKind::Try,
                    NodeKind::Throw
                ]
            );
        }
    }
}

#[test]
fn a_second_pass_with_the_same_names_adds_nothing() {
    let code = "let liveSocket = new LiveSocket(\"/live\", Socket, {hooks: {...H}});";
    let names = vec!["A", "...B", "A", "...H"];

    let mut once = parse(code).unwrap();
    let mut pass = HookExtender::new("liveSocket", names.clone());
    once.visit_hooks(&mut pass);
    assert_eq!(pass.find, FindCondition::Found);

    let mut twice = parse(code).unwrap();
    let mut pass = HookExtender::new("liveSocket", names.clone());
    twice.visit_hooks(&mut pass);
    let mut pass = HookExtender::new("liveSocket", names);
    twice.visit_hooks(&mut pass);
    assert_eq!(pass.find, FindCondition::Found);

    let text = code_gen_from_ast_module(once).unwrap();
    assert_eq!(code_gen_from_ast_module(twice).unwrap(), text);
    assert_eq!(
        text,
        "let liveSocket = new LiveSocket(\"/live\", Socket, {\n    hooks: {\n        ...H,\n        A,\n        ...B,\n        A\n    }\n});\n"
    );
}

#[test]
fn a_reading_pass_leaves_the_module_as_it_was() {
    let code = "let liveSocket = new LiveSocket(\"/live\", Socket, {\n    x: 1\n});\n";
    let mut parsed = parse(code).unwrap();
    let mut pass = HookExtender::new("liveSocket", vec!["A"]);
    pass.operation = Operation::Read;
    parsed.visit_hooks(&mut pass);
    assert_eq!(pass.find, FindCondition::Found);
    let mut counter = NodeCounter::new();
    parsed.visit_kinds(&mut counter);
    assert!(counter.seen.is_empty());
    assert_eq!(code_gen_from_ast_module(parsed).unwrap(), code);
}

#[test]
fn a_module_takes_imports_from_lines_and_drops_named_ones() {
    let mut parsed = parse("import \"a\";\nlet x = 1;\n").unwrap();
    assert_eq!(parsed.insert_imports_from("import \"b\";\nimport \"a\";"), Ok(()));
    assert_eq!(
        parsed.insert_imports_from("import { from"),
        Err("Failed to parse imports".to_string())
    );
    assert_eq!(
        parsed.insert_imports_from("import \"c\";\nx();"),
        Err("Expected import declarations only".to_string())
    );
    assert_eq!(sources(&parsed.module().body), vec!["import a", "import b", "other"]);
    parsed.remove_imports_of(&items("import \"a\";"));
    assert_eq!(sources(&parsed.module().body), vec!["import b", "other"]);
    assert_eq!(
        code_gen_from_ast_module(parsed),
        Ok("import \"b\";\nlet x = 1;\n".to_string())
    );
}
