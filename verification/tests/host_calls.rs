use igniter_js::parsers::javascript::ast::ASTStatistics;
use igniter_js::parsers::javascript::ast_ex::{
    as_texts, extend_hooks_by_names, extend_var_object_by_names, remove_hooks_by_names,
    statistics_answer, statistics_record, unique_sorted, ASTStatisticsResultType,
};

fn owned(names: &[&str]) -> Vec<String> {
    names.iter().map(|name| name.to_string()).collect()
}

#[test]
fn unique_sorted_puts_names_in_order_once_each() {
    assert_eq!(
        unique_sorted(owned(&["b", "a", "...z", "b", "ab", "", "B", "a", "é", "z"])),
        owned(&["", "...z", "B", "a", "ab", "b", "z", "é"])
    );
    assert_eq!(unique_sorted(Vec::new()), Vec::<String>::new());
    assert_eq!(unique_sorted(owned(&["a", "a", "a"])), owned(&["a"]));
}

#[test]
fn as_texts_borrows_each_string() {
    let names = owned(&["b", "a"]);
    assert_eq!(as_texts(&names), vec!["b", "a"]);
}

#[test]
fn hooks_by_names_are_added_in_order_once_each() {
    let code = "let liveSocket = new LiveSocket(\"/live\", Socket, {hooks: {B}});";
    assert_eq!(
        extend_hooks_by_names(code, owned(&["C", "A", "...H", "C", "B"])).unwrap(),
        "let liveSocket = new LiveSocket(\"/live\", Socket, {\n    hooks: {\n        B,\n        ...H,\n        A,\n        C\n    }\n});\n"
    );
}

#[test]
fn hooks_by_names_are_removed() {
    let code = "let liveSocket = new LiveSocket(\"/live\", Socket, {hooks: {B, ...H, A}});";
    assert_eq!(
        remove_hooks_by_names(code, owned(&["A", "...H", "A"])).unwrap(),
        "let liveSocket = new LiveSocket(\"/live\", Socket, {\n    hooks: {\n        B\n    }\n});\n"
    );
}

#[test]
fn object_by_names_is_extended_in_order_once_each() {
    let code = "const Components = {B};";
    assert_eq!(
        extend_var_object_by_names(code, "Components", owned(&["C", "A", "C", "B"])).unwrap(),
        "const Components = {\n    B,\n    A,\n    C\n};\n"
    );
}

#[test]
fn statistics_answer_holds_the_counts_or_the_message() {
    match statistics_answer("import a from \"a\";\nclass A {}\ndebugger;\ndebugger;\nfunction f() {}") {
        ASTStatisticsResultType::Statistics(counts) => {
            assert_eq!(counts.imports, 1);
            assert_eq!(counts.classes, 1);
            assert_eq!(counts.debuggers, 2);
            assert_eq!(counts.functions, 1);
            assert_eq!(counts.trys, 0);
            assert_eq!(counts.throws, 0);
        }
        ASTStatisticsResultType::Error(message) => panic!("{}", message),
    }
    match statistics_answer("class {") {
        ASTStatisticsResultType::Statistics(_) => panic!("counted a text that does not parse"),
        ASTStatisticsResultType::Error(message) => {
            assert_eq!(message, "Failed to parse JavaScript content")
        }
    }
}

#[test]
fn statistics_record_copies_the_counts() {
    let mut stats = ASTStatistics::default();
    stats.functions = 1;
    stats.classes = 2;
    stats.debuggers = 3;
    stats.imports = 4;
    stats.trys = 5;
    stats.throws = 6;
    let record = statistics_record(&stats);
    assert_eq!(
        (
            record.functions,
            record.classes,
            record.debuggers,
            record.imports,
            record.trys,
            record.throws
        ),
        (1, 2, 3, 4, 5, 6)
    );
}
