use file_surfer::code_analysis::{detect_dependencies, extract_functions, extract_todos};
use file_surfer::comments::filter_comments;
use file_surfer::project_type::{detect_project_type, marker_name, MARKER_COUNT};
use file_surfer::resolve::resolve_imports;

#[test]
fn brace_import_line_yields_one_dependency() {
    let deps = detect_dependencies("app.js", "import React from \"react\"", "js");
    assert_eq!(deps.len(), 1);
    assert_eq!(deps[0].dependency, "react");
    assert_eq!(deps[0].import_type, "import");
    assert_eq!(deps[0].line_number, 1);
    assert_eq!(deps[0].file, "app.js");
}

#[test]
fn resolver_drops_bare_package_imports() {
    // "react" starts with neither '.' nor '/', so it is skipped even when a
    // matching file exists.
    let existing = vec!["dir/react.js".to_string()];
    let resolved =
        resolve_imports("dir/app.js", "import React from \"react\"", "js", &existing).unwrap();
    assert!(resolved.is_empty());
}

#[test]
fn indent_from_import_line_yields_one_dependency() {
    let deps = detect_dependencies("m.py", "from .utils import helper", "py");
    assert_eq!(deps.len(), 1);
    assert_eq!(deps[0].dependency, ".utils");
    assert_eq!(deps[0].import_type, "from");
    assert_eq!(deps[0].line_number, 1);
}

#[test]
fn indent_plain_import_and_require_and_use_and_quote_imports() {
    let deps = detect_dependencies("m.py", "import os, sys", "py");
    assert_eq!(deps.len(), 1);
    assert_eq!(deps[0].dependency, "os, sys");
    assert_eq!(deps[0].import_type, "import");

    let deps = detect_dependencies("a.js", "const x = require(\"lodash\");", "js");
    assert_eq!(deps.len(), 1);
    assert_eq!(deps[0].dependency, "lodash");
    assert_eq!(deps[0].import_type, "require");

    let deps = detect_dependencies("l.rs", "use std::collections::BTreeMap;", "rs");
    assert_eq!(deps.len(), 1);
    assert_eq!(deps[0].dependency, "std::collections::BTreeMap");
    assert_eq!(deps[0].import_type, "use");

    let deps = detect_dependencies("m.go", "import \"fmt\"", "go");
    assert_eq!(deps.len(), 1);
    assert_eq!(deps[0].dependency, "fmt");
    assert_eq!(deps[0].import_type, "import");
}

#[test]
fn empty_file_yields_no_dependencies() {
    assert!(detect_dependencies("e.py", "", "py").is_empty());
    assert!(detect_dependencies("e.js", "", "js").is_empty());
    assert!(detect_dependencies("e.bin", "anything", "bin").is_empty());
}

#[test]
fn function_record_spans_brace_body() {
    let funcs = extract_functions("f.js", "function foo() {\n  return 1;\n}", "js");
    assert_eq!(funcs.len(), 1);
    assert_eq!(funcs[0].name, "foo");
    assert_eq!(funcs[0].line_start, 1);
    assert_eq!(funcs[0].line_end, 3);
    assert_eq!(funcs[0].content, "function foo() {\n  return 1;\n}");
    assert_eq!(funcs[0].signature, "function foo() {");
}

#[test]
fn function_record_spans_indent_body() {
    let src = "def foo():\n    return 1\nprint(foo())";
    let funcs = extract_functions("f.py", src, "py");
    assert_eq!(funcs.len(), 1);
    assert_eq!(funcs[0].name, "foo");
    assert_eq!(funcs[0].line_start, 1);
    assert_eq!(funcs[0].line_end, 2);
    assert_eq!(funcs[0].content, "def foo():\n    return 1");
}

#[test]
fn function_record_for_fn_declaration() {
    let src = "fn double(x: i32) -> i32 {\n    x * 2\n}";
    let funcs = extract_functions("l.rs", src, "rs");
    assert_eq!(funcs.len(), 1);
    assert_eq!(funcs[0].name, "double");
    assert_eq!(funcs[0].line_start, 1);
    assert_eq!(funcs[0].line_end, 3);
}

#[test]
fn unbalanced_function_truncates_to_declaration_line() {
    let funcs = extract_functions("f.js", "function f() {\n  x", "js");
    assert_eq!(funcs.len(), 1);
    assert_eq!(funcs[0].line_start, 1);
    assert_eq!(funcs[0].line_end, 1);
    assert_eq!(funcs[0].content, "function f() {");
}

#[test]
fn two_balanced_functions_give_two_records() {
    let src = "function a() {\n  return 1;\n}\nfunction b() {\n  return 2;\n}";
    let funcs = extract_functions("f.js", src, "js");
    assert_eq!(funcs.len(), 2);
    assert_eq!(funcs[0].name, "a");
    assert_eq!(funcs[1].name, "b");
    assert!(funcs[0].line_start <= funcs[0].line_end);
    assert!(funcs[1].line_start <= funcs[1].line_end);
}

#[test]
fn todo_line_yields_annotation() {
    let todos = extract_todos("t.rs", "// TODO: fix this");
    assert_eq!(todos.len(), 1);
    assert_eq!(todos[0].todo_type, "TODO");
    assert_eq!(todos[0].message, "fix this");
    assert_eq!(todos[0].line_number, 1);
    assert_eq!(todos[0].context, "// TODO: fix this");
}

#[test]
fn todo_markers_in_other_comment_styles() {
    let todos = extract_todos("t.py", "x = 1\n# FIXME broken");
    assert_eq!(todos.len(), 1);
    assert_eq!(todos[0].todo_type, "FIXME");
    assert_eq!(todos[0].message, "broken");
    assert_eq!(todos[0].line_number, 2);

    let todos = extract_todos("t.c", "/* HACK: careful */");
    assert_eq!(todos.len(), 1);
    assert_eq!(todos[0].todo_type, "HACK");
    assert_eq!(todos[0].message, "careful */");
}

#[test]
fn comment_filter_strips_brace_family() {
    let src = "int x; /* note */ int y;\n// gone\nint z;";
    let out = filter_comments(src, "c", false);
    assert_eq!(out, "int x;  int y;\nint z;");
}

#[test]
fn comment_filter_strips_hash_family() {
    let out = filter_comments("x = 1\n# comment\ny = 2", "py", false);
    assert_eq!(out, "x = 1\ny = 2");
}

#[test]
fn comment_filter_passthrough_cases() {
    // The keep flag, and unsupported extensions, leave text alone.
    assert_eq!(filter_comments("// kept", "js", true), "// kept");
    assert_eq!(filter_comments("# kept", "txt", false), "# kept");
}

#[test]
fn comment_filter_identity_on_comment_free_text() {
    let src = "let a = 1;\nlet b = 2;";
    let once = filter_comments(src, "js", false);
    assert_eq!(once, src);
    let twice = filter_comments(&once, "js", false);
    assert_eq!(twice, once);

    let py = "x = 1\ny = 2";
    let once = filter_comments(py, "py", false);
    assert_eq!(once, py);
    assert_eq!(filter_comments(&once, "py", false), once);
}

#[test]
fn project_type_framework_outranks_generic_runtime() {
    // Only the generic manifest and one framework config file are present.
    let mut present = vec![false; MARKER_COUNT];
    present[0] = true; // the generic manifest
    present[1] = true; // the framework config file
    let guess = detect_project_type(&present);
    assert_eq!(guess.detected_type, "Next.js");
    // 1 vote for the config file plus the +2 bonus.
    assert_eq!(guess.score, 3);
    assert!(guess.score as usize <= MARKER_COUNT);
    assert_eq!(guess.indicators, vec!["package.json", "next.config.js"]);
}

#[test]
fn project_type_single_marker_and_unknown() {
    let mut present = vec![false; MARKER_COUNT];
    present[3] = true;
    let guess = detect_project_type(&present);
    assert_eq!(guess.detected_type, "Rust");
    assert_eq!(guess.score, 1);
    assert_eq!(guess.indicators, vec![marker_name(3)]);

    let none = vec![false; MARKER_COUNT];
    let guess = detect_project_type(&none);
    assert_eq!(guess.detected_type, "Unknown");
    assert_eq!(guess.score, 0);
    assert!(guess.indicators.is_empty());
}

#[test]
fn resolver_finds_first_existing_candidate() {
    // The textual join keeps the specifier's dot segment, as the caller's
    // existence checks see it.
    let existing = vec!["src/./utils.js".to_string()];
    let resolved =
        resolve_imports("src/app.js", "import u from \"./utils\"", "js", &existing).unwrap();
    assert_eq!(resolved, vec!["src/./utils.js"]);

    // An exact file wins over an extension candidate.
    let existing = vec!["src/./utils".to_string(), "src/./utils.js".to_string()];
    let resolved =
        resolve_imports("src/app.js", "import u from \"./utils\"", "js", &existing).unwrap();
    assert_eq!(resolved, vec!["src/./utils"]);

    // An index file is found when no direct file exists.
    let existing = vec!["src/./widgets/index.ts".to_string()];
    let resolved =
        resolve_imports("src/app.js", "import w from \"./widgets\"", "js", &existing).unwrap();
    assert_eq!(resolved, vec!["src/./widgets/index.ts"]);
}

#[test]
fn resolver_sorts_and_deduplicates() {
    let src = "import b from \"./b\"\nimport a from \"./a\"\nimport b2 from \"./b\"";
    let existing = vec!["src/./a.js".to_string(), "src/./b.js".to_string()];
    let resolved = resolve_imports("src/app.js", src, "js", &existing).unwrap();
    assert_eq!(resolved, vec!["src/./a.js", "src/./b.js"]);
}

#[test]
fn resolver_refuses_path_without_directory() {
    let existing: Vec<String> = Vec::new();
    let err = resolve_imports("/", "", "js", &existing).unwrap_err();
    assert_eq!(err, "Could not get parent directory");
}

#[test]
fn arrow_and_binding_declarations_are_found() {
    let src = "const foo = async (a, b) => {\n  return a + b;\n};";
    let funcs = extract_functions("f.ts", src, "ts");
    assert_eq!(funcs.len(), 1);
    assert_eq!(funcs[0].name, "foo");
    assert_eq!(funcs[0].line_start, 1);
    assert_eq!(funcs[0].line_end, 3);

    let src = "let bar = (x) => {\n  return x;\n}";
    let funcs = extract_functions("f.js", src, "js");
    assert_eq!(funcs.len(), 1);
    assert_eq!(funcs[0].name, "bar");
}

#[test]
fn one_line_can_yield_two_dependencies() {
    let deps = detect_dependencies(
        "a.js",
        "import x from \"./x\"; const y = require(\"./y\");",
        "js",
    );
    assert_eq!(deps.len(), 2);
    assert_eq!(deps[0].dependency, "./x");
    assert_eq!(deps[0].import_type, "import");
    assert_eq!(deps[1].dependency, "./y");
    assert_eq!(deps[1].import_type, "require");
}

#[test]
fn module_extension_detects_but_does_not_extract() {
    let src = "import m from \"./m\"\nfunction f() {\n}";
    assert_eq!(detect_dependencies("a.mjs", src, "mjs").len(), 1);
    assert!(extract_functions("a.mjs", src, "mjs").is_empty());
}

#[test]
fn comment_filter_preserves_comment_free_text_exactly() {
    // Blank lines, carriage returns and a final newline all survive when
    // the text holds no comment syntax of the family.
    assert_eq!(filter_comments("x\n\ny", "js", false), "x\n\ny");
    assert_eq!(filter_comments("a\r\nb\n", "js", false), "a\r\nb\n");
    assert_eq!(filter_comments("x\n\ny\n", "py", false), "x\n\ny\n");
}

#[test]
fn comment_filter_drops_lines_blanked_by_removal() {
    // With comments present, the brace family drops blank lines after the
    // removals, pre-existing ones included.
    assert_eq!(filter_comments("a\n\n// c\nb", "js", false), "a\nb");
}
