use cubineer::dataset::docstring::clean_docstring;
use cubineer::dataset::literal::unquote;
use cubineer::dataset::source::{find_place, read_lines, read_names, read_statements};
use cubineer::dataset::task::{normalize_lines, parse, parse_statements, source_lines};
use cubineer::dataset::tree::{declares, defines, definition, select, Alias, Kind, Statement, Target};
use cubineer::dataset::{pick, place, Attempt};
use cubineer::json::Json;
use cubineer::number::{Number, Reading, Real};
use cubineer::written::to_text;

fn ranked(value: f64) -> Real {
    Real::from_bits(value.to_bits())
}

fn reading(value: f64) -> Reading {
    let whole = value.fract() == 0.0 && value >= -(2f64.powi(63)) && value < 2f64.powi(64);
    Reading {
        value: ranked(value),
        text: serde_json::to_string(&value).unwrap(),
        tenths: format!("{value:.1}"),
        units: format!("{value:.0}"),
        whole: if whole { Some(value as i128) } else { None },
        fractional: value.fract() != 0.0,
    }
}

fn convert(value: &serde_json::Value) -> Json {
    match value {
        serde_json::Value::Null => Json::Null,
        serde_json::Value::Bool(value) => Json::Bool(*value),
        serde_json::Value::Number(number) => {
            let shown = reading(number.as_f64().unwrap());
            if let Some(value) = number.as_u64() {
                Json::Number(Number::Integer(value as i128, Some(shown)))
            } else if let Some(value) = number.as_i64() {
                Json::Number(Number::Integer(value as i128, Some(shown)))
            } else {
                Json::Number(Number::Decimal(shown))
            }
        }
        serde_json::Value::String(value) => Json::Text(value.clone()),
        serde_json::Value::Array(items) => Json::Array(items.iter().map(convert).collect()),
        serde_json::Value::Object(fields) => Json::Object(
            fields.iter().map(|(key, value)| (key.clone(), convert(value))).collect(),
        ),
    }
}

fn json(text: &str) -> Json {
    convert(&serde_json::from_str(text).unwrap())
}

fn statement(kind: Kind, code: &str, part: &str, loads: &[&str]) -> Statement {
    let start = code.find(part).unwrap();
    let start = code[..start].chars().count();
    Statement {
        kind,
        start,
        end: start + part.chars().count(),
        loads: loads.iter().map(|name| name.to_string()).collect(),
        children: Vec::new(),
    }
}

fn function(name: &str) -> Kind {
    Kind::Function(name.to_string())
}

fn assign(name: &str) -> Kind {
    Kind::Assign(vec![Target::Name(name.to_string())])
}

#[test]
fn docstrings_lose_their_indentation() {
    assert_eq!(clean_docstring("One.\n    Two.\n      Three.\n    "), "One.\nTwo.\n  Three.");
    assert_eq!(clean_docstring("\n\n  a\n\tb\n"), "a\n      b");
    assert_eq!(clean_docstring("  x"), "x");
    assert_eq!(clean_docstring(""), "");
    assert_eq!(clean_docstring("\n   \n"), "   ");
    assert_eq!(clean_docstring("a\n\u{754c}\n  b"), "a\n\u{754c}\n  b");
    assert_eq!(clean_docstring("ab\tc"), "ab      c");
}

#[test]
fn lines_end_with_a_line_feed() {
    assert_eq!(normalize_lines("a\r\nb\rc\n"), "a\nb\nc\n");
}

#[test]
fn targets_may_be_nested() {
    let target = Target::Group(vec![
        Target::Other,
        Target::Group(vec![Target::Name("a".to_string()), Target::Name("b".to_string())]),
    ]);
    assert!(defines(&target, "b"));
    assert!(!defines(&target, "c"));
}

#[test]
fn imports_bind_their_alias() {
    let kind = Kind::Import(vec![
        Alias { name: "torch".to_string(), renamed: None },
        Alias { name: "numpy".to_string(), renamed: Some("np".to_string()) },
    ]);
    let import = statement(kind, "import", "import", &[]);
    assert!(definition(&import, "torch"));
    assert!(definition(&import, "np"));
    assert!(!definition(&import, "numpy"));
    let other = statement(function("f"), "def", "def", &[]);
    assert!(!definition(&other, "f"));
}

const CODE: &str = "import torch\nunused = 1\nn = m\nm = 2\n\nclass Model:\n    \"\"\"Adds.\n\n    Twice.\n    \"\"\"\n\ndef get_inputs():\n    return torch.rand(n)\ndef get_init_inputs():\n    return []\nn = 3\n";

fn statements() -> Vec<Statement> {
    let torch = Kind::Import(vec![Alias { name: "torch".to_string(), renamed: None }]);
    let class = Kind::Class("Model".to_string(), Some("Adds.\n\n    Twice.\n    ".to_string()));
    vec![
        statement(torch, CODE, "import torch", &[]),
        statement(assign("unused"), CODE, "unused = 1", &[]),
        statement(assign("n"), CODE, "n = m", &["m"]),
        statement(assign("m"), CODE, "m = 2", &[]),
        statement(class, CODE, "class Model:\n    \"\"\"Adds.\n\n    Twice.\n    \"\"\"", &[]),
        statement(
            function("get_inputs"),
            CODE,
            "def get_inputs():\n    return torch.rand(n)",
            &["torch", "n"],
        ),
        statement(
            function("get_init_inputs"),
            CODE,
            "def get_init_inputs():\n    return []",
            &[],
        ),
        statement(assign("n"), CODE, "n = 3", &[]),
    ]
}

#[test]
fn inputs_need_what_they_read() {
    let tree = statements();
    assert_eq!(select(&tree), vec![true, false, true, true, false, true, true, false]);
    assert!(declares(&tree, "get_inputs"));
    assert!(!declares(&tree, "forward"));
}

#[test]
fn statements_stand_on_whole_lines() {
    let code = "a = 1; b = 2\nc = 3";
    assert_eq!(source_lines(code, &statement(assign("b"), code, "b = 2", &[])), "a = 1; b = 2");
    assert_eq!(source_lines(code, &statement(assign("c"), code, "c = 3", &[])), "c = 3");
}

#[test]
fn tasks_are_read_from_files() {
    let tree = statements();
    let bytes = CODE.as_bytes().to_vec();
    let task = parse_statements(
        &bytes,
        CODE,
        &tree,
        "/tasks/level1/1_add_twice.py",
        Some("1_add_twice.py"),
        Some("1_add_twice"),
        1,
    )
    .unwrap();
    assert!(task.at("task_id").is_text("KernelBench/level1/1_add_twice.py"));
    assert!(task.at("description").is_text("Adds.\n\nTwice."));
    assert!(task
        .at("prompt")
        .is_text("class Model:\n    \"\"\"Adds.\n\n    Twice.\n    \"\"\""));
    assert!(task.at("input_generator").is_text(
        "import torch\n\nn = m\n\nm = 2\n\ndef get_inputs():\n    return torch.rand(n)\n\ndef get_init_inputs():\n    return []"
    ));
    assert!(task.at("sha256").is_text(task.at("file_sha256").text_or_empty()));
    assert_eq!(to_text(task.at("completion_list")), "[]");
}

#[test]
fn tasks_without_a_model_are_shown_whole() {
    let code = "def get_inputs(): return []\ndef get_init_inputs(): return []\n";
    let mut tree = vec![
        statement(function("get_inputs"), code, "def get_inputs(): return []", &[]),
        statement(function("get_init_inputs"), code, "def get_init_inputs(): return []", &[]),
    ];
    let read = |tree: &Vec<Statement>, name: Option<&str>, stem: Option<&str>| {
        parse_statements(&code.as_bytes().to_vec(), code, tree, "my_task.py", name, stem, 2)
    };
    let task = read(&tree, Some("my_task.py"), Some("my_task")).unwrap();
    assert!(task.at("prompt").is_text(code));
    assert!(task.at("description").is_text("Optimize PyTorch model: my task"));
    assert_eq!(read(&tree, None, None).err(), Some("task filename".to_string()));
    assert_eq!(read(&tree, Some("my_task.py"), None).err(), Some("task stem".to_string()));
    tree.pop();
    assert_eq!(
        read(&tree, Some("my_task.py"), Some("my_task")).err(),
        Some("benchmark must define get_inputs() and get_init_inputs()".to_string())
    );
}

#[test]
fn models_are_found_level_by_level() {
    let code = "if a:\n    class Model: 'inner'\nclass Model: 'outer'\ndef get_inputs(): 1\ndef get_init_inputs(): 2\n";
    let class = |text: &str| Kind::Class("Model".to_string(), Some(text.to_string()));
    let mut branch = statement(Kind::Other, code, "if a:\n    class Model: 'inner'", &[]);
    branch.children.push(statement(class("inner"), code, "class Model: 'inner'", &[]));
    let tree = vec![
        branch,
        statement(class("outer"), code, "class Model: 'outer'", &[]),
        statement(function("get_inputs"), code, "def get_inputs(): 1", &[]),
        statement(function("get_init_inputs"), code, "def get_init_inputs(): 2", &[]),
    ];
    let task =
        parse_statements(&Vec::new(), code, &tree, "a.py", Some("a.py"), Some("a"), 1).unwrap();
    assert!(task.at("description").is_text("outer"));
}

#[test]
fn tasks_lie_below_the_root() {
    let found = place(&json("{\"dataset_root\": \"/t\", \"dataset\": \"kernelbench\", \"level\": 2}"))
        .unwrap();
    assert_eq!((found.directory.as_deref(), found.level, found.strict), (Some("level2"), 2, false));
    let flat =
        place(&json("{\"dataset_root\": \"/t\", \"dataset\": \"kernelbench_veomni\", \"level\": 2}"))
            .unwrap();
    assert_eq!((flat.directory, flat.level, flat.strict), (None, 1, true));
    assert_eq!(place(&json("{}")).err(), Some("dataset root".to_string()));
}

fn read(code: &[u8], stem: &str) -> Result<Json, String> {
    let name = format!("{stem}.py");
    parse(&code.to_vec(), &format!("/t/level1/{name}"), Some(&name), Some(stem), 1)
}

const GOOD: &str = "def get_inputs(): return []\ndef get_init_inputs(): return []\n";

fn attempt(stem: &str, code: &str) -> Attempt {
    Attempt {
        file_name: Some(format!("{stem}.py")),
        stem: Some(stem.to_string()),
        result: read(code.as_bytes(), stem),
    }
}

#[test]
fn selection_preserves_skip_and_fail_behavior() {
    let attempts = vec![attempt("bad", "invalid = ("), attempt("good", GOOD)];
    let nested =
        json("{\"dataset_root\": \"/t\", \"dataset\": \"kernelbench\", \"task\": \"good\"}");
    assert_eq!(
        to_text(&pick(&nested, &attempts).unwrap()),
        to_text(&read(GOOD.as_bytes(), "good").unwrap())
    );
    let flat = json(
        "{\"dataset_root\": \"/t/level1\", \"dataset\": \"kernelbench_veomni\", \"task\": \"good\"}",
    );
    assert!(pick(&flat, &attempts).is_err());
    assert_eq!(pick(&flat, &attempts).err(), read(b"invalid = (", "bad").err());
    assert_eq!(
        pick(&json("{\"task\": \"other\"}"), &attempts).err(),
        Some("task must match exactly one filename or task ID, matched 0".to_string())
    );
    assert!(pick(&json("{\"task\": \"KernelBench/level1/good.py\"}"), &attempts).is_ok());
    assert!(pick(&json("{\"task\": \"good.py\"}"), &attempts).is_ok());
    assert_eq!(pick(&json("{}"), &attempts).err(), Some("task selector".to_string()));
}

#[test]
fn sources_are_read_from_their_bytes() {
    let task = read(CODE.as_bytes(), "1_add_twice").unwrap();
    let given = parse_statements(
        &CODE.as_bytes().to_vec(),
        CODE,
        &statements(),
        "/t/level1/1_add_twice.py",
        Some("1_add_twice.py"),
        Some("1_add_twice"),
        1,
    )
    .unwrap();
    assert_eq!(to_text(&task), to_text(&given));
}

#[test]
fn other_files_hold_no_task() {
    assert!(read(&[0x64, 0xff, 0x0a], "a").err().unwrap().starts_with("invalid utf-8"));
    assert!(read(b"not python (", "a").is_err());
    assert_eq!(
        read(b"def get_inputs(): return []\n", "a").err(),
        Some("benchmark must define get_inputs() and get_init_inputs()".to_string())
    );
    assert!(read(b"if a:\n    def get_inputs(): 1\ndef get_init_inputs(): 2\n", "a").is_err());
    assert!(read(b"async def get_inputs(): 1\ndef get_init_inputs(): 2\n", "a").is_err());
    assert!(read(b"", "a").is_err());
}

#[test]
fn tasks_keep_the_text_of_their_file() {
    let bytes = b"def get_inputs(): return []\r\ndef get_init_inputs(): return []\r# end";
    let task = read(bytes, "a_b").unwrap();
    let text = "def get_inputs(): return []\ndef get_init_inputs(): return []\n# end";
    assert!(task.at("canonical_solution").is_text(text));
    assert!(task.at("description").is_text("Optimize PyTorch model: a b"));
    let plain = read(text.as_bytes(), "a_b").unwrap();
    assert_eq!(to_text(task.at("sha256")), to_text(plain.at("sha256")));
    assert!(plain.at("file_sha256").is_text(plain.at("sha256").text_or_empty()));
    assert_ne!(to_text(task.at("file_sha256")), to_text(plain.at("file_sha256")));
    assert!(read(GOOD.as_bytes(), "x").unwrap().at("sha256").is_text("0ff75398a1f1fb9461fe0337a0ffd27d9660129abd302f95286f15dac5f6b3e7"));
}

fn inputs(body: &str) -> String {
    let code = format!("x = 1\n{body}\ndef get_init_inputs(): return []\n");
    let task = read(code.as_bytes(), "a").unwrap();
    task.at("input_generator").text_or_empty().to_string()
}

#[test]
fn names_are_read_in_expressions() {
    let expressions = [
        "x", "a or x", "(y := x)", "1 + x", "-x", "lambda: x", "lambda a=x: 1", "1 if x else 2",
        "{x: 1}", "{1: x}", "{**x}", "{x}", "[x for a in b]", "[1 for a in x]", "[1 for a in b if x]",
        "{x for a in b}", "{1: x for a in b}", "(x for a in b)", "1 < x", "x(1)", "f(x)", "f(*x)",
        "f(k=x)", "f'{x}'", "f'{1:{x}}'", "x.a", "x[0]", "a[x]", "a[x:1:2]", "a[0:x]", "a[0:1:x]",
        "[x]", "(x,)", "[*x]", "lambda *, a=x, **k: a",
    ];
    for expression in expressions {
        let body = format!("def get_inputs(): return {expression}");
        assert!(inputs(&body).starts_with("x = 1\n\n"), "{expression}");
    }
}

#[test]
fn names_are_read_in_statements() {
    let statements = [
        "await x", "yield x", "yield from x", "del a[x]", "a = x", "a += x", "a: x = 1",
        "a: int = x", "for a in x: pass", "while x: pass", "if x: pass", "with x: pass",
        "with a as b[x]: pass", "raise x", "raise a from x", "assert x", "assert 1, x",
        "global a; x", "try: pass\n    except x: pass", "try: pass\n    finally: x",
        "def g(a: x): pass", "def g(*a: x): pass", "def g(a, /, *, b=x): pass",
        "def g(**a: x): pass", "def g() -> x: pass", "class C(x): pass",
        "class C(metaclass=x): pass", "@x\n    def g(): pass", "match x:\n        case 1: pass",
        "match a:\n        case 1 if x: pass", "match a:\n        case x.b: pass",
        "match a:\n        case {x.b: 1}: pass", "match a:\n        case x(b=1): pass",
        "match a:\n        case [1, x.b] | 2: pass", "match a:\n        case 1: x",
        "async def g(): x", "async def g():\n        async with x: pass",
        "async def g():\n        async for a in x: pass", "try: pass\n    except* x: pass",
        "type T = x", "def g[T: x](): pass",
    ];
    for statement in statements {
        let body = format!("def get_inputs():\n    {statement}");
        assert!(inputs(&body).starts_with("x = 1\n\n"), "{statement}");
    }
    for statement in ["x = 1", "del x", "for x in a: pass", "import x", "a.x", "f(x=1)", "'x'"] {
        let body = format!("def get_inputs():\n    {statement}");
        assert!(!inputs(&body).starts_with("x = 1\n\n"), "{statement}");
    }
}

#[test]
fn names_are_given_by_imports_and_assignments() {
    let last = "def get_inputs(): return os, np, torch, numpy, b, a, c, q, r, u";
    let body = format!(
        "import os.path\nimport numpy as np, torch\nfrom m import a as b, c\n(p, [q, r[0]]) = s = 1\nu: int = 2\n{last}"
    );
    assert_eq!(
        inputs(&body),
        format!(
            "import numpy as np, torch\n\nfrom m import a as b, c\n\n(p, [q, r[0]]) = s = 1\n\n{last}\n\ndef get_init_inputs(): return []"
        )
    );
}

fn described(code: &str) -> String {
    let task = read(format!("{code}\n{GOOD}").as_bytes(), "a").unwrap();
    task.at("description").text_or_empty().to_string()
}

#[test]
fn models_say_what_they_are() {
    let escapes = "class Model:\n    'It\\'s \"so\" \\\\ \\x00 \\u0301 \u{e9}\u{301}\u{200b} \\U0001F600'";
    assert_eq!(
        described(escapes),
        "It's \"so\" \\ \0 \u{301} \u{e9}\u{301}\u{200b} \u{1f600}"
    );
    assert_eq!(
        described("class Model(Base, k=1):\n    r\"\"\"One.\r\n\n       Two.\n    \"\"\""),
        "One.\n\nTwo."
    );
    let plain = "Optimize PyTorch model: a";
    assert_eq!(described("class Model:\n    b'bytes'"), plain);
    assert_eq!(described("class Model:\n    f'formatted'"), plain);
    assert_eq!(described("class Model:\n    x = 1\n    'late'"), plain);
    assert_eq!(described("class Other:\n    'other'"), plain);
    assert_eq!(described("class Model:\n    3"), plain);
    assert_eq!(described("class Model:\n    def f(self): 'inner'"), plain);
}

#[test]
fn models_are_found_inside_statements() {
    assert_eq!(described("if a:\n    class Model: 'inner'\nclass Model: 'outer'"), "outer");
    assert_eq!(
        described(
            "try:\n    a\nexcept E:\n    class Model: 'handler'\nelse:\n    class Model: 'else'"
        ),
        "handler"
    );
    assert_eq!(described("try:\n    a\nfinally:\n    class Model: 'finally'"), "finally");
    assert_eq!(described("match a:\n    case 1:\n        class Model: 'case'"), "case");
    assert_eq!(described("for a in b:\n    c\nelse:\n    class Model: 'loop'"), "loop");
    assert_eq!(
        described(
            "def f():\n    with a:\n        class Model: 'deep'\nclass A:\n    class Model: 'near'"
        ),
        "near"
    );
}

#[test]
fn models_are_shown_on_whole_lines() {
    let code = format!("# \u{754c}\u{1f600}\nif a:\n    class Model: '\u{e9}'; b = 1\n{GOOD}");
    let task = read(code.as_bytes(), "a").unwrap();
    assert!(task.at("prompt").is_text("    class Model: '\u{e9}'; b = 1"));
}

#[test]
fn printed_trees_hold_statements() {
    let printed = "[\n    If(\n        StmtIf {\n            range: 3..9,\n            test: Name(\n                ExprName {\n                    range: 3..4,\n                    id: Identifier(\n                        \"a\",\n                    ),\n                    ctx: Load,\n                },\n            ),\n            body: [\n                Pass(\n                    StmtPass {\n                        range: 6..9,\n                    },\n                ),\n            ],\n            orelse: [],\n        },\n    ),\n]";
    let lines = read_lines(printed);
    assert_eq!((lines[2].depth, lines[2].text.as_str()), (8, "StmtIf {"));
    assert_eq!(read_names(&lines, 0, lines.len()), vec!["a".to_string()]);
    let list = read_statements(printed, "\u{e9}if a: b");
    assert_eq!(list.len(), 1);
    assert_eq!((list[0].start, list[0].end), (2, 8));
    assert_eq!(list[0].loads, vec!["a".to_string()]);
    assert_eq!(list[0].children.len(), 1);
    assert_eq!((list[0].children[0].start, list[0].children[0].end), (5, 8));
    assert!(read_statements("[]", "").is_empty());
}

#[test]
fn quoted_strings_stand_for_texts() {
    assert_eq!(unquote("\"a\\n\\\"\\\\\\'\\u{1f600}\\0\","), "a\n\"\\'\u{1f600}\0");
    assert_eq!(unquote("\"\","), "");
    assert_eq!(unquote("a"), "");
    assert_eq!(unquote("\"a\\u{110000}b\","), "a");
    let text = "tab\t return\r quote\" \u{301}\u{7f}\u{feff}";
    assert_eq!(unquote(&format!("{text:?},")), text);
}

#[test]
fn places_are_counted_in_characters() {
    let code: Vec<char> = "a\u{e9}\u{754c}\u{1f600}b".chars().collect();
    let offsets = [0, 1, 2, 3, 6, 10, 11, 99];
    let places: Vec<usize> = offsets.iter().map(|offset| find_place(&code, *offset)).collect();
    assert_eq!(places, vec![0, 1, 1, 2, 3, 4, 5, 5]);
    assert_eq!(find_place(&code, -1), 0);
}
