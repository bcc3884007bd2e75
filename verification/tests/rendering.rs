use hazure::codegen::Codegen;
use hazure::ir::{IRKind, Value, IR};
use hazure::span::Span;

fn value(v: Value) -> IRKind {
    IRKind::Value { value: v }
}

#[test]
fn write_intrinsic_renders_runtime_call_with_terminator() {
    let cg = Codegen::new();
    let ir = IRKind::Intrinsic {
        name: "write".to_string(),
        args: vec![value(Value::Str("hi".to_string()))],
    };
    assert_eq!(cg.gen_ir(&ir, true), "write(\"hi\");\n");
}

#[test]
fn get_intrinsic_renders_indexing_expression() {
    let cg = Codegen::new();
    let ir = IRKind::Intrinsic {
        name: "get".to_string(),
        args: vec![value(Value::Ident("x".to_string())), value(Value::Int(0))],
    };
    assert_eq!(cg.gen_ir(&ir, false), "v_x[0]");
}

#[test]
fn write_file_intrinsic_renders_both_arguments() {
    let cg = Codegen::new();
    let ir = IRKind::Intrinsic {
        name: "write_file".to_string(),
        args: vec![
            value(Value::Str("out.txt".to_string())),
            value(Value::Str("data".to_string())),
        ],
    };
    assert_eq!(cg.gen_ir(&ir, true), "writeFile(\"out.txt\", \"data\");\n");
}

#[test]
fn read_intrinsics_render_their_runtime_names() {
    let cg = Codegen::new();
    let read = IRKind::Intrinsic {
        name: "read".to_string(),
        args: vec![value(Value::Str("?".to_string()))],
    };
    let read_file = IRKind::Intrinsic {
        name: "read_file".to_string(),
        args: vec![value(Value::Str("in.txt".to_string()))],
    };
    assert_eq!(cg.gen_ir(&read, true), "read(\"?\");\n");
    assert_eq!(cg.gen_ir(&read_file, true), "readFile(\"in.txt\");\n");
}

#[test]
fn emit_intrinsic_splices_the_literal_verbatim() {
    let cg = Codegen::new();
    let ir = IRKind::Intrinsic {
        name: "emit".to_string(),
        args: vec![value(Value::Str("console.log(1)".to_string()))],
    };
    assert_eq!(cg.gen_ir(&ir, true), "console.log(1)");
}

#[test]
fn identifier_values_carry_the_variable_prefix() {
    let cg = Codegen::new();
    assert_eq!(cg.gen_ir(&value(Value::Ident("count".to_string())), false), "v_count");
}

#[test]
fn call_names_carry_the_function_prefix() {
    let cg = Codegen::new();
    let ir = IRKind::Call {
        name: "greet".to_string(),
        args: vec![value(Value::Int(1)), value(Value::Int(2))],
    };
    assert_eq!(cg.gen_ir(&ir, true), "f_greet(1, 2);");
    assert_eq!(cg.gen_ir(&ir, false), "f_greet(1, 2)");
}

#[test]
fn call_as_argument_carries_no_separator_but_statement_does() {
    let cg = Codegen::new();
    let inner = IRKind::Call { name: "g".to_string(), args: vec![] };
    let outer = IRKind::Call { name: "f".to_string(), args: vec![inner] };
    let as_statement = cg.gen_ir(&outer, true);
    let argument_text = cg.gen_ir(
        match &outer {
            IRKind::Call { args, .. } => &args[0],
            _ => unreachable!(),
        },
        false,
    );
    assert!(!argument_text.contains(';'));
    assert!(as_statement.contains(';'));
    assert_eq!(as_statement, "f_f(f_g());");
}

#[test]
fn define_renders_mutability_visibility_and_mangled_name() {
    let cg = Codegen::new();
    let immutable = IRKind::Define {
        public: false,
        name: "x".to_string(),
        type_hint: "int".to_string(),
        value: Box::new(value(Value::Int(1))),
        mutable: false,
    };
    let mutable = IRKind::Define {
        public: true,
        name: "y".to_string(),
        type_hint: "int".to_string(),
        value: Box::new(value(Value::Int(2))),
        mutable: true,
    };
    assert_eq!(cg.gen_ir(&immutable, true), " const v_x: int = 1;\n");
    assert_eq!(cg.gen_ir(&mutable, true), "export let v_y: int = 2;\n");
}

#[test]
fn fun_renders_typed_closure_binding() {
    let cg = Codegen::new();
    let ir = IRKind::Fun {
        public: false,
        name: "add".to_string(),
        return_type_hint: "int".to_string(),
        args: vec![
            ("a".to_string(), "int".to_string()),
            ("b".to_string(), "int".to_string()),
        ],
        body: Box::new(IRKind::Binary {
            left: Box::new(value(Value::Ident("a".to_string()))),
            op: "+".to_string(),
            right: Box::new(value(Value::Ident("b".to_string()))),
        }),
    };
    assert_eq!(
        cg.gen_ir(&ir, true),
        " const f_add = (v_a: int, v_b: int): int => v_a + v_b;\n"
    );
}

#[test]
fn control_flow_renders_in_statement_context() {
    let cg = Codegen::new();
    let if_ir = IRKind::If {
        cond: Box::new(value(Value::Boolean(true))),
        body: Box::new(IRKind::Return { value: Box::new(value(Value::Int(1))) }),
        else_body: Box::new(IRKind::Return { value: Box::new(value(Value::Int(2))) }),
    };
    assert_eq!(
        cg.gen_ir(&if_ir, true),
        "if (true) {\nreturn 1;\n} else {\nreturn 2;\n}\n"
    );
    let case_ir = IRKind::Case {
        cond: Box::new(value(Value::Ident("x".to_string()))),
        cases: vec![(value(Value::Int(1)), IRKind::Return {
            value: Box::new(value(Value::Int(10))),
        })],
        default: Box::new(IRKind::Return { value: Box::new(value(Value::Int(0))) }),
    };
    assert_eq!(
        cg.gen_ir(&case_ir, true),
        "switch (v_x) {\ncase 1: return 10;\n\nbreak;\ndefault: return 0;\n\nbreak;\n\n}\n"
    );
}

#[test]
fn do_block_renders_members_in_statement_context() {
    let cg = Codegen::new();
    let ir = IRKind::Do {
        body: vec![
            IRKind::Call { name: "f".to_string(), args: vec![] },
            IRKind::Return { value: Box::new(value(Value::Int(1))) },
        ],
    };
    assert_eq!(cg.gen_ir(&ir, false), "{\nf_f();return 1;\n}\n");
}

#[test]
fn vectors_and_operators_render_as_expressions() {
    let cg = Codegen::new();
    let vector = IRKind::Vector {
        values: vec![value(Value::Int(1)), value(Value::Int(2))],
    };
    assert_eq!(cg.gen_ir(&vector, false), "[1, 2]");
    let unary = IRKind::Unary {
        op: "-".to_string(),
        right: Box::new(value(Value::Int(5))),
    };
    assert_eq!(cg.gen_ir(&unary, false), "-5");
}

#[test]
fn integers_render_in_decimal_including_extremes() {
    let cg = Codegen::new();
    assert_eq!(cg.gen_ir(&value(Value::Int(0)), false), "0");
    assert_eq!(cg.gen_ir(&value(Value::Int(-42)), false), "-42");
    assert_eq!(cg.gen_ir(&value(Value::Int(i64::MAX)), false), "9223372036854775807");
    assert_eq!(cg.gen_ir(&value(Value::Int(i64::MIN)), false), "-9223372036854775808");
    assert_eq!(cg.gen_ir(&value(Value::Boolean(false)), false), "false");
}

#[test]
fn generated_buffer_has_header_import_items_and_entry_call() {
    let mut cg = Codegen::new();
    let ir = IR {
        kind: IRKind::Call { name: "main_helper".to_string(), args: vec![] },
        span: Span { start: 0, end: 10 },
    };
    cg.gen(vec![ir]);
    let mut expected = String::new();
    expected.push_str("// Emitted by the hazure compiler version 0.1.0\n");
    expected.push_str("import { read, write, readFile, writeFile } from \"./runtime/io.ts\"\n");
    expected.push_str("f_main_helper();");
    expected.push_str("f_main();");
    assert_eq!(cg.emitted, expected);
}

#[test]
fn buffer_always_ends_with_exactly_one_entry_invocation() {
    let mut empty = Codegen::new();
    empty.gen(vec![]);
    assert!(empty.emitted.ends_with("f_main();"));
    assert_eq!(empty.emitted.matches("f_main();").count(), 1);

    let mut with_items = Codegen::new();
    with_items.gen(vec![IR {
        kind: IRKind::Define {
            public: false,
            name: "x".to_string(),
            type_hint: "int".to_string(),
            value: Box::new(value(Value::Int(3))),
            mutable: false,
        },
        span: Span { start: 0, end: 1 },
    }]);
    assert!(with_items.emitted.ends_with("f_main();"));
}

#[test]
fn emit_appends_to_the_buffer() {
    let mut cg = Codegen::new();
    assert_eq!(cg.emitted, "");
    cg.emit("abc");
    cg.emit("def");
    assert_eq!(cg.emitted, "abcdef");
}

#[test]
fn emit_keeps_inner_quotes_of_the_literal() {
    let cg = Codegen::new();
    let ir = IRKind::Intrinsic {
        name: "emit".to_string(),
        args: vec![value(Value::Str("\"x\"".to_string()))],
    };
    assert_eq!(cg.gen_ir(&ir, true), "\"x\"");
}

#[test]
fn nested_structures_render_in_expression_context() {
    let cg = Codegen::new();
    let ir = IRKind::Vector {
        values: vec![
            IRKind::Vector { values: vec![value(Value::Int(1))] },
            value(Value::Str("s".to_string())),
        ],
    };
    assert_eq!(cg.gen_ir(&ir, false), "[[1], \"s\"]");
}
