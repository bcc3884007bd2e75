use vstd::prelude::*;

use crate::ir::{IR, IRKind, IRKindS, Value, ValueS};
use crate::ir::{lemma_view_case_seq, lemma_view_ir_seq, view_ir, view_ir_seq};

verus! {

broadcast use vstd::std_specs::vec::axiom_vec_decreases_to_view, vstd::seq::axiom_seq_index_decreases, vstd::seq::axiom_seq_subrange_decreases;

/// The decimal digits of `n`, most significant first.
pub open spec fn sp_nat_text(n: int) -> Seq<char>
    decreases n,
{
    if n < 10 {
        seq![digit_char(n)]
    } else {
        sp_nat_text(n / 10) + seq![digit_char(n % 10)]
    }
}

/// The character for one decimal digit.
pub open spec fn digit_char(d: int) -> char {
    if d == 0 {
        '0'
    } else if d == 1 {
        '1'
    } else if d == 2 {
        '2'
    } else if d == 3 {
        '3'
    } else if d == 4 {
        '4'
    } else if d == 5 {
        '5'
    } else if d == 6 {
        '6'
    } else if d == 7 {
        '7'
    } else if d == 8 {
        '8'
    } else {
        '9'
    }
}

/// The decimal rendering of a signed integer.
pub open spec fn sp_int_text(i: int) -> Seq<char> {
    if i < 0 {
        seq!['-'] + sp_nat_text(-i)
    } else {
        sp_nat_text(i)
    }
}

/// The rendering of a resolved literal: integers and booleans as their
/// literal text, strings wrapped in double quotes, identifiers mangled
/// with the fixed `v_` prefix.
pub open spec fn sp_value_text(v: ValueS) -> Seq<char> {
    match v {
        ValueS::Int(i) => sp_int_text(i as int),
        ValueS::Boolean(b) => if b {
            "true"@
        } else {
            "false"@
        },
        ValueS::Str(s) => "\""@ + s + "\""@,
        ValueS::Ident(s) => "v_"@ + s,
    }
}

/// The statement separator emitted when a node renders in statement
/// context, and nothing in expression context.
pub open spec fn sp_semi(semi: bool) -> Seq<char> {
    if semi {
        ";"@
    } else {
        ""@
    }
}

/// The visibility keyword of an exported binding.
pub open spec fn sp_vis(public: bool) -> Seq<char> {
    if public {
        "export"@
    } else {
        ""@
    }
}

/// Does this tree satisfy the contract lowering owes the code generator?
/// Every intrinsic carries a recognized name with its exact arity, and the
/// raw-code escape `emit` is applied to a string literal.
pub open spec fn wf_ir(k: IRKindS) -> bool
    decreases k,
{
    match k {
        IRKindS::Define { value, .. } => wf_ir(*value),
        IRKindS::Call { args, .. } => wf_ir_seq(args),
        IRKindS::Intrinsic { name, args } => wf_ir_seq(args) && (
        (name == "write"@ && args.len() == 1) || (name == "write_file"@ && args.len() == 2) || (
        name == "read"@ && args.len() == 1) || (name == "read_file"@ && args.len() == 1) || (name
            == "emit"@ && args.len() == 1 && (args[0] matches IRKindS::Value {
            value: ValueS::Str(_),
        })) || (name == "get"@ && args.len() == 2)),
        IRKindS::Fun { body, .. } => wf_ir(*body),
        IRKindS::Return { value } => wf_ir(*value),
        IRKindS::Do { body } => wf_ir_seq(body),
        IRKindS::If { cond, body, else_body } => wf_ir(*cond) && wf_ir(*body) && wf_ir(*else_body),
        IRKindS::Case { cond, cases, default } => wf_ir(*cond) && wf_case_seq(cases) && wf_ir(
            *default,
        ),
        IRKindS::Unary { right, .. } => wf_ir(*right),
        IRKindS::Binary { left, right, .. } => wf_ir(*left) && wf_ir(*right),
        IRKindS::Value { .. } => true,
        IRKindS::Vector { values } => wf_ir_seq(values),
    }
}

pub open spec fn wf_ir_seq(s: Seq<IRKindS>) -> bool
    decreases s,
{
    if s.len() == 0 {
        true
    } else {
        wf_ir(s[0]) && wf_ir_seq(s.drop_first())
    }
}

pub open spec fn wf_case_seq(s: Seq<(IRKindS, IRKindS)>) -> bool
    decreases s,
{
    if s.len() == 0 {
        true
    } else {
        wf_ir(s[0].0) && wf_ir(s[0].1) && wf_case_seq(s.drop_first())
    }
}

/// Each element of a well-formed sequence is well-formed.
pub proof fn lemma_wf_ir_seq(s: Seq<IRKindS>)
    requires
        wf_ir_seq(s),
    ensures
        forall|i: int| 0 <= i < s.len() ==> wf_ir(#[trigger] s[i]),
    decreases s.len(),
{
    if s.len() > 0 {
        lemma_wf_ir_seq(s.drop_first());
        assert forall|i: int| 0 <= i < s.len() implies wf_ir(#[trigger] s[i]) by {
            if i > 0 {
                assert(wf_ir(s.drop_first()[i - 1]));
            }
        }
    }
}

/// Each arm of a well-formed case list is well-formed.
pub proof fn lemma_wf_case_seq(s: Seq<(IRKindS, IRKindS)>)
    requires
        wf_case_seq(s),
    ensures
        forall|i: int| #![trigger s[i]] 0 <= i < s.len() ==> wf_ir(s[i].0) && wf_ir(s[i].1),
    decreases s.len(),
{
    if s.len() > 0 {
        lemma_wf_case_seq(s.drop_first());
        assert forall|i: int| #![trigger s[i]] 0 <= i < s.len() implies wf_ir(s[i].0) && wf_ir(
            s[i].1,
        ) by {
            if i > 0 {
                assert(wf_ir(s.drop_first()[i - 1].0) && wf_ir(s.drop_first()[i - 1].1));
            }
        }
    }
}


/// The six recognized intrinsic names are pairwise distinct.
pub proof fn lemma_intrinsic_names_differ()
    ensures
        "write"@ != "write_file"@,
        "write"@ != "read"@,
        "write"@ != "read_file"@,
        "write"@ != "emit"@,
        "write"@ != "get"@,
        "write_file"@ != "read"@,
        "write_file"@ != "read_file"@,
        "write_file"@ != "emit"@,
        "write_file"@ != "get"@,
        "read"@ != "read_file"@,
        "read"@ != "emit"@,
        "read"@ != "get"@,
        "read_file"@ != "emit"@,
        "read_file"@ != "get"@,
        "emit"@ != "get"@,
{
    reveal_strlit("write");
    reveal_strlit("write_file");
    reveal_strlit("read");
    reveal_strlit("read_file");
    reveal_strlit("emit");
    reveal_strlit("get");
    assert("write"@.len() == 5);
    assert("write_file"@.len() == 10);
    assert("read"@.len() == 4);
    assert("read_file"@.len() == 9);
    assert("emit"@.len() == 4);
    assert("get"@.len() == 3);
    assert("read"@[0] == 'r' && "emit"@[0] == 'e');
}

/// The rendering of one intermediate-representation node.
///
/// `semi` is the statement/expression context: statement context appends
/// the statement separator where the grammar of the target language wants
/// one, expression context never does. Sub-expressions always recurse in
/// expression context; block members and conditional arms in statement
/// context.
pub open spec fn sp_render(k: IRKindS, semi: bool) -> Seq<char>
    decreases k, 1int, 0int,
{
    match k {
        IRKindS::Define { public, name, type_hint, value, mutable } => sp_vis(public) + " "@ + (
        if mutable {
            "let"@
        } else {
            "const"@
        }) + " v_"@ + name + ": "@ + type_hint + " = "@ + sp_render(*value, false) + sp_semi(semi)
            + "\n"@,
        IRKindS::Call { name, args } => "f_"@ + name + "("@ + sp_join(args, args.len() as int)
            + ")"@ + sp_semi(semi),
        IRKindS::Intrinsic { name, args } => {
            if name == "write"@ && args.len() == 1 {
                "write("@ + sp_render(args[0], false) + ")"@ + sp_semi(semi) + "\n"@
            } else if name == "write_file"@ && args.len() == 2 {
                "writeFile("@ + sp_render(args[0], false) + ", "@ + sp_render(args[1], false)
                    + ")"@ + sp_semi(semi) + "\n"@
            } else if name == "read"@ && args.len() == 1 {
                "read("@ + sp_render(args[0], false) + ")"@ + sp_semi(semi) + "\n"@
            } else if name == "read_file"@ && args.len() == 1 {
                "readFile("@ + sp_render(args[0], false) + ")"@ + sp_semi(semi) + "\n"@
            } else if name == "emit"@ && args.len() == 1 {
                match args[0] {
                    IRKindS::Value { value: ValueS::Str(s) } => s,
                    _ => Seq::empty(),
                }
            } else if name == "get"@ && args.len() == 2 {
                sp_render(args[0], false) + "["@ + sp_render(args[1], false) + "]"@
            } else {
                Seq::empty()
            }
        },
        IRKindS::Fun { public, name, return_type_hint, args, body } => sp_vis(public) + " const f_"@
            + name + " = ("@ + sp_join_params(args, args.len() as int) + "): "@ + return_type_hint
            + " => "@ + sp_render(*body, false) + ";\n"@,
        IRKindS::Return { value } => "return "@ + sp_render(*value, false) + ";\n"@,
        IRKindS::Do { body } => "{\n"@ + sp_concat_stmts(body, body.len() as int) + "}\n"@,
        IRKindS::If { cond, body, else_body } => "if ("@ + sp_render(*cond, true) + ") {\n"@
            + sp_render(*body, true) + "} else {\n"@ + sp_render(*else_body, true) + "}\n"@,
        IRKindS::Case { cond, cases, default } => "switch ("@ + sp_render(*cond, true) + ") {\n"@
            + sp_cases(cases, cases.len() as int) + "default: "@ + sp_render(*default, true)
            + "\nbreak;\n"@ + "\n}\n"@,
        IRKindS::Unary { op, right } => op + sp_render(*right, false),
        IRKindS::Binary { left, op, right } => sp_render(*left, false) + " "@ + op + " "@
            + sp_render(*right, false),
        IRKindS::Value { value } => sp_value_text(value),
        IRKindS::Vector { values } => "["@ + sp_join(values, values.len() as int) + "]"@,
    }
}

/// The first `n` elements rendered in expression context, joined by `, `.
pub open spec fn sp_join(args: Seq<IRKindS>, n: int) -> Seq<char>
    decreases args, 0int, n,
{
    if n <= 0 || n > args.len() {
        Seq::empty()
    } else if n == 1 {
        sp_render(args[0], false)
    } else {
        sp_join(args, n - 1) + ", "@ + sp_render(args[n - 1], false)
    }
}

/// The first `n` parameters rendered as `v_name: type`, joined by `, `.
pub open spec fn sp_join_params(args: Seq<(Seq<char>, Seq<char>)>, n: int) -> Seq<char>
    decreases n,
{
    if n <= 0 {
        Seq::empty()
    } else if n == 1 {
        "v_"@ + args[0].0 + ": "@ + args[0].1
    } else {
        sp_join_params(args, n - 1) + ", "@ + "v_"@ + args[n - 1].0 + ": "@ + args[n - 1].1
    }
}

/// The first `n` block members rendered in statement context, one after
/// the other.
pub open spec fn sp_concat_stmts(body: Seq<IRKindS>, n: int) -> Seq<char>
    decreases body, 0int, n,
{
    if n <= 0 || n > body.len() {
        Seq::empty()
    } else {
        sp_concat_stmts(body, n - 1) + sp_render(body[n - 1], true)
    }
}

/// The first `n` case arms, each `case <pattern>: <body>` followed by a
/// fallthrough-preventing `break`, with a blank line between arms.
pub open spec fn sp_cases(cases: Seq<(IRKindS, IRKindS)>, n: int) -> Seq<char>
    decreases cases, 0int, n,
{
    if n <= 0 || n > cases.len() {
        Seq::empty()
    } else {
        sp_cases(cases, n - 1) + (
        if n > 1 {
            "\n"@
        } else {
            ""@
        }) + "case "@ + sp_render(cases[n - 1].0, true) + ": "@ + sp_render(cases[n - 1].1, true)
            + "\nbreak;\n"@
    }
}

/// The fixed header comment naming the tool and its version.
pub open spec fn sp_header() -> Seq<char> {
    "// Emitted by the hazure compiler version 0.1.0\n"@
}

/// The fixed import of the four runtime primitives.
pub open spec fn sp_import() -> Seq<char> {
    "import { read, write, readFile, writeFile } from \"./runtime/io.ts\"\n"@
}

/// The trailing invocation of the conventionally named entry point.
pub open spec fn sp_entry() -> Seq<char> {
    "f_main();"@
}

/// The first `n` top-level nodes rendered in statement context.
pub open spec fn sp_program(irs: Seq<IRKindS>, n: int) -> Seq<char>
    decreases irs, 0int, n,
{
    if n <= 0 {
        Seq::empty()
    } else {
        sp_program(irs, n - 1) + sp_render(irs[n - 1], true)
    }
}

/// Everything one generation run appends: header, runtime import, every
/// node in order, entry-point call.
pub open spec fn sp_gen(irs: Seq<IRKindS>) -> Seq<char> {
    sp_header() + sp_import() + sp_program(irs, irs.len() as int) + sp_entry()
}


/// The images of the top-level nodes of a program.
pub open spec fn view_irs(s: Seq<IR>) -> Seq<IRKindS> {
    Seq::new(s.len(), |i: int| view_ir(s[i].kind))
}

fn digit_str(d: u64) -> (r: &'static str)
    requires
        d < 10,
    ensures
        r@ == seq![digit_char(d as int)],
{
    proof {
        reveal_strlit("0");
        reveal_strlit("1");
        reveal_strlit("2");
        reveal_strlit("3");
        reveal_strlit("4");
        reveal_strlit("5");
        reveal_strlit("6");
        reveal_strlit("7");
        reveal_strlit("8");
        reveal_strlit("9");
    }
    let r = if d == 0 {
        "0"
    } else if d == 1 {
        "1"
    } else if d == 2 {
        "2"
    } else if d == 3 {
        "3"
    } else if d == 4 {
        "4"
    } else if d == 5 {
        "5"
    } else if d == 6 {
        "6"
    } else if d == 7 {
        "7"
    } else if d == 8 {
        "8"
    } else {
        "9"
    };
    proof {
        assert(r@ =~= seq![digit_char(d as int)]);
    }
    r
}

fn nat_text(n: u64) -> (r: String)
    ensures
        r@ == sp_nat_text(n as int),
    decreases n,
{
    if n < 10 {
        String::from_str(digit_str(n))
    } else {
        let mut s = nat_text(n / 10);
        s.append(digit_str(n % 10));
        s
    }
}

fn int_text(i: i64) -> (r: String)
    ensures
        r@ == sp_int_text(i as int),
{
    if i >= 0 {
        nat_text(i as u64)
    } else {
        let m: u64 = (-(i as i128)) as u64;
        let mut s = String::from_str("-");
        s.append(nat_text(m).as_str());
        proof {
            reveal_strlit("-");
            assert("-"@ =~= seq!['-']);
            assert(s@ =~= seq!['-'] + sp_nat_text(-(i as int)));
        }
        s
    }
}

fn value_text(v: &Value) -> (r: String)
    ensures
        r@ == sp_value_text(crate::ir::view_value(*v)),
{
    match v {
        Value::Int(i) => int_text(*i),
        Value::Boolean(b) => {
            if *b {
                String::from_str("true")
            } else {
                String::from_str("false")
            }
        },
        Value::Str(s) => {
            let mut r = String::from_str("\"");
            r.append(s.as_str());
            r.append("\"");
            r
        },
        Value::Ident(s) => {
            let mut r = String::from_str("v_");
            r.append(s.as_str());
            r
        },
    }
}

impl Codegen {
    /// Renders one node; `should_gen_semicolon` selects statement context.
    ///
    /// The tree must be well-formed lowering output: an unrecognized
    /// intrinsic is a defect of the lowering stage, not an input this
    /// renderer accepts.
    #[verifier::loop_isolation(false)]
    #[verifier::rlimit(100)]
    pub fn gen_ir(&self, ir: &IRKind, should_gen_semicolon: bool) -> (r: String)
        requires
            wf_ir(view_ir(*ir)),
        ensures
            r@ == sp_render(view_ir(*ir), should_gen_semicolon),
        decreases *ir, 1int, 0int,
    {
        let semi: &'static str = if should_gen_semicolon { ";" } else { "" };
        assert(semi@ == sp_semi(should_gen_semicolon));
        match ir {
            IRKind::Define { public, name, type_hint, value, mutable } => {
                let mut out = String::from_str(if *public { "export" } else { "" });
                out.append(" ");
                out.append(if *mutable { "let" } else { "const" });
                out.append(" v_");
                out.append(name.as_str());
                out.append(": ");
                out.append(type_hint.as_str());
                out.append(" = ");
                let piece = self.gen_ir(value, false);
                out.append(piece.as_str());
                out.append(semi);
                out.append("\n");
                proof {
                    assert(out@ =~= sp_render(view_ir(*ir), should_gen_semicolon));
                }
                out
            },
            IRKind::Call { name, args } => {
                let mut out = String::from_str("f_");
                out.append(name.as_str());
                out.append("(");
                let ghost base = out@;
                let ghost vargs = view_ir_seq(args@);
                proof {
                    lemma_view_ir_seq(args@);
                    lemma_wf_ir_seq(vargs);
                    assert(base + sp_join(vargs, 0) =~= base);
                }
                let mut i: usize = 0;
                while i < args.len()
                    invariant
                        i <= args.len(),
                        vargs == view_ir_seq(args@),
                        wf_ir(view_ir(*ir)),
                        view_ir(*ir) == (IRKindS::Call { name: name@, args: vargs }),
                        forall|j: int| 0 <= j < vargs.len() ==> wf_ir(#[trigger] vargs[j]),
                        vargs.len() == args@.len(),
                        forall|j: int| 0 <= j < args@.len() ==> vargs[j] == view_ir(#[trigger] args@[j]),
                        out@ == base + sp_join(vargs, i as int),
                    decreases args.len() - i,
                {
                    let ghost out0 = out@;
                    if i > 0 {
                        out.append(", ");
                    }
                    proof {
                        assert(decreases_to!(*ir => *args));
                        assert(decreases_to!(*args => args@));
                        assert(decreases_to!(args@ => args@[i as int]));
                    }
                    let piece = self.gen_ir(&args[i], false);
                    out.append(piece.as_str());
                    proof {
                        if i == 0 {
                            assert(sp_join(vargs, 1) == sp_render(vargs[0], false));
                            assert(out@ =~= base + sp_join(vargs, (i + 1) as int));
                        } else {
                            assert(sp_join(vargs, (i + 1) as int) == sp_join(vargs, i as int)
                                + ", "@ + sp_render(vargs[i as int], false));
                            assert(out@ =~= base + sp_join(vargs, (i + 1) as int));
                        }
                    }
                    i = i + 1;
                }
                out.append(")");
                out.append(semi);
                proof {
                    assert(out@ =~= sp_render(view_ir(*ir), should_gen_semicolon));
                }
                out
            },
            IRKind::Intrinsic { name, args } => {
                proof {
                    lemma_view_ir_seq(args@);
                    lemma_wf_ir_seq(view_ir_seq(args@));
                    lemma_intrinsic_names_differ();
                    assert(view_ir(*ir) == (IRKindS::Intrinsic {
                        name: name@,
                        args: view_ir_seq(args@),
                    }));
                }
                if str_eq(name, "write") {
                    assert(view_ir_seq(args@).len() == 1);
                    let mut out = String::from_str("write(");
                    let piece = self.gen_ir(&args[0], false);
                    out.append(piece.as_str());
                    out.append(")");
                    out.append(semi);
                    out.append("\n");
                    proof {
                        assert(out@ =~= sp_render(view_ir(*ir), should_gen_semicolon));
                    }
                    out
                } else if str_eq(name, "write_file") {
                    assert(view_ir_seq(args@).len() == 2);
                    assert(view_ir_seq(args@)[1] == view_ir(args@[1]));
                    assert(wf_ir(view_ir(args@[1])));
                    let mut out = String::from_str("writeFile(");
                    let piece = self.gen_ir(&args[0], false);
                    out.append(piece.as_str());
                    out.append(", ");
                    let piece2 = self.gen_ir(&args[1], false);
                    out.append(piece2.as_str());
                    out.append(")");
                    out.append(semi);
                    out.append("\n");
                    proof {
                        assert(out@ =~= sp_render(view_ir(*ir), should_gen_semicolon));
                    }
                    out
                } else if str_eq(name, "read") {
                    let mut out = String::from_str("read(");
                    let piece = self.gen_ir(&args[0], false);
                    out.append(piece.as_str());
                    out.append(")");
                    out.append(semi);
                    out.append("\n");
                    proof {
                        assert(out@ =~= sp_render(view_ir(*ir), should_gen_semicolon));
                    }
                    out
                } else if str_eq(name, "read_file") {
                    let mut out = String::from_str("readFile(");
                    let piece = self.gen_ir(&args[0], false);
                    out.append(piece.as_str());
                    out.append(")");
                    out.append(semi);
                    out.append("\n");
                    proof {
                        assert(out@ =~= sp_render(view_ir(*ir), should_gen_semicolon));
                    }
                    out
                } else if str_eq(name, "emit") {
                    match &args[0] {
                        IRKind::Value { value: Value::Str(s) } => {
                            let out = s.clone();
                            proof {
                                assert(out@ =~= sp_render(view_ir(*ir), should_gen_semicolon));
                            }
                            out
                        },
                        _ => {
                            proof {
                                assert(false);
                            }
                            String::new()
                        },
                    }
                } else if str_eq(name, "get") {
                    assert(view_ir_seq(args@).len() == 2);
                    assert(view_ir_seq(args@)[1] == view_ir(args@[1]));
                    assert(wf_ir(view_ir(args@[1])));
                    let mut out = self.gen_ir(&args[0], false);
                    out.append("[");
                    let piece = self.gen_ir(&args[1], false);
                    out.append(piece.as_str());
                    out.append("]");
                    proof {
                        assert(out@ =~= sp_render(view_ir(*ir), should_gen_semicolon));
                    }
                    out
                } else {
                    proof {
                        assert(false);
                    }
                    String::new()
                }
            },
            IRKind::Fun { public, name, return_type_hint, args, body } => {
                let mut out = String::from_str(if *public { "export" } else { "" });
                out.append(" const f_");
                out.append(name.as_str());
                out.append(" = (");
                let ghost base = out@;
                let ghost vargs = crate::ir::view_fargs(args@);
                proof {
                    assert(base + sp_join_params(vargs, 0) =~= base);
                }
                let mut i: usize = 0;
                while i < args.len()
                    invariant
                        i <= args.len(),
                        vargs == crate::ir::view_fargs(args@),
                        vargs.len() == args@.len(),
                        out@ == base + sp_join_params(vargs, i as int),
                    decreases args.len() - i,
                {
                    if i > 0 {
                        out.append(", ");
                    }
                    out.append("v_");
                    out.append(args[i].0.as_str());
                    out.append(": ");
                    out.append(args[i].1.as_str());
                    proof {
                        if i == 0 {
                            assert(out@ =~= base + sp_join_params(vargs, (i + 1) as int));
                        } else {
                            assert(sp_join_params(vargs, (i + 1) as int) == sp_join_params(
                                vargs,
                                i as int,
                            ) + ", "@ + "v_"@ + vargs[i as int].0 + ": "@ + vargs[i as int].1);
                            assert(out@ =~= base + sp_join_params(vargs, (i + 1) as int));
                        }
                    }
                    i = i + 1;
                }
                out.append("): ");
                out.append(return_type_hint.as_str());
                out.append(" => ");
                let piece = self.gen_ir(body, false);
                out.append(piece.as_str());
                out.append(";\n");
                proof {
                    assert(out@ =~= sp_render(view_ir(*ir), should_gen_semicolon));
                }
                out
            },
            IRKind::Return { value } => {
                let mut out = String::from_str("return ");
                let piece = self.gen_ir(value, false);
                out.append(piece.as_str());
                out.append(";\n");
                proof {
                    assert(out@ =~= sp_render(view_ir(*ir), should_gen_semicolon));
                }
                out
            },
            IRKind::Do { body } => {
                let mut out = String::from_str("{\n");
                let ghost base = out@;
                let ghost vbody = view_ir_seq(body@);
                proof {
                    lemma_view_ir_seq(body@);
                    lemma_wf_ir_seq(vbody);
                    assert(base + sp_concat_stmts(vbody, 0) =~= base);
                }
                let mut i: usize = 0;
                while i < body.len()
                    invariant
                        i <= body.len(),
                        vbody == view_ir_seq(body@),
                        wf_ir(view_ir(*ir)),
                        view_ir(*ir) == (IRKindS::Do { body: vbody }),
                        forall|j: int| 0 <= j < vbody.len() ==> wf_ir(#[trigger] vbody[j]),
                        vbody.len() == body@.len(),
                        forall|j: int| 0 <= j < body@.len() ==> vbody[j] == view_ir(#[trigger] body@[j]),
                        out@ == base + sp_concat_stmts(vbody, i as int),
                    decreases body.len() - i,
                {
                    proof {
                        assert(decreases_to!(*ir => *body));
                        assert(decreases_to!(*body => body@));
                        assert(decreases_to!(body@ => body@[i as int]));
                    }
                    let piece = self.gen_ir(&body[i], true);
                    out.append(piece.as_str());
                    proof {
                        assert(sp_concat_stmts(vbody, (i + 1) as int) == sp_concat_stmts(
                            vbody,
                            i as int,
                        ) + sp_render(vbody[i as int], true));
                        assert(out@ =~= base + sp_concat_stmts(vbody, (i + 1) as int));
                    }
                    i = i + 1;
                }
                out.append("}\n");
                proof {
                    assert(out@ =~= sp_render(view_ir(*ir), should_gen_semicolon));
                }
                out
            },
            IRKind::If { cond, body, else_body } => {
                let mut out = String::from_str("if (");
                let piece = self.gen_ir(cond, true);
                out.append(piece.as_str());
                out.append(") {\n");
                let piece2 = self.gen_ir(body, true);
                out.append(piece2.as_str());
                out.append("} else {\n");
                let piece3 = self.gen_ir(else_body, true);
                out.append(piece3.as_str());
                out.append("}\n");
                proof {
                    assert(out@ =~= sp_render(view_ir(*ir), should_gen_semicolon));
                }
                out
            },
            IRKind::Case { cond, cases, default } => {
                let mut out = String::from_str("switch (");
                let piece = self.gen_ir(cond, true);
                out.append(piece.as_str());
                out.append(") {\n");
                let ghost base = out@;
                let ghost vcases = crate::ir::view_case_seq(cases@);
                proof {
                    lemma_view_case_seq(cases@);
                    lemma_wf_case_seq(vcases);
                    assert(base + sp_cases(vcases, 0) =~= base);
                }
                let mut i: usize = 0;
                while i < cases.len()
                    invariant
                        i <= cases.len(),
                        vcases == crate::ir::view_case_seq(cases@),
                        wf_ir(view_ir(*ir)),
                        view_ir(*ir) == (IRKindS::Case {
                            cond: Box::new(view_ir(**cond)),
                            cases: vcases,
                            default: Box::new(view_ir(**default)),
                        }),
                        forall|j: int|
                            0 <= j < vcases.len() ==> wf_ir(#[trigger] vcases[j].0) && wf_ir(
                                vcases[j].1,
                            ),
                        vcases.len() == cases@.len(),
                        forall|j: int|
                            0 <= j < cases@.len() ==> vcases[j] == (view_ir(#[trigger] cases@[j].0),
                            view_ir(cases@[j].1)),
                        out@ == base + sp_cases(vcases, i as int),
                    decreases cases.len() - i,
                {
                    if i > 0 {
                        out.append("\n");
                    }
                    out.append("case ");
                    let pair = &cases[i];
                    proof {
                        assert(decreases_to!(*ir => *cases));
                        assert(decreases_to!(*cases => cases@));
                        assert(decreases_to!(cases@ => cases@[i as int]));
                        assert(decreases_to!(cases@[i as int] => cases@[i as int].0));
                        assert(decreases_to!(cases@[i as int] => cases@[i as int].1));
                    }
                    let piece_p = self.gen_ir(&pair.0, true);
                    out.append(piece_p.as_str());
                    out.append(": ");
                    let piece_b = self.gen_ir(&pair.1, true);
                    out.append(piece_b.as_str());
                    out.append("\nbreak;\n");
                    proof {
                        let vp = sp_render(vcases[i as int].0, true);
                        let vb = sp_render(vcases[i as int].1, true);
                        assert(vcases[i as int] == (view_ir(cases@[i as int].0), view_ir(
                            cases@[i as int].1,
                        )));
                        assert(piece_p@ == vp);
                        assert(piece_b@ == vb);
                        if i == 0 {
                            reveal_strlit("");
                            assert(""@.len() == 0);
                            assert(sp_cases(vcases, 1) == sp_cases(vcases, 0) + ""@ + "case "@ + vp
                                + ": "@ + vb + "\nbreak;\n"@);
                            assert(out@ =~= base + sp_cases(vcases, (i + 1) as int));
                        } else {
                            assert(sp_cases(vcases, (i + 1) as int) == sp_cases(vcases, i as int)
                                + "\n"@ + "case "@ + vp + ": "@ + vb + "\nbreak;\n"@);
                            assert(out@ =~= base + sp_cases(vcases, (i + 1) as int));
                        }
                    }
                    i = i + 1;
                }
                out.append("default: ");
                let piece_d = self.gen_ir(default, true);
                out.append(piece_d.as_str());
                out.append("\nbreak;\n");
                out.append("\n}\n");
                proof {
                    assert(out@ =~= sp_render(view_ir(*ir), should_gen_semicolon));
                }
                out
            },
            IRKind::Unary { op, right } => {
                let mut out = op.clone();
                let piece = self.gen_ir(right, false);
                out.append(piece.as_str());
                proof {
                    assert(out@ =~= sp_render(view_ir(*ir), should_gen_semicolon));
                }
                out
            },
            IRKind::Binary { left, op, right } => {
                let mut out = self.gen_ir(left, false);
                out.append(" ");
                out.append(op.as_str());
                out.append(" ");
                let piece = self.gen_ir(right, false);
                out.append(piece.as_str());
                proof {
                    assert(out@ =~= sp_render(view_ir(*ir), should_gen_semicolon));
                }
                out
            },
            IRKind::Value { value } => value_text(value),
            IRKind::Vector { values } => {
                let mut out = String::from_str("[");
                let ghost base = out@;
                let ghost vvals = view_ir_seq(values@);
                proof {
                    lemma_view_ir_seq(values@);
                    lemma_wf_ir_seq(vvals);
                    assert(base + sp_join(vvals, 0) =~= base);
                }
                let mut i: usize = 0;
                while i < values.len()
                    invariant
                        i <= values.len(),
                        vvals == view_ir_seq(values@),
                        wf_ir(view_ir(*ir)),
                        view_ir(*ir) == (IRKindS::Vector { values: vvals }),
                        forall|j: int| 0 <= j < vvals.len() ==> wf_ir(#[trigger] vvals[j]),
                        vvals.len() == values@.len(),
                        forall|j: int|
                            0 <= j < values@.len() ==> vvals[j] == view_ir(#[trigger] values@[j]),
                        out@ == base + sp_join(vvals, i as int),
                    decreases values.len() - i,
                {
                    if i > 0 {
                        out.append(", ");
                    }
                    proof {
                        assert(decreases_to!(*ir => *values));
                        assert(decreases_to!(*values => values@));
                        assert(decreases_to!(values@ => values@[i as int]));
                    }
                    let piece = self.gen_ir(&values[i], false);
                    out.append(piece.as_str());
                    proof {
                        if i == 0 {
                            assert(sp_join(vvals, 1) == sp_render(vvals[0], false));
                            assert(out@ =~= base + sp_join(vvals, (i + 1) as int));
                        } else {
                            assert(sp_join(vvals, (i + 1) as int) == sp_join(vvals, i as int)
                                + ", "@ + sp_render(vvals[i as int], false));
                            assert(out@ =~= base + sp_join(vvals, (i + 1) as int));
                        }
                    }
                    i = i + 1;
                }
                out.append("]");
                proof {
                    assert(out@ =~= sp_render(view_ir(*ir), should_gen_semicolon));
                }
                out
            },
        }
    }

    /// Renders a whole lowered program into the output buffer: the fixed
    /// header comment, the fixed runtime import, every node in order in
    /// statement context, and the trailing entry-point invocation.
    #[verifier::loop_isolation(false)]
    pub fn gen(&mut self, irs: Vec<IR>)
        requires
            forall|i: int| 0 <= i < irs@.len() ==> wf_ir(#[trigger] view_ir(irs@[i].kind)),
        ensures
            final(self).emitted@ == old(self).emitted@ + sp_gen(view_irs(irs@)),
    {
        self.emit("// Emitted by the hazure compiler version 0.1.0\n");
        self.emit("import { read, write, readFile, writeFile } from \"./runtime/io.ts\"\n");
        let ghost base = self.emitted@;
        let ghost virs = view_irs(irs@);
        proof {
            assert(base + sp_program(virs, 0) =~= base);
        }
        let mut i: usize = 0;
        while i < irs.len()
            invariant
                i <= irs.len(),
                virs == view_irs(irs@),
                virs.len() == irs@.len(),
                forall|j: int| 0 <= j < irs@.len() ==> wf_ir(#[trigger] view_ir(irs@[j].kind)),
                forall|j: int| 0 <= j < irs@.len() ==> virs[j] == view_ir(#[trigger] irs@[j].kind),
                self.emitted@ == base + sp_program(virs, i as int),
            decreases irs.len() - i,
        {
            let piece = self.gen_ir(&irs[i].kind, true);
            self.emit(piece.as_str());
            proof {
                assert(sp_program(virs, (i + 1) as int) == sp_program(virs, i as int) + sp_render(
                    virs[i as int],
                    true,
                ));
                assert(self.emitted@ =~= base + sp_program(virs, (i + 1) as int));
            }
            i = i + 1;
        }
        self.emit("f_main();");
        proof {
            assert(final(self).emitted@ =~= old(self).emitted@ + sp_gen(view_irs(irs@)));
        }
    }
}

/// Compares a name against a fixed intrinsic spelling.
fn str_eq(a: &String, b: &str) -> (r: bool)
    ensures
        r == (a@ == b@),
{
    a.eq(&String::from_str(b))
}


/// Does this character sequence avoid the statement separator?
pub open spec fn no_semi(s: Seq<char>) -> bool {
    forall|i: int| 0 <= i < s.len() ==> s[i] != ';'
}

/// Concatenation preserves freedom from the statement separator.
pub proof fn lemma_no_semi_concat(a: Seq<char>, b: Seq<char>)
    requires
        no_semi(a),
        no_semi(b),
    ensures
        no_semi(a + b),
{
    assert forall|i: int| 0 <= i < (a + b).len() implies (a + b)[i] != ';' by {
        if i < a.len() {
            assert((a + b)[i] == a[i]);
        } else {
            assert((a + b)[i] == b[i - a.len()]);
        }
    }
}

/// Decimal digit characters are never the statement separator.
pub proof fn lemma_no_semi_nat_text(n: int)
    ensures
        no_semi(sp_nat_text(n)),
    decreases n,
{
    if n >= 10 {
        lemma_no_semi_nat_text(n / 10);
        lemma_no_semi_concat(sp_nat_text(n / 10), seq![digit_char(n % 10)]);
    }
}

/// A rendered integer never holds the statement separator.
pub proof fn lemma_no_semi_int_text(i: int)
    ensures
        no_semi(sp_int_text(i)),
{
    lemma_no_semi_nat_text(i);
    if i < 0 {
        lemma_no_semi_nat_text(-i);
        lemma_no_semi_concat(seq!['-'], sp_nat_text(-i));
    }
}

/// An expression-shaped node: one of the forms the lowering stage places in
/// argument and operand position, whose own text holds no statement
/// separator. Statement forms are excluded, as is any literal text that
/// carries a `;` of its own.
pub open spec fn expr_shaped(k: IRKindS) -> bool
    decreases k,
{
    match k {
        IRKindS::Call { name, args } => no_semi(name) && expr_shaped_seq(args),
        IRKindS::Intrinsic { name, args } => expr_shaped_seq(args) && (name == "emit"@
            && args.len() == 1 ==> (args[0] matches IRKindS::Value { value: ValueS::Str(s) }
            ==> no_semi(s))),
        IRKindS::Unary { op, right } => no_semi(op) && expr_shaped(*right),
        IRKindS::Binary { left, op, right } => expr_shaped(*left) && no_semi(op) && expr_shaped(
            *right,
        ),
        IRKindS::Value { value } => match value {
            ValueS::Int(_) => true,
            ValueS::Boolean(_) => true,
            ValueS::Str(s) => no_semi(s),
            ValueS::Ident(x) => no_semi(x),
        },
        IRKindS::Vector { values } => expr_shaped_seq(values),
        _ => false,
    }
}

pub open spec fn expr_shaped_seq(s: Seq<IRKindS>) -> bool
    decreases s,
{
    if s.len() == 0 {
        true
    } else {
        expr_shaped(s[0]) && expr_shaped_seq(s.drop_first())
    }
}

pub proof fn lemma_expr_shaped_seq(s: Seq<IRKindS>)
    requires
        expr_shaped_seq(s),
    ensures
        forall|i: int| 0 <= i < s.len() ==> expr_shaped(#[trigger] s[i]),
    decreases s.len(),
{
    if s.len() > 0 {
        lemma_expr_shaped_seq(s.drop_first());
        assert forall|i: int| 0 <= i < s.len() implies expr_shaped(#[trigger] s[i]) by {
            if i > 0 {
                assert(expr_shaped(s.drop_first()[i - 1]));
            }
        }
    }
}

/// The fixed text fragments of the renderer hold no statement separator.
proof fn lemma_fragments_no_semi()
    ensures
        no_semi("f_"@),
        no_semi("("@),
        no_semi(")"@),
        no_semi(""@),
        no_semi(", "@),
        no_semi(" "@),
        no_semi("["@),
        no_semi("]"@),
        no_semi("\n"@),
        no_semi("write("@),
        no_semi("writeFile("@),
        no_semi("read("@),
        no_semi("readFile("@),
        no_semi("v_"@),
        no_semi("\""@),
        no_semi("true"@),
        no_semi("false"@),
{
    reveal_strlit("f_");
    reveal_strlit("(");
    reveal_strlit(")");
    reveal_strlit("");
    reveal_strlit(", ");
    reveal_strlit(" ");
    reveal_strlit("[");
    reveal_strlit("]");
    reveal_strlit("\n");
    reveal_strlit("write(");
    reveal_strlit("writeFile(");
    reveal_strlit("read(");
    reveal_strlit("readFile(");
    reveal_strlit("v_");
    reveal_strlit("\"");
    reveal_strlit("true");
    reveal_strlit("false");
}

/// Terminator correctness, expression half: an expression-shaped node --
/// in particular any `Call` standing as a function argument -- renders in
/// expression context with no statement separator anywhere in its text.
pub proof fn lemma_expr_context_no_semi(k: IRKindS)
    requires
        expr_shaped(k),
    ensures
        no_semi(sp_render(k, false)),
    decreases k, 1int, 0int,
{
    lemma_fragments_no_semi();
    lemma_intrinsic_names_differ();
    assert(sp_semi(false) == ""@);
    match k {
        IRKindS::Call { name, args } => {
            lemma_join_no_semi(args, args.len() as int);
            lemma_no_semi_concat("f_"@, name);
            lemma_no_semi_concat("f_"@ + name, "("@);
            lemma_no_semi_concat("f_"@ + name + "("@, sp_join(args, args.len() as int));
            lemma_no_semi_concat("f_"@ + name + "("@ + sp_join(args, args.len() as int), ")"@);
            lemma_no_semi_concat(
                "f_"@ + name + "("@ + sp_join(args, args.len() as int) + ")"@,
                ""@,
            );
        },
        IRKindS::Intrinsic { name, args } => {
            lemma_expr_shaped_seq(args);
            if name == "write"@ && args.len() == 1 {
                lemma_expr_context_no_semi(args[0]);
                lemma_no_semi_concat("write("@, sp_render(args[0], false));
                lemma_no_semi_concat("write("@ + sp_render(args[0], false), ")"@);
                lemma_no_semi_concat("write("@ + sp_render(args[0], false) + ")"@, ""@);
                lemma_no_semi_concat("write("@ + sp_render(args[0], false) + ")"@ + ""@, "\n"@);
            } else if name == "write_file"@ && args.len() == 2 {
                lemma_expr_context_no_semi(args[0]);
                lemma_expr_context_no_semi(args[1]);
                let a = "writeFile("@ + sp_render(args[0], false);
                lemma_no_semi_concat("writeFile("@, sp_render(args[0], false));
                lemma_no_semi_concat(a, ", "@);
                lemma_no_semi_concat(a + ", "@, sp_render(args[1], false));
                lemma_no_semi_concat(a + ", "@ + sp_render(args[1], false), ")"@);
                lemma_no_semi_concat(a + ", "@ + sp_render(args[1], false) + ")"@, ""@);
                lemma_no_semi_concat(a + ", "@ + sp_render(args[1], false) + ")"@ + ""@, "\n"@);
            } else if name == "read"@ && args.len() == 1 {
                lemma_expr_context_no_semi(args[0]);
                lemma_no_semi_concat("read("@, sp_render(args[0], false));
                lemma_no_semi_concat("read("@ + sp_render(args[0], false), ")"@);
                lemma_no_semi_concat("read("@ + sp_render(args[0], false) + ")"@, ""@);
                lemma_no_semi_concat("read("@ + sp_render(args[0], false) + ")"@ + ""@, "\n"@);
            } else if name == "read_file"@ && args.len() == 1 {
                lemma_expr_context_no_semi(args[0]);
                lemma_no_semi_concat("readFile("@, sp_render(args[0], false));
                lemma_no_semi_concat("readFile("@ + sp_render(args[0], false), ")"@);
                lemma_no_semi_concat("readFile("@ + sp_render(args[0], false) + ")"@, ""@);
                lemma_no_semi_concat("readFile("@ + sp_render(args[0], false) + ")"@ + ""@, "\n"@);
            } else if name == "emit"@ && args.len() == 1 {
                assert(no_semi(sp_render(k, false)));
            } else if name == "get"@ && args.len() == 2 {
                lemma_expr_context_no_semi(args[0]);
                lemma_expr_context_no_semi(args[1]);
                lemma_no_semi_concat(sp_render(args[0], false), "["@);
                lemma_no_semi_concat(sp_render(args[0], false) + "["@, sp_render(args[1], false));
                lemma_no_semi_concat(
                    sp_render(args[0], false) + "["@ + sp_render(args[1], false),
                    "]"@,
                );
            }
        },
        IRKindS::Unary { op, right } => {
            lemma_expr_context_no_semi(*right);
            lemma_no_semi_concat(op, sp_render(*right, false));
        },
        IRKindS::Binary { left, op, right } => {
            lemma_expr_context_no_semi(*left);
            lemma_expr_context_no_semi(*right);
            let a = sp_render(*left, false) + " "@;
            lemma_no_semi_concat(sp_render(*left, false), " "@);
            lemma_no_semi_concat(a, op);
            lemma_no_semi_concat(a + op, " "@);
            lemma_no_semi_concat(a + op + " "@, sp_render(*right, false));
        },
        IRKindS::Value { value } => {
            match value {
                ValueS::Int(i) => {
                    lemma_no_semi_int_text(i as int);
                },
                ValueS::Boolean(_) => {},
                ValueS::Str(sv) => {
                    lemma_no_semi_concat("\""@, sv);
                    lemma_no_semi_concat("\""@ + sv, "\""@);
                },
                ValueS::Ident(x) => {
                    lemma_no_semi_concat("v_"@, x);
                },
            }
        },
        IRKindS::Vector { values } => {
            lemma_join_no_semi(values, values.len() as int);
            lemma_no_semi_concat("["@, sp_join(values, values.len() as int));
            lemma_no_semi_concat("["@ + sp_join(values, values.len() as int), "]"@);
        },
        _ => {},
    }
}

/// A joined list of expression-shaped arguments holds no separator.
pub proof fn lemma_join_no_semi(args: Seq<IRKindS>, n: int)
    requires
        expr_shaped_seq(args),
    ensures
        no_semi(sp_join(args, n)),
    decreases args, 0int, n,
{
    lemma_fragments_no_semi();
    lemma_expr_shaped_seq(args);
    if n <= 0 || n > args.len() {
    } else if n == 1 {
        lemma_expr_context_no_semi(args[0]);
    } else {
        lemma_join_no_semi(args, n - 1);
        lemma_expr_context_no_semi(args[n - 1]);
        lemma_no_semi_concat(sp_join(args, n - 1), ", "@);
        lemma_no_semi_concat(sp_join(args, n - 1) + ", "@, sp_render(args[n - 1], false));
    }
}

/// Terminator correctness, statement half: the same call rendered as a
/// standalone statement does carry the statement separator, as its final
/// character.
pub proof fn lemma_stmt_context_has_semi(name: Seq<char>, args: Seq<IRKindS>)
    ensures
        sp_render(IRKindS::Call { name, args }, true).len() >= 1,
        sp_render(IRKindS::Call { name, args }, true).last() == ';',
{
    reveal_strlit(";");
    let r = sp_render(IRKindS::Call { name, args }, true);
    assert(r == "f_"@ + name + "("@ + sp_join(args, args.len() as int) + ")"@ + ";"@);
    assert(r.last() == ";"@[0]);
}

/// Mangling of identifier references: a rendered identifier value is
/// exactly the fixed `v_` prefix followed by the user's name, in either
/// rendering context.
pub proof fn lemma_mangle_ident(x: Seq<char>, semi: bool)
    ensures
        sp_render(IRKindS::Value { value: ValueS::Ident(x) }, semi) == "v_"@ + x,
{
}

/// Mangling of function names: a rendered call begins with the fixed `f_`
/// prefix followed by the function's name.
pub proof fn lemma_mangle_call(name: Seq<char>, args: Seq<IRKindS>, semi: bool)
    ensures
        sp_render(IRKindS::Call { name, args }, semi) == "f_"@ + name + "("@ + sp_join(
            args,
            args.len() as int,
        ) + ")"@ + sp_semi(semi),
{
}

/// Mangling of bindings: a rendered definition carries ` v_` before the
/// bound name, and a rendered function definition ` const f_` before its
/// name.
pub proof fn lemma_mangle_define(
    public: bool,
    name: Seq<char>,
    type_hint: Seq<char>,
    value: Box<IRKindS>,
    mutable: bool,
    semi: bool,
)
    ensures
        sp_render(
            IRKindS::Define { public, name, type_hint, value, mutable },
            semi,
        ) == sp_vis(public) + " "@ + (
        if mutable {
            "let"@
        } else {
            "const"@
        }) + " v_"@ + name + ": "@ + type_hint + " = "@ + sp_render(*value, false) + sp_semi(semi)
            + "\n"@,
{
}

/// The generated buffer always ends with exactly the fixed entry-point
/// invocation, whatever the program holds.
pub proof fn lemma_entry_point(irs: Seq<IRKindS>)
    ensures
        sp_gen(irs).len() >= sp_entry().len(),
        sp_gen(irs).subrange(
            sp_gen(irs).len() - sp_entry().len(),
            sp_gen(irs).len() as int,
        ) == sp_entry(),
{
    let g = sp_gen(irs);
    let e = sp_entry();
    assert(g.subrange(g.len() - e.len(), g.len() as int) =~= e);
}

/// The tree-walking code generator: renders lowered programs into a single
/// text buffer of target-language source.
#[derive(Debug)]
pub struct Codegen {
    pub emitted: String,
}

impl Codegen {
    /// A generator with an empty output buffer.
    pub fn new() -> (r: Self)
        ensures
            r.emitted@ == Seq::<char>::empty(),
    {
        Codegen { emitted: String::new() }
    }

    /// Appends text to the output buffer.
    pub fn emit(&mut self, t: &str)
        ensures
            final(self).emitted@ == old(self).emitted@ + t@,
    {
        self.emitted.append(t);
    }
}

} // verus!
