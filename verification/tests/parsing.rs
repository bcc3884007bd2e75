use hazure::ast::{Expr, SpannedExpr};
use hazure::parser::parse;
use hazure::span::Span;
use hazure::token::{SpannedToken, Token};

fn tok(token: Token, start: usize, end: usize) -> SpannedToken {
    SpannedToken { token, span: Span { start, end } }
}

fn items_of(tokens: Vec<SpannedToken>, len: usize) -> (Vec<SpannedExpr>, usize) {
    let (program, errors) = parse(tokens, len);
    let items = program.expect("recovery always assembles a program");
    (items, errors.len())
}

#[test]
fn empty_stream_parses_to_empty_program() {
    let (items, n_errors) = items_of(vec![], 0);
    assert_eq!(items.len(), 0);
    assert_eq!(n_errors, 0);
}

#[test]
fn precedence_groups_factor_before_term() {
    // 1 * 2 + 3 ;  parses as  (1 * 2) + 3
    let toks = vec![
        tok(Token::Int(1), 0, 1),
        tok(Token::Multiply, 2, 3),
        tok(Token::Int(2), 4, 5),
        tok(Token::Plus, 6, 7),
        tok(Token::Int(3), 8, 9),
        tok(Token::SemiColon, 9, 10),
    ];
    let (items, n_errors) = items_of(toks, 10);
    assert_eq!(n_errors, 0);
    assert_eq!(items.len(), 1);
    match &items[0].expr {
        Expr::Binary { lhs, op, rhs } => {
            assert_eq!(op, "+");
            match &lhs.expr {
                Expr::Binary { lhs: ll, op: inner_op, rhs: lr } => {
                    assert_eq!(inner_op, "*");
                    assert!(matches!(ll.expr, Expr::Int(1)));
                    assert!(matches!(lr.expr, Expr::Int(2)));
                }
                other => panic!("expected inner product, got {:?}", other),
            }
            assert!(matches!(rhs.expr, Expr::Int(3)));
        }
        other => panic!("expected sum at top, got {:?}", other),
    }
}

#[test]
fn comparisons_fold_left_without_chaining() {
    // a < b < c ;  parses as  (a < b) < c
    let toks = vec![
        tok(Token::Identifier("a".to_string()), 0, 1),
        tok(Token::Less, 2, 3),
        tok(Token::Identifier("b".to_string()), 4, 5),
        tok(Token::Less, 6, 7),
        tok(Token::Identifier("c".to_string()), 8, 9),
        tok(Token::SemiColon, 9, 10),
    ];
    let (items, n_errors) = items_of(toks, 10);
    assert_eq!(n_errors, 0);
    assert_eq!(items.len(), 1);
    match &items[0].expr {
        Expr::Binary { lhs, op, rhs } => {
            assert_eq!(op, "<");
            match &lhs.expr {
                Expr::Binary { lhs: ll, op: inner_op, rhs: lr } => {
                    assert_eq!(inner_op, "<");
                    assert!(matches!(&ll.expr, Expr::Identifier(s) if s == "a"));
                    assert!(matches!(&lr.expr, Expr::Identifier(s) if s == "b"));
                }
                other => panic!("expected inner comparison, got {:?}", other),
            }
            assert!(matches!(&rhs.expr, Expr::Identifier(s) if s == "c"));
        }
        other => panic!("expected comparison at top, got {:?}", other),
    }
}

#[test]
fn repeated_argument_lists_fold_left() {
    // f(a, b)(c) ;  parses as  Call{Call{f, [a, b]}, [c]}
    let toks = vec![
        tok(Token::Identifier("f".to_string()), 0, 1),
        tok(Token::OpenParen, 1, 2),
        tok(Token::Identifier("a".to_string()), 2, 3),
        tok(Token::Comma, 3, 4),
        tok(Token::Identifier("b".to_string()), 4, 5),
        tok(Token::CloseParen, 5, 6),
        tok(Token::OpenParen, 6, 7),
        tok(Token::Identifier("c".to_string()), 7, 8),
        tok(Token::CloseParen, 8, 9),
        tok(Token::SemiColon, 9, 10),
    ];
    let (items, n_errors) = items_of(toks, 10);
    assert_eq!(n_errors, 0);
    assert_eq!(items.len(), 1);
    match &items[0].expr {
        Expr::Call { name, args } => {
            assert_eq!(args.len(), 1);
            assert!(matches!(&args[0].expr, Expr::Identifier(s) if s == "c"));
            match &name.expr {
                Expr::Call { name: inner_name, args: inner_args } => {
                    assert!(matches!(&inner_name.expr, Expr::Identifier(s) if s == "f"));
                    assert_eq!(inner_args.len(), 2);
                    assert!(matches!(&inner_args[0].expr, Expr::Identifier(s) if s == "a"));
                    assert!(matches!(&inner_args[1].expr, Expr::Identifier(s) if s == "b"));
                }
                other => panic!("expected inner call, got {:?}", other),
            }
        }
        other => panic!("expected call at top, got {:?}", other),
    }
}

#[test]
fn trailing_comma_in_argument_list_is_allowed() {
    // f(a,) ;
    let toks = vec![
        tok(Token::Identifier("f".to_string()), 0, 1),
        tok(Token::OpenParen, 1, 2),
        tok(Token::Identifier("a".to_string()), 2, 3),
        tok(Token::Comma, 3, 4),
        tok(Token::CloseParen, 4, 5),
        tok(Token::SemiColon, 5, 6),
    ];
    let (items, n_errors) = items_of(toks, 6);
    assert_eq!(n_errors, 0);
    assert_eq!(items.len(), 1);
    match &items[0].expr {
        Expr::Call { args, .. } => assert_eq!(args.len(), 1),
        other => panic!("expected call, got {:?}", other),
    }
}

#[test]
fn top_level_item_spans_cover_first_to_last_token() {
    // 1 + 2 ;  spans byte 3 through byte 9
    let toks = vec![
        tok(Token::Int(1), 3, 4),
        tok(Token::Plus, 5, 6),
        tok(Token::Int(2), 8, 9),
        tok(Token::SemiColon, 9, 10),
    ];
    let (items, n_errors) = items_of(toks, 10);
    assert_eq!(n_errors, 0);
    assert_eq!(items[0].span, Span { start: 3, end: 9 });
}

#[test]
fn let_span_runs_from_name_to_value_end() {
    // let x : int = 5 ;
    let toks = vec![
        tok(Token::KwLet, 0, 3),
        tok(Token::Identifier("x".to_string()), 4, 5),
        tok(Token::Colon, 5, 6),
        tok(Token::Identifier("int".to_string()), 7, 10),
        tok(Token::Assign, 11, 12),
        tok(Token::Int(5), 13, 14),
        tok(Token::SemiColon, 14, 15),
    ];
    let (items, n_errors) = items_of(toks, 15);
    assert_eq!(n_errors, 0);
    assert_eq!(items.len(), 1);
    match &items[0].expr {
        Expr::Let { name, type_hint, value } => {
            assert_eq!(name, "x");
            assert_eq!(type_hint, "int");
            assert!(matches!(value.expr, Expr::Int(5)));
        }
        other => panic!("expected let binding, got {:?}", other),
    }
    assert_eq!(items[0].span, Span { start: 4, end: 14 });
}

#[test]
fn fun_parses_name_params_hint_and_body() {
    // fun f ( a : int ) : int = a ;
    let toks = vec![
        tok(Token::KwFun, 0, 3),
        tok(Token::Identifier("f".to_string()), 4, 5),
        tok(Token::OpenParen, 6, 7),
        tok(Token::Identifier("a".to_string()), 7, 8),
        tok(Token::Colon, 8, 9),
        tok(Token::Identifier("int".to_string()), 10, 13),
        tok(Token::CloseParen, 13, 14),
        tok(Token::Colon, 15, 16),
        tok(Token::Identifier("int".to_string()), 17, 20),
        tok(Token::Assign, 21, 22),
        tok(Token::Identifier("a".to_string()), 23, 24),
        tok(Token::SemiColon, 24, 25),
    ];
    let (items, n_errors) = items_of(toks, 25);
    assert_eq!(n_errors, 0);
    assert_eq!(items.len(), 1);
    match &items[0].expr {
        Expr::Fun { name, type_hint, args, body } => {
            assert_eq!(name, "f");
            assert_eq!(type_hint, "int");
            assert_eq!(args.len(), 1);
            assert_eq!(args[0].name, "a");
            assert_eq!(args[0].type_hint, "int");
            assert!(matches!(&body.expr, Expr::Identifier(s) if s == "a"));
        }
        other => panic!("expected function, got {:?}", other),
    }
}

#[test]
fn do_block_collects_statements_and_spans_whole_block() {
    // do 1 ; 2 ; end ;
    let toks = vec![
        tok(Token::KwDo, 0, 2),
        tok(Token::Int(1), 3, 4),
        tok(Token::SemiColon, 4, 5),
        tok(Token::Int(2), 6, 7),
        tok(Token::SemiColon, 7, 8),
        tok(Token::KwEnd, 9, 12),
        tok(Token::SemiColon, 12, 13),
    ];
    let (items, n_errors) = items_of(toks, 13);
    assert_eq!(n_errors, 0);
    assert_eq!(items.len(), 1);
    match &items[0].expr {
        Expr::Do { body } => {
            assert_eq!(body.len(), 2);
            assert!(matches!(body[0].expr, Expr::Int(1)));
            assert!(matches!(body[1].expr, Expr::Int(2)));
        }
        other => panic!("expected do block, got {:?}", other),
    }
    assert_eq!(items[0].span, Span { start: 0, end: 12 });
}

#[test]
fn unary_operators_fold_right_onto_calls() {
    // - - 7 ;
    let toks = vec![
        tok(Token::Minus, 0, 1),
        tok(Token::Minus, 1, 2),
        tok(Token::Int(7), 2, 3),
        tok(Token::SemiColon, 3, 4),
    ];
    let (items, n_errors) = items_of(toks, 4);
    assert_eq!(n_errors, 0);
    match &items[0].expr {
        Expr::Unary { op, rhs } => {
            assert_eq!(op, "-");
            match &rhs.expr {
                Expr::Unary { op: inner_op, rhs: inner } => {
                    assert_eq!(inner_op, "-");
                    assert!(matches!(inner.expr, Expr::Int(7)));
                }
                other => panic!("expected nested negation, got {:?}", other),
            }
        }
        other => panic!("expected negation, got {:?}", other),
    }
}

#[test]
fn float_and_literal_atoms_keep_their_payloads() {
    // 1.5 ; true ; "hi" ;
    let toks = vec![
        tok(Token::Float("1.5".to_string()), 0, 3),
        tok(Token::SemiColon, 3, 4),
        tok(Token::Boolean(true), 5, 9),
        tok(Token::SemiColon, 9, 10),
        tok(Token::Str("hi".to_string()), 11, 15),
        tok(Token::SemiColon, 15, 16),
    ];
    let (items, n_errors) = items_of(toks, 16);
    assert_eq!(n_errors, 0);
    assert_eq!(items.len(), 3);
    assert!(matches!(&items[0].expr, Expr::Float(s) if s == "1.5"));
    assert!(matches!(items[1].expr, Expr::Boolean(true)));
    assert!(matches!(&items[2].expr, Expr::Str(s) if s == "hi"));
}

#[test]
fn recovery_keeps_items_around_one_malformed_item() {
    // 1 ; ) ; 2 ;   the middle item is malformed
    let toks = vec![
        tok(Token::Int(1), 0, 1),
        tok(Token::SemiColon, 1, 2),
        tok(Token::CloseParen, 3, 4),
        tok(Token::SemiColon, 4, 5),
        tok(Token::Int(2), 6, 7),
        tok(Token::SemiColon, 7, 8),
    ];
    let (program, errors) = parse(toks, 8);
    let items = program.expect("recovery always assembles a program");
    assert!(!errors.is_empty());
    assert_eq!(items.len(), 2);
    assert!(matches!(items[0].expr, Expr::Int(1)));
    assert!(matches!(items[1].expr, Expr::Int(2)));
}

#[test]
fn missing_separator_is_reported_and_parsing_continues() {
    // 1 2 ;   the first item lacks its separator
    let toks = vec![
        tok(Token::Int(1), 0, 1),
        tok(Token::Int(2), 2, 3),
        tok(Token::SemiColon, 3, 4),
    ];
    let (program, errors) = parse(toks, 4);
    let items = program.expect("recovery always assembles a program");
    assert_eq!(errors.len(), 1);
    assert_eq!(errors[0].expected, ";");
    assert!(matches!(&errors[0].found, Some(Token::Int(2))));
    assert!(!items.is_empty());
}

#[test]
fn error_at_end_of_stream_uses_the_synthesized_span() {
    // let   with nothing after it
    let toks = vec![tok(Token::KwLet, 0, 3)];
    let (_, errors) = parse(toks, 3);
    assert_eq!(errors.len(), 1);
    assert_eq!(errors[0].expected, "identifier");
    assert!(errors[0].found.is_none());
    assert_eq!(errors[0].span, Span { start: 3, end: 3 });
}

#[test]
fn empty_argument_list_parses_to_empty_call() {
    // f() ;
    let toks = vec![
        tok(Token::Identifier("f".to_string()), 0, 1),
        tok(Token::OpenParen, 1, 2),
        tok(Token::CloseParen, 2, 3),
        tok(Token::SemiColon, 3, 4),
    ];
    let (items, n_errors) = items_of(toks, 4);
    assert_eq!(n_errors, 0);
    match &items[0].expr {
        Expr::Call { name, args } => {
            assert!(matches!(&name.expr, Expr::Identifier(s) if s == "f"));
            assert!(args.is_empty());
        }
        other => panic!("expected call, got {:?}", other),
    }
}

#[test]
fn unary_binds_tighter_than_multiplication() {
    // - 2 * 3 ;  parses as  (-2) * 3
    let toks = vec![
        tok(Token::Minus, 0, 1),
        tok(Token::Int(2), 1, 2),
        tok(Token::Multiply, 3, 4),
        tok(Token::Int(3), 5, 6),
        tok(Token::SemiColon, 6, 7),
    ];
    let (items, n_errors) = items_of(toks, 7);
    assert_eq!(n_errors, 0);
    match &items[0].expr {
        Expr::Binary { lhs, op, rhs } => {
            assert_eq!(op, "*");
            assert!(matches!(&lhs.expr, Expr::Unary { .. }));
            assert!(matches!(rhs.expr, Expr::Int(3)));
        }
        other => panic!("expected product, got {:?}", other),
    }
}

#[test]
fn unclosed_argument_list_reports_separator_or_close() {
    // f ( a   with the list never closed
    let toks = vec![
        tok(Token::Identifier("f".to_string()), 0, 1),
        tok(Token::OpenParen, 1, 2),
        tok(Token::Identifier("a".to_string()), 2, 3),
    ];
    let (_, errors) = parse(toks, 3);
    assert_eq!(errors.len(), 1);
    assert_eq!(errors[0].expected, ", or )");
    assert!(errors[0].found.is_none());
}
