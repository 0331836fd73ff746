use fitch::fitch::Proposition;
use fitch::parser::{
    parse_absurdum, parse_and, parse_expression, parse_iff, parse_implies, parse_not, parse_or,
    parse_term, ParseResult,
};

#[test]
fn parse_absurdum_test() {
    let queue = "  #  ";
    match parse_absurdum(queue) {
        ParseResult::Failure => assert!(false),
        ParseResult::Success(p, rest) => {
            assert_eq!(p, Proposition::new_absurdum());
            assert_eq!(rest, "  ");
        }
    }
}

#[test]
fn parse_term_test() {
    let queue = "  CIAO  ";
    match parse_term(queue) {
        ParseResult::Failure => assert!(false),
        ParseResult::Success(p, rest) => {
            assert_eq!(p, Proposition::new_term("CIAO"));
            assert_eq!(rest, "  ");
        }
    }
}

#[test]
fn parse_and_test() {
    let queue = "  (A & B)  ";
    let a = Proposition::new_term("A");
    let b = Proposition::new_term("B");
    match parse_and(queue) {
        ParseResult::Failure => assert!(false),
        ParseResult::Success(p, rest) => {
            assert_eq!(p, Proposition::new_and(&a, &b));
            assert_eq!(rest, "  ");
        }
    }
}

#[test]
fn parse_or_test() {
    let queue = "  (A | B)  ";
    let a = Proposition::new_term("A");
    let b = Proposition::new_term("B");
    match parse_or(queue) {
        ParseResult::Failure => assert!(false),
        ParseResult::Success(p, rest) => {
            assert_eq!(p, Proposition::new_or(&a, &b));
            assert_eq!(rest, "  ");
        }
    }
}

#[test]
fn parse_not_test() {
    let queue = "  (~A)  ";
    let a = Proposition::new_term("A");
    match parse_not(queue) {
        ParseResult::Failure => assert!(false),
        ParseResult::Success(p, rest) => {
            assert_eq!(p, Proposition::new_not(&a));
            assert_eq!(rest, "  ");
        }
    }
}

#[test]
fn parse_implies_test() {
    let queue = "  (A => B)  ";
    let a = Proposition::new_term("A");
    let b = Proposition::new_term("B");
    match parse_implies(queue) {
        ParseResult::Failure => assert!(false),
        ParseResult::Success(p, rest) => {
            assert_eq!(p, Proposition::new_implies(&a, &b));
            assert_eq!(rest, "  ");
        }
    }
}

#[test]
fn parse_iff_test() {
    let queue = "  (A <=> B)  ";
    let a = Proposition::new_term("A");
    let b = Proposition::new_term("B");
    match parse_iff(queue) {
        ParseResult::Failure => assert!(false),
        ParseResult::Success(p, rest) => {
            assert_eq!(p, Proposition::new_iff(&a, &b));
            assert_eq!(rest, "  ");
        }
    }
}

#[test]
fn parse_expression_test() {
    let a = Proposition::new_term("A");
    let b = Proposition::new_term("B");
    let left = Proposition::new_or(&a, &b);
    let right = Proposition::new_and(&a, &b);
    let ris = Proposition::new_and(&left, &right);
    let queue = "  ((A | B) & (A & B))  ";
    match parse_expression(queue) {
        ParseResult::Failure => assert!(false),
        ParseResult::Success(p, rest) => {
            assert_eq!(p, ris);
            assert_eq!(rest, "  ");
        }
    }
}

#[test]
fn parse_expression_rejects_garbage() {
    assert!(matches!(parse_expression(""), ParseResult::Failure));
    assert!(matches!(parse_expression("   "), ParseResult::Failure));
    assert!(matches!(parse_expression("abc"), ParseResult::Failure));
    assert!(matches!(parse_expression("(A &"), ParseResult::Failure));
    assert!(matches!(parse_expression(")A("), ParseResult::Failure));
}

#[test]
fn parse_and_rejects_other_operators() {
    assert!(matches!(parse_and("(A | B)"), ParseResult::Failure));
    assert!(matches!(parse_and("A"), ParseResult::Failure));
    assert!(matches!(parse_or("(A & B)"), ParseResult::Failure));
    assert!(matches!(parse_not("A"), ParseResult::Failure));
    assert!(matches!(parse_implies("(A <=> B)"), ParseResult::Failure));
    assert!(matches!(parse_absurdum("A"), ParseResult::Failure));
    assert!(matches!(parse_term("#"), ParseResult::Failure));
}

#[test]
fn parse_then_render_round_trip() {
    for text in ["A", "(A & B)", "(A | B)", "(~A)", "(A => B)", "(A <=> B)", "((A | B) & (~C))"] {
        match parse_expression(text) {
            ParseResult::Failure => assert!(false),
            ParseResult::Success(p, rest) => {
                assert_eq!(rest, "");
                assert_eq!(p.render(), text);
            }
        }
    }
}

#[test]
fn parse_expression_picks_first_form() {
    let a = Proposition::new_term("A");
    let b = Proposition::new_term("B");
    match parse_expression(" (A => B) ") {
        ParseResult::Failure => assert!(false),
        ParseResult::Success(p, rest) => {
            assert_eq!(p, Proposition::new_implies(&a, &b));
            assert_eq!(rest, " ");
        }
    }
    match parse_expression("(~(A & B))") {
        ParseResult::Failure => assert!(false),
        ParseResult::Success(p, rest) => {
            assert_eq!(p, Proposition::new_not(&Proposition::new_and(&a, &b)));
            assert_eq!(rest, "");
        }
    }
}
