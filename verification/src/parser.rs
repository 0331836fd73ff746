//! Recursive-descent parser for the fully parenthesized formula grammar:
//! atoms are runs of uppercase letters, `#` is the falsehood constant, and
//! the composite forms are `(~A)`, `(A & B)`, `(A | B)`, `(A => B)` and
//! `(A <=> B)`. Each parse function consumes leading whitespace and returns
//! the parsed proposition together with the unconsumed rest of the input.

use crate::fitch::{is_upper, Formula, Proposition};
use std::rc::Rc;
use vstd::prelude::*;
use vstd::string::StrSliceExecFns;

verus! {

/// Result of one parse attempt: the parsed proposition and the unconsumed
/// remainder of the input, or failure.
#[derive(Clone)]
pub enum ParseResult<'a> {
    Success(Rc<Proposition>, &'a str),
    Failure,
}

/// The whitespace characters the parser skips.
pub open spec fn is_space(c: char) -> bool {
    let u = c as u32;
    ||| u == 0x20
    ||| (0x9 <= u && u <= 0xd)
    ||| u == 0x85
    ||| u == 0xa0
    ||| u == 0x1680
    ||| (0x2000 <= u && u <= 0x200a)
    ||| u == 0x2028
    ||| u == 0x2029
    ||| u == 0x202f
    ||| u == 0x205f
    ||| u == 0x3000
}

/// The first position at or after `i` holding a character that is not
/// whitespace, or the end of the input.
pub open spec fn skip_spaces(s: Seq<char>, i: int) -> int
    decreases s.len() - i,
{
    if 0 <= i < s.len() && is_space(s[i]) {
        skip_spaces(s, i + 1)
    } else {
        i
    }
}

pub broadcast proof fn lemma_skip_spaces_bounds(s: Seq<char>, i: int)
    requires
        0 <= i <= s.len(),
    ensures
        i <= #[trigger] skip_spaces(s, i) <= s.len(),
    decreases s.len() - i,
{
    if i < s.len() && is_space(s[i]) {
        lemma_skip_spaces_bounds(s, i + 1);
    }
}

/// The first position at or after `i` holding a character that is not an
/// uppercase letter, or the end of the input.
pub open spec fn upper_end(s: Seq<char>, i: int) -> int
    decreases s.len() - i,
{
    if 0 <= i < s.len() && is_upper(s[i]) {
        upper_end(s, i + 1)
    } else {
        i
    }
}

/// Parse of the falsehood constant at position `i`: whitespace, then `#`.
pub open spec fn spec_parse_absurdum(s: Seq<char>, i: int) -> Option<(Formula, int)> {
    if i < 0 {
        None
    } else {
        let j = skip_spaces(s, i);
        if j < s.len() && s[j] == '#' {
            Some((Formula::Absurdum, j + 1))
        } else {
            None
        }
    }
}

/// Parse of an atom at position `i`: whitespace, then one or more uppercase
/// letters, which make up the atom's name.
pub open spec fn spec_parse_term(s: Seq<char>, i: int) -> Option<(Formula, int)> {
    if i < 0 {
        None
    } else {
        let j = skip_spaces(s, i);
        let k = upper_end(s, j);
        if k > j {
            Some((Formula::Term(s.subrange(j, k)), k))
        } else {
            None
        }
    }
}

/// Parse of a parenthesized binary form at position `i`: `(`, a formula, the
/// operator token `op`, a second formula, then `)`, with whitespace allowed
/// before each piece. Returns the two sides and the position after `)`.
pub open spec fn spec_parse_binary(s: Seq<char>, i: int, op: Seq<char>) -> Option<
    (Formula, Formula, int),
>
    decreases s.len() - i, 0int,
        via spec_parse_binary_decreases
{
    if i < 0 {
        None
    } else {
        let j = skip_spaces(s, i);
        if !(j < s.len() && s[j] == '(') {
            None
        } else {
            match spec_parse_expression(s, j + 1) {
                None => None,
                Some((l, p1)) => if !(j + 1 <= p1 <= s.len()) {
                    None
                } else {
                    let j2 = skip_spaces(s, p1);
                    if !(j2 + op.len() <= s.len() && s.subrange(j2, j2 + op.len()) == op) {
                        None
                    } else {
                        match spec_parse_expression(s, j2 + op.len()) {
                            None => None,
                            Some((r, p2)) => if !(j2 + op.len() <= p2 <= s.len()) {
                                None
                            } else {
                                let j3 = skip_spaces(s, p2);
                                if j3 < s.len() && s[j3] == ')' {
                                    Some((l, r, j3 + 1))
                                } else {
                                    None
                                }
                            },
                        }
                    }
                },
            }
        }
    }
}

#[via_fn]
proof fn spec_parse_binary_decreases(s: Seq<char>, i: int, op: Seq<char>) {
    broadcast use lemma_skip_spaces_bounds;

}

/// Parse of a conjunction at position `i`.
pub open spec fn spec_parse_and(s: Seq<char>, i: int) -> Option<(Formula, int)>
    decreases s.len() - i, 1int,
{
    match spec_parse_binary(s, i, seq!['&']) {
        Some((l, r, p)) => Some((Formula::And(Box::new(l), Box::new(r)), p)),
        None => None,
    }
}

/// Parse of a disjunction at position `i`.
pub open spec fn spec_parse_or(s: Seq<char>, i: int) -> Option<(Formula, int)>
    decreases s.len() - i, 1int,
{
    match spec_parse_binary(s, i, seq!['|']) {
        Some((l, r, p)) => Some((Formula::Or(Box::new(l), Box::new(r)), p)),
        None => None,
    }
}

/// Parse of an implication at position `i`.
pub open spec fn spec_parse_implies(s: Seq<char>, i: int) -> Option<(Formula, int)>
    decreases s.len() - i, 1int,
{
    match spec_parse_binary(s, i, seq!['=', '>']) {
        Some((l, r, p)) => Some((Formula::Implies(Box::new(l), Box::new(r)), p)),
        None => None,
    }
}

/// Parse of a biconditional at position `i`.
pub open spec fn spec_parse_iff(s: Seq<char>, i: int) -> Option<(Formula, int)>
    decreases s.len() - i, 1int,
{
    match spec_parse_binary(s, i, seq!['<', '=', '>']) {
        Some((l, r, p)) => Some((Formula::Iff(Box::new(l), Box::new(r)), p)),
        None => None,
    }
}

/// Parse of a negation at position `i`: `(`, `~`, a formula, then `)` with
/// no whitespace allowed between the formula and the closing parenthesis.
pub open spec fn spec_parse_not(s: Seq<char>, i: int) -> Option<(Formula, int)>
    decreases s.len() - i, 1int,
        via spec_parse_not_decreases
{
    if i < 0 {
        None
    } else {
        let j = skip_spaces(s, i);
        if !(j < s.len() && s[j] == '(') {
            None
        } else {
            let j2 = skip_spaces(s, j + 1);
            if !(j2 < s.len() && s[j2] == '~') {
                None
            } else {
                match spec_parse_expression(s, j2 + 1) {
                    None => None,
                    Some((t, p)) => if !(j2 + 1 <= p <= s.len()) {
                        None
                    } else {
                        if p < s.len() && s[p] == ')' {
                            Some((Formula::Not(Box::new(t)), p + 1))
                        } else {
                            None
                        }
                    },
                }
            }
        }
    }
}

#[via_fn]
proof fn spec_parse_not_decreases(s: Seq<char>, i: int) {
    broadcast use lemma_skip_spaces_bounds;

}

/// Parse of any formula at position `i`: the first of falsehood, atom,
/// conjunction, disjunction, negation, implication and biconditional whose
/// parse succeeds.
pub open spec fn spec_parse_expression(s: Seq<char>, i: int) -> Option<(Formula, int)>
    decreases s.len() - i, 2int,
{
    if spec_parse_absurdum(s, i) is Some {
        spec_parse_absurdum(s, i)
    } else if spec_parse_term(s, i) is Some {
        spec_parse_term(s, i)
    } else if spec_parse_and(s, i) is Some {
        spec_parse_and(s, i)
    } else if spec_parse_or(s, i) is Some {
        spec_parse_or(s, i)
    } else if spec_parse_not(s, i) is Some {
        spec_parse_not(s, i)
    } else if spec_parse_implies(s, i) is Some {
        spec_parse_implies(s, i)
    } else {
        spec_parse_iff(s, i)
    }
}

/// Agreement of an executable parse (a proposition and a position) with the
/// corresponding mathematical parse.
pub open spec fn parse_agrees(r: Option<(Rc<Proposition>, usize)>, sp: Option<(Formula, int)>) -> bool {
    match r {
        Some((p, pos)) => sp is Some && p@ == sp.unwrap().0 && pos as int == sp.unwrap().1,
        None => sp is None,
    }
}

/// Agreement of a public parse result with the corresponding mathematical
/// parse: on success the rest is the unconsumed suffix of the input.
pub open spec fn parse_result_agrees<'a>(
    r: ParseResult<'a>,
    s: Seq<char>,
    sp: Option<(Formula, int)>,
) -> bool {
    match r {
        ParseResult::Success(p, rest) => sp is Some && p@ == sp.unwrap().0 && rest@ == s.subrange(
            sp.unwrap().1,
            s.len() as int,
        ),
        ParseResult::Failure => sp is None,
    }
}

fn is_space_x(c: char) -> (b: bool)
    ensures
        b == is_space(c),
{
    let u = c as u32;
    u == 0x20 || (0x9 <= u && u <= 0xd) || u == 0x85 || u == 0xa0 || u == 0x1680 || (0x2000 <= u
        && u <= 0x200a) || u == 0x2028 || u == 0x2029 || u == 0x202f || u == 0x205f || u == 0x3000
}

fn is_upper_x(c: char) -> (b: bool)
    ensures
        b == is_upper(c),
{
    let u = c as u32;
    0x41 <= u && u <= 0x5a
}

fn skip_spaces_x(s: &str, i: usize) -> (j: usize)
    requires
        i <= s@.len(),
    ensures
        j as int == skip_spaces(s@, i as int),
        i <= j <= s@.len(),
{
    let n = s.unicode_len();
    let mut j = i;
    while j < n && is_space_x(s.get_char(j))
        invariant
            i <= j <= n,
            n == s@.len(),
            skip_spaces(s@, i as int) == skip_spaces(s@, j as int),
        decreases n - j,
    {
        j = j + 1;
    }
    j
}

/// Whether the characters of `op` stand at position `j` of `s`.
fn match_token(s: &str, j: usize, op: &str) -> (b: bool)
    requires
        j <= s@.len(),
    ensures
        b == (j + op@.len() <= s@.len() && s@.subrange(j as int, j as int + op@.len() as int)
            == op@),
{
    let n = s.unicode_len();
    let m = op.unicode_len();
    if m > n - j {
        return false;
    }
    let mut k: usize = 0;
    while k < m
        invariant
            0 <= k <= m,
            j + m <= n,
            n == s@.len(),
            m == op@.len(),
            forall|t: int| 0 <= t < k ==> s@[j + t] == op@[t],
        decreases m - k,
    {
        if s.get_char(j + k) != op.get_char(k) {
            proof {
                assert(s@[j as int + k as int] != op@[k as int]);
            }
            return false;
        }
        k = k + 1;
    }
    proof {
        assert(s@.subrange(j as int, j as int + op@.len() as int) =~= op@);
    }
    true
}

fn parse_absurdum_at(s: &str, i: usize) -> (r: Option<(Rc<Proposition>, usize)>)
    requires
        i <= s@.len(),
    ensures
        parse_agrees(r, spec_parse_absurdum(s@, i as int)),
        r matches Some((_, pos)) ==> i < pos && pos <= s@.len(),
{
    let n = s.unicode_len();
    let j = skip_spaces_x(s, i);
    if j < n && s.get_char(j) == '#' {
        Some((Rc::new(Proposition::Absurdum), j + 1))
    } else {
        None
    }
}

fn parse_term_at(s: &str, i: usize) -> (r: Option<(Rc<Proposition>, usize)>)
    requires
        i <= s@.len(),
    ensures
        parse_agrees(r, spec_parse_term(s@, i as int)),
        r matches Some((_, pos)) ==> i < pos && pos <= s@.len(),
{
    let n = s.unicode_len();
    let j = skip_spaces_x(s, i);
    let mut k = j;
    while k < n && is_upper_x(s.get_char(k))
        invariant
            j <= k <= n,
            n == s@.len(),
            upper_end(s@, j as int) == upper_end(s@, k as int),
        decreases n - k,
    {
        k = k + 1;
    }
    if k > j {
        let name = s.substring_char(j, k).to_owned();
        Some((Rc::new(Proposition::Term(name)), k))
    } else {
        None
    }
}

fn parse_binary_at(s: &str, i: usize, op: &str) -> (r: Option<
    (Rc<Proposition>, Rc<Proposition>, usize),
>)
    requires
        i <= s@.len(),
    ensures
        match r {
            Some((l, rr, pos)) => ({
                &&& spec_parse_binary(s@, i as int, op@) matches Some((lf, rf, p)) && lf == l@ && rf
                    == rr@ && p == pos as int
                &&& i < pos && pos <= s@.len()
            }),
            None => spec_parse_binary(s@, i as int, op@) is None,
        },
    decreases s@.len() - i, 0int,
{
    let n = s.unicode_len();
    let op_len = op.unicode_len();
    let j = skip_spaces_x(s, i);
    if !(j < n && s.get_char(j) == '(') {
        return None;
    }
    let (l, p1) = match parse_expression_at(s, j + 1) {
        None => {
            return None;
        },
        Some(x) => x,
    };
    let j2 = skip_spaces_x(s, p1);
    if !match_token(s, j2, op) {
        return None;
    }
    let (rr, p2) = match parse_expression_at(s, j2 + op_len) {
        None => {
            return None;
        },
        Some(x) => x,
    };
    let j3 = skip_spaces_x(s, p2);
    if j3 < n && s.get_char(j3) == ')' {
        Some((l, rr, j3 + 1))
    } else {
        None
    }
}

fn parse_and_at(s: &str, i: usize) -> (r: Option<(Rc<Proposition>, usize)>)
    requires
        i <= s@.len(),
    ensures
        parse_agrees(r, spec_parse_and(s@, i as int)),
        r matches Some((_, pos)) ==> i < pos && pos <= s@.len(),
    decreases s@.len() - i, 1int,
{
    proof {
        reveal_strlit("&");
        assert("&"@ =~= seq!['&']);
    }
    match parse_binary_at(s, i, "&") {
        Some((l, rr, pos)) => Some((Rc::new(Proposition::And(l, rr)), pos)),
        None => None,
    }
}

fn parse_or_at(s: &str, i: usize) -> (r: Option<(Rc<Proposition>, usize)>)
    requires
        i <= s@.len(),
    ensures
        parse_agrees(r, spec_parse_or(s@, i as int)),
        r matches Some((_, pos)) ==> i < pos && pos <= s@.len(),
    decreases s@.len() - i, 1int,
{
    proof {
        reveal_strlit("|");
        assert("|"@ =~= seq!['|']);
    }
    match parse_binary_at(s, i, "|") {
        Some((l, rr, pos)) => Some((Rc::new(Proposition::Or(l, rr)), pos)),
        None => None,
    }
}

fn parse_implies_at(s: &str, i: usize) -> (r: Option<(Rc<Proposition>, usize)>)
    requires
        i <= s@.len(),
    ensures
        parse_agrees(r, spec_parse_implies(s@, i as int)),
        r matches Some((_, pos)) ==> i < pos && pos <= s@.len(),
    decreases s@.len() - i, 1int,
{
    proof {
        reveal_strlit("=>");
        assert("=>"@ =~= seq!['=', '>']);
    }
    match parse_binary_at(s, i, "=>") {
        Some((l, rr, pos)) => Some((Rc::new(Proposition::Implies(l, rr)), pos)),
        None => None,
    }
}

fn parse_iff_at(s: &str, i: usize) -> (r: Option<(Rc<Proposition>, usize)>)
    requires
        i <= s@.len(),
    ensures
        parse_agrees(r, spec_parse_iff(s@, i as int)),
        r matches Some((_, pos)) ==> i < pos && pos <= s@.len(),
    decreases s@.len() - i, 1int,
{
    proof {
        reveal_strlit("<=>");
        assert("<=>"@ =~= seq!['<', '=', '>']);
    }
    match parse_binary_at(s, i, "<=>") {
        Some((l, rr, pos)) => Some((Rc::new(Proposition::Iff(l, rr)), pos)),
        None => None,
    }
}

fn parse_not_at(s: &str, i: usize) -> (r: Option<(Rc<Proposition>, usize)>)
    requires
        i <= s@.len(),
    ensures
        parse_agrees(r, spec_parse_not(s@, i as int)),
        r matches Some((_, pos)) ==> i < pos && pos <= s@.len(),
    decreases s@.len() - i, 1int,
{
    let n = s.unicode_len();
    let j = skip_spaces_x(s, i);
    if !(j < n && s.get_char(j) == '(') {
        return None;
    }
    let j2 = skip_spaces_x(s, j + 1);
    if !(j2 < n && s.get_char(j2) == '~') {
        return None;
    }
    match parse_expression_at(s, j2 + 1) {
        None => None,
        Some((t, p)) => {
            if p < n && s.get_char(p) == ')' {
                Some((Rc::new(Proposition::Not(t)), p + 1))
            } else {
                None
            }
        },
    }
}

fn parse_expression_at(s: &str, i: usize) -> (r: Option<(Rc<Proposition>, usize)>)
    requires
        i <= s@.len(),
    ensures
        parse_agrees(r, spec_parse_expression(s@, i as int)),
        r matches Some((_, pos)) ==> i < pos && pos <= s@.len(),
    decreases s@.len() - i, 2int,
{
    let r = parse_absurdum_at(s, i);
    if r.is_some() {
        return r;
    }
    let r = parse_term_at(s, i);
    if r.is_some() {
        return r;
    }
    let r = parse_and_at(s, i);
    if r.is_some() {
        return r;
    }
    let r = parse_or_at(s, i);
    if r.is_some() {
        return r;
    }
    let r = parse_not_at(s, i);
    if r.is_some() {
        return r;
    }
    let r = parse_implies_at(s, i);
    if r.is_some() {
        return r;
    }
    parse_iff_at(s, i)
}

fn finish<'a>(s: &'a str, r: Option<(Rc<Proposition>, usize)>, Ghost(sp): Ghost<
    Option<(Formula, int)>,
>) -> (res: ParseResult<'a>)
    requires
        parse_agrees(r, sp),
        r matches Some((_, pos)) ==> pos <= s@.len(),
    ensures
        parse_result_agrees(res, s@, sp),
{
    match r {
        Some((p, pos)) => {
            let rest = s.substring_char(pos, s.unicode_len());
            ParseResult::Success(p, rest)
        },
        None => ParseResult::Failure,
    }
}

/// Parses the falsehood constant `#` at the front of `queue`.
pub fn parse_absurdum(queue: &str) -> (r: ParseResult)
    ensures
        parse_result_agrees(r, queue@, spec_parse_absurdum(queue@, 0)),
{
    let x = parse_absurdum_at(queue, 0);
    finish(queue, x, Ghost(spec_parse_absurdum(queue@, 0)))
}

/// Parses an atom (a run of uppercase letters) at the front of `queue`.
pub fn parse_term(queue: &str) -> (r: ParseResult)
    ensures
        parse_result_agrees(r, queue@, spec_parse_term(queue@, 0)),
{
    let x = parse_term_at(queue, 0);
    finish(queue, x, Ghost(spec_parse_term(queue@, 0)))
}

/// Parses a conjunction `(A & B)` at the front of `queue`.
pub fn parse_and(queue: &str) -> (r: ParseResult)
    ensures
        parse_result_agrees(r, queue@, spec_parse_and(queue@, 0)),
{
    let x = parse_and_at(queue, 0);
    finish(queue, x, Ghost(spec_parse_and(queue@, 0)))
}

/// Parses a disjunction `(A | B)` at the front of `queue`.
pub fn parse_or(queue: &str) -> (r: ParseResult)
    ensures
        parse_result_agrees(r, queue@, spec_parse_or(queue@, 0)),
{
    let x = parse_or_at(queue, 0);
    finish(queue, x, Ghost(spec_parse_or(queue@, 0)))
}

/// Parses a negation `(~A)` at the front of `queue`.
pub fn parse_not(queue: &str) -> (r: ParseResult)
    ensures
        parse_result_agrees(r, queue@, spec_parse_not(queue@, 0)),
{
    let x = parse_not_at(queue, 0);
    finish(queue, x, Ghost(spec_parse_not(queue@, 0)))
}

/// Parses an implication `(A => B)` at the front of `queue`.
pub fn parse_implies(queue: &str) -> (r: ParseResult)
    ensures
        parse_result_agrees(r, queue@, spec_parse_implies(queue@, 0)),
{
    let x = parse_implies_at(queue, 0);
    finish(queue, x, Ghost(spec_parse_implies(queue@, 0)))
}

/// Parses a biconditional `(A <=> B)` at the front of `queue`.
pub fn parse_iff(queue: &str) -> (r: ParseResult)
    ensures
        parse_result_agrees(r, queue@, spec_parse_iff(queue@, 0)),
{
    let x = parse_iff_at(queue, 0);
    finish(queue, x, Ghost(spec_parse_iff(queue@, 0)))
}

/// Parses any formula at the front of `queue`: the first of falsehood, atom,
/// conjunction, disjunction, negation, implication and biconditional that
/// succeeds.
pub fn parse_expression(queue: &str) -> (r: ParseResult)
    ensures
        parse_result_agrees(r, queue@, spec_parse_expression(queue@, 0)),
{
    let x = parse_expression_at(queue, 0);
    finish(queue, x, Ghost(spec_parse_expression(queue@, 0)))
}

proof fn lemma_upper_end_bounds(s: Seq<char>, i: int)
    requires
        0 <= i <= s.len(),
    ensures
        i <= upper_end(s, i) <= s.len(),
    decreases s.len() - i,
{
    if i < s.len() && is_upper(s[i]) {
        lemma_upper_end_bounds(s, i + 1);
    }
}

proof fn lemma_upper_end_chars(s: Seq<char>, i: int)
    ensures
        forall|t: int| i <= t < upper_end(s, i) ==> is_upper(#[trigger] s[t]),
    decreases s.len() - i,
{
    if 0 <= i < s.len() && is_upper(s[i]) {
        lemma_upper_end_chars(s, i + 1);
    }
}

proof fn lemma_parse_binary_wf(s: Seq<char>, i: int, op: Seq<char>)
    ensures
        spec_parse_binary(s, i, op) matches Some((l, r, _)) ==> crate::fitch::wf_formula(l)
            && crate::fitch::wf_formula(r),
    decreases s.len() - i, 0int,
{
    broadcast use lemma_skip_spaces_bounds;

    if i >= 0 {
        let j = skip_spaces(s, i);
        if j < s.len() && s[j] == '(' {
            lemma_parse_expression_wf(s, j + 1);
            match spec_parse_expression(s, j + 1) {
                None => {
                },
                Some((l, p1)) => {
                    if j + 1 <= p1 <= s.len() {
                        let j2 = skip_spaces(s, p1);
                        if j2 + op.len() <= s.len() && s.subrange(j2, j2 + op.len()) == op {
                            lemma_parse_expression_wf(s, j2 + op.len());
                        }
                    }
                },
            }
        }
    }
}

proof fn lemma_parse_not_wf(s: Seq<char>, i: int)
    ensures
        spec_parse_not(s, i) matches Some((f, _)) ==> crate::fitch::wf_formula(f),
    decreases s.len() - i, 1int,
{
    broadcast use lemma_skip_spaces_bounds;

    if i >= 0 {
        let j = skip_spaces(s, i);
        if j < s.len() && s[j] == '(' {
            let j2 = skip_spaces(s, j + 1);
            if j2 < s.len() && s[j2] == '~' {
                lemma_parse_expression_wf(s, j2 + 1);
            }
        }
    }
}

/// Every formula the parser produces is well-formed: its atom names are
/// nonempty runs of uppercase letters. On such formulas the canonical
/// rendering is unambiguous.
pub proof fn lemma_parse_expression_wf(s: Seq<char>, i: int)
    ensures
        spec_parse_expression(s, i) matches Some((f, _)) ==> crate::fitch::wf_formula(f),
    decreases s.len() - i, 2int,
{
    if spec_parse_absurdum(s, i) is Some {
    } else if spec_parse_term(s, i) is Some {
        if 0 <= i <= s.len() {
            lemma_skip_spaces_bounds(s, i);
            let j = skip_spaces(s, i);
            lemma_upper_end_bounds(s, j);
            let k = upper_end(s, j);
            lemma_upper_end_chars(s, j);
            let name = s.subrange(j, k);
            if k > j {
                assert forall|t: int| 0 <= t < name.len() implies is_upper(#[trigger] name[t]) by {
                    assert(name[t] == s[j + t]);
                }
            }
        }
    } else {
        lemma_parse_binary_wf(s, i, seq!['&']);
        lemma_parse_binary_wf(s, i, seq!['|']);
        lemma_parse_binary_wf(s, i, seq!['=', '>']);
        lemma_parse_binary_wf(s, i, seq!['<', '=', '>']);
        lemma_parse_not_wf(s, i);
    }
}

} // verus!
