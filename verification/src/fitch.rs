//! The proof-document engine: propositional formulas and the Fitch-style
//! natural-deduction document with one operation per inference rule.

use std::rc::Rc;
use vstd::prelude::*;
use vstd::string::StringExecFns;

verus! {

/// Mathematical model of a propositional formula: the same tree as
/// `Proposition`, with atom names as character sequences, so that two
/// structurally equal propositions have equal models.
pub enum Formula {
    Absurdum,
    Term(Seq<char>),
    And(Box<Formula>, Box<Formula>),
    Or(Box<Formula>, Box<Formula>),
    Not(Box<Formula>),
    Implies(Box<Formula>, Box<Formula>),
    Iff(Box<Formula>, Box<Formula>),
}

/// A propositional formula: an uninterpreted atom, the falsehood constant,
/// or one of the five connectives. Sub-formulas are shared by reference;
/// no node is mutated after construction.
#[derive(Debug)]
pub enum Proposition {
    Absurdum,
    Term(String),
    And(Rc<Proposition>, Rc<Proposition>),
    Or(Rc<Proposition>, Rc<Proposition>),
    Not(Rc<Proposition>),
    Implies(Rc<Proposition>, Rc<Proposition>),
    Iff(Rc<Proposition>, Rc<Proposition>),
}

/// The model of a proposition: the same tree with every atom name taken as
/// its character sequence, so that model equality is structural equality.
pub open spec fn prop_model(p: Proposition) -> Formula
    decreases p,
{
    match p {
        Proposition::Absurdum => Formula::Absurdum,
        Proposition::Term(s) => Formula::Term(s@),
        Proposition::And(l, r) => Formula::And(
            Box::new(prop_model(*l)),
            Box::new(prop_model(*r)),
        ),
        Proposition::Or(l, r) => Formula::Or(Box::new(prop_model(*l)), Box::new(prop_model(*r))),
        Proposition::Not(t) => Formula::Not(Box::new(prop_model(*t))),
        Proposition::Implies(l, r) => Formula::Implies(
            Box::new(prop_model(*l)),
            Box::new(prop_model(*r)),
        ),
        Proposition::Iff(l, r) => Formula::Iff(Box::new(prop_model(*l)), Box::new(prop_model(*r))),
    }
}

impl View for Proposition {
    type V = Formula;

    open spec fn view(&self) -> Formula {
        prop_model(*self)
    }
}

/// Relies on std's `Rc::clone`: the result is a handle to the same
/// underlying value as the argument.
#[verifier::external_body]
pub(crate) fn rc_clone(p: &Rc<Proposition>) -> (r: Rc<Proposition>)
    ensures
        r == *p,
{
    Rc::clone(p)
}

/// Structural equality of two formulas: equal shape, equal atom names.
fn prop_eq(a: &Proposition, b: &Proposition) -> (r: bool)
    ensures
        r == (a@ == b@),
    decreases *a,
{
    match a {
        Proposition::Absurdum => match b {
            Proposition::Absurdum => true,
            _ => false,
        },
        Proposition::Term(x) => match b {
            Proposition::Term(y) => *x == *y,
            _ => false,
        },
        Proposition::And(l0, l1) => match b {
            Proposition::And(r0, r1) => prop_eq(&**l0, &**r0) && prop_eq(&**l1, &**r1),
            _ => false,
        },
        Proposition::Or(l0, l1) => match b {
            Proposition::Or(r0, r1) => prop_eq(&**l0, &**r0) && prop_eq(&**l1, &**r1),
            _ => false,
        },
        Proposition::Not(x) => match b {
            Proposition::Not(y) => prop_eq(&**x, &**y),
            _ => false,
        },
        Proposition::Implies(l0, l1) => match b {
            Proposition::Implies(r0, r1) => prop_eq(&**l0, &**r0) && prop_eq(&**l1, &**r1),
            _ => false,
        },
        Proposition::Iff(l0, l1) => match b {
            Proposition::Iff(r0, r1) => prop_eq(&**l0, &**r0) && prop_eq(&**l1, &**r1),
            _ => false,
        },
    }
}

impl PartialEq for Proposition {
    fn eq(&self, other: &Self) -> bool {
        prop_eq(self, other)
    }
}

impl vstd::std_specs::cmp::PartialEqSpecImpl for Proposition {
    open spec fn obeys_eq_spec() -> bool {
        true
    }

    open spec fn eq_spec(&self, other: &Proposition) -> bool {
        self@ == other@
    }
}

impl Proposition {
    pub fn new_absurdum() -> (r: Rc<Proposition>)
        ensures
            r@ == Formula::Absurdum,
    {
        Rc::new(Proposition::Absurdum)
    }

    pub fn new_term(name: &str) -> (r: Rc<Proposition>)
        ensures
            r@ == Formula::Term(name@),
    {
        Rc::new(Proposition::Term(name.to_owned()))
    }

    pub fn new_and(left: &Rc<Proposition>, right: &Rc<Proposition>) -> (r: Rc<Proposition>)
        ensures
            r@ == Formula::And(Box::new(left@), Box::new(right@)),
    {
        Rc::new(Proposition::And(rc_clone(left), rc_clone(right)))
    }

    pub fn new_or(left: &Rc<Proposition>, right: &Rc<Proposition>) -> (r: Rc<Proposition>)
        ensures
            r@ == Formula::Or(Box::new(left@), Box::new(right@)),
    {
        Rc::new(Proposition::Or(rc_clone(left), rc_clone(right)))
    }

    pub fn new_not(prop: &Rc<Proposition>) -> (r: Rc<Proposition>)
        ensures
            r@ == Formula::Not(Box::new(prop@)),
    {
        Rc::new(Proposition::Not(rc_clone(prop)))
    }

    pub fn new_implies(left: &Rc<Proposition>, right: &Rc<Proposition>) -> (r: Rc<Proposition>)
        ensures
            r@ == Formula::Implies(Box::new(left@), Box::new(right@)),
    {
        Rc::new(Proposition::Implies(rc_clone(left), rc_clone(right)))
    }

    pub fn new_iff(left: &Rc<Proposition>, right: &Rc<Proposition>) -> (r: Rc<Proposition>)
        ensures
            r@ == Formula::Iff(Box::new(left@), Box::new(right@)),
    {
        Rc::new(Proposition::Iff(rc_clone(left), rc_clone(right)))
    }
}

/// An uppercase ASCII letter, the only characters atom names are made of.
pub open spec fn is_upper(c: char) -> bool {
    0x41 <= c as u32 && c as u32 <= 0x5a
}

/// The canonical text of a formula: an atom prints as its name, falsehood
/// as `⊥`, a negation as `(~A)`, and each binary connective as
/// `(A OP B)` with `&`, `|`, `=>` or `<=>` for OP. The output determines the
/// formula unambiguously.
pub open spec fn render_model(f: Formula) -> Seq<char>
    decreases f,
{
    match f {
        Formula::Absurdum => seq!['⊥'],
        Formula::Term(s) => s,
        Formula::And(l, r) => seq!['('] + render_model(*l) + seq![' ', '&', ' '] + render_model(*r)
            + seq![')'],
        Formula::Or(l, r) => seq!['('] + render_model(*l) + seq![' ', '|', ' '] + render_model(*r)
            + seq![')'],
        Formula::Not(t) => seq!['(', '~'] + render_model(*t) + seq![')'],
        Formula::Implies(l, r) => seq!['('] + render_model(*l) + seq![' ', '=', '>', ' ']
            + render_model(*r) + seq![')'],
        Formula::Iff(l, r) => seq!['('] + render_model(*l) + seq![' ', '<', '=', '>', ' ']
            + render_model(*r) + seq![')'],
    }
}

impl Proposition {
    /// The canonical parenthesized text of this formula.
    pub fn render(&self) -> (s: String)
        ensures
            s@ == render_model(self@),
        decreases *self,
    {
        match self {
            Proposition::Absurdum => {
                let s = "⊥".to_owned();
                proof {
                    reveal_strlit("⊥");
                    assert(s@ =~= render_model(self@));
                }
                s
            },
            Proposition::Term(name) => {
                let s = name.clone();
                s
            },
            Proposition::And(l, r) => {
                let mut s = "(".to_owned();
                let ls = (&**l).render();
                s.append(ls.as_str());
                s.append(" & ");
                let rs = (&**r).render();
                s.append(rs.as_str());
                s.append(")");
                proof {
                    reveal_strlit("(");
                    reveal_strlit(" & ");
                    reveal_strlit(")");
                    assert(" & "@ =~= seq![' ', '&', ' ']);
                    assert(s@ =~= render_model(self@));
                }
                s
            },
            Proposition::Or(l, r) => {
                let mut s = "(".to_owned();
                let ls = (&**l).render();
                s.append(ls.as_str());
                s.append(" | ");
                let rs = (&**r).render();
                s.append(rs.as_str());
                s.append(")");
                proof {
                    reveal_strlit("(");
                    reveal_strlit(" | ");
                    reveal_strlit(")");
                    assert(" | "@ =~= seq![' ', '|', ' ']);
                    assert(s@ =~= render_model(self@));
                }
                s
            },
            Proposition::Not(t) => {
                let mut s = "(~".to_owned();
                let inner = (&**t).render();
                s.append(inner.as_str());
                s.append(")");
                proof {
                    reveal_strlit("(~");
                    reveal_strlit(")");
                    assert(s@ =~= render_model(self@));
                }
                s
            },
            Proposition::Implies(l, r) => {
                let mut s = "(".to_owned();
                let ls = (&**l).render();
                s.append(ls.as_str());
                s.append(" => ");
                let rs = (&**r).render();
                s.append(rs.as_str());
                s.append(")");
                proof {
                    reveal_strlit("(");
                    reveal_strlit(" => ");
                    reveal_strlit(")");
                    assert(" => "@ =~= seq![' ', '=', '>', ' ']);
                    assert(s@ =~= render_model(self@));
                }
                s
            },
            Proposition::Iff(l, r) => {
                let mut s = "(".to_owned();
                let ls = (&**l).render();
                s.append(ls.as_str());
                s.append(" <=> ");
                let rs = (&**r).render();
                s.append(rs.as_str());
                s.append(")");
                proof {
                    reveal_strlit("(");
                    reveal_strlit(" <=> ");
                    reveal_strlit(")");
                    assert(" <=> "@ =~= seq![' ', '<', '=', '>', ' ']);
                    assert(s@ =~= render_model(self@));
                }
                s
            },
        }
    }
}

/// The inference rule that justified a derived line.
#[derive(Clone, Copy, Debug, PartialEq, Eq, Structural)]
pub enum Rule {
    Reiter,
    IntroAbs,
    ElimAbs,
    IntroAnd,
    ElimAnd,
    IntroOr,
    ElimOr,
    IntroNot,
    ElimNot,
    IntroImpl,
    ElimImpl,
    IntroIff,
    ElimIff,
}

/// One stored proof line: an assumption, or a derivation together with the
/// rule and the indices of the lines it was derived from.
pub enum FitchComponent {
    Assumption(Rc<Proposition>),
    Deduction(Rc<Proposition>, Rule, Vec<usize>),
}

impl FitchComponent {
    /// The proposition standing on this line.
    pub open spec fn spec_prop(self) -> Rc<Proposition> {
        match self {
            FitchComponent::Assumption(t) => t,
            FitchComponent::Deduction(t, _, _) => t,
        }
    }

    /// The kind of this line in the mathematical model.
    pub open spec fn spec_kind(self) -> LineKind {
        match self {
            FitchComponent::Assumption(_) => LineKind::Assumption,
            FitchComponent::Deduction(_, rule, refs) => LineKind::Deduction(rule, refs@),
        }
    }

    pub fn unwrap(&self) -> (p: &Rc<Proposition>)
        ensures
            *p == self.spec_prop(),
    {
        match self {
            FitchComponent::Assumption(t) => t,
            FitchComponent::Deduction(t, _, _) => t,
        }
    }
}

/// Model of one proof line: nesting level, kind (assumption or derivation
/// with its justification), and the formula standing on the line.
pub struct LineModel {
    pub level: nat,
    pub kind: LineKind,
    pub formula: Formula,
}

/// The kind of a modelled line: a hypothesis, or a derivation with the rule
/// that produced it and the indices of the lines it cites.
pub enum LineKind {
    Assumption,
    Deduction(Rule, Seq<usize>),
}

/// Model of a whole proof document: the ordered lines, the boundary (one past
/// the last top-level assumption), and the nesting level at which the next
/// line will be placed.
#[verifier::ext_equal]
pub struct FitchModel {
    pub lines: Seq<LineModel>,
    pub boundary: nat,
    pub level: nat,
}

impl FitchModel {
    /// Structural invariants of a proof document: the boundary lies inside the
    /// document and cuts it into a front of top-level assumptions and a rest
    /// that holds no top-level assumption; the nesting cursor never exceeds
    /// the number of lines; and no line sits deeper than its position allows.
    pub open spec fn wf(self) -> bool {
        &&& self.boundary <= self.lines.len()
        &&& forall|i: int|
            0 <= i < self.boundary ==> (#[trigger] self.lines[i]).level == 0 && self.lines[i].kind
                is Assumption
        &&& forall|i: int|
            self.boundary <= i < self.lines.len() ==> !((#[trigger] self.lines[i]).kind
                is Assumption && self.lines[i].level == 0)
        &&& self.lines.len() == self.boundary ==> self.level == 0
        &&& self.level <= self.lines.len()
        &&& forall|i: int| 0 <= i < self.lines.len() ==> (#[trigger] self.lines[i]).level <= i + 1
    }

    /// The document extended by one derivation at the current level.
    pub open spec fn push_deduction(self, rule: Rule, refs: Seq<usize>, f: Formula) -> FitchModel {
        FitchModel {
            lines: self.lines.push(LineModel { level: self.level, kind: LineKind::Deduction(rule, refs), formula: f }),
            boundary: self.boundary,
            level: self.level,
        }
    }

    /// The document after removing the last line: the boundary is retracted
    /// to the new length if needed, and the nesting cursor returns to the
    /// level of the new last line (or to the outermost level).
    pub open spec fn delete_last(self) -> FitchModel {
        if self.lines.len() == 0 {
            self
        } else {
            let rest = self.lines.drop_last();
            FitchModel {
                lines: rest,
                boundary: if self.boundary <= rest.len() { self.boundary } else { rest.len() as nat },
                level: if rest.len() == 0 { 0 } else { rest.last().level },
            }
        }
    }
}

/// The model of one stored line: its level, kind and formula.
pub open spec fn line_model(e: (usize, FitchComponent)) -> LineModel {
    LineModel { level: e.0 as nat, kind: e.1.spec_kind(), formula: e.1.spec_prop()@ }
}

/// The proof document: an ordered sequence of lines, the boundary between
/// the top-level assumptions and the deduction area, and the current
/// nesting level.
pub struct Fitch {
    statements: Vec<(usize, FitchComponent)>,
    start_of_deductions: usize,
    current_level: usize,
}

impl View for Fitch {
    type V = FitchModel;

    closed spec fn view(&self) -> FitchModel {
        FitchModel {
            lines: self.statements@.map_values(|e: (usize, FitchComponent)| line_model(e)),
            boundary: self.start_of_deductions as nat,
            level: self.current_level as nat,
        }
    }
}

impl Fitch {
    pub fn new() -> (r: Fitch)
        ensures
            r@ == (FitchModel { lines: Seq::<LineModel>::empty(), boundary: 0, level: 0 }),
            r@.wf(),
    {
        let r = Fitch { statements: Vec::new(), start_of_deductions: 0, current_level: 0 };
        proof {
            assert(r@ =~= FitchModel { lines: Seq::<LineModel>::empty(), boundary: 0, level: 0 });
        }
        r
    }

    /// Number of lines in the document.
    pub fn len(&self) -> (n: usize)
        ensures
            n == self@.lines.len(),
    {
        self.statements.len()
    }

    /// The nesting level at which the next line will be placed.
    pub fn current_level(&self) -> (n: usize)
        ensures
            n == self@.level,
    {
        self.current_level
    }

    /// One past the last top-level assumption.
    pub fn start_of_deductions(&self) -> (n: usize)
        ensures
            n == self@.boundary,
    {
        self.start_of_deductions
    }

    /// Nesting level of line `row`, if it exists.
    pub fn level_at(&self, row: usize) -> (r: Option<usize>)
        ensures
            r is Some <==> (row as int) < self@.lines.len(),
            r matches Some(n) ==> n == self@.lines[row as int].level,
    {
        if row < self.statements.len() {
            Some(self.statements[row].0)
        } else {
            None
        }
    }

    /// Whether line `row` is an assumption, if it exists.
    pub fn is_assumption_at(&self, row: usize) -> (r: Option<bool>)
        ensures
            r is Some <==> (row as int) < self@.lines.len(),
            r matches Some(b) ==> b == (self@.lines[row as int].kind is Assumption),
    {
        if row < self.statements.len() {
            match &self.statements[row].1 {
                FitchComponent::Assumption(_) => Some(true),
                FitchComponent::Deduction(_, _, _) => Some(false),
            }
        } else {
            None
        }
    }

    /// The formula standing on line `row`, if it exists.
    pub fn formula_at(&self, row: usize) -> (r: Option<&Rc<Proposition>>)
        ensures
            r is Some <==> (row as int) < self@.lines.len(),
            r matches Some(p) ==> p@ == self@.lines[row as int].formula,
    {
        if row < self.statements.len() {
            Some(self.statements[row].1.unwrap())
        } else {
            None
        }
    }

    /// The rule that justified line `row`, if it is a derivation.
    pub fn rule_at(&self, row: usize) -> (r: Option<Rule>)
        ensures
            r matches Some(rule) ==> (row as int) < self@.lines.len()
                && (self@.lines[row as int].kind matches LineKind::Deduction(ru, _) && ru == rule),
            r is None ==> (row as int) >= self@.lines.len() || self@.lines[row as int].kind
                is Assumption,
    {
        if row < self.statements.len() {
            match &self.statements[row].1 {
                FitchComponent::Assumption(_) => None,
                FitchComponent::Deduction(_, rule, _) => Some(*rule),
            }
        } else {
            None
        }
    }

    /// The indices of the lines that line `row` was derived from, if it is a
    /// derivation.
    pub fn antecedents_at(&self, row: usize) -> (r: Option<&Vec<usize>>)
        ensures
            r matches Some(v) ==> (row as int) < self@.lines.len()
                && (self@.lines[row as int].kind matches LineKind::Deduction(_, refs) && v@
                == refs),
            r is None ==> (row as int) >= self@.lines.len() || self@.lines[row as int].kind
                is Assumption,
    {
        if row < self.statements.len() {
            match &self.statements[row].1 {
                FitchComponent::Assumption(_) => None,
                FitchComponent::Deduction(_, _, refs) => Some(refs),
            }
        } else {
            None
        }
    }

    /// Appends a top-level assumption. Fails, leaving the document unchanged,
    /// once any subproof or derivation line exists.
    pub fn add_assumption(&mut self, prop: &Rc<Proposition>) -> (r: bool)
        requires
            old(self)@.wf(),
        ensures
            final(self)@.wf(),
            r == (old(self)@.lines.len() == old(self)@.boundary),
            r ==> final(self)@ == (FitchModel {
                lines: old(self)@.lines.push(
                    LineModel { level: 0, kind: LineKind::Assumption, formula: prop@ },
                ),
                boundary: (old(self)@.boundary + 1) as nat,
                level: old(self)@.level,
            }),
            !r ==> final(self)@ == old(self)@,
    {
        if self.statements.len() > self.start_of_deductions {
            return false;
        }
        self.statements.push((0, FitchComponent::Assumption(rc_clone(prop))));
        self.start_of_deductions = self.statements.len();
        proof {
            assert(self@ =~= FitchModel {
                lines: old(self)@.lines.push(
                    LineModel { level: 0, kind: LineKind::Assumption, formula: prop@ },
                ),
                boundary: (old(self)@.boundary + 1) as nat,
                level: old(self)@.level,
            });
        }
        true
    }

    /// Opens a new subproof: raises the nesting level by one and appends the
    /// assumption that heads it.
    pub fn add_subproof(&mut self, prop: &Rc<Proposition>)
        requires
            old(self)@.wf(),
            old(self)@.level < usize::MAX,
        ensures
            final(self)@.wf(),
            final(self)@ == (FitchModel {
                lines: old(self)@.lines.push(
                    LineModel {
                        level: (old(self)@.level + 1) as nat,
                        kind: LineKind::Assumption,
                        formula: prop@,
                    },
                ),
                boundary: old(self)@.boundary,
                level: (old(self)@.level + 1) as nat,
            }),
    {
        self.current_level = self.current_level + 1;
        self.statements.push((self.current_level, FitchComponent::Assumption(rc_clone(prop))));
        proof {
            assert(self@ =~= FitchModel {
                lines: old(self)@.lines.push(
                    LineModel {
                        level: (old(self)@.level + 1) as nat,
                        kind: LineKind::Assumption,
                        formula: prop@,
                    },
                ),
                boundary: old(self)@.boundary,
                level: (old(self)@.level + 1) as nat,
            });
        }
    }

    /// Closes the innermost open subproof: lowers the nesting level by one if
    /// it is positive; no line is added or removed.
    pub fn end_subproof(&mut self)
        requires
            old(self)@.wf(),
        ensures
            final(self)@.wf(),
            final(self)@ == (FitchModel {
                lines: old(self)@.lines,
                boundary: old(self)@.boundary,
                level: if old(self)@.level > 0 {
                    (old(self)@.level - 1) as nat
                } else {
                    0
                },
            }),
    {
        if self.current_level == 0 {
            proof {
                assert(self@ =~= FitchModel {
                    lines: old(self)@.lines,
                    boundary: old(self)@.boundary,
                    level: 0,
                });
            }
            return;
        }
        self.current_level = self.current_level - 1;
        proof {
            assert(self@ =~= FitchModel {
                lines: old(self)@.lines,
                boundary: old(self)@.boundary,
                level: (old(self)@.level - 1) as nat,
            });
        }
    }

    /// Removes the last line, if any: the boundary is retracted to the new
    /// length if needed, and the nesting level returns to that of the new
    /// last line (or to zero on an empty document).
    pub fn delete_last_row(&mut self)
        requires
            old(self)@.wf(),
        ensures
            final(self)@.wf(),
            final(self)@ == old(self)@.delete_last(),
    {
        self.statements.pop();
        if self.statements.len() < self.start_of_deductions {
            self.start_of_deductions = self.statements.len();
        }
        match self.statements.last() {
            None => {
                self.current_level = 0;
            },
            Some((l, _)) => {
                self.current_level = *l;
            },
        }
        proof {
            if old(self)@.lines.len() == 0 {
                assert(self@ =~= old(self)@.delete_last());
            } else {
                assert(self.statements@ =~= old(self).statements@.drop_last());
                assert(self@.lines =~= old(self)@.lines.drop_last());
                assert(self@ =~= old(self)@.delete_last());
            }
        }
    }

    /// Appends a copy of line `row` at the current level. Fails if `row` is
    /// out of range or lies in a subproof that has already been closed
    /// (its level exceeds the current level).
    pub fn reiterate(&mut self, row: usize) -> (r: bool)
        requires
            old(self)@.wf(),
        ensures
            final(self)@.wf(),
            r == ((row as int) < old(self)@.lines.len() && old(self)@.lines[row as int].level
                <= old(self)@.level),
            r ==> final(self)@ == old(self)@.push_deduction(
                Rule::Reiter,
                seq![row],
                old(self)@.lines[row as int].formula,
            ),
            !r ==> final(self)@ == old(self)@,
    {
        if row >= self.statements.len() {
            return false;
        }
        if self.statements[row].0 > self.current_level {
            return false;
        }
        let f = rc_clone(self.statements[row].1.unwrap());
        self.statements.push(
            (self.current_level, FitchComponent::Deduction(f, Rule::Reiter, Self::refs1(row))),
        );
        proof {
            assert(self@ =~= old(self)@.push_deduction(
                Rule::Reiter,
                seq![row],
                old(self)@.lines[row as int].formula,
            ));
        }
        true
    }
}

impl FitchModel {
    /// Whether `i` names a line of the document.
    pub open spec fn valid(self, i: usize) -> bool {
        (i as int) < self.lines.len()
    }

    /// The formula on line `i`.
    pub open spec fn formula(self, i: usize) -> Formula {
        self.lines[i as int].formula
    }

    /// The nesting level of line `i`.
    pub open spec fn level_of(self, i: usize) -> nat {
        self.lines[i as int].level
    }
}

/// Whether line `l` ends the subproof opened at level `d` that it follows:
/// any line shallower than `d` does, and so does an assumption at level `d`,
/// which opens a sibling subproof.
pub open spec fn stops_subproof(l: LineModel, d: nat) -> bool {
    l.level < d || (l.kind is Assumption && l.level <= d)
}

/// The index one past the last line of the subproof opened at level `d`,
/// scanning from position `j`: the first position at or after `j` whose line
/// ends the subproof, or the end of the document.
pub open spec fn subproof_end(lines: Seq<LineModel>, d: nat, j: int) -> int
    decreases lines.len() - j,
{
    if j >= lines.len() {
        lines.len() as int
    } else if stops_subproof(lines[j], d) {
        j
    } else {
        subproof_end(lines, d, j + 1)
    }
}

/// The conclusion of the subproof opened by the assumption on line `n`: the
/// formula of the last line belonging to that subproof (the assumption itself
/// if nothing follows inside it), or nothing if line `n` is not an
/// assumption.
pub open spec fn subproof_result(m: FitchModel, n: int) -> Option<Formula> {
    if 0 <= n < m.lines.len() && m.lines[n].kind is Assumption {
        Some(m.lines[subproof_end(m.lines, m.lines[n].level, n + 1) - 1].formula)
    } else {
        None
    }
}

/// The preconditions of and-introduction: both cited lines exist.
pub open spec fn can_introduce_and(m: FitchModel, left: usize, right: usize) -> bool {
    m.valid(left) && m.valid(right)
}

/// The preconditions of and-elimination: the cited line holds a conjunction
/// and the target is one of its two sides.
pub open spec fn can_eliminate_and(m: FitchModel, assum: usize, target: Formula) -> bool {
    &&& m.valid(assum)
    &&& match m.formula(assum) {
        Formula::And(l, r) => target == *l || target == *r,
        _ => false,
    }
}

/// The preconditions of or-introduction: the target is a disjunction and the
/// cited line holds one of its two sides.
pub open spec fn can_introduce_or(m: FitchModel, assum: usize, target: Formula) -> bool {
    &&& m.valid(assum)
    &&& match target {
        Formula::Or(l, r) => m.formula(assum) == *l || m.formula(assum) == *r,
        _ => false,
    }
}

/// The preconditions of or-elimination: the disjunction precedes the two
/// cited subproofs, each subproof assumes the matching side, and both
/// subproofs reach the same conclusion.
pub open spec fn can_eliminate_or(m: FitchModel, assum: usize, left: usize, right: usize) -> bool {
    &&& assum < left && assum < right
    &&& m.valid(assum) && m.valid(left) && m.valid(right)
    &&& match m.formula(assum) {
        Formula::Or(l, r) => m.formula(left) == *l && m.formula(right) == *r,
        _ => false,
    }
    &&& subproof_result(m, left as int) is Some
    &&& subproof_result(m, left as int) == subproof_result(m, right as int)
}

/// The preconditions of absurdity-introduction: one cited line holds the
/// negation of the other.
pub open spec fn can_introduce_absurdum(m: FitchModel, a1: usize, a2: usize) -> bool {
    &&& m.valid(a1) && m.valid(a2)
    &&& (m.formula(a2) == Formula::Not(Box::new(m.formula(a1))) || m.formula(a1) == Formula::Not(
        Box::new(m.formula(a2)),
    ))
}

/// The preconditions of absurdity-elimination: the cited line holds the
/// falsehood constant and is not buried deeper than the current level.
pub open spec fn can_eliminate_absurdum(m: FitchModel, absurdum: usize) -> bool {
    &&& m.valid(absurdum)
    &&& m.formula(absurdum) == Formula::Absurdum
    &&& m.level_of(absurdum) <= m.level
}

/// The preconditions of negation-introduction: the cited subproof concludes
/// in absurdity and is the one that was just closed (one level below it).
pub open spec fn can_introduce_not(m: FitchModel, sub: usize) -> bool {
    &&& subproof_result(m, sub as int) == Some(Formula::Absurdum)
    &&& m.valid(sub) && m.level_of(sub) == m.level + 1
}

/// The preconditions of negation-elimination: the cited line holds a double
/// negation.
pub open spec fn can_eliminate_not(m: FitchModel, row: usize) -> bool {
    &&& m.valid(row)
    &&& match m.formula(row) {
        Formula::Not(x) => *x is Not,
        _ => false,
    }
}

/// The formula under the double negation on line `row`.
pub open spec fn not_elim_result(m: FitchModel, row: usize) -> Formula {
    match m.formula(row) {
        Formula::Not(x) => match *x {
            Formula::Not(f) => *f,
            _ => arbitrary(),
        },
        _ => arbitrary(),
    }
}

/// The preconditions of implication-introduction: the cited line opens a
/// subproof that was just closed (one level below it).
pub open spec fn can_introduce_implies(m: FitchModel, sub: usize) -> bool {
    &&& subproof_result(m, sub as int) is Some
    &&& m.valid(sub) && m.level_of(sub) == m.level + 1
}

/// The preconditions of implication-elimination: the first cited line holds
/// an implication and the second holds its antecedent.
pub open spec fn can_eliminate_implies(m: FitchModel, assum: usize, left: usize) -> bool {
    &&& m.valid(assum) && m.valid(left)
    &&& match m.formula(assum) {
        Formula::Implies(l, _) => m.formula(left) == *l,
        _ => false,
    }
}

/// The consequent of the implication on line `assum`.
pub open spec fn implies_elim_result(m: FitchModel, assum: usize) -> Formula {
    match m.formula(assum) {
        Formula::Implies(_, r) => *r,
        _ => arbitrary(),
    }
}

/// The preconditions of biconditional-introduction: both cited lines open
/// just-closed subproofs, and each assumes what the other concludes.
pub open spec fn can_introduce_iff(m: FitchModel, left_sub: usize, right_sub: usize) -> bool {
    &&& subproof_result(m, left_sub as int) is Some
    &&& subproof_result(m, right_sub as int) is Some
    &&& m.valid(left_sub) && m.valid(right_sub)
    &&& m.level_of(left_sub) == m.level + 1 && m.level_of(right_sub) == m.level + 1
    &&& m.formula(left_sub) == subproof_result(m, right_sub as int).unwrap()
    &&& subproof_result(m, left_sub as int).unwrap() == m.formula(right_sub)
}

/// The preconditions of biconditional-elimination: the first cited line holds
/// a biconditional and the second holds one of its two sides.
pub open spec fn can_eliminate_iff(m: FitchModel, assum: usize, truth: usize) -> bool {
    &&& m.valid(assum) && m.valid(truth)
    &&& match m.formula(assum) {
        Formula::Iff(l, r) => m.formula(truth) == *l || m.formula(truth) == *r,
        _ => false,
    }
}

/// The side of the biconditional on line `assum` other than the one the
/// cited truth matches: the right side when the truth equals the left side,
/// the left side otherwise.
pub open spec fn iff_elim_result(m: FitchModel, assum: usize, truth: usize) -> Formula {
    match m.formula(assum) {
        Formula::Iff(l, r) => if m.formula(truth) == *l {
            *r
        } else {
            *l
        },
        _ => arbitrary(),
    }
}

impl Fitch {
    /// Builds a one-element index list.
    fn refs1(a: usize) -> (v: Vec<usize>)
        ensures
            v@ == seq![a],
    {
        let mut v: Vec<usize> = Vec::new();
        v.push(a);
        proof {
            assert(v@ =~= seq![a]);
        }
        v
    }

    /// Builds a two-element index list.
    fn refs2(a: usize, b: usize) -> (v: Vec<usize>)
        ensures
            v@ == seq![a, b],
    {
        let mut v: Vec<usize> = Vec::new();
        v.push(a);
        v.push(b);
        proof {
            assert(v@ =~= seq![a, b]);
        }
        v
    }

    /// Builds a three-element index list.
    fn refs3(a: usize, b: usize, c: usize) -> (v: Vec<usize>)
        ensures
            v@ == seq![a, b, c],
    {
        let mut v: Vec<usize> = Vec::new();
        v.push(a);
        v.push(b);
        v.push(c);
        proof {
            assert(v@ =~= seq![a, b, c]);
        }
        v
    }

    /// Appends a derivation at the current level.
    fn push_deduction_line(&mut self, f: Rc<Proposition>, rule: Rule, refs: Vec<usize>)
        requires
            old(self)@.wf(),
        ensures
            final(self)@.wf(),
            final(self)@ == old(self)@.push_deduction(rule, refs@, f@),
    {
        let ghost refs_view = refs@;
        let ghost f_view = f@;
        self.statements.push((self.current_level, FitchComponent::Deduction(f, rule, refs)));
        proof {
            assert(self@ =~= old(self)@.push_deduction(rule, refs_view, f_view));
        }
    }

    /// The conclusion of the subproof opened by the assumption on line `n`,
    /// if line `n` is an assumption.
    fn get_subproof_result(&self, n: usize) -> (r: Option<&Rc<Proposition>>)
        ensures
            r is Some <==> subproof_result(self@, n as int) is Some,
            r matches Some(p) ==> p@ == subproof_result(self@, n as int).unwrap(),
    {
        if n >= self.statements.len() {
            return None;
        }
        let d = self.statements[n].0;
        match &self.statements[n].1 {
            FitchComponent::Deduction(_, _, _) => {
                return None;
            },
            FitchComponent::Assumption(_) => {},
        }
        let len = self.statements.len();
        let mut j = n + 1;
        while j < len && !self.stops_at(j, d)
            invariant
                n < j <= len,
                len == self@.lines.len(),
                d as nat == self@.lines[n as int].level,
                subproof_end(self@.lines, d as nat, n as int + 1) == subproof_end(
                    self@.lines,
                    d as nat,
                    j as int,
                ),
            decreases len - j,
        {
            j = j + 1;
        }
        Some(self.statements[j - 1].1.unwrap())
    }

    /// Whether the line at `j` ends a subproof opened at level `d`.
    fn stops_at(&self, j: usize, d: usize) -> (b: bool)
        requires
            (j as int) < self@.lines.len(),
        ensures
            b == stops_subproof(self@.lines[j as int], d as nat),
    {
        let lv = self.statements[j].0;
        if lv < d {
            return true;
        }
        match &self.statements[j].1 {
            FitchComponent::Assumption(_) => lv <= d,
            FitchComponent::Deduction(_, _, _) => false,
        }
    }

    /// Appends the conjunction of the formulas on the two cited lines.
    /// Fails, leaving the document unchanged, if either index is out of
    /// range.
    pub fn introduce_and(&mut self, left: usize, right: usize) -> (r: bool)
        requires
            old(self)@.wf(),
        ensures
            final(self)@.wf(),
            r == can_introduce_and(old(self)@, left, right),
            r ==> final(self)@ == old(self)@.push_deduction(
                Rule::IntroAnd,
                seq![left, right],
                Formula::And(
                    Box::new(old(self)@.formula(left)),
                    Box::new(old(self)@.formula(right)),
                ),
            ),
            !r ==> final(self)@ == old(self)@,
    {
        if left >= self.statements.len() || right >= self.statements.len() {
            return false;
        }
        let ris = Rc::new(
            Proposition::And(
                rc_clone(self.statements[left].1.unwrap()),
                rc_clone(self.statements[right].1.unwrap()),
            ),
        );
        self.push_deduction_line(ris, Rule::IntroAnd, Self::refs2(left, right));
        true
    }

    /// Appends one side of the conjunction on the cited line, the side that
    /// structurally equals the target. Fails, leaving the document unchanged,
    /// if the index is out of range, the line is no conjunction, or the
    /// target is neither side.
    pub fn eliminate_and(&mut self, assum: usize, new_exp: &Rc<Proposition>) -> (r: bool)
        requires
            old(self)@.wf(),
        ensures
            final(self)@.wf(),
            r == can_eliminate_and(old(self)@, assum, new_exp@),
            r ==> final(self)@ == old(self)@.push_deduction(Rule::ElimAnd, seq![assum], new_exp@),
            !r ==> final(self)@ == old(self)@,
    {
        if assum >= self.statements.len() {
            return false;
        }
        let assum_x = self.statements[assum].1.unwrap();
        match &**assum_x {
            Proposition::And(l, rr) => {
                if prop_eq(&**l, &**new_exp) {
                    let f = rc_clone(l);
                    self.push_deduction_line(f, Rule::ElimAnd, Self::refs1(assum));
                    true
                } else if prop_eq(&**rr, &**new_exp) {
                    let f = rc_clone(rr);
                    self.push_deduction_line(f, Rule::ElimAnd, Self::refs1(assum));
                    true
                } else {
                    false
                }
            },
            _ => false,
        }
    }

    /// Appends the target disjunction, which must have the formula on the
    /// cited line as one of its sides. Fails, leaving the document unchanged,
    /// otherwise.
    pub fn introduce_or(&mut self, assum: usize, prop: &Rc<Proposition>) -> (r: bool)
        requires
            old(self)@.wf(),
        ensures
            final(self)@.wf(),
            r == can_introduce_or(old(self)@, assum, prop@),
            r ==> final(self)@ == old(self)@.push_deduction(Rule::IntroOr, seq![assum], prop@),
            !r ==> final(self)@ == old(self)@,
    {
        if assum >= self.statements.len() {
            return false;
        }
        let assum_x = self.statements[assum].1.unwrap();
        match &**prop {
            Proposition::Or(l, rr) => {
                if prop_eq(&**assum_x, &**l) || prop_eq(&**assum_x, &**rr) {
                    let f = rc_clone(prop);
                    self.push_deduction_line(f, Rule::IntroOr, Self::refs1(assum));
                    true
                } else {
                    false
                }
            },
            _ => false,
        }
    }

    /// Appends the common conclusion of the two cited subproofs, given a
    /// disjunction line that precedes them whose sides are their assumptions.
    /// Fails, leaving the document unchanged, when any of that does not hold.
    pub fn eliminate_or(&mut self, assum: usize, left: usize, right: usize) -> (r: bool)
        requires
            old(self)@.wf(),
        ensures
            final(self)@.wf(),
            r == can_eliminate_or(old(self)@, assum, left, right),
            r ==> final(self)@ == old(self)@.push_deduction(
                Rule::ElimOr,
                seq![assum, left, right],
                subproof_result(old(self)@, left as int).unwrap(),
            ),
            !r ==> final(self)@ == old(self)@,
    {
        if assum >= left || assum >= right {
            return false;
        }
        if assum >= self.statements.len() || left >= self.statements.len() || right
            >= self.statements.len() {
            return false;
        }
        let matches_or = match &**self.statements[assum].1.unwrap() {
            Proposition::Or(ll, rr) => prop_eq(&**ll, &**self.statements[left].1.unwrap())
                && prop_eq(&**rr, &**self.statements[right].1.unwrap()),
            _ => false,
        };
        if !matches_or {
            return false;
        }
        let left_sub: Option<Rc<Proposition>> = match self.get_subproof_result(left) {
            Some(p) => Some(rc_clone(p)),
            None => None,
        };
        let right_sub: Option<Rc<Proposition>> = match self.get_subproof_result(right) {
            Some(p) => Some(rc_clone(p)),
            None => None,
        };
        match (left_sub, right_sub) {
            (Some(a), Some(b)) => {
                if prop_eq(&*a, &*b) {
                    self.push_deduction_line(a, Rule::ElimOr, Self::refs3(assum, left, right));
                    true
                } else {
                    false
                }
            },
            _ => false,
        }
    }

    /// Appends the falsehood constant, given two cited lines of which one
    /// holds the negation of the other. Fails, leaving the document
    /// unchanged, otherwise.
    pub fn introduce_absurdum(&mut self, ass1: usize, ass2: usize) -> (r: bool)
        requires
            old(self)@.wf(),
        ensures
            final(self)@.wf(),
            r == can_introduce_absurdum(old(self)@, ass1, ass2),
            r ==> final(self)@ == old(self)@.push_deduction(
                Rule::IntroAbs,
                seq![ass1, ass2],
                Formula::Absurdum,
            ),
            !r ==> final(self)@ == old(self)@,
    {
        if ass1 >= self.statements.len() || ass2 >= self.statements.len() {
            return false;
        }
        let a1 = self.statements[ass1].1.unwrap();
        let a2 = self.statements[ass2].1.unwrap();
        let negated = match &**a2 {
            Proposition::Not(inner) => prop_eq(&**inner, &**a1),
            _ => false,
        } || match &**a1 {
            Proposition::Not(inner) => prop_eq(&**inner, &**a2),
            _ => false,
        };
        if !negated {
            return false;
        }
        self.push_deduction_line(
            Rc::new(Proposition::Absurdum),
            Rule::IntroAbs,
            Self::refs2(ass1, ass2),
        );
        true
    }

    /// Appends the target formula, given a cited line holding the falsehood
    /// constant at a level no deeper than the current one. Fails, leaving the
    /// document unchanged, otherwise.
    pub fn eliminate_absurdum(&mut self, absurdum: usize, introduce: &Rc<Proposition>) -> (r: bool)
        requires
            old(self)@.wf(),
        ensures
            final(self)@.wf(),
            r == can_eliminate_absurdum(old(self)@, absurdum),
            r ==> final(self)@ == old(self)@.push_deduction(
                Rule::ElimAbs,
                seq![absurdum],
                introduce@,
            ),
            !r ==> final(self)@ == old(self)@,
    {
        if absurdum >= self.statements.len() {
            return false;
        }
        if self.statements[absurdum].0 > self.current_level {
            return false;
        }
        let is_abs = match &**self.statements[absurdum].1.unwrap() {
            Proposition::Absurdum => true,
            _ => false,
        };
        if !is_abs {
            return false;
        }
        let f = rc_clone(introduce);
        self.push_deduction_line(f, Rule::ElimAbs, Self::refs1(absurdum));
        true
    }

    /// Appends the negation of the assumption that opened the cited
    /// subproof, which must conclude in absurdity and be the subproof that
    /// was just closed. Fails, leaving the document unchanged, otherwise.
    pub fn introduce_not(&mut self, sub_proof: usize) -> (r: bool)
        requires
            old(self)@.wf(),
        ensures
            final(self)@.wf(),
            r == can_introduce_not(old(self)@, sub_proof),
            r ==> final(self)@ == old(self)@.push_deduction(
                Rule::IntroNot,
                seq![sub_proof],
                Formula::Not(Box::new(old(self)@.formula(sub_proof))),
            ),
            !r ==> final(self)@ == old(self)@,
    {
        let ends_absurd = match self.get_subproof_result(sub_proof) {
            None => false,
            Some(v) => match &**v {
                Proposition::Absurdum => true,
                _ => false,
            },
        };
        if !ends_absurd {
            return false;
        }
        let lv = self.statements[sub_proof].0;
        if !(lv >= 1 && lv - 1 == self.current_level) {
            return false;
        }
        let cur = rc_clone(self.statements[sub_proof].1.unwrap());
        self.push_deduction_line(
            Rc::new(Proposition::Not(cur)),
            Rule::IntroNot,
            Self::refs1(sub_proof),
        );
        true
    }

    /// Appends the formula under the double negation on the cited line.
    /// Fails, leaving the document unchanged, if the line is no double
    /// negation.
    pub fn eliminate_not(&mut self, row: usize) -> (r: bool)
        requires
            old(self)@.wf(),
        ensures
            final(self)@.wf(),
            r == can_eliminate_not(old(self)@, row),
            r ==> final(self)@ == old(self)@.push_deduction(
                Rule::ElimNot,
                seq![row],
                not_elim_result(old(self)@, row),
            ),
            !r ==> final(self)@ == old(self)@,
    {
        if row >= self.statements.len() {
            return false;
        }
        let cur = self.statements[row].1.unwrap();
        let f: Rc<Proposition>;
        match &**cur {
            Proposition::Not(v) => match &**v {
                Proposition::Not(b) => {
                    proof {
                        assert((**cur)@ == Formula::Not(Box::new((**v)@)));
                        assert((**v)@ == Formula::Not(Box::new((**b)@)));
                    }
                    f = rc_clone(b);
                },
                _ => {
                    return false;
                },
            },
            _ => {
                return false;
            },
        }
        self.push_deduction_line(f, Rule::ElimNot, Self::refs1(row));
        true
    }

    /// Appends the implication from the assumption of the cited subproof to
    /// its conclusion; the subproof must be the one that was just closed.
    /// Fails, leaving the document unchanged, otherwise.
    pub fn introduce_implies(&mut self, sub_proof: usize) -> (r: bool)
        requires
            old(self)@.wf(),
        ensures
            final(self)@.wf(),
            r == can_introduce_implies(old(self)@, sub_proof),
            r ==> final(self)@ == old(self)@.push_deduction(
                Rule::IntroImpl,
                seq![sub_proof],
                Formula::Implies(
                    Box::new(old(self)@.formula(sub_proof)),
                    Box::new(subproof_result(old(self)@, sub_proof as int).unwrap()),
                ),
            ),
            !r ==> final(self)@ == old(self)@,
    {
        let end = match self.get_subproof_result(sub_proof) {
            None => None,
            Some(v) => Some(rc_clone(v)),
        };
        match end {
            None => false,
            Some(end) => {
                let lv = self.statements[sub_proof].0;
                if !(lv >= 1 && lv - 1 == self.current_level) {
                    return false;
                }
                let start = rc_clone(self.statements[sub_proof].1.unwrap());
                self.push_deduction_line(
                    Rc::new(Proposition::Implies(start, end)),
                    Rule::IntroImpl,
                    Self::refs1(sub_proof),
                );
                true
            },
        }
    }

    /// Appends the consequent of the implication on the first cited line,
    /// given a second cited line holding its antecedent. Fails, leaving the
    /// document unchanged, otherwise.
    pub fn eliminate_implies(&mut self, assum: usize, left: usize) -> (r: bool)
        requires
            old(self)@.wf(),
        ensures
            final(self)@.wf(),
            r == can_eliminate_implies(old(self)@, assum, left),
            r ==> final(self)@ == old(self)@.push_deduction(
                Rule::ElimImpl,
                seq![assum, left],
                implies_elim_result(old(self)@, assum),
            ),
            !r ==> final(self)@ == old(self)@,
    {
        if assum >= self.statements.len() || left >= self.statements.len() {
            return false;
        }
        let assum_x = self.statements[assum].1.unwrap();
        let matching = match &**assum_x {
            Proposition::Implies(l, _) => prop_eq(&**l, &**self.statements[left].1.unwrap()),
            _ => false,
        };
        if !matching {
            return false;
        }
        let f = match &**self.statements[assum].1.unwrap() {
            Proposition::Implies(_, rr) => rc_clone(rr),
            _ => {
                return false;
            },
        };
        self.push_deduction_line(f, Rule::ElimImpl, Self::refs2(assum, left));
        true
    }

    /// Appends the biconditional of the assumptions of the two cited
    /// subproofs; both must have just been closed, and each must conclude in
    /// the other's assumption. Fails, leaving the document unchanged,
    /// otherwise.
    pub fn introduce_iff(&mut self, left_sub: usize, right_sub: usize) -> (r: bool)
        requires
            old(self)@.wf(),
        ensures
            final(self)@.wf(),
            r == can_introduce_iff(old(self)@, left_sub, right_sub),
            r ==> final(self)@ == old(self)@.push_deduction(
                Rule::IntroIff,
                seq![left_sub, right_sub],
                Formula::Iff(
                    Box::new(old(self)@.formula(left_sub)),
                    Box::new(old(self)@.formula(right_sub)),
                ),
            ),
            !r ==> final(self)@ == old(self)@,
    {
        let left_end: Option<Rc<Proposition>> = match self.get_subproof_result(left_sub) {
            None => None,
            Some(v) => Some(rc_clone(v)),
        };
        let right_end: Option<Rc<Proposition>> = match self.get_subproof_result(right_sub) {
            None => None,
            Some(v) => Some(rc_clone(v)),
        };
        match (left_end, right_end) {
            (Some(left_end), Some(right_end)) => {
                let l_lv = self.statements[left_sub].0;
                let r_lv = self.statements[right_sub].0;
                if !(l_lv >= 1 && l_lv - 1 == self.current_level && r_lv >= 1 && r_lv - 1
                    == self.current_level) {
                    return false;
                }
                let left_start = self.statements[left_sub].1.unwrap();
                let right_start = self.statements[right_sub].1.unwrap();
                if !(prop_eq(&**left_start, &*right_end) && prop_eq(&*left_end, &**right_start)) {
                    return false;
                }
                let f = Rc::new(
                    Proposition::Iff(rc_clone(left_start), rc_clone(right_start)),
                );
                self.push_deduction_line(f, Rule::IntroIff, Self::refs2(left_sub, right_sub));
                true
            },
            _ => false,
        }
    }

    /// Appends the other side of the biconditional on the first cited line,
    /// given a second cited line holding one of its sides. Fails, leaving
    /// the document unchanged, otherwise.
    pub fn eliminate_iff(&mut self, assum: usize, truth: usize) -> (r: bool)
        requires
            old(self)@.wf(),
        ensures
            final(self)@.wf(),
            r == can_eliminate_iff(old(self)@, assum, truth),
            r ==> final(self)@ == old(self)@.push_deduction(
                Rule::ElimIff,
                seq![assum, truth],
                iff_elim_result(old(self)@, assum, truth),
            ),
            !r ==> final(self)@ == old(self)@,
    {
        if assum >= self.statements.len() || truth >= self.statements.len() {
            return false;
        }
        let imp = self.statements[assum].1.unwrap();
        let truth_x = self.statements[truth].1.unwrap();
        let ris = match &**imp {
            Proposition::Iff(l, rr) => {
                if prop_eq(&**l, &**truth_x) {
                    Some(rc_clone(rr))
                } else if prop_eq(&**rr, &**truth_x) {
                    Some(rc_clone(l))
                } else {
                    None
                }
            },
            _ => None,
        };
        match ris {
            None => false,
            Some(f) => {
                self.push_deduction_line(f, Rule::ElimIff, Self::refs2(assum, truth));
                true
            },
        }
    }
}

/// A run of `n` spaces (empty when `n` is not positive).
pub open spec fn spaces(n: int) -> Seq<char>
    decreases n,
{
    if n <= 0 {
        Seq::empty()
    } else {
        spaces(n - 1).push(' ')
    }
}

proof fn lemma_spaces_concat(a: int, b: int)
    requires
        a >= 0,
        b >= 0,
    ensures
        spaces(a) + spaces(b) == spaces(a + b),
    decreases b,
{
    if b > 0 {
        lemma_spaces_concat(a, b - 1);
        assert(spaces(a) + spaces(b) =~= (spaces(a) + spaces(b - 1)).push(' '));
    } else {
        assert(spaces(a) + spaces(0) =~= spaces(a));
    }
}

/// The decimal digit character for `d`.
pub open spec fn dec_digit(d: int) -> char {
    if d == 0 {
        '0'
    } else if d == 1 {
        '1'
    } else if d == 2 {
        '2'
    } else if d == 3 {
        '3'
    } else if d == 4 {
        '4'
    } else if d == 5 {
        '5'
    } else if d == 6 {
        '6'
    } else if d == 7 {
        '7'
    } else if d == 8 {
        '8'
    } else {
        '9'
    }
}

/// The decimal text of a non-negative number.
pub open spec fn dec_model(n: int) -> Seq<char>
    decreases n,
{
    if n < 10 {
        seq![dec_digit(n)]
    } else {
        dec_model(n / 10).push(dec_digit(n % 10))
    }
}

fn digit_str(d: usize) -> (s: &'static str)
    requires
        d < 10,
    ensures
        s@ == seq![dec_digit(d as int)],
{
    let s: &'static str = match d {
        0 => "0",
        1 => "1",
        2 => "2",
        3 => "3",
        4 => "4",
        5 => "5",
        6 => "6",
        7 => "7",
        8 => "8",
        _ => "9",
    };
    proof {
        reveal_strlit("0");
        reveal_strlit("1");
        reveal_strlit("2");
        reveal_strlit("3");
        reveal_strlit("4");
        reveal_strlit("5");
        reveal_strlit("6");
        reveal_strlit("7");
        reveal_strlit("8");
        reveal_strlit("9");
        assert(s@ =~= seq![dec_digit(d as int)]);
    }
    s
}

/// The decimal text of `n`.
fn dec_str(n: usize) -> (s: String)
    ensures
        s@ == dec_model(n as int),
    decreases n,
{
    if n < 10 {
        let s = digit_str(n).to_owned();
        proof {
            assert(s@ =~= dec_model(n as int));
        }
        s
    } else {
        let mut s = dec_str(n / 10);
        s.append(digit_str(n % 10));
        proof {
            assert(s@ =~= dec_model(n as int));
        }
        s
    }
}

/// Appends `n` spaces.
fn append_spaces(res: &mut String, n: u128)
    ensures
        final(res)@ == old(res)@ + spaces(n as int),
{
    let ghost base = res@;
    let mut k: u128 = 0;
    proof {
        reveal_strlit(" ");
        assert(res@ =~= base + spaces(0));
    }
    while k < n
        invariant
            0 <= k <= n,
            res@ == base + spaces(k as int),
        decreases n - k,
    {
        res.append(" ");
        proof {
            reveal_strlit(" ");
            assert(res@ =~= base + spaces(k as int + 1));
        }
        k = k + 1;
    }
}

proof fn lemma_spaces_len(n: int)
    ensures
        spaces(n).len() == if n <= 0 {
            0int
        } else {
            n
        },
        forall|j: int| 0 <= j < spaces(n).len() ==> spaces(n)[j] == ' ',
    decreases n,
{
    if n > 0 {
        lemma_spaces_len(n - 1);
    }
}

/// The width of the number column: the digit count of the last line's index
/// (at least one digit), or nothing on an empty document.
pub open spec fn number_width(m: FitchModel) -> int {
    if m.lines.len() == 0 {
        0
    } else {
        let b: int = if m.lines.len() - 1 == 0 {
            1
        } else {
            m.lines.len() - 1
        };
        dec_model(b).len() as int
    }
}

/// The display width of line `i`: its formula's length plus four columns per
/// nesting level.
pub open spec fn row_width(m: FitchModel, i: int) -> int {
    render_model(m.lines[i].formula).len() + 4 * (m.lines[i].level as int)
}

/// The largest display width among the first `i` lines.
pub open spec fn longest_row(m: FitchModel, i: int) -> int
    decreases i,
{
    if i <= 0 {
        0
    } else if row_width(m, i - 1) > longest_row(m, i - 1) {
        row_width(m, i - 1)
    } else {
        longest_row(m, i - 1)
    }
}

/// The display token of each rule.
pub open spec fn rule_symbol(r: Rule) -> Seq<char> {
    match r {
        Rule::Reiter => "    Re "@,
        Rule::IntroAbs => "    I ⊥ "@,
        Rule::ElimAbs => "    E ⊥ "@,
        Rule::IntroAnd => "    I & "@,
        Rule::ElimAnd => "    E & "@,
        Rule::IntroOr => "    I | "@,
        Rule::ElimOr => "    E | "@,
        Rule::IntroNot => "    I ~ "@,
        Rule::ElimNot => "    E ~ "@,
        Rule::IntroImpl => "    I => "@,
        Rule::ElimImpl => "    E => "@,
        Rule::IntroIff => "    I <=> "@,
        Rule::ElimIff => "    E <=> "@,
    }
}

/// The comma-separated decimal list of the first `k` cited indices.
pub open spec fn join_upto(refs: Seq<usize>, k: int) -> Seq<char>
    decreases k,
{
    if k <= 0 {
        Seq::empty()
    } else if k == 1 {
        dec_model(refs[0] as int)
    } else {
        join_upto(refs, k - 1) + seq![',', ' '] + dec_model(refs[k - 1] as int)
    }
}

/// The indentation of line `i`: four columns per nesting level; an
/// assumption line carries a dash in its first indent column (a top-level
/// assumption has no indent and no dash).
pub open spec fn line_indent(m: FitchModel, i: int) -> Seq<char> {
    let level = m.lines[i].level as int;
    if m.lines[i].kind is Assumption {
        if level == 0 {
            Seq::empty()
        } else {
            seq!['-'] + spaces(4 * level - 1)
        }
    } else {
        spaces(4 * level)
    }
}

/// The justification column of line `i`: empty for an assumption, the rule's
/// token and the bracketed list of cited lines for a derivation.
pub open spec fn line_justification(m: FitchModel, i: int) -> Seq<char> {
    match m.lines[i].kind {
        LineKind::Assumption => Seq::empty(),
        LineKind::Deduction(r, refs) => rule_symbol(r) + seq!['['] + join_upto(
            refs,
            refs.len() as int,
        ) + seq![']'],
    }
}

/// One rendered line of the table: the line's index right-aligned in the
/// number column, a bar, the indentation, the formula padded to the widest
/// row, and the justification.
pub open spec fn line_text(m: FitchModel, i: int) -> Seq<char> {
    let w = dec_model(i).len() as int;
    let maxw = number_width(m);
    let pad: int = if w <= maxw {
        maxw - w
    } else {
        0
    };
    let f = render_model(m.lines[i].formula);
    let fill = longest_row(m, m.lines.len() as int) - row_width(m, i);
    seq![' '] + spaces(pad) + dec_model(i) + " | "@ + line_indent(m, i) + f + spaces(fill)
        + line_justification(m, i) + seq!['\n']
}

/// The separator drawn above line `i` when it opens the deduction area.
pub open spec fn line_separator(m: FitchModel, i: int) -> Seq<char> {
    if i == m.boundary {
        "------------------\n"@
    } else {
        Seq::empty()
    }
}

/// The first `i` rendered lines, each with its separator.
pub open spec fn prefix_text(m: FitchModel, i: int) -> Seq<char>
    decreases i,
{
    if i <= 0 {
        Seq::empty()
    } else {
        prefix_text(m, i - 1) + line_separator(m, i - 1) + line_text(m, i - 1)
    }
}

/// The whole table: every line rendered in order, then a caret under the
/// current nesting level.
pub open spec fn doc_text(m: FitchModel) -> Seq<char> {
    prefix_text(m, m.lines.len() as int) + spaces(number_width(m) + 4) + spaces(4 * (m.level as int))
        + "^\n"@
}

/// Appends `blocks` indent blocks of four spaces.
fn append_level_blocks(res: &mut String, blocks: usize)
    ensures
        final(res)@ == old(res)@ + spaces(4 * blocks as int),
{
    let ghost base = res@;
    let mut k: usize = 0;
    proof {
        assert(res@ =~= base + spaces(0));
    }
    while k < blocks
        invariant
            0 <= k <= blocks,
            res@ == base + spaces(4 * k as int),
        decreases blocks - k,
    {
        res.append("    ");
        proof {
            reveal_strlit("    ");
            lemma_spaces_len(4 * k as int);
            lemma_spaces_len(4 * k as int + 4);
            assert(res@ =~= base + spaces(4 * (k as int + 1)));
        }
        k = k + 1;
    }
}

/// The indentation of one line, with the assumption mark.
fn indent_string(level: usize, is_sub: bool) -> (s: String)
    ensures
        s@ == (if is_sub {
            if level == 0 {
                Seq::<char>::empty()
            } else {
                seq!['-'] + spaces(4 * level as int - 1)
            }
        } else {
            spaces(4 * level as int)
        }),
{
    if is_sub {
        if level == 0 {
            String::new()
        } else {
            let mut s = "-".to_owned();
            append_level_blocks(&mut s, level - 1);
            s.append("   ");
            proof {
                reveal_strlit("-");
                reveal_strlit("   ");
                lemma_spaces_len(4 * (level as int - 1));
                lemma_spaces_len(4 * level as int - 1);
                assert(s@ =~= seq!['-'] + spaces(4 * level as int - 1));
            }
            s
        }
    } else {
        let mut s = String::new();
        append_level_blocks(&mut s, level);
        proof {
            assert(s@ =~= spaces(4 * level as int));
        }
        s
    }
}

impl Fitch {
    /// One rendered line of the table.
    fn line_string(&self, i: usize, maxw: usize, longest: u128) -> (s: String)
        requires
            (i as int) < self@.lines.len(),
            maxw as int == number_width(self@),
            longest as int == longest_row(self@, self@.lines.len() as int),
            row_width(self@, i as int) <= longest as int,
        ensures
            s@ == line_text(self@, i as int),
    {
        let mut line = " ".to_owned();
        let num = dec_str(i);
        let w = num.as_str().unicode_len();
        let pad: usize = if w <= maxw {
            maxw - w
        } else {
            0
        };
        append_spaces(&mut line, pad as u128);
        line.append(num.as_str());
        line.append(" | ");
        let level = self.statements[i].0;
        let is_sub = match &self.statements[i].1 {
            FitchComponent::Assumption(_) => true,
            FitchComponent::Deduction(_, _, _) => false,
        };
        let indent = indent_string(level, is_sub);
        line.append(indent.as_str());
        let f = self.statements[i].1.unwrap().render();
        let flen = f.as_str().unicode_len();
        line.append(f.as_str());
        proof {
            assert(flen as int + 4 * (level as int) == row_width(self@, i as int));
        }
        let fill: u128 = longest - (flen as u128 + 4 * (level as u128));
        append_spaces(&mut line, fill);
        let just = self.justification_string(i);
        line.append(just.as_str());
        line.append("\n");
        proof {
            reveal_strlit(" ");
            reveal_strlit(" | ");
            reveal_strlit("\n");
            assert(line@ =~= line_text(self@, i as int));
        }
        line
    }

    /// The justification column of one line.
    fn justification_string(&self, i: usize) -> (s: String)
        requires
            (i as int) < self@.lines.len(),
        ensures
            s@ == line_justification(self@, i as int),
    {
        match &self.statements[i].1 {
            FitchComponent::Assumption(_) => String::new(),
            FitchComponent::Deduction(_, rule, refs) => {
                let sym: &'static str = match rule {
                    Rule::Reiter => "    Re ",
                    Rule::IntroAbs => "    I ⊥ ",
                    Rule::ElimAbs => "    E ⊥ ",
                    Rule::IntroAnd => "    I & ",
                    Rule::ElimAnd => "    E & ",
                    Rule::IntroOr => "    I | ",
                    Rule::ElimOr => "    E | ",
                    Rule::IntroNot => "    I ~ ",
                    Rule::ElimNot => "    E ~ ",
                    Rule::IntroImpl => "    I => ",
                    Rule::ElimImpl => "    E => ",
                    Rule::IntroIff => "    I <=> ",
                    Rule::ElimIff => "    E <=> ",
                };
                let mut just = sym.to_owned();
                just.append("[");
                let ghost jbase = just@;
                let mut k: usize = 0;
                while k < refs.len()
                    invariant
                        0 <= k <= refs.len(),
                        just@ == jbase + join_upto(refs@, k as int),
                    decreases refs.len() - k,
                {
                    if k > 0 {
                        just.append(", ");
                    }
                    let numk = dec_str(refs[k]);
                    just.append(numk.as_str());
                    proof {
                        reveal_strlit(", ");
                        assert(just@ =~= jbase + join_upto(refs@, k as int + 1));
                    }
                    k = k + 1;
                }
                just.append("]");
                proof {
                    reveal_strlit("[");
                    reveal_strlit("]");
                    assert(just@ =~= line_justification(self@, i as int));
                }
                just
            },
        }
    }

    /// The textual table of the whole proof: each line numbered and indented
    /// by its nesting level, a separator under the standing assumptions,
    /// each derivation's rule and cited lines, and a caret marking the
    /// current nesting level.
    pub fn render(&self) -> (s: String)
        ensures
            s@ == doc_text(self@),
    {
        let len = self.statements.len();
        let maxw: usize = if len == 0 {
            0
        } else {
            let b = if len - 1 == 0 {
                1
            } else {
                len - 1
            };
            let btext = dec_str(b);
            btext.as_str().unicode_len()
        };
        proof {
            assert(maxw as int == number_width(self@));
        }
        // The widest row decides how far each formula is padded.
        let mut longest: u128 = 0;
        let mut i: usize = 0;
        while i < len
            invariant
                0 <= i <= len,
                len == self@.lines.len(),
                longest as int == longest_row(self@, i as int),
                forall|k: int| 0 <= k < i ==> row_width(self@, k) <= longest as int,
                longest <= u128::MAX / 2,
            decreases len - i,
        {
            let f = self.statements[i].1.unwrap().render();
            let flen = f.as_str().unicode_len();
            let level = self.statements[i].0;
            let w: u128 = flen as u128 + 4 * (level as u128);
            if w > longest {
                longest = w;
            }
            i = i + 1;
        }
        let mut res = String::new();
        proof {
            assert(res@ =~= prefix_text(self@, 0));
        }
        let mut i: usize = 0;
        while i < len
            invariant
                0 <= i <= len,
                len == self@.lines.len(),
                longest as int == longest_row(self@, len as int),
                forall|k: int| 0 <= k < len ==> row_width(self@, k) <= longest as int,
                maxw as int == number_width(self@),
                res@ == prefix_text(self@, i as int),
            decreases len - i,
        {
            let ghost base = res@;
            if i == self.start_of_deductions {
                res.append("------------------\n");
            }
            proof {
                assert(res@ =~= base + line_separator(self@, i as int));
            }
            let line = self.line_string(i, maxw, longest);
            res.append(line.as_str());
            proof {
                assert(res@ =~= prefix_text(self@, i as int + 1));
            }
            i = i + 1;
        }
        append_spaces(&mut res, maxw as u128 + 4);
        append_level_blocks(&mut res, self.current_level);
        res.append("^\n");
        proof {
            assert(res@ =~= doc_text(self@));
        }
        res
    }
}

/// And-elimination is exact: on a line holding the conjunction of `l` and
/// `r`, elimination is permitted with target `l` and with target `r`, and
/// with no other target. Together with the contract of `eliminate_and` —
/// which appends exactly the target on success and changes nothing on
/// failure — this pins the operation's behaviour on every conjunction line.
pub proof fn lemma_and_elim_exact(m: FitchModel, i: usize, l: Formula, r: Formula, target: Formula)
    requires
        m.wf(),
        m.valid(i),
        m.formula(i) == Formula::And(Box::new(l), Box::new(r)),
    ensures
        can_eliminate_and(m, i, l),
        can_eliminate_and(m, i, r),
        can_eliminate_and(m, i, target) <==> (target == l || target == r),
{
}

/// Negation-elimination is exact: it is permitted on a line exactly when the
/// line holds a double negation `Not(Not(f))`, and what it then appends (by
/// the contract of `eliminate_not`) is that inner `f`.
pub proof fn lemma_not_elim_exact(m: FitchModel, i: usize, f: Formula)
    requires
        m.wf(),
        m.valid(i),
    ensures
        m.formula(i) == Formula::Not(Box::new(Formula::Not(Box::new(f)))) ==> (can_eliminate_not(
            m,
            i,
        ) && not_elim_result(m, i) == f),
        can_eliminate_not(m, i) ==> m.formula(i) == Formula::Not(
            Box::new(Formula::Not(Box::new(not_elim_result(m, i)))),
        ),
{
}

/// Deleting the last line undoes exactly one append: whenever a document is
/// extended by one line — at any level, with or without moving the boundary
/// forward past it, as every successful engine operation does — deleting the
/// last line afterwards restores the lines, the boundary and the nesting
/// level to their values before the append. The hypothesis that the nesting
/// cursor stands at the last line's level holds after any append; it can
/// fail for the document the append started from only when subproofs were
/// closed since the previous append.
pub proof fn lemma_delete_undoes_append(
    m: FitchModel,
    line: LineModel,
    new_boundary: nat,
    new_level: nat,
)
    requires
        m.wf(),
        m.lines.len() > 0 ==> m.level == m.lines.last().level,
        new_boundary == m.boundary || (m.boundary == m.lines.len() && new_boundary == m.boundary
            + 1),
    ensures
        (FitchModel { lines: m.lines.push(line), boundary: new_boundary, level: new_level }).delete_last()
            == m,
{
    let pushed = FitchModel { lines: m.lines.push(line), boundary: new_boundary, level: new_level };
    assert(pushed.lines.drop_last() =~= m.lines);
    assert(pushed.delete_last() =~= m);
}

/// Formulas as the parser produces them: every atom name is a nonempty run
/// of uppercase letters.
pub open spec fn wf_formula(f: Formula) -> bool
    decreases f,
{
    match f {
        Formula::Absurdum => true,
        Formula::Term(s) => s.len() > 0 && forall|j: int|
            0 <= j < s.len() ==> is_upper(#[trigger] s[j]),
        Formula::And(l, r) => wf_formula(*l) && wf_formula(*r),
        Formula::Or(l, r) => wf_formula(*l) && wf_formula(*r),
        Formula::Not(t) => wf_formula(*t),
        Formula::Implies(l, r) => wf_formula(*l) && wf_formula(*r),
        Formula::Iff(l, r) => wf_formula(*l) && wf_formula(*r),
    }
}

/// Text that cannot continue an atom name: empty, or starting with a
/// character that is no uppercase letter.
pub open spec fn ends_name(r: Seq<char>) -> bool {
    r.len() == 0 || !is_upper(r[0])
}

/// The two sides and the operator token of a binary formula.
pub open spec fn binary_parts(f: Formula) -> Option<(Formula, Formula, Seq<char>)> {
    match f {
        Formula::And(l, r) => Some((*l, *r, seq![' ', '&', ' '])),
        Formula::Or(l, r) => Some((*l, *r, seq![' ', '|', ' '])),
        Formula::Implies(l, r) => Some((*l, *r, seq![' ', '=', '>', ' '])),
        Formula::Iff(l, r) => Some((*l, *r, seq![' ', '<', '=', '>', ' '])),
        _ => None,
    }
}

proof fn lemma_render_binary_shape(f: Formula)
    requires
        binary_parts(f) is Some,
    ensures
        ({
            let (l, r, op) = binary_parts(f).unwrap();
            render_model(f) == seq!['('] + render_model(l) + op + render_model(r) + seq![')']
        }),
{
}

proof fn lemma_render_head(f: Formula)
    requires
        wf_formula(f),
    ensures
        render_model(f).len() > 0,
        f is Absurdum ==> render_model(f)[0] == '⊥',
        f is Term ==> is_upper(render_model(f)[0]),
        !(f is Absurdum) && !(f is Term) ==> render_model(f)[0] == '(',
{
    match f {
        Formula::Absurdum => {
            assert(render_model(f) == seq!['⊥']);
        },
        Formula::Term(s) => {
            assert(render_model(f)[0] == s[0]);
        },
        _ => {
        },
    }
}

proof fn lemma_cancel(a: Seq<char>, b: Seq<char>, c: Seq<char>)
    requires
        a + b == a + c,
    ensures
        b == c,
{
    assert((a + b).len() == (a + c).len());
    assert((a + b).len() == a.len() + b.len());
    assert((a + c).len() == a.len() + c.len());
    assert(b.len() == c.len());
    assert forall|j: int| 0 <= j < b.len() implies b[j] == c[j] by {
        assert((a + b)[a.len() + j] == b[j]);
        assert((a + c)[a.len() + j] == c[j]);
    }
    assert(b =~= c);
}

/// No text is the rendering of two different well-formed formulas, even when
/// each is followed by a tail that cannot continue an atom name: the two
/// formulas and the two tails agree. This is the prefix form on which the
/// unambiguity of the rendering rests.
proof fn lemma_render_prefix(f1: Formula, f2: Formula, r1: Seq<char>, r2: Seq<char>)
    requires
        wf_formula(f1),
        wf_formula(f2),
        render_model(f1) + r1 == render_model(f2) + r2,
        ends_name(r1),
        ends_name(r2),
    ensures
        f1 == f2,
        r1 == r2,
    decreases f1, 1int,
{
    lemma_render_head(f1);
    lemma_render_head(f2);
    assert(render_model(f1)[0] == render_model(f2)[0]) by {
        assert((render_model(f1) + r1)[0] == render_model(f1)[0]);
        assert((render_model(f2) + r2)[0] == render_model(f2)[0]);
    }
    match f1 {
        Formula::Absurdum => {
            match f2 {
                Formula::Absurdum => {
                    lemma_cancel(seq!['⊥'], r1, r2);
                },
                _ => {
                    assert(false);
                },
            }
        },
        Formula::Term(s1) => {
            match f2 {
                Formula::Term(s2) => {
                    lemma_term_term(s1, s2, r1, r2);
                },
                _ => {
                    assert(false);
                },
            }
        },
        Formula::Not(t1) => {
            match f2 {
                Formula::Absurdum => {
                    assert(false);
                },
                Formula::Term(_) => {
                    assert(false);
                },
                Formula::Not(t2) => {
                    let x1 = render_model(*t1) + (seq![')'] + r1);
                    let x2 = render_model(*t2) + (seq![')'] + r2);
                    assert(render_model(f1) + r1 =~= seq!['(', '~'] + x1);
                    assert(render_model(f2) + r2 =~= seq!['(', '~'] + x2);
                    lemma_cancel(seq!['(', '~'], x1, x2);
                    lemma_render_prefix(*t1, *t2, seq![')'] + r1, seq![')'] + r2);
                    lemma_cancel(seq![')'], r1, r2);
                },
                _ => {
                    // A binary formula shows its left side's first character
                    // where a negation shows `~`.
                    lemma_second_char_binary(f2, r2);
                    assert((render_model(f1) + r1)[1] == '~');
                    assert(false);
                },
            }
        },
        _ => {
            match f2 {
                Formula::Absurdum => {
                    assert(false);
                },
                Formula::Term(_) => {
                    assert(false);
                },
                Formula::Not(_) => {
                    lemma_second_char_binary(f1, r1);
                    assert((render_model(f2) + r2)[1] == '~');
                    assert(false);
                },
                _ => {
                    lemma_render_prefix_binary(f1, f2, r1, r2);
                },
            }
        },
    }
}

/// Two atom renderings followed by non-name tails agree only when the names
/// and the tails agree.
proof fn lemma_term_term(s1: Seq<char>, s2: Seq<char>, r1: Seq<char>, r2: Seq<char>)
    requires
        wf_formula(Formula::Term(s1)),
        wf_formula(Formula::Term(s2)),
        s1 + r1 == s2 + r2,
        ends_name(r1),
        ends_name(r2),
    ensures
        Formula::Term(s1) == Formula::Term(s2),
        r1 == r2,
{
    if s1.len() < s2.len() {
        assert(r1.len() > 0) by {
            assert((s1 + r1).len() == (s2 + r2).len());
        }
        assert(r1[0] == s2[s1.len() as int]) by {
            assert((s1 + r1)[s1.len() as int] == r1[0]);
            assert((s2 + r2)[s1.len() as int] == s2[s1.len() as int]);
        }
        assert(false);
    }
    if s2.len() < s1.len() {
        assert(r2.len() > 0) by {
            assert((s1 + r1).len() == (s2 + r2).len());
        }
        assert(r2[0] == s1[s2.len() as int]) by {
            assert((s2 + r2)[s2.len() as int] == r2[0]);
            assert((s1 + r1)[s2.len() as int] == s1[s2.len() as int]);
        }
        assert(false);
    }
    assert forall|j: int| 0 <= j < s1.len() implies s1[j] == s2[j] by {
        assert((s1 + r1)[j] == s1[j]);
        assert((s2 + r2)[j] == s2[j]);
    }
    assert(s1 =~= s2);
    lemma_cancel(s1, r1, r2);
}

/// The second character of a rendered binary formula is the first character
/// of its left side's rendering, never `~`.
proof fn lemma_second_char_binary(f: Formula, r: Seq<char>)
    requires
        wf_formula(f),
        binary_parts(f) is Some,
    ensures
        (render_model(f) + r).len() > 1,
        (render_model(f) + r)[1] != '~',
{
    let (l, _, op) = binary_parts(f).unwrap();
    lemma_render_binary_shape(f);
    match f {
        Formula::And(bl, _) => {
            lemma_render_head(*bl);
            assert((render_model(f) + r)[1] == render_model(*bl)[0]);
        },
        Formula::Or(bl, _) => {
            lemma_render_head(*bl);
            assert((render_model(f) + r)[1] == render_model(*bl)[0]);
        },
        Formula::Implies(bl, _) => {
            lemma_render_head(*bl);
            assert((render_model(f) + r)[1] == render_model(*bl)[0]);
        },
        Formula::Iff(bl, _) => {
            lemma_render_head(*bl);
            assert((render_model(f) + r)[1] == render_model(*bl)[0]);
        },
        _ => {
        },
    }
}

/// The binary case of `lemma_render_prefix`: equal texts force equal sides,
/// an equal operator, and equal tails.
proof fn lemma_render_prefix_binary(f1: Formula, f2: Formula, r1: Seq<char>, r2: Seq<char>)
    requires
        wf_formula(f1),
        wf_formula(f2),
        binary_parts(f1) is Some,
        binary_parts(f2) is Some,
        render_model(f1) + r1 == render_model(f2) + r2,
        ends_name(r1),
        ends_name(r2),
    ensures
        f1 == f2,
        r1 == r2,
    decreases f1, 0int,
{
    let (a1, b1, op1) = binary_parts(f1).unwrap();
    let (a2, b2, op2) = binary_parts(f2).unwrap();
    lemma_render_binary_shape(f1);
    lemma_render_binary_shape(f2);
    let rest1 = op1 + (render_model(b1) + (seq![')'] + r1));
    let rest2 = op2 + (render_model(b2) + (seq![')'] + r2));
    assert(render_model(f1) + r1 =~= seq!['('] + (render_model(a1) + rest1));
    assert(render_model(f2) + r2 =~= seq!['('] + (render_model(a2) + rest2));
    lemma_cancel(seq!['('], render_model(a1) + rest1, render_model(a2) + rest2);
    assert(ends_name(rest1)) by {
        assert(rest1[0] == ' ');
    }
    assert(ends_name(rest2)) by {
        assert(rest2[0] == ' ');
    }
    // The heights of the sides are below the whole formula's.
    match f1 {
        Formula::And(bl, br) => {
            assert(a1 == *bl && b1 == *br);
        },
        Formula::Or(bl, br) => {
            assert(a1 == *bl && b1 == *br);
        },
        Formula::Implies(bl, br) => {
            assert(a1 == *bl && b1 == *br);
        },
        Formula::Iff(bl, br) => {
            assert(a1 == *bl && b1 == *br);
        },
        _ => {
        },
    }
    lemma_render_prefix(a1, a2, rest1, rest2);
    assert(op1[1] == op2[1]) by {
        assert(rest1[1] == op1[1]);
        assert(rest2[1] == op2[1]);
    }
    assert(op1 == op2);
    lemma_cancel(op1, render_model(b1) + (seq![')'] + r1), render_model(b2) + (seq![')'] + r2));
    lemma_render_prefix(b1, b2, seq![')'] + r1, seq![')'] + r2);
    lemma_cancel(seq![')'], r1, r2);
    assert(f1 == f2);
}

/// The canonical rendering is unambiguous: two well-formed formulas (their
/// atom names nonempty runs of uppercase letters, as the parser produces
/// them) with the same text are the same formula.
pub proof fn lemma_render_unambiguous(f1: Formula, f2: Formula)
    requires
        wf_formula(f1),
        wf_formula(f2),
        render_model(f1) == render_model(f2),
    ensures
        f1 == f2,
{
    assert(render_model(f1) + Seq::<char>::empty() =~= render_model(f1));
    assert(render_model(f2) + Seq::<char>::empty() =~= render_model(f2));
    lemma_render_prefix(f1, f2, Seq::empty(), Seq::empty());
}

} // verus!
