use fitch::fitch::{Fitch, Proposition};

#[test]
fn and_elim_round_trip() {
    // Building a conjunction of two atoms and eliminating towards the first
    // atom yields a line structurally equal to that atom.
    let mut fitch = Fitch::new();
    let a = Proposition::new_term("A");
    let b = Proposition::new_term("B");
    let both = Proposition::new_and(&a, &b);
    fitch.add_assumption(&both);
    let ris = fitch.eliminate_and(0, &Proposition::new_term("A"));
    assert!(ris);
    assert_eq!(fitch.formula_at(1).unwrap(), &a);
}

#[test]
fn and_elim_rejects_other_targets() {
    let mut fitch = Fitch::new();
    let a = Proposition::new_term("A");
    let b = Proposition::new_term("B");
    let c = Proposition::new_term("C");
    fitch.add_assumption(&Proposition::new_and(&a, &b));
    assert!(!fitch.eliminate_and(0, &c));
    assert!(!fitch.eliminate_and(0, &Proposition::new_and(&a, &b)));
    assert!(!fitch.eliminate_and(5, &a));
    assert_eq!(fitch.len(), 1);
}

#[test]
fn not_elim_requires_double_negation() {
    let mut fitch = Fitch::new();
    let a = Proposition::new_term("A");
    fitch.add_assumption(&Proposition::new_not(&a));
    fitch.add_assumption(&a);
    assert!(!fitch.eliminate_not(0));
    assert!(!fitch.eliminate_not(1));
    assert!(!fitch.eliminate_not(9));
    assert_eq!(fitch.len(), 2);
}

#[test]
fn absurdum_scenario() {
    // Assume A and its negation, derive falsehood, then derive anything.
    let mut fitch = Fitch::new();
    let a = Proposition::new_term("A");
    let not_a = Proposition::new_not(&a);
    let z = Proposition::new_term("Z");
    fitch.add_assumption(&a);
    fitch.add_assumption(&not_a);
    assert!(fitch.introduce_absurdum(0, 1));
    assert_eq!(
        fitch.formula_at(2).unwrap(),
        &Proposition::new_absurdum()
    );
    assert!(fitch.eliminate_absurdum(2, &z));
    assert_eq!(fitch.formula_at(3).unwrap(), &z);
}

#[test]
fn reiterate_fails_into_closed_subproof() {
    let mut fitch = Fitch::new();
    let a = Proposition::new_term("A");
    let b = Proposition::new_term("B");
    fitch.add_assumption(&a);
    fitch.add_subproof(&b);
    fitch.end_subproof();
    // Line 1 sits in a subproof that has been closed: its depth exceeds the
    // current one.
    assert!(!fitch.reiterate(1));
    // The standing assumption on line 0 stays available.
    assert!(fitch.reiterate(0));
    assert_eq!(fitch.formula_at(fitch.len() - 1).unwrap(), &a);
    // Out of range fails too.
    assert!(!fitch.reiterate(17));
}

#[test]
fn add_assumption_fails_after_deduction_area_opens() {
    let mut fitch = Fitch::new();
    let a = Proposition::new_term("A");
    let b = Proposition::new_term("B");
    assert!(fitch.add_assumption(&a));
    assert!(fitch.add_assumption(&b));
    fitch.reiterate(0);
    assert!(!fitch.add_assumption(&a));
    assert_eq!(fitch.len(), 3);
    assert_eq!(fitch.start_of_deductions(), 2);

    let mut other = Fitch::new();
    other.add_subproof(&b);
    assert!(!other.add_assumption(&a));
}

#[test]
fn delete_last_row_restores_metadata() {
    let mut fitch = Fitch::new();
    let a = Proposition::new_term("A");
    let b = Proposition::new_term("B");
    fitch.add_assumption(&a);
    fitch.add_subproof(&b);
    let len = fitch.len();
    let boundary = fitch.start_of_deductions();
    let level = fitch.current_level();
    assert!(fitch.reiterate(0));
    fitch.delete_last_row();
    assert_eq!(fitch.len(), len);
    assert_eq!(fitch.start_of_deductions(), boundary);
    assert_eq!(fitch.current_level(), level);

    // Deleting an assumption retracts the boundary with it.
    let mut doc = Fitch::new();
    doc.add_assumption(&a);
    doc.add_assumption(&b);
    doc.delete_last_row();
    assert_eq!(doc.len(), 1);
    assert_eq!(doc.start_of_deductions(), 1);
    assert_eq!(doc.current_level(), 0);
    // Deleting on an empty document is a no-op.
    doc.delete_last_row();
    doc.delete_last_row();
    assert_eq!(doc.len(), 0);
    assert_eq!(doc.start_of_deductions(), 0);
    assert_eq!(doc.current_level(), 0);
}

#[test]
fn end_subproof_at_top_level_is_noop() {
    let mut fitch = Fitch::new();
    fitch.end_subproof();
    assert_eq!(fitch.current_level(), 0);
    let b = Proposition::new_term("B");
    fitch.add_subproof(&b);
    assert_eq!(fitch.current_level(), 1);
    fitch.end_subproof();
    fitch.end_subproof();
    assert_eq!(fitch.current_level(), 0);
}

#[test]
fn implies_intro_nested_scenario() {
    // Open a subproof assuming B; inside it a nested subproof assuming A
    // that reiterates B; closing the nested one and introducing the
    // implication from it yields A => B at level 1.
    let mut fitch = Fitch::new();
    let a = Proposition::new_term("A");
    let b = Proposition::new_term("B");
    fitch.add_subproof(&b);
    fitch.add_subproof(&a);
    assert!(fitch.reiterate(0));
    fitch.end_subproof();
    assert_eq!(fitch.current_level(), 1);
    assert!(fitch.introduce_implies(1));
    assert_eq!(
        fitch.formula_at(3).unwrap(),
        &Proposition::new_implies(&a, &b)
    );
    assert_eq!(fitch.level_at(3).unwrap(), 1);
}

#[test]
fn rule_failures_leave_document_unchanged() {
    let mut fitch = Fitch::new();
    let a = Proposition::new_term("A");
    let b = Proposition::new_term("B");
    fitch.add_assumption(&Proposition::new_or(&a, &b));
    fitch.add_assumption(&a);
    // Wrong shapes and wrong indices.
    assert!(!fitch.introduce_and(0, 7));
    assert!(!fitch.introduce_or(1, &b));
    assert!(!fitch.eliminate_or(1, 0, 0));
    assert!(!fitch.eliminate_or(0, 1, 1));
    assert!(!fitch.introduce_absurdum(0, 1));
    assert!(!fitch.eliminate_absurdum(1, &b));
    assert!(!fitch.introduce_not(0));
    assert!(!fitch.introduce_implies(0));
    assert!(!fitch.introduce_iff(0, 1));
    assert!(!fitch.eliminate_implies(0, 1));
    assert!(!fitch.eliminate_iff(0, 1));
    assert_eq!(fitch.len(), 2);
    assert_eq!(fitch.current_level(), 0);
}

#[test]
fn or_elim_requires_matching_subproofs() {
    let mut fitch = Fitch::new();
    let a = Proposition::new_term("A");
    let b = Proposition::new_term("B");
    let c = Proposition::new_term("C");
    fitch.add_assumption(&Proposition::new_or(&b, &c));
    fitch.add_assumption(&a);
    fitch.add_subproof(&b);
    fitch.reiterate(1);
    fitch.end_subproof();
    fitch.add_subproof(&c);
    // This subproof concludes in C, not A: conclusions differ.
    fitch.end_subproof();
    assert!(!fitch.eliminate_or(0, 2, 4));
    // Swapped subproof order does not match the disjunction's sides.
    assert!(!fitch.eliminate_or(0, 4, 2));
}

#[test]
fn iff_intro_scenario_and_failure() {
    let mut fitch = Fitch::new();
    let a = Proposition::new_term("A");
    let b = Proposition::new_term("B");
    fitch.add_assumption(&a);
    fitch.add_subproof(&a);
    fitch.end_subproof();
    // The right subproof concludes in A (its own assumption reiterated is
    // absent; the empty subproof concludes in its assumption), so pairing
    // line 1 with itself demands A on both sides.
    assert!(fitch.introduce_iff(1, 1));
    assert_eq!(
        fitch.formula_at(2).unwrap(),
        &Proposition::new_iff(&a, &a)
    );
    // A subproof that is still open (wrong level) is refused.
    let mut open_doc = Fitch::new();
    open_doc.add_subproof(&b);
    assert!(!open_doc.introduce_iff(0, 0));
}

#[test]
fn justification_is_recorded() {
    let mut fitch = Fitch::new();
    let a = Proposition::new_term("A");
    let b = Proposition::new_term("B");
    fitch.add_assumption(&a);
    fitch.add_assumption(&b);
    assert!(fitch.introduce_and(0, 1));
    assert!(fitch.rule_at(0).is_none());
    assert!(fitch.rule_at(2).is_some());
    assert_eq!(fitch.antecedents_at(2).unwrap(), &vec![0usize, 1usize]);
    assert!(fitch.is_assumption_at(0).unwrap());
    assert!(!fitch.is_assumption_at(2).unwrap());
    assert_eq!(fitch.level_at(2).unwrap(), 0);
}

#[test]
fn render_formulas() {
    let a = Proposition::new_term("A");
    let b = Proposition::new_term("B");
    assert_eq!(a.render(), "A");
    assert_eq!(Proposition::new_absurdum().render(), "⊥");
    assert_eq!(Proposition::new_not(&a).render(), "(~A)");
    assert_eq!(Proposition::new_and(&a, &b).render(), "(A & B)");
    assert_eq!(Proposition::new_or(&a, &b).render(), "(A | B)");
    assert_eq!(Proposition::new_implies(&a, &b).render(), "(A => B)");
    assert_eq!(Proposition::new_iff(&a, &b).render(), "(A <=> B)");
    let nested = Proposition::new_and(&Proposition::new_or(&a, &b), &Proposition::new_not(&a));
    assert_eq!(nested.render(), "((A | B) & (~A))");
}

#[test]
fn render_proof_table() {
    let mut fitch = Fitch::new();
    let a = Proposition::new_term("A");
    let b = Proposition::new_term("B");
    fitch.add_assumption(&Proposition::new_and(&a, &b));
    assert!(fitch.eliminate_and(0, &a));
    assert_eq!(
        fitch.render(),
        " 0 | (A & B)\n------------------\n 1 | A          E & [0]\n     ^\n"
    );

    let mut doc = Fitch::new();
    doc.add_assumption(&a);
    doc.add_subproof(&b);
    assert_eq!(
        doc.render(),
        " 0 | A    \n------------------\n 1 | -   B\n         ^\n"
    );

    assert_eq!(Fitch::new().render(), "    ^\n");
}

#[test]
fn structural_equality_of_propositions() {
    let a1 = Proposition::new_term("A");
    let a2 = Proposition::new_term("A");
    let b = Proposition::new_term("B");
    assert_eq!(a1, a2);
    assert_ne!(a1, b);
    assert_eq!(
        Proposition::new_and(&a1, &b),
        Proposition::new_and(&a2, &b)
    );
    assert_ne!(
        Proposition::new_and(&a1, &b),
        Proposition::new_and(&b, &a1)
    );
    assert_ne!(Proposition::new_and(&a1, &b), Proposition::new_or(&a1, &b));
    assert_ne!(a1, Proposition::new_absurdum());
}
