use fitch::fitch::{Fitch, Proposition};

#[test]
fn introduce_and() {
    let mut fitch = Fitch::new();
    let t0 = Proposition::new_term("A");
    let t1 = Proposition::new_term("B");
    fitch.add_assumption(&t0);
    fitch.add_assumption(&t1);
    let ris = fitch.introduce_and(0, 1);
    assert!(ris);
    assert_eq!(*fitch.formula_at(2).unwrap(), Proposition::new_and(&t0, &t1));
}

#[test]
fn eliminate_and() {
    let mut fitch = Fitch::new();
    let t0 = Proposition::new_term("A");
    let t1 = Proposition::new_term("B");
    let prop = Proposition::new_and(&t0, &t1);
    fitch.add_assumption(&prop);
    let ris = fitch.eliminate_and(0, &t0);
    assert!(ris);
    assert_eq!(fitch.formula_at(fitch.len() - 1).unwrap(), &t0);
    let ris = fitch.eliminate_and(0, &t1);
    assert!(ris);
    assert_eq!(fitch.formula_at(fitch.len() - 1).unwrap(), &t1);
}

#[test]
fn introduce_or() {
    let mut fitch = Fitch::new();
    let t0 = Proposition::new_term("A");
    let t1 = Proposition::new_term("B");
    fitch.add_assumption(&t0);
    let mut ris = fitch.introduce_or(0, &Proposition::new_or(&t0, &t1));
    assert!(ris);
    assert_eq!(fitch.formula_at(1).unwrap(), &Proposition::new_or(&t0, &t1));
    ris = fitch.introduce_or(0, &Proposition::new_or(&t1, &t0));
    assert!(ris);
    assert_eq!(fitch.formula_at(2).unwrap(), &Proposition::new_or(&t1, &t0));
}

#[test]
fn eliminate_or() {
    let mut fitch = Fitch::new();
    let t0 = Proposition::new_term("A");
    let t1 = Proposition::new_term("B");
    let t2 = Proposition::new_term("C");
    let t1_t2 = Proposition::new_or(&t1, &t2);
    fitch.add_assumption(&t0);
    fitch.add_assumption(&t1_t2);
    fitch.add_subproof(&t1);
    fitch.reiterate(0);
    fitch.end_subproof();
    fitch.add_subproof(&t2);
    fitch.reiterate(0);
    fitch.end_subproof();
    let ris = fitch.eliminate_or(1, 2, 4);
    assert!(ris);
    assert_eq!(fitch.formula_at(fitch.len() - 1).unwrap(), &t0);
}

#[test]
fn introduce_absurdum() {
    let mut fitch = Fitch::new();
    let t0 = Proposition::new_term("A");
    let t1 = Proposition::new_not(&t0);
    fitch.add_assumption(&t0);
    fitch.add_assumption(&t1);
    let ris = fitch.introduce_absurdum(0, 1);
    assert!(ris);
    assert_eq!(
        fitch.formula_at(fitch.len() - 1).unwrap(),
        &Proposition::new_absurdum()
    );
}

#[test]
fn eliminate_absurdum() {
    let mut fitch = Fitch::new();
    let t0 = Proposition::new_absurdum();
    let t1 = Proposition::new_term("A");
    fitch.add_assumption(&t0);
    let ris = fitch.eliminate_absurdum(0, &t1);
    assert!(ris);
    assert_eq!(fitch.formula_at(fitch.len() - 1).unwrap(), &t1);
}

#[test]
fn introduce_not() {
    let mut fitch = Fitch::new();
    let t0 = Proposition::new_absurdum();
    let t1 = Proposition::new_term("A");
    fitch.add_assumption(&t0);
    fitch.add_subproof(&t1);
    fitch.reiterate(0);
    fitch.end_subproof();
    let ris = fitch.introduce_not(1);
    assert!(ris);
    assert_eq!(
        fitch.formula_at(fitch.len() - 1).unwrap(),
        &Proposition::new_not(&t1)
    );
}

#[test]
fn eliminate_not() {
    let mut fitch = Fitch::new();
    let t0 = Proposition::new_term("A");
    let t1 = Proposition::new_not(&Proposition::new_not(&t0));
    fitch.add_assumption(&t1);
    let ris = fitch.eliminate_not(0);
    assert!(ris);
    assert_eq!(fitch.formula_at(fitch.len() - 1).unwrap(), &t0);
}

#[test]
fn introduce_implies() {
    let mut fitch = Fitch::new();
    let t0 = Proposition::new_term("A");
    let t1 = Proposition::new_term("B");
    fitch.add_subproof(&t1);
    fitch.add_subproof(&t0);
    fitch.reiterate(0);
    fitch.end_subproof();
    let ris = fitch.introduce_implies(1);
    assert!(ris);
    assert_eq!(
        fitch.formula_at(fitch.len() - 1).unwrap(),
        &Proposition::new_implies(&t0, &t1)
    );
}

#[test]
fn eliminate_implies() {
    let mut fitch = Fitch::new();
    let t0 = Proposition::new_term("A");
    let t1 = Proposition::new_term("B");
    let imp = Proposition::new_implies(&t0, &t1);
    fitch.add_assumption(&t0);
    fitch.add_assumption(&imp);
    let ris = fitch.eliminate_implies(1, 0);
    assert!(ris);
    assert_eq!(fitch.formula_at(fitch.len() - 1).unwrap(), &t1);
}

#[test]
fn introduce_iff() {
    let mut fitch = Fitch::new();
    let t0 = Proposition::new_term("A");
    let t1 = Proposition::new_term("B");
    fitch.add_assumption(&t0);
    fitch.add_assumption(&t1);
    fitch.add_subproof(&t0);
    fitch.reiterate(1);
    fitch.end_subproof();
    fitch.add_subproof(&t1);
    fitch.reiterate(0);
    fitch.end_subproof();
    let ris = fitch.introduce_iff(2, 4);
    assert!(ris);
    assert_eq!(
        fitch.formula_at(fitch.len() - 1).unwrap(),
        &Proposition::new_iff(&t0, &t1)
    );
}

#[test]
fn eliminate_iff() {
    let mut fitch = Fitch::new();
    let t0 = Proposition::new_term("A");
    let t1 = Proposition::new_term("B");
    let bi = Proposition::new_iff(&t0, &t1);
    fitch.add_assumption(&bi);
    fitch.add_assumption(&t0);
    let ris = fitch.eliminate_iff(0, 1);
    assert!(ris);
    assert_eq!(fitch.formula_at(fitch.len() - 1).unwrap(), &t1);
}
