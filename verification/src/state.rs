//! States of the interactive input sequencer: each variant names the piece of
//! input (an index or an expression) that the caller is currently collecting
//! before it can invoke one engine operation.

use vstd::prelude::*;

verus! {

#[derive(PartialEq, Eq, Structural)]
pub enum State {
    Noraml,
    IntroduceChoice,
    EliminateChoice,
    AddAssumption,
    AddSubproof,
    Reiterate,
    AbsurdumState(AbsurdumState),
    AndState(AndState),
    OrState(OrState),
    NotState(NotState),
    ImpliesState(ImpliesState),
    IffState(IffState),
    Quit,
}

#[derive(PartialEq, Eq, Structural)]
pub enum AbsurdumState {
    IntroduceGetAssumption1,
    IntroduceGetAssumption2(usize),
    EliminateGetAssumption,
    EliminateGetProposition(usize),
}

#[derive(PartialEq, Eq, Structural)]
pub enum AndState {
    IntroduceGetLeftAssumption,
    IntroduceGetRightAssumption(usize),
    EliminateGetAssumption,
    EliminateGetProposition(usize),
}

#[derive(PartialEq, Eq, Structural)]
pub enum OrState {
    IntroduceGetAssumption,
    IntroduceGetProposition(usize),
    EliminateGetAssumption,
    EliminateGetLeftSubproof(usize),
    EliminateGetRightSubproof(usize, usize),
}

#[derive(PartialEq, Eq, Structural)]
pub enum NotState {
    Introduce,
    Eliminate,
}

#[derive(PartialEq, Eq, Structural)]
pub enum ImpliesState {
    Introduce,
    EliminateGetAssumption,
    EliminateGetLeft(usize),
}

#[derive(PartialEq, Eq, Structural)]
pub enum IffState {
    IntroduceGetLeftSubproof,
    IntroduceGetRightSubproof(usize),
    EliminateGetAssumption,
    EliminateGetTruth(usize),
}

} // verus!
