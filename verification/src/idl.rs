//! The description of Anchor programs from which fuzzing sources are
//! generated: each program with its instructions, their parameters and
//! the accounts each instruction takes.
use vstd::prelude::*;

verus! {

/// A name in the two spellings the generators use.
pub struct IdlName {
    pub snake_case: String,
    pub upper_camel_case: String,
}

/// An instruction: its name and its parameters as `(name, type)` texts.
pub struct IdlInstruction {
    pub name: IdlName,
    pub parameters: Vec<(String, String)>,
}

/// The accounts an instruction takes, as `(name, type)` texts.
pub struct IdlAccountGroup {
    pub name: IdlName,
    pub accounts: Vec<(String, String)>,
}

/// A program and its instructions, each paired with its accounts.
pub struct IdlProgram {
    pub name: IdlName,
    pub instruction_account_pairs: Vec<(IdlInstruction, IdlAccountGroup)>,
}

/// All programs of a workspace.
pub struct Idl {
    pub programs: Vec<IdlProgram>,
}

} // verus!
