//! Declarations that stay alive across suspensions.

use vstd::prelude::*;

use crate::coroutine::CoroutineFunction;
use crate::semantic::{DeclarationId, ScopeId, SourceFragment};
use crate::slot_liveness::ProgramPoint;
use crate::syntax::Diagnostic;

verus! {

/// One declaration that the task context holds.
#[derive(Debug, PartialEq, Eq)]
pub struct LiftedField {
    pub declaration: DeclarationId,
    pub source_name: String,
    pub field_name: String,
    pub ty: SourceFragment,
    pub scope: ScopeId,
    pub declaration_start: usize,
    pub is_parameter: bool,
    pub is_task: bool,
    pub address_taken: bool,
    pub cleanup_retained: bool,
    pub volatile_or_atomic: bool,
}

/// One function with its lifted declarations and where they are alive.
#[derive(Debug, PartialEq, Eq)]
pub struct LivenessFunction {
    pub coroutine: CoroutineFunction,
    pub lifted_fields: Vec<LiftedField>,
    pub live_points: Vec<(ProgramPoint, Vec<DeclarationId>)>,
}

/// The functions of one translation unit.
#[derive(Debug, PartialEq, Eq)]
pub struct LivenessUnit {
    pub functions: Vec<LivenessFunction>,
    pub diagnostics: Vec<Diagnostic>,
}

} // verus!
