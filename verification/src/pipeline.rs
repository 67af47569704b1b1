//! Specialisation keys of the physics compute pipeline: one pipeline per
//! shader entry point.

use vstd::prelude::*;
use vstd::string::*;
use crate::dispatch::PhysicsStage;

verus! {

/// Selects the shader entry point a specialised pipeline runs.
#[derive(Clone, Copy, Debug, PartialEq, Eq, Hash)]
pub struct PhysicsPipelineKey {
    pub entry_point: &'static str,
}

/// The entry point of each stage.
pub open spec fn stage_entry_point(stage: PhysicsStage) -> Seq<char> {
    match stage {
        PhysicsStage::Integration => "integrate"@,
        PhysicsStage::Solver => "solve_constraints"@,
    }
}

impl PhysicsStage {
    /// The key of the pipeline that runs this stage.
    pub fn pipeline_key(&self) -> (key: PhysicsPipelineKey)
        ensures
            key.entry_point@ == stage_entry_point(*self),
    {
        match self {
            PhysicsStage::Integration => PhysicsPipelineKey { entry_point: "integrate" },
            PhysicsStage::Solver => PhysicsPipelineKey { entry_point: "solve_constraints" },
        }
    }
}

impl PhysicsPipelineKey {
    /// The pipeline's debug label: `Physics_` followed by the entry point.
    pub fn label(&self) -> (label: String)
        ensures
            label@ == "Physics_"@ + self.entry_point@,
    {
        String::from_str("Physics_").concat(self.entry_point)
    }
}

} // verus!
