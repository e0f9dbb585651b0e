//! Compiled pipelines.
use vstd::prelude::*;
use crate::height::transforms_height;
use crate::step::StepList;
use crate::units::{PipelineSourceXyUnits, PipelineTargetXyUnits};

verus! {

/// A coordinate operation compiled into steps, with the adapters for the x and
/// y of its endpoints.
pub struct CompiledOperationPipeline {
    pub steps: StepList,
    pub source_xy_units: PipelineSourceXyUnits,
    pub target_xy_units: PipelineTargetXyUnits,
    /// Whether the pipeline changes ellipsoidal height: a step does so outside
    /// every height passthrough, or an endpoint is geocentric.
    pub transforms_ellipsoidal_height: bool,
}

impl CompiledOperationPipeline {
    /// Whether an endpoint is geocentric.
    pub open spec fn has_geocentric_endpoint(&self) -> bool {
        self.source_xy_units is GeocentricMeters || self.target_xy_units is GeocentricMeters
    }

    /// Whether the flag for ellipsoidal height agrees with the steps and the
    /// endpoints.
    pub open spec fn well_formed(&self) -> bool {
        self.transforms_ellipsoidal_height == (self.has_geocentric_endpoint()
            || transforms_height(self.steps@))
    }
}

impl Clone for CompiledOperationPipeline {
    fn clone(&self) -> (copy: Self)
        ensures
            copy.steps@ == self.steps@,
            copy.source_xy_units == self.source_xy_units,
            copy.target_xy_units == self.target_xy_units,
            copy.transforms_ellipsoidal_height == self.transforms_ellipsoidal_height,
    {
        CompiledOperationPipeline {
            steps: self.steps.clone(),
            source_xy_units: self.source_xy_units,
            target_xy_units: self.target_xy_units,
            transforms_ellipsoidal_height: self.transforms_ellipsoidal_height,
        }
    }
}

} // verus!
