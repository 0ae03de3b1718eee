//! The gatekeeper for every edge write: calibrated confidence ranges and
//! deprecated targets are checked here.

use vstd::prelude::*;

use crate::errors::SchemaError;
use crate::schema::{ConfidenceConfig, ConfidenceRange, Edge, Node, ResolutionMethod};

verus! {

broadcast use crate::schema::lemma_edge_view;

/// The calibrated range that a resolution's confidence must fall in, if any:
/// static and runtime resolutions have none.
pub open spec fn calibrated_range(config: ConfidenceConfig, resolution: ResolutionMethod) -> Option<
    ConfidenceRange,
> {
    match resolution {
        ResolutionMethod::TypeInferred => Some(config.type_inferred_range),
        ResolutionMethod::Heuristic => Some(config.heuristic_range),
        _ => None,
    }
}

/// Whether a confidence falls outside its resolution's calibrated range.
pub open spec fn out_of_calibrated_range(
    config: ConfidenceConfig,
    resolution: ResolutionMethod,
    confidence: int,
) -> bool {
    match calibrated_range(config, resolution) {
        Some(range) => !(range.min <= confidence <= range.max),
        None => false,
    }
}

#[derive(Debug)]
pub struct SchemaValidator {
    confidence_config: ConfidenceConfig,
}

impl View for SchemaValidator {
    type V = ConfidenceConfig;

    closed spec fn view(&self) -> ConfidenceConfig {
        self.confidence_config
    }
}

impl Clone for SchemaValidator {
    fn clone(&self) -> (r: Self)
        ensures
            r@ == self@,
    {
        SchemaValidator { confidence_config: self.confidence_config.clone() }
    }
}

impl SchemaValidator {
    pub fn new(confidence_config: ConfidenceConfig) -> (r: SchemaValidator)
        ensures
            r@ == confidence_config,
    {
        SchemaValidator { confidence_config }
    }

    pub fn confidence_config(&self) -> (r: &ConfidenceConfig)
        ensures
            *r == self@,
    {
        &self.confidence_config
    }

    pub fn set_confidence_config(&mut self, confidence_config: ConfidenceConfig)
        ensures
            final(self)@ == confidence_config,
    {
        self.confidence_config = confidence_config;
    }

    /// Checks an edge against the calibrated range of its resolution, then
    /// refuses it if its target is deprecated.
    pub fn validate_edge_write(&self, edge: &Edge, target: &Node) -> (r: Result<(), SchemaError>)
        ensures
            out_of_calibrated_range(self@, edge@.resolution, edge@.confidence) ==> (r matches Err(
                SchemaError::ConfidenceOutOfCalibratedRange { resolution, confidence, min, max },
            ) && resolution == edge@.resolution && confidence == edge@.confidence
                && calibrated_range(self@, edge@.resolution) == Some(
                ConfidenceRange { min, max },
            )),
            !out_of_calibrated_range(self@, edge@.resolution, edge@.confidence)
                && target.status@ is Deprecated ==> r == Err::<(), SchemaError>(
                SchemaError::EdgeTargetsDeprecatedNode { target: target.id },
            ),
            !out_of_calibrated_range(self@, edge@.resolution, edge@.confidence)
                && !(target.status@ is Deprecated) ==> r is Ok,
    {
        let confidence = edge.confidence();
        match edge.resolution {
            ResolutionMethod::Static | ResolutionMethod::Runtime => {},
            ResolutionMethod::TypeInferred => {
                let range = &self.confidence_config.type_inferred_range;
                if !range.contains(confidence) {
                    return Err(
                        SchemaError::ConfidenceOutOfCalibratedRange {
                            resolution: edge.resolution,
                            confidence,
                            min: range.min,
                            max: range.max,
                        },
                    );
                }
            },
            ResolutionMethod::Heuristic => {
                let range = &self.confidence_config.heuristic_range;
                if !range.contains(confidence) {
                    return Err(
                        SchemaError::ConfidenceOutOfCalibratedRange {
                            resolution: edge.resolution,
                            confidence,
                            min: range.min,
                            max: range.max,
                        },
                    );
                }
            },
        }
        if target.status.is_deprecated() {
            return Err(SchemaError::EdgeTargetsDeprecatedNode { target: target.id.clone() });
        }
        Ok(())
    }
}

} // verus!
