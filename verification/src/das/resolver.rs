use vstd::prelude::*;

use crate::das::error::DasError;
use crate::das::model::{DatasetManifest, DatasetRequest};

verus! {

/// A source of dataset manifests.
pub trait DatasetResolver {
    fn resolve(&self, request: &DatasetRequest) -> core::result::Result<DatasetManifest, DasError>;
}

} // verus!
