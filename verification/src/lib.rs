//! Dataset resolution for CMS NanoAOD samples and the integer/string logic of
//! the H -> rho gamma scouting analysis: truth-chain search, generator-level
//! topology surveys, pion truth classification and analysis counters.
pub mod das;
pub mod genealogy;
pub mod genpart_survey;
pub mod pion_truth_diagnosis;
pub mod scouting_hrhogamma;
pub mod survey_report;
pub mod tally;
pub mod text;
pub mod xrootd;

pub use das::error::{DasError, Result};
pub use das::model::{CmsFile, DasInstance, DatasetManifest, DatasetRequest, FileSource};
pub use das::source_policy::SourcePolicy;
