use vstd::prelude::*;
use vstd::string::*;

use crate::das::error::DasError;
use crate::text::{
    char_is_white_space, chars_of, count_char, find_from, has_white_space, is_white_space, law_split_pieces,
    split,
};

verus! {

/// What a caller asks a resolver for.
#[derive(Debug, Clone, PartialEq, Eq)]
pub struct DatasetRequest {
    pub dataset: String,
    pub instance: DasInstance,
    pub max_files: Option<usize>,
    pub run_range: Option<RunRange>,
    pub require_valid: bool,
}

/// The DAS database instance a dataset lives in.
#[derive(Debug, Clone, PartialEq, Eq)]
pub enum DasInstance {
    ProdGlobal,
    ProdPhys03,
    Custom(String),
}

/// Text of an instance as DAS queries and `Display` write it.
pub open spec fn instance_text(i: DasInstance) -> Seq<char> {
    match i {
        DasInstance::ProdGlobal => "prod/global"@,
        DasInstance::ProdPhys03 => "prod/phys03"@,
        DasInstance::Custom(s) => s@,
    }
}

impl DasInstance {
    /// The instance name, as `Display` renders it.
    pub fn display_string(&self) -> (s: String)
        ensures
            s@ == instance_text(*self),
    {
        match self {
            DasInstance::ProdGlobal => String::from_str("prod/global"),
            DasInstance::ProdPhys03 => String::from_str("prod/phys03"),
            DasInstance::Custom(s) => s.clone(),
        }
    }

    /// An equal copy of the instance.
    pub fn duplicate(&self) -> (r: DasInstance)
        ensures
            r == *self,
    {
        match self {
            DasInstance::ProdGlobal => DasInstance::ProdGlobal,
            DasInstance::ProdPhys03 => DasInstance::ProdPhys03,
            DasInstance::Custom(s) => DasInstance::Custom(s.clone()),
        }
    }
}

#[derive(Debug, Clone, PartialEq, Eq)]
/// A range of run numbers, either end open.
pub struct RunRange {
    pub min_run: Option<u32>,
    pub max_run: Option<u32>,
}

/// The resolved list of files of a dataset, with where it came from.
#[derive(Debug, Clone, PartialEq, Eq)]
pub struct DatasetManifest {
    pub schema_version: u32,
    pub dataset: String,
    pub instance: DasInstance,
    pub files: Vec<CmsFile>,
    pub provenance: DatasetProvenance,
}

#[derive(Debug, Clone, PartialEq, Eq)]
/// One file of a dataset: its logical name, where to read it, and what is known of it.
pub struct CmsFile {
    pub lfn: String,
    pub source: FileSource,
    pub events: Option<u64>,
    pub size_bytes: Option<u64>,
    pub checksum: Option<String>,
    pub runs: Vec<u32>,
    pub lumis: Vec<LumiRange>,
}

#[derive(Debug, Clone, PartialEq, Eq)]
/// The locations a file can be read from.
pub struct FileSource {
    pub lfn: String,
    pub global_xrootd_url: String,
    pub preferred_url: Option<String>,
    pub local_path: Option<String>,
}

#[derive(Debug, Clone, PartialEq, Eq)]
/// A range of luminosity sections within one run.
pub struct LumiRange {
    pub run: u32,
    pub first_lumi: u32,
    pub last_lumi: u32,
}

#[derive(Debug, Clone, PartialEq, Eq)]
/// How a manifest was obtained.
pub struct DatasetProvenance {
    pub resolver: String,
    pub query: String,
    pub resolved_at_utc: String,
    pub command_or_endpoint: String,
    pub nano_das_version: String,
}

/// Why a dataset name is not of the form `/PrimaryDataset/ProcessedDataset/DataTier`,
/// or `None` when it is: non-empty, with a leading slash, without whitespace,
/// and split by `/` into exactly four components (the first one empty).
pub open spec fn dataset_name_problem(s: Seq<char>) -> Option<Seq<char>> {
    if s.len() == 0 {
        Some("empty string"@)
    } else if s[0] != '/' {
        Some("missing leading slash"@)
    } else if has_white_space(s) {
        Some("contains whitespace"@)
    } else if count_char(s, '/') != 3 {
        Some(
            "wrong number of path components, expected /PrimaryDataset/ProcessedDataset/DataTier"@,
        )
    } else {
        None
    }
}

/// `e` is the error that reports `reason` for the dataset name `s`.
pub open spec fn is_name_error(s: Seq<char>, reason: Seq<char>, e: DasError) -> bool {
    e matches DasError::InvalidDatasetName { dataset, reason: r } && dataset@ == s && r@ == reason
}

proof fn lemma_count_char_prefix(s: Seq<char>, c: char, i: int)
    requires
        0 <= i < s.len(),
    ensures
        count_char(s.take(i + 1), c) == count_char(s.take(i), c) + if s[i] == c {
            1nat
        } else {
            0nat
        },
{
    assert(s.take(i + 1).drop_last() =~= s.take(i));
}

fn name_error(dataset: &str, reason: &str) -> (e: DasError)
    ensures
        is_name_error(dataset@, reason@, e),
{
    DasError::InvalidDatasetName { dataset: String::from_str(dataset), reason: String::from_str(reason) }
}

/// Checks that a dataset name has the form `/PrimaryDataset/ProcessedDataset/DataTier`.
pub fn validate_dataset_name(dataset: &str) -> (r: core::result::Result<(), DasError>)
    ensures
        match dataset_name_problem(dataset@) {
            None => r is Ok,
            Some(reason) => r matches Err(e) && is_name_error(dataset@, reason, e),
        },
{
    let v = chars_of(dataset);
    if v.len() == 0 {
        return Err(name_error(dataset, "empty string"));
    }
    if v[0] != '/' {
        return Err(name_error(dataset, "missing leading slash"));
    }
    let mut i: usize = 0;
    while i < v.len()
        invariant
            v@ == dataset@,
            v@.len() > 0,
            v@[0] == '/',
            i <= v@.len(),
            forall|k: int| 0 <= k < i ==> !is_white_space(#[trigger] v@[k]),
        decreases v.len() - i,
    {
        if char_is_white_space(v[i]) {
            assert(is_white_space(dataset@[i as int]));
            assert(has_white_space(dataset@));
            return Err(name_error(dataset, "contains whitespace"));
        }
        i += 1;
    }
    let mut slashes: usize = 0;
    let mut j: usize = 0;
    while j < v.len()
        invariant
            v@ == dataset@,
            v@.len() > 0,
            v@[0] == '/',
            !has_white_space(dataset@),
            j <= v@.len(),
            slashes == count_char(v@.take(j as int), '/'),
            slashes <= j,
        decreases v.len() - j,
    {
        proof {
            lemma_count_char_prefix(v@, '/', j as int);
        }
        if v[j] == '/' {
            slashes += 1;
        }
        j += 1;
    }
    assert(v@.take(v@.len() as int) =~= v@);
    if slashes != 3 {
        return Err(
            name_error(
                dataset,
                "wrong number of path components, expected /PrimaryDataset/ProcessedDataset/DataTier",
            ),
        );
    }
    Ok(())
}

/// A dataset name passes exactly when it is non-empty, starts with `/`, has
/// no whitespace, and `/` splits it into four components, the first empty:
/// `/PrimaryDataset/ProcessedDataset/DataTier`.
pub proof fn law_dataset_name_components(s: Seq<char>)
    ensures
        dataset_name_problem(s) is None <==> (s.len() > 0 && s[0] == '/' && !has_white_space(s)
            && split(s, '/').len() == 4 && split(s, '/')[0].len() == 0),
{
    law_split_pieces(s, '/');
    if s.len() > 0 && s[0] == '/' {
        assert(find_from(s, '/', 0) == Some(0int));
        assert(s.subrange(0, 0).len() == 0);
    }
}

} // verus!
