use vstd::prelude::*;
use vstd::string::*;

use crate::das::error::DasError;
use crate::das::manifest::{is_lfns_error, law_plain_files_carry_their_names, lfns_of, lfns_valid, manifest_valid};
use crate::das::model::{
    dataset_name_problem, is_name_error, validate_dataset_name, CmsFile, DatasetManifest,
    DatasetProvenance, DatasetRequest, FileSource,
};
use crate::das::resolver::DatasetResolver;
use crate::das::source_policy::{global_xrootd_url, SourcePolicy};

verus! {

/// A resolver that answers every request from a fixed list of logical file names.
pub struct FixtureResolver {
    pub lfns: Vec<String>,
}

/// `f` is the record a resolver builds for `lfn`: the LFN, its global XRootD
/// URL, and nothing else known.
pub open spec fn is_plain_file_for(lfn: Seq<char>, f: CmsFile) -> bool {
    &&& f.lfn@ == lfn
    &&& f.source.lfn@ == lfn
    &&& f.source.global_xrootd_url@ == global_xrootd_url(lfn)
    &&& f.source.preferred_url is None
    &&& f.source.local_path is None
    &&& f.events is None
    &&& f.size_bytes is None
    &&& f.checksum is None
    &&& f.runs@.len() == 0
    &&& f.lumis@.len() == 0
}

/// `m` holds, in order, one plain record for each of `lfns`.
pub open spec fn files_for(lfns: Seq<Seq<char>>, files: Seq<CmsFile>) -> bool {
    files.len() == lfns.len() && forall|i: int|
        0 <= i < lfns.len() ==> #[trigger] is_plain_file_for(lfns[i], files[i])
}

/// The number of files a fixture hands out for a request: all of them, or at
/// most `max_files`.
pub open spec fn fixture_limit(n: nat, max_files: Option<usize>) -> nat {
    match max_files {
        Some(m) => if m < n {
            m as nat
        } else {
            n
        },
        None => n,
    }
}

/// The file names a fixture resolver hands out for a request.
pub open spec fn fixture_lfns(lfns: Seq<String>, max_files: Option<usize>) -> Seq<Seq<char>> {
    lfns.map_values(|s: String| s@).take(fixture_limit(lfns.len(), max_files) as int)
}

/// The manifest a fixture with `lfns` gives for `request`.
pub open spec fn is_fixture_manifest(lfns: Seq<String>, request: DatasetRequest, m: DatasetManifest) -> bool {
    &&& m.schema_version == 1
    &&& m.dataset@ == request.dataset@
    &&& m.instance == request.instance
    &&& files_for(fixture_lfns(lfns, request.max_files), m.files@)
    &&& m.provenance.resolver@ == "FixtureResolver"@
    &&& m.provenance.query@ == "fixture"@
    &&& m.provenance.resolved_at_utc@ == "1970-01-01T00:00:00Z"@
    &&& m.provenance.command_or_endpoint@ == "fixture"@
    &&& m.provenance.nano_das_version@ == "0.1.0"@
}

/// A manifest the fixture hands out passes validation and holds the first
/// `max_files` names (all of them when unset), in order.
pub proof fn law_fixture_manifest_validates(lfns: Seq<String>, request: DatasetRequest, m: DatasetManifest)
    requires
        dataset_name_problem(request.dataset@) is None,
        lfns_valid(fixture_lfns(lfns, request.max_files)),
        is_fixture_manifest(lfns, request, m),
    ensures
        manifest_valid(m.schema_version, m.dataset@, lfns_of(m.files@)),
        lfns_of(m.files@) == fixture_lfns(lfns, request.max_files),
        m.files@.len() == fixture_limit(lfns.len(), request.max_files),
{
    law_plain_files_carry_their_names(fixture_lfns(lfns, request.max_files), m.files@);
}

/// Builds the plain record of one logical file name.
pub fn plain_file(lfn: &String, policy: &SourcePolicy) -> (f: CmsFile)
    requires
        *policy == SourcePolicy::GlobalXrootd,
    ensures
        is_plain_file_for(lfn@, f),
{
    CmsFile {
        lfn: lfn.clone(),
        source: FileSource {
            lfn: lfn.clone(),
            global_xrootd_url: policy.normalize_lfn(lfn.as_str()),
            preferred_url: None,
            local_path: None,
        },
        events: None,
        size_bytes: None,
        checksum: None,
        runs: Vec::new(),
        lumis: Vec::new(),
    }
}

impl DatasetResolver for FixtureResolver {
    /// Validates the dataset name, takes the first `max_files` names (all when
    /// unset), and checks the resulting manifest.
    fn resolve(&self, request: &DatasetRequest) -> (r: core::result::Result<
        DatasetManifest,
        DasError,
    >)
        ensures
            dataset_name_problem(request.dataset@) is Some ==> (r matches Err(e) && is_name_error(
                request.dataset@,
                dataset_name_problem(request.dataset@)->0,
                e,
            )),
            dataset_name_problem(request.dataset@) is None && !lfns_valid(
                fixture_lfns(self.lfns@, request.max_files),
            ) ==> (r matches Err(e) && is_lfns_error(
                fixture_lfns(self.lfns@, request.max_files),
                e,
            )),
            dataset_name_problem(request.dataset@) is None && lfns_valid(
                fixture_lfns(self.lfns@, request.max_files),
            ) ==> (r matches Ok(m) && is_fixture_manifest(self.lfns@, *request, m)),
    {
        validate_dataset_name(request.dataset.as_str())?;
        let limit = match request.max_files {
            Some(m) => if m < self.lfns.len() {
                m
            } else {
                self.lfns.len()
            },
            None => self.lfns.len(),
        };
        let ghost wanted = fixture_lfns(self.lfns@, request.max_files);
        let policy = SourcePolicy::GlobalXrootd;
        let mut files: Vec<CmsFile> = Vec::new();
        let mut i: usize = 0;
        while i < limit
            invariant
                limit == fixture_limit(self.lfns@.len(), request.max_files),
                limit <= self.lfns@.len(),
                wanted == fixture_lfns(self.lfns@, request.max_files),
                policy == SourcePolicy::GlobalXrootd,
                i <= limit,
                files_for(wanted.take(i as int), files@),
            decreases limit - i,
        {
            let f = plain_file(&self.lfns[i], &policy);
            files.push(f);
            i += 1;
            assert(wanted.take(i as int).len() == i);
            assert forall|k: int| 0 <= k < i implies #[trigger] is_plain_file_for(
                wanted.take(i as int)[k],
                files@[k],
            ) by {
                if k < i - 1 {
                    assert(wanted.take(i as int)[k] == wanted.take(i - 1)[k]);
                }
            }
        }
        assert(wanted.take(limit as int) =~= wanted);
        assert forall|k: int| 0 <= k < wanted.len() implies lfns_of(files@)[k] == wanted[k] by {
            assert(is_plain_file_for(wanted[k], files@[k]));
        }
        assert(lfns_of(files@) =~= wanted);
        let manifest = DatasetManifest {
            schema_version: 1,
            dataset: request.dataset.clone(),
            instance: request.instance.duplicate(),
            files,
            provenance: DatasetProvenance {
                resolver: String::from_str("FixtureResolver"),
                query: String::from_str("fixture"),
                resolved_at_utc: String::from_str("1970-01-01T00:00:00Z"),
                command_or_endpoint: String::from_str("fixture"),
                nano_das_version: String::from_str("0.1.0"),
            },
        };
        manifest.validate()?;
        Ok(manifest)
    }
}

} // verus!
