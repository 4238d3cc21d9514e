use vstd::prelude::*;
use vstd::string::*;

use crate::das::error::DasError;
use crate::das::model::{
    dataset_name_problem, is_name_error, validate_dataset_name, CmsFile, DatasetManifest,
};
use crate::text::{starts_with, str_starts_with};

verus! {

/// The logical file names of a manifest's files, in order.
pub open spec fn lfns_of(files: Seq<CmsFile>) -> Seq<Seq<char>> {
    files.map_values(|f: CmsFile| f.lfn@)
}

/// The file at `i` does not start with `/store/`, or repeats an earlier file.
pub open spec fn lfn_problem_at(lfns: Seq<Seq<char>>, i: int) -> bool {
    ||| !starts_with(lfns[i], "/store/"@)
    ||| exists|j: int| 0 <= j < i && lfns[j] == lfns[i]
}

/// Every file starts with `/store/` and no file occurs twice.
pub open spec fn lfns_valid(lfns: Seq<Seq<char>>) -> bool {
    forall|i: int| 0 <= i < lfns.len() ==> !lfn_problem_at(lfns, i)
}

/// `e` reports the problem of the file at `i`.
pub open spec fn is_lfn_error_at(lfns: Seq<Seq<char>>, i: int, e: DasError) -> bool {
    if !starts_with(lfns[i], "/store/"@) {
        e matches DasError::ParseError { line, reason } && line@ == lfns[i] && reason@
            == "LFN must start with /store/"@
    } else {
        e matches DasError::DuplicateFile { lfn } && lfn@ == lfns[i]
    }
}

/// `e` reports the problem of the first file that has one.
pub open spec fn is_lfns_error(lfns: Seq<Seq<char>>, e: DasError) -> bool {
    exists|i: int|
        0 <= i < lfns.len() && lfn_problem_at(lfns, i) && (forall|j: int|
            0 <= j < i ==> !lfn_problem_at(lfns, j)) && is_lfn_error_at(lfns, i, e)
}

/// A manifest with these parts passes validation.
pub open spec fn manifest_valid(version: u32, dataset: Seq<char>, lfns: Seq<Seq<char>>) -> bool {
    version == 1 && dataset_name_problem(dataset) is None && lfns_valid(lfns)
}

/// `e` is the error that validation reports for a manifest with these parts:
/// an unsupported schema first, then a bad dataset name, then the first bad file.
pub open spec fn is_manifest_error(
    version: u32,
    dataset: Seq<char>,
    lfns: Seq<Seq<char>>,
    e: DasError,
) -> bool {
    if version != 1 {
        e matches DasError::ManifestSchemaUnsupported { found, supported } && found == version
            && supported@ == seq![1u32]
    } else if dataset_name_problem(dataset) is Some {
        is_name_error(dataset, dataset_name_problem(dataset)->0, e)
    } else {
        is_lfns_error(lfns, e)
    }
}

/// Checks the files of a manifest in order: each must start with `/store/`
/// and must not repeat an earlier one.
pub fn check_lfns(files: &Vec<CmsFile>) -> (r: core::result::Result<(), DasError>)
    ensures
        match r {
            Ok(()) => lfns_valid(lfns_of(files@)),
            Err(e) => !lfns_valid(lfns_of(files@)) && is_lfns_error(lfns_of(files@), e),
        },
{
    let ghost lfns = lfns_of(files@);
    let mut i: usize = 0;
    while i < files.len()
        invariant
            lfns == lfns_of(files@),
            i <= files@.len(),
            forall|k: int| 0 <= k < i ==> !lfn_problem_at(lfns, k),
        decreases files.len() - i,
    {
        let lfn = &files[i].lfn;
        assert(lfns[i as int] == lfn@);
        if !str_starts_with(lfn.as_str(), "/store/") {
            assert(lfn_problem_at(lfns, i as int));
            let e = DasError::ParseError {
                line: lfn.clone(),
                reason: String::from_str("LFN must start with /store/"),
            };
            assert(is_lfn_error_at(lfns, i as int, e));
            return Err(e);
        }
        let mut j: usize = 0;
        while j < i
            invariant
                lfns == lfns_of(files@),
                i < files@.len(),
                j <= i,
                lfn@ == lfns[i as int],
                starts_with(lfns[i as int], "/store/"@),
                forall|k: int| 0 <= k < i ==> !lfn_problem_at(lfns, k),
                forall|k: int| 0 <= k < j ==> lfns[k] != lfns[i as int],
            decreases i - j,
        {
            if files[j].lfn == *lfn {
                let e = DasError::DuplicateFile { lfn: lfn.clone() };
                assert(lfns[j as int] == lfns[i as int]);
                assert(lfn_problem_at(lfns, i as int));
                assert(is_lfn_error_at(lfns, i as int, e));
                return Err(e);
            }
            j += 1;
        }
        i += 1;
    }
    Ok(())
}

impl DatasetManifest {
    /// Checks the schema version, the dataset name, and the files.
    pub fn validate(&self) -> (r: core::result::Result<(), DasError>)
        ensures
            match r {
                Ok(()) => manifest_valid(self.schema_version, self.dataset@, lfns_of(self.files@)),
                Err(e) => !manifest_valid(self.schema_version, self.dataset@, lfns_of(self.files@))
                    && is_manifest_error(
                    self.schema_version,
                    self.dataset@,
                    lfns_of(self.files@),
                    e,
                ),
            },
    {
        if self.schema_version != 1 {
            let mut supported: Vec<u32> = Vec::new();
            supported.push(1);
            return Err(
                DasError::ManifestSchemaUnsupported { found: self.schema_version, supported },
            );
        }
        validate_dataset_name(self.dataset.as_str())?;
        check_lfns(&self.files)
    }
}

/// A manifest that passes validation lists every file once, under `/store/`.
pub proof fn law_valid_manifest_lists_files_once(version: u32, dataset: Seq<char>, lfns: Seq<Seq<char>>)
    requires
        manifest_valid(version, dataset, lfns),
    ensures
        lfns.no_duplicates(),
        forall|i: int| 0 <= i < lfns.len() ==> starts_with(#[trigger] lfns[i], "/store/"@),
        version == 1,
        dataset_name_problem(dataset) is None,
{
    assert forall|i: int, j: int| 0 <= i < lfns.len() && 0 <= j < lfns.len() && i != j implies lfns[i] != lfns[j] by {
        if i < j {
            assert(!lfn_problem_at(lfns, j));
        } else {
            assert(!lfn_problem_at(lfns, i));
        }
    }
    assert forall|i: int| 0 <= i < lfns.len() implies starts_with(#[trigger] lfns[i], "/store/"@) by {
        assert(!lfn_problem_at(lfns, i));
    }
}

/// The records built for a list of file names carry exactly those names.
pub proof fn law_plain_files_carry_their_names(lfns: Seq<Seq<char>>, files: Seq<CmsFile>)
    requires
        crate::das::fixture::files_for(lfns, files),
    ensures
        lfns_of(files) == lfns,
{
    assert forall|k: int| 0 <= k < lfns.len() implies lfns_of(files)[k] == lfns[k] by {
        assert(crate::das::fixture::is_plain_file_for(lfns[k], files[k]));
    }
    assert(lfns_of(files) =~= lfns);
}

} // verus!
