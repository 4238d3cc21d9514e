use vstd::prelude::*;

use crate::text::{decimal, push_decimal, push_signed, push_str, signed_decimal};

verus! {

/// Declares `std::io::Error` to the verifier as an opaque type, so that an
/// I/O error can be carried in `DasError::Io`; nothing inside it is read.
#[verifier::external_type_specification]
#[verifier::external_body]
pub struct ExIoError(std::io::Error);

/// Everything that can go wrong while resolving or checking a dataset.
#[derive(Debug)]
pub enum DasError {
    InvalidDatasetName { dataset: String, reason: String },
    MissingDasgoClient,
    DasgoClientFailed { status: Option<i32>, stderr: String },
    EmptyDataset { dataset: String, query: String },
    ParseError { line: String, reason: String },
    DuplicateFile { lfn: String },
    ManifestSchemaUnsupported { found: u32, supported: Vec<u32> },
    Io(std::io::Error),
}

pub type Result<T> = core::result::Result<T, DasError>;

impl From<std::io::Error> for DasError {
    fn from(err: std::io::Error) -> (r: Self)
        ensures
            r == DasError::Io(err),
    {
        DasError::Io(err)
    }
}

impl vstd::std_specs::convert::FromSpecImpl<std::io::Error> for DasError {
    open spec fn obeys_from_spec() -> bool {
        true
    }

    open spec fn from_spec(v: std::io::Error) -> DasError {
        DasError::Io(v)
    }
}

/// `Option<i32>` as `{:?}` writes it.
pub open spec fn option_text(o: Option<i32>) -> Seq<char> {
    match o {
        Some(v) => "Some("@ + signed_decimal(v as int) + ")"@,
        None => "None"@,
    }
}

/// The items of a list of numbers, separated by `, `.
pub open spec fn items_text(v: Seq<u32>) -> Seq<char>
    decreases v.len(),
{
    if v.len() == 0 {
        Seq::empty()
    } else if v.len() == 1 {
        decimal(v[0] as nat)
    } else {
        items_text(v.drop_last()) + ", "@ + decimal(v.last() as nat)
    }
}

/// `Vec<u32>` as `{:?}` writes it.
pub open spec fn list_text(v: Seq<u32>) -> Seq<char> {
    "["@ + items_text(v) + "]"@
}

/// The message of an error that holds no I/O error.
pub open spec fn error_text(e: DasError) -> Seq<char> {
    match e {
        DasError::InvalidDatasetName { dataset, reason } => "invalid dataset name '"@ + dataset@ + "': "@
            + reason@,
        DasError::MissingDasgoClient => "dasgoclient not found"@,
        DasError::DasgoClientFailed { status, stderr } => "dasgoclient failed with status "@ + option_text(
            status,
        ) + ": "@ + stderr@,
        DasError::EmptyDataset { dataset, query } => "dataset '"@ + dataset@ + "' is empty (query: "@
            + query@ + ")"@,
        DasError::ParseError { line, reason } => "parse error on line '"@ + line@ + "': "@ + reason@,
        DasError::DuplicateFile { lfn } => "duplicate file in dataset: "@ + lfn@,
        DasError::ManifestSchemaUnsupported { found, supported } => "unsupported manifest schema "@
            + decimal(found as nat) + ": supported are "@ + list_text(supported@),
        DasError::Io(_) => "I/O error: "@,
    }
}

/// The text `Display` gives an I/O error, by `format!("{}", err)`. Nothing is
/// stated of the text: it comes from the operating system and the error's
/// own message, which this crate does not see.
#[verifier::external_body]
fn io_error_text(err: &std::io::Error) -> String {
    format!("{}", err)
}

fn push_option(out: &mut String, o: Option<i32>)
    ensures
        final(out)@ == old(out)@ + option_text(o),
{
    match o {
        Some(v) => {
            push_str(out, "Some(");
            push_signed(out, v as i64);
            push_str(out, ")");
        },
        None => {
            push_str(out, "None");
        },
    }
}

fn push_list(out: &mut String, v: &Vec<u32>)
    ensures
        final(out)@ == old(out)@ + list_text(v@),
{
    push_str(out, "[");
    let ghost start = out@;
    let mut i: usize = 0;
    while i < v.len()
        invariant
            i <= v@.len(),
            out@ == start + items_text(v@.take(i as int)),
        decreases v.len() - i,
    {
        proof {
            assert(v@.take(i + 1).drop_last() =~= v@.take(i as int));
        }
        if i > 0 {
            push_str(out, ", ");
        } else {
            assert(start + Seq::<char>::empty() =~= start);
        }
        push_decimal(out, v[i] as u64);
        i += 1;
    }
    assert(v@.take(v@.len() as int) =~= v@);
    push_str(out, "]");
}

impl DasError {
    /// The message of the error, as the command-line tools print it; for an
    /// I/O error, `I/O error: ` and the error's own text.
    pub fn message(&self) -> (s: String)
        ensures
            s@.len() >= error_text(*self).len(),
            s@.subrange(0, error_text(*self).len() as int) == error_text(*self),
            !(self is Io) ==> s@ == error_text(*self),
    {
        let mut s = String::new();
        match self {
            DasError::InvalidDatasetName { dataset, reason } => {
                push_str(&mut s, "invalid dataset name '");
                push_str(&mut s, dataset.as_str());
                push_str(&mut s, "': ");
                push_str(&mut s, reason.as_str());
            },
            DasError::MissingDasgoClient => {
                push_str(&mut s, "dasgoclient not found");
            },
            DasError::DasgoClientFailed { status, stderr } => {
                push_str(&mut s, "dasgoclient failed with status ");
                push_option(&mut s, *status);
                push_str(&mut s, ": ");
                push_str(&mut s, stderr.as_str());
            },
            DasError::EmptyDataset { dataset, query } => {
                push_str(&mut s, "dataset '");
                push_str(&mut s, dataset.as_str());
                push_str(&mut s, "' is empty (query: ");
                push_str(&mut s, query.as_str());
                push_str(&mut s, ")");
            },
            DasError::ParseError { line, reason } => {
                push_str(&mut s, "parse error on line '");
                push_str(&mut s, line.as_str());
                push_str(&mut s, "': ");
                push_str(&mut s, reason.as_str());
            },
            DasError::DuplicateFile { lfn } => {
                push_str(&mut s, "duplicate file in dataset: ");
                push_str(&mut s, lfn.as_str());
            },
            DasError::ManifestSchemaUnsupported { found, supported } => {
                push_str(&mut s, "unsupported manifest schema ");
                push_decimal(&mut s, *found as u64);
                push_str(&mut s, ": supported are ");
                push_list(&mut s, supported);
            },
            DasError::Io(err) => {
                push_str(&mut s, "I/O error: ");
                let detail = io_error_text(err);
                push_str(&mut s, detail.as_str());
            },
        }
        assert(s@.subrange(0, error_text(*self).len() as int) =~= error_text(*self));
        s
    }
}

} // verus!
