//! XRootD sources: which URLs name one, the checks around a single read, and
//! the text of XRootD failures. Opening and reading go through the XRootD
//! client library, which the caller links; these functions decide what is
//! asked and what is reported.
use vstd::prelude::*;
use vstd::string::*;

use crate::text::{chars_of, decimal, push_decimal, push_str, starts_with, str_starts_with};

verus! {

/// The message for a failed XRootD `operation`, with the client's `detail`
/// when it gave one.
pub open spec fn failure_text(operation: Seq<char>, detail: Seq<char>) -> Seq<char> {
    if detail.len() == 0 {
        "XRootD "@ + operation + " failed"@
    } else {
        "XRootD "@ + operation + " failed: "@ + detail
    }
}

/// The message for a failed XRootD operation.
pub fn xrootd_failure_message(operation: &str, detail: &str) -> (s: String)
    ensures
        s@ == failure_text(operation@, detail@),
{
    let mut s = String::from_str("XRootD ");
    push_str(&mut s, operation);
    let d = chars_of(detail);
    if d.len() == 0 {
        push_str(&mut s, " failed");
    } else {
        push_str(&mut s, " failed: ");
        push_str(&mut s, detail);
    }
    s
}

/// The number of bytes of a single read of `len` bytes, which must fit the
/// 32-bit size the client takes.
pub fn single_read_size(len: u64) -> (r: Result<u32, String>)
    ensures
        len <= u32::MAX ==> r == Ok::<u32, String>(len as u32),
        len > u32::MAX ==> (r matches Err(e) && e@ == "read length "@ + decimal(len as nat)
            + " exceeds the XRootD single-read limit"@),
{
    if len <= 0xffff_ffffu64 {
        Ok(len as u32)
    } else {
        let mut e = String::from_str("read length ");
        push_decimal(&mut e, len);
        push_str(&mut e, " exceeds the XRootD single-read limit");
        Err(e)
    }
}

/// A successful read must have delivered every requested byte.
pub fn check_read_length(offset: u64, len: u64, bytes_read: u32) -> (r: Result<(), String>)
    ensures
        bytes_read == len ==> r is Ok,
        bytes_read != len ==> (r matches Err(e) && e@ == "short read at offset "@ + decimal(offset as nat)
            + ": requested "@ + decimal(len as nat) + " bytes, received "@ + decimal(bytes_read as nat)),
{
    if bytes_read as u64 == len {
        Ok(())
    } else {
        let mut e = String::from_str("short read at offset ");
        push_decimal(&mut e, offset);
        push_str(&mut e, ": requested ");
        push_decimal(&mut e, len);
        push_str(&mut e, " bytes, received ");
        push_decimal(&mut e, bytes_read as u64);
        Err(e)
    }
}

/// A URL can be handed to the client only without an embedded NUL character.
pub fn url_has_nul(url: &str) -> (b: bool)
    ensures
        b == url@.contains('\0'),
{
    let v = chars_of(url);
    let mut i: usize = 0;
    while i < v.len()
        invariant
            v@ == url@,
            i <= v@.len(),
            forall|k: int| 0 <= k < i ==> v@[k] != '\0',
        decreases v.len() - i,
    {
        if v[i] == '\0' {
            assert(url@[i as int] == '\0');
            return true;
        }
        i += 1;
    }
    false
}

/// A ROOT input read over XRootD.
#[derive(Debug, Clone, PartialEq, Eq)]
pub enum Source {
    Xrootd { url: String },
}

/// Why a source cannot be used: the kind of source and the reason.
#[derive(Debug, Clone, PartialEq, Eq)]
pub struct SourceError {
    pub context: String,
    pub reason: String,
}

/// An XRootD URL names the `root` or `roots` protocol.
pub open spec fn is_xrootd_url(url: Seq<char>) -> bool {
    starts_with(url, "root://"@) || starts_with(url, "roots://"@)
}

impl Source {
    /// An XRootD source for `url`, refused before any connection is opened
    /// unless the URL uses `root://` or `roots://`.
    pub fn xrootd(url: &str) -> (r: Result<Source, SourceError>)
        ensures
            is_xrootd_url(url@) ==> (r matches Ok(Source::Xrootd { url: u }) && u@ == url@),
            !is_xrootd_url(url@) ==> (r matches Err(e) && e.context@ == "XRootD ROOT source"@ && e.reason@
                == "requires root:// or roots:// URL"@),
    {
        if str_starts_with(url, "root://") || str_starts_with(url, "roots://") {
            Ok(Source::Xrootd { url: String::from_str(url) })
        } else {
            Err(
                SourceError {
                    context: String::from_str("XRootD ROOT source"),
                    reason: String::from_str("requires root:// or roots:// URL"),
                },
            )
        }
    }
}

impl SourceError {
    /// The message of the error: `context: reason`.
    pub fn message(&self) -> (s: String)
        ensures
            s@ == self.context@ + ": "@ + self.reason@,
    {
        let mut s = self.context.clone();
        push_str(&mut s, ": ");
        push_str(&mut s, self.reason.as_str());
        s
    }
}

} // verus!
