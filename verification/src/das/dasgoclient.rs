use vstd::prelude::*;
use vstd::string::*;

use crate::das::error::DasError;
use crate::das::fixture::{files_for, plain_file};
use crate::das::manifest::{is_manifest_error, lfns_of, manifest_valid};
use crate::das::model::{
    dataset_name_problem, instance_text, is_name_error, validate_dataset_name, CmsFile,
    DatasetManifest, DatasetProvenance, DatasetRequest,
};
use crate::das::source_policy::SourcePolicy;
use crate::text::{
    char_is_white_space, chars_of, find_from, is_white_space, lemma_find_from_bounds, push_str,
    range_starts_with, split, split_from, starts_with, string_from_range, trim, trim_end,
    trim_start,
};

verus! {

/// A resolver that asks the `dasgoclient` command-line tool for the files of a
/// dataset. Running the command is the caller's part: this type builds the
/// query and turns what the command reported into a manifest.
pub struct DasgoClientResolver;

/// What running `dasgoclient -query <query>` produced.
pub enum ListingOutcome {
    /// The command could not be found.
    NotFound,
    /// The command could not be started for another reason.
    SpawnFailed(std::io::Error),
    /// The command ran and exited unsuccessfully.
    Failed { status: Option<i32>, stderr: String },
    /// The command ran successfully and printed `stdout`.
    Succeeded { stdout: String },
}

/// The DAS query for the files of a request's dataset.
pub open spec fn das_query(request: DatasetRequest) -> Seq<char> {
    "file dataset="@ + request.dataset@ + " instance="@ + instance_text(request.instance)
}

/// The trimmed, non-empty lines among `lines`, in order.
pub open spec fn entries_of_lines(lines: Seq<Seq<char>>) -> Seq<Seq<char>>
    decreases lines.len(),
{
    if lines.len() == 0 {
        Seq::empty()
    } else {
        let rest = entries_of_lines(lines.drop_last());
        let t = trim(lines.last());
        if t.len() > 0 {
            rest.push(t)
        } else {
            rest
        }
    }
}

/// The trimmed, non-empty lines of a command's output, in order.
pub open spec fn listing_entries(stdout: Seq<char>) -> Seq<Seq<char>> {
    entries_of_lines(split(stdout, '\n'))
}

/// How many listed entries are read: all of them, or the first `max_files`
/// (the limit is tested after a file is added, so at least one is read).
pub open spec fn listing_limit(n: nat, max_files: Option<usize>) -> nat {
    match max_files {
        Some(m) => {
            let m1: nat = if m == 0 {
                1
            } else {
                m as nat
            };
            if m1 < n {
                m1
            } else {
                n
            }
        },
        None => n,
    }
}

/// The entries of the listing that are read for a request.
pub open spec fn listing_taken(stdout: Seq<char>, max_files: Option<usize>) -> Seq<Seq<char>> {
    listing_entries(stdout).take(listing_limit(listing_entries(stdout).len(), max_files) as int)
}

/// Some read entry does not start with `/store/`.
pub open spec fn has_unprefixed(t: Seq<Seq<char>>) -> bool {
    exists|i: int| 0 <= i < t.len() && !starts_with(#[trigger] t[i], "/store/"@)
}

/// `e` reports the first read entry that does not start with `/store/`.
pub open spec fn is_unprefixed_error(t: Seq<Seq<char>>, e: DasError) -> bool {
    exists|i: int|
        {
            &&& 0 <= i < t.len()
            &&& !starts_with(t[i], "/store/"@)
            &&& forall|j: int| 0 <= j < i ==> starts_with(#[trigger] t[j], "/store/"@)
            &&& e matches DasError::ParseError { line, reason }
            &&& line@ == t[i]
            &&& reason@ == "LFN must start with /store/"@
        }
}

/// The manifest a `dasgoclient` listing yields for a request.
pub open spec fn is_listing_manifest(
    request: DatasetRequest,
    query: Seq<char>,
    resolved_at_utc: Seq<char>,
    t: Seq<Seq<char>>,
    m: DatasetManifest,
) -> bool {
    &&& m.schema_version == 1
    &&& m.dataset@ == request.dataset@
    &&& m.instance == request.instance
    &&& files_for(t, m.files@)
    &&& m.provenance.resolver@ == "DasgoClientResolver"@
    &&& m.provenance.query@ == query
    &&& m.provenance.resolved_at_utc@ == resolved_at_utc
    &&& m.provenance.command_or_endpoint@ == "dasgoclient"@
    &&& m.provenance.nano_das_version@ == "0.1.0"@
}

/// What a successful `dasgoclient` run yields: the first entry without the
/// `/store/` prefix is an error, no entry at all is an empty dataset, and
/// otherwise the manifest of the read entries once it validates.
pub open spec fn listing_result_ok(
    request: DatasetRequest,
    query: Seq<char>,
    stdout: Seq<char>,
    resolved_at_utc: Seq<char>,
    r: core::result::Result<DatasetManifest, DasError>,
) -> bool {
    let t = listing_taken(stdout, request.max_files);
    if has_unprefixed(t) {
        r matches Err(e) && is_unprefixed_error(t, e)
    } else if t.len() == 0 {
        r matches Err(e) && e matches DasError::EmptyDataset { dataset, query: q } && dataset@
            == request.dataset@ && q@ == query
    } else if !manifest_valid(1, request.dataset@, t) {
        r matches Err(e) && is_manifest_error(1, request.dataset@, t, e)
    } else {
        r matches Ok(m) && is_listing_manifest(request, query, resolved_at_utc, t, m)
    }
}

proof fn lemma_trim_start_skip(v: Seq<char>, a: int, b: int)
    requires
        0 <= a < b <= v.len(),
        is_white_space(v[a]),
    ensures
        trim_start(v.subrange(a, b)) == trim_start(v.subrange(a + 1, b)),
{
    assert(v.subrange(a, b).drop_first() =~= v.subrange(a + 1, b));
}

proof fn lemma_trim_end_skip(v: Seq<char>, a: int, b: int)
    requires
        0 <= a < b <= v.len(),
        is_white_space(v[b - 1]),
    ensures
        trim_end(v.subrange(a, b)) == trim_end(v.subrange(a, b - 1)),
{
    assert(v.subrange(a, b).drop_last() =~= v.subrange(a, b - 1));
}

/// Bounds of `trim(v[a..b])` inside `v`.
fn trim_bounds(v: &Vec<char>, a: usize, b: usize) -> (r: (usize, usize))
    requires
        a <= b <= v@.len(),
    ensures
        a <= r.0 <= r.1 <= b,
        trim(v@.subrange(a as int, b as int)) == v@.subrange(r.0 as int, r.1 as int),
{
    let mut s = a;
    while s < b && char_is_white_space(v[s])
        invariant
            a <= s <= b <= v@.len(),
            trim_start(v@.subrange(a as int, b as int)) == trim_start(
                v@.subrange(s as int, b as int),
            ),
        decreases b - s,
    {
        proof {
            lemma_trim_start_skip(v@, s as int, b as int);
        }
        s += 1;
    }
    let mut e = b;
    while e > s && char_is_white_space(v[e - 1])
        invariant
            a <= s <= e <= b <= v@.len(),
            trim_end(v@.subrange(s as int, b as int)) == trim_end(v@.subrange(s as int, e as int)),
        decreases e - s,
    {
        proof {
            lemma_trim_end_skip(v@, s as int, e as int);
        }
        e -= 1;
    }
    proof {
        let w = v@.subrange(s as int, b as int);
        if w.len() > 0 {
            assert(w[0] == v@[s as int]);
        }
        assert(trim_start(w) == w);
        let x = v@.subrange(s as int, e as int);
        if x.len() > 0 {
            assert(x.last() == v@[e - 1]);
        }
        assert(trim_end(x) == x);
    }
    (s, e)
}

/// Whether a read-entry count has reached the request's limit.
fn limit_reached(count: usize, max_files: Option<usize>) -> (b: bool)
    ensures
        b == (max_files matches Some(m) && count >= m),
{
    match max_files {
        Some(m) => count >= m,
        None => false,
    }
}

proof fn lemma_entries_push(lines: Seq<Seq<char>>, line: Seq<char>)
    ensures
        entries_of_lines(lines.push(line)) == if trim(line).len() > 0 {
            entries_of_lines(lines).push(trim(line))
        } else {
            entries_of_lines(lines)
        },
{
    assert(lines.push(line).drop_last() =~= lines);
}

proof fn lemma_split_step(s: Seq<char>, from: int)
    requires
        0 <= from <= s.len(),
    ensures
        find_from(s, '\n', from) matches Some(i) ==> split_from(s, '\n', from) == seq![
            s.subrange(from, i),
        ] + split_from(s, '\n', i + 1),
        find_from(s, '\n', from) is None ==> split_from(s, '\n', from) == seq![
            s.subrange(from, s.len() as int),
        ],
{
    lemma_find_from_bounds(s, '\n', from);
}

/// Position of the next newline at or after `from`, or the end.
fn next_newline(v: &Vec<char>, from: usize) -> (r: usize)
    requires
        from <= v@.len(),
    ensures
        from <= r <= v@.len(),
        r < v@.len() ==> find_from(v@, '\n', from as int) == Some(r as int),
        r == v@.len() ==> find_from(v@, '\n', from as int) is None,
{
    let mut k = from;
    while k < v.len() && v[k] != '\n'
        invariant
            from <= k <= v@.len(),
            find_from(v@, '\n', from as int) == find_from(v@, '\n', k as int),
        decreases v.len() - k,
    {
        k += 1;
    }
    k
}

/// Reads the listing: the trimmed non-empty lines, stopping after `max_files`
/// of them and at the first one without the `/store/` prefix.
fn read_listing(stdout: &str, max_files: Option<usize>) -> (r: core::result::Result<
    Vec<CmsFile>,
    DasError,
>)
    ensures
        has_unprefixed(listing_taken(stdout@, max_files)) ==> (r matches Err(e)
            && is_unprefixed_error(listing_taken(stdout@, max_files), e)),
        !has_unprefixed(listing_taken(stdout@, max_files)) ==> (r matches Ok(files) && files_for(
            listing_taken(stdout@, max_files),
            files@,
        )),
{
    let v = chars_of(stdout);
    let ghost all = listing_entries(stdout@);
    let ghost limit = listing_limit(all.len(), max_files);
    let ghost t = listing_taken(stdout@, max_files);
    let policy = SourcePolicy::GlobalXrootd;
    let prefix = chars_of("/store/");
    let mut files: Vec<CmsFile> = Vec::new();
    let mut pos: usize = 0;
    let ghost mut done: Seq<Seq<char>> = Seq::empty();
    proof {
        assert(done + split_from(v@, '\n', 0) =~= split(v@, '\n'));
        lemma_entries_prefix(done, split_from(v@, '\n', 0));
    }
    loop
        invariant_except_break
            v@ == stdout@,
            prefix@ == "/store/"@,
            all == listing_entries(stdout@),
            limit == listing_limit(all.len(), max_files),
            t == all.take(limit as int),
            policy == SourcePolicy::GlobalXrootd,
            pos <= v@.len(),
            done + split_from(v@, '\n', pos as int) == split(v@, '\n'),
            seq_prefix(entries_of_lines(done), all),
            files_for(entries_of_lines(done), files@),
            forall|j: int|
                0 <= j < files@.len() ==> starts_with(#[trigger] entries_of_lines(done)[j], "/store/"@),
            max_files matches Some(m) ==> files@.len() < if m == 0 {
                1
            } else {
                m
            },
        ensures
            files_for(t, files@),
            !has_unprefixed(t),
        decreases v@.len() - pos,
    {
        let end = next_newline(&v, pos);
        let (a, b) = trim_bounds(&v, pos, end);
        let ghost line = v@.subrange(pos as int, end as int);
        let ghost old_done = done;
        proof {
            lemma_split_step(v@, pos as int);
            lemma_entries_push(done, line);
            lemma_find_from_bounds(v@, '\n', pos as int);
        }
        let is_last = end == v.len();
        if a < b {
            let lfn = string_from_range(&v, a, b);
            if !range_starts_with(&v, a, b, &prefix) {
                let e = DasError::ParseError {
                    line: lfn,
                    reason: String::from_str("LFN must start with /store/"),
                };
                proof {
                    let c = files@.len() as int;
                    let nd = done.push(line);
                    if is_last {
                        assert(nd =~= split(v@, '\n'));
                    } else {
                        assert(nd + split_from(v@, '\n', end + 1) =~= split(v@, '\n'));
                    }
                    let rest = if is_last {
                        Seq::<Seq<char>>::empty()
                    } else {
                        split_from(v@, '\n', end + 1)
                    };
                    assert(nd + rest =~= split(v@, '\n'));
                    lemma_entries_prefix(nd, rest);
                    assert(entries_of_lines(nd) == entries_of_lines(done).push(trim(line)));
                    assert(all[c] == trim(line));
                    assert(c < limit);
                    assert(t[c] == all[c]);
                    assert forall|j: int| 0 <= j < c implies starts_with(#[trigger] t[j], "/store/"@) by {
                        assert(t[j] == entries_of_lines(done)[j]);
                    }
                    assert(is_unprefixed_error(t, e));
                }
                return Err(e);
            }
            files.push(plain_file(&lfn, &policy));
            proof {
                done = done.push(line);
                assert forall|k: int| 0 <= k < files@.len() implies #[trigger] crate::das::fixture::is_plain_file_for(
                    entries_of_lines(done)[k],
                    files@[k],
                ) by {
                    if k < files@.len() - 1 {
                        assert(entries_of_lines(done)[k] == entries_of_lines(old_done)[k]);
                    }
                }
            }
        } else {
            proof {
                done = done.push(line);
            }
        }
        proof {
            let rest = if is_last {
                Seq::<Seq<char>>::empty()
            } else {
                split_from(v@, '\n', end + 1)
            };
            assert(done + rest =~= split(v@, '\n'));
            lemma_entries_prefix(done, rest);
            if is_last {
                assert(done =~= split(v@, '\n'));
            }
        }
        if a < b && limit_reached(files.len(), max_files) {
            proof {
                assert(entries_of_lines(done) =~= t);
            }
            break ;
        }
        if is_last {
            proof {
                assert(entries_of_lines(done) == all);
                assert(all.take(limit as int) =~= all);
            }
            break ;
        }
        pos = end + 1;
    }
    Ok(files)
}

/// `p` is a prefix of `s`.
pub open spec fn seq_prefix<A>(p: Seq<A>, s: Seq<A>) -> bool {
    p.len() <= s.len() && forall|i: int| 0 <= i < p.len() ==> p[i] == s[i]
}

proof fn lemma_entries_prefix(a: Seq<Seq<char>>, b: Seq<Seq<char>>)
    ensures
        seq_prefix(entries_of_lines(a), entries_of_lines(a + b)),
    decreases b.len(),
{
    if b.len() == 0 {
        assert(a + b =~= a);
    } else {
        lemma_entries_prefix(a, b.drop_last());
        assert(a + b =~= (a + b.drop_last()).push(b.last()));
        lemma_entries_push(a + b.drop_last(), b.last());
    }
}

/// What the resolver answers when the command reported `outcome`, with the
/// manifest stamped `resolved_at_utc`.
pub open spec fn outcome_answer(
    request: DatasetRequest,
    query: Seq<char>,
    outcome: ListingOutcome,
    resolved_at_utc: Seq<char>,
    r: core::result::Result<DatasetManifest, DasError>,
) -> bool {
    match outcome {
        ListingOutcome::NotFound => r matches Err(e) && e is MissingDasgoClient,
        ListingOutcome::SpawnFailed(err) => r == Err::<DatasetManifest, DasError>(DasError::Io(err)),
        ListingOutcome::Failed { status, stderr } => r matches Err(e) && e matches DasError::DasgoClientFailed {
            status: s,
            stderr: t,
        } && s == status && t@ == stderr@,
        ListingOutcome::Succeeded { stdout } => listing_result_ok(request, query, stdout@, resolved_at_utc, r),
    }
}

impl DasgoClientResolver {
    /// Checks the dataset name when the request asks for it, and builds the
    /// DAS query `file dataset=<dataset> instance=<instance>`.
    pub fn query_for(&self, request: &DatasetRequest) -> (r: core::result::Result<
        String,
        DasError,
    >)
        ensures
            request.require_valid && dataset_name_problem(request.dataset@) is Some ==> (r matches Err(
                e,
            ) && is_name_error(request.dataset@, dataset_name_problem(request.dataset@)->0, e)),
            !(request.require_valid && dataset_name_problem(request.dataset@) is Some) ==> (r matches Ok(
                q,
            ) && q@ == das_query(*request)),
    {
        if request.require_valid {
            validate_dataset_name(request.dataset.as_str())?;
        }
        let mut q = String::from_str("file dataset=");
        push_str(&mut q, request.dataset.as_str());
        push_str(&mut q, " instance=");
        let inst = request.instance.display_string();
        push_str(&mut q, inst.as_str());
        Ok(q)
    }

    /// Turns what the command reported into the resolver's answer, stamping
    /// a manifest with `resolved_at_utc` (the caller reads the clock).
    pub fn manifest_from_outcome(
        &self,
        request: &DatasetRequest,
        query: String,
        outcome: ListingOutcome,
        resolved_at_utc: String,
    ) -> (r: core::result::Result<DatasetManifest, DasError>)
        ensures
            outcome_answer(*request, query@, outcome, resolved_at_utc@, r),
    {
        match outcome {
            ListingOutcome::NotFound => Err(DasError::MissingDasgoClient),
            ListingOutcome::SpawnFailed(err) => Err(DasError::Io(err)),
            ListingOutcome::Failed { status, stderr } => Err(
                DasError::DasgoClientFailed { status, stderr },
            ),
            ListingOutcome::Succeeded { stdout } => self.manifest_from_listing(
                request,
                query,
                stdout.as_str(),
                resolved_at_utc,
            ),
        }
    }

    /// Builds the manifest from the printed listing of a successful run.
    pub fn manifest_from_listing(
        &self,
        request: &DatasetRequest,
        query: String,
        stdout: &str,
        resolved_at_utc: String,
    ) -> (r: core::result::Result<DatasetManifest, DasError>)
        ensures
            listing_result_ok(*request, query@, stdout@, resolved_at_utc@, r),
    {
        let files = read_listing(stdout, request.max_files)?;
        let ghost t = listing_taken(stdout@, request.max_files);
        if files.len() == 0 {
            return Err(DasError::EmptyDataset { dataset: request.dataset.clone(), query });
        }
        proof {
            assert forall|k: int| 0 <= k < t.len() implies lfns_of(files@)[k] == t[k] by {
                assert(crate::das::fixture::is_plain_file_for(t[k], files@[k]));
            }
            assert(lfns_of(files@) =~= t);
        }
        let manifest = DatasetManifest {
            schema_version: 1,
            dataset: request.dataset.clone(),
            instance: request.instance.duplicate(),
            files,
            provenance: DatasetProvenance {
                resolver: String::from_str("DasgoClientResolver"),
                query,
                resolved_at_utc,
                command_or_endpoint: String::from_str("dasgoclient"),
                nano_das_version: String::from_str("0.1.0"),
            },
        };
        manifest.validate()?;
        Ok(manifest)
    }
}

/// A successful `dasgoclient` answer is a manifest that passes validation,
/// lists at least one file, and no more than `max_files` (one when zero).
pub proof fn law_listing_answer_validates(
    request: DatasetRequest,
    query: Seq<char>,
    stdout: Seq<char>,
    resolved_at_utc: Seq<char>,
    m: DatasetManifest,
)
    requires
        listing_result_ok(request, query, stdout, resolved_at_utc, Ok(m)),
    ensures
        manifest_valid(m.schema_version, m.dataset@, lfns_of(m.files@)),
        lfns_of(m.files@) == listing_taken(stdout, request.max_files),
        m.files@.len() > 0,
        request.max_files matches Some(k) ==> m.files@.len() <= if k == 0 {
            1
        } else {
            k as int
        },
{
    let t = listing_taken(stdout, request.max_files);
    crate::das::manifest::law_plain_files_carry_their_names(t, m.files@);
}

} // verus!
