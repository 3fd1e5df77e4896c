use vstd::prelude::*;
use std::io::Write;

verus! {

use vstd::utf8::valid_utf8;
use vstd::utf8::decode_utf8;
use crate::pattern::pattern_chars;
use crate::pattern::query_matches_path;

/// A raw index record, reduced to the plain values the projector reads:
/// the package's display name, its version-free identifier, its content
/// hash, and the path of one file in its tree.
pub struct IndexRecord {
    pub package_name: String,
    pub package_attr: String,
    pub package_hash: String,
    pub path: Vec<u8>,
}

/// Mathematical model of a raw index record.
pub struct IndexRecordModel {
    pub package_name: Seq<char>,
    pub package_attr: Seq<char>,
    pub package_hash: Seq<char>,
    pub path: Seq<u8>,
}

impl View for IndexRecord {
    type V = IndexRecordModel;

    open spec fn view(&self) -> IndexRecordModel {
        IndexRecordModel {
            package_name: self.package_name@,
            package_attr: self.package_attr@,
            package_hash: self.package_hash@,
            path: self.path@,
        }
    }
}

#[verifier::external_type_specification]
#[verifier::external_body]
pub struct ExRegex(regex::bytes::Regex);

#[verifier::external_type_specification]
#[verifier::external_body]
pub struct ExReader(nix_index::database::Reader);

#[verifier::external_type_specification]
#[verifier::external_body]
pub struct ExQuery<'a, 'b>(nix_index::database::Query<'a, 'b>);

#[verifier::external_type_specification]
#[verifier::external_body]
pub struct ExReaderIter<'a, 'b>(nix_index::database::ReaderIter<'a, 'b>);

// The scan iterator's interface mentions these three types, so declaring
// the iterator requires declaring them too; no contract speaks of them.
#[verifier::external_type_specification]
#[verifier::external_body]
pub struct ExStorePath(nix_index::package::StorePath);

#[verifier::external_type_specification]
#[verifier::external_body]
pub struct ExFileTreeEntry(nix_index::files::FileTreeEntry);

#[verifier::external_type_specification]
#[verifier::external_body]
pub struct ExDbError(nix_index::database::Error);

/// The pattern text a compiled matcher was built from.
pub uninterp spec fn regex_pattern(re: regex::bytes::Regex) -> Seq<char>;

/// The pattern text a pending index query matches paths against.
pub uninterp spec fn query_pattern(q: nix_index::database::Query) -> Seq<char>;

/// The pattern text a running index scan matches paths against.
pub uninterp spec fn scan_pattern(it: nix_index::database::ReaderIter) -> Seq<char>;

/// How many successful records a running index scan can still yield. The
/// index file is finite and each decoded block holds finitely many
/// records, so each successful record comes out of a shrinking supply.
/// Nothing is claimed about faulty items: after a stream-level failure
/// the scan can repeat the same fault indefinitely.
pub uninterp spec fn scan_remaining(it: nix_index::database::ReaderIter) -> nat;

/// What String::from_utf8_lossy returns for the given bytes.
pub uninterp spec fn lossy_decode(bytes: Seq<u8>) -> Seq<char>;

/// Relies on regex::bytes::Regex::new: a compiled matcher keeps the exact
/// pattern text it was built from (as Regex::as_str returns it).
#[verifier::external_body]
pub(crate) fn regex_new(pattern: &str) -> (r: Option<regex::bytes::Regex>)
    ensures
        match r {
            Some(re) => regex_pattern(re) == pattern@,
            None => true,
        },
{
    regex::bytes::Regex::new(pattern).ok()
}

/// Relies on nix_index::database::Reader::open: fails when the index at
/// the given location is missing, corrupt or unreadable.
#[verifier::external_body]
pub(crate) fn open_index(path: &str) -> (r: Option<nix_index::database::Reader>)
{
    nix_index::database::Reader::open(std::path::Path::new(path)).ok()
}

/// Relies on nix_index::database::Reader::query: builds a query that will
/// match file paths against the given compiled pattern.
#[verifier::external_body]
pub(crate) fn index_query<'a>(
    db: nix_index::database::Reader,
    re: &'a regex::bytes::Regex,
) -> (q: nix_index::database::Query<'a, 'a>)
    ensures
        query_pattern(q) == regex_pattern(*re),
{
    db.query(re)
}

/// Relies on nix_index::database::Query::run: starts the scan; fails when
/// the scan cannot start.
#[verifier::external_body]
pub(crate) fn query_run<'a, 'b>(
    q: nix_index::database::Query<'a, 'b>,
) -> (r: Option<nix_index::database::ReaderIter<'a, 'b>>)
    ensures
        match r {
            Some(it) => scan_pattern(it) == query_pattern(q),
            None => true,
        },
{
    q.run().ok()
}

/// Relies on nix_index::database::ReaderIter::next: each successful entry
/// it yields was checked against the scan's compiled pattern, and for a
/// pattern built as `pattern_chars` (a literal after `/bin/`, optionally
/// anchored at both ends) that check accepts exactly the paths of
/// `query_matches_path`. Faulty records come out as an error message.
#[verifier::external_body]
pub(crate) fn scan_next<'a, 'b>(
    it: &mut nix_index::database::ReaderIter<'a, 'b>,
) -> (r: Option<Result<IndexRecord, String>>)
    ensures
        scan_pattern(*final(it)) == scan_pattern(*old(it)),
        match r {
            Some(Ok(rec)) => {
                &&& scan_remaining(*final(it)) < scan_remaining(*old(it))
                &&& forall|q: Seq<char>, e: bool|
                    #![trigger pattern_chars(q, e)]
                    scan_pattern(*old(it)) == pattern_chars(q, e)
                        ==> query_matches_path(q, e, rec.path@)
            },
            _ => true,
        },
{
    match it.next() {
        None => None,
        Some(Err(e)) => Some(Err(format!("{:?}", e))),
        Some(Ok((sp, entry))) => Some(Ok(IndexRecord {
            package_name: sp.name().to_string(),
            package_attr: sp.origin().attr.clone(),
            package_hash: sp.hash().to_string(),
            path: entry.path,
        })),
    }
}

/// Relies on String::from_utf8_lossy: the result is a function of the
/// bytes alone, invalid sequences replaced; valid UTF-8 decodes exactly.
#[verifier::external_body]
pub(crate) fn utf8_lossy(bytes: &Vec<u8>) -> (r: String)
    ensures
        r@ == lossy_decode(bytes@),
        valid_utf8(bytes@) ==> r@ == decode_utf8(bytes@),
{
    String::from_utf8_lossy(bytes).to_string()
}

/// Relies on std::io::stderr: reports a skipped faulty record on the
/// standard error stream.
#[verifier::external_body]
pub(crate) fn log_record_fault(message: &str)
{
    let _ = writeln!(std::io::stderr(), "skipping a faulty index record: {}", message);
}

} // verus!
