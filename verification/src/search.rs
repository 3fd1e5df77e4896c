use vstd::prelude::*;

verus! {

use std::collections::HashMap;
use std::collections::hash_map::DefaultHasher;
use std::hash::Hasher;
use vstd::std_specs::hash::DefaultHasherAdditionalSpecFns;
use vstd::utf8::encode_utf8;
use crate::pattern::pattern_chars;
use crate::pattern::query_matches_path;
use crate::pattern::build_pattern;
use crate::index::IndexRecord;
use crate::index::IndexRecordModel;
use crate::index::lossy_decode;
use crate::index::scan_pattern;
use crate::index::scan_remaining;
use crate::index::regex_new;
use crate::index::open_index;
use crate::index::index_query;
use crate::index::query_run;
use crate::index::scan_next;
use crate::index::utf8_lossy;
use crate::index::log_record_fault;
use crate::SearchBackend;
use crate::State;
use crate::MatchData;
use crate::MatchDataModel;
use crate::DisplayMatch;
use crate::DisplayMatchModel;
use crate::matches_model;
use crate::store_model;

/// Why a search call had to stop before producing results. Per-record
/// faults are not here: they are skipped, never abort a search.
#[derive(Debug)]
pub enum SearchError {
    /// The pattern text could not be compiled into a matcher.
    Pattern { pattern: String },
    /// The index at the configured location is missing, corrupt or
    /// unreadable.
    IndexOpen { database: String },
    /// The scan over the opened index could not start.
    IndexQuery { pattern: String },
}

/// Mathematical model of a search error.
pub enum SearchErrorModel {
    Pattern { pattern: Seq<char> },
    IndexOpen { database: Seq<char> },
    IndexQuery { pattern: Seq<char> },
}

impl View for SearchError {
    type V = SearchErrorModel;

    open spec fn view(&self) -> SearchErrorModel {
        match self {
            SearchError::Pattern { pattern } => SearchErrorModel::Pattern { pattern: pattern@ },
            SearchError::IndexOpen { database } => SearchErrorModel::IndexOpen {
                database: database@,
            },
            SearchError::IndexQuery { pattern } => SearchErrorModel::IndexQuery {
                pattern: pattern@,
            },
        }
    }
}

/// The category line of an error, shown as a synthetic match's title.
pub open spec fn spec_error_title(e: SearchErrorModel) -> Seq<char> {
    match e {
        SearchErrorModel::Pattern { .. } => "Regex builder error"@,
        SearchErrorModel::IndexOpen { .. } => "Database read error"@,
        SearchErrorModel::IndexQuery { .. } => "Database query error"@,
    }
}

/// The detail line of an error, shown as a synthetic match's description.
pub open spec fn spec_error_details(e: SearchErrorModel) -> Seq<char> {
    match e {
        SearchErrorModel::Pattern { pattern } =>
            "Constructing the regular expression from the pattern '"@ + pattern + "' failed."@,
        SearchErrorModel::IndexOpen { database } =>
            "Reading from the database at '"@ + database
                + "' failed.\nThis may be caused by a corrupt or missing database, try (re)running `nix-index` to generate the database."@,
        SearchErrorModel::IndexQuery { pattern } =>
            "Running the index scan for the pattern '"@ + pattern + "' failed."@,
    }
}

impl SearchError {
    /// The error's category, one short line.
    pub fn description(&self) -> (r: String)
        ensures
            r@ == spec_error_title(self@),
    {
        match self {
            SearchError::Pattern { .. } => "Regex builder error".to_owned(),
            SearchError::IndexOpen { .. } => "Database read error".to_owned(),
            SearchError::IndexQuery { .. } => "Database query error".to_owned(),
        }
    }

    /// The error's detail text, naming the pattern or index location.
    pub fn details(&self) -> (r: String)
        ensures
            r@ == spec_error_details(self@),
    {
        let mut r = String::new();
        match self {
            SearchError::Pattern { pattern } => {
                r.append("Constructing the regular expression from the pattern '");
                r.append(pattern.as_str());
                r.append("' failed.");
            }
            SearchError::IndexOpen { database } => {
                r.append("Reading from the database at '");
                r.append(database.as_str());
                r.append(
                    "' failed.\nThis may be caused by a corrupt or missing database, try (re)running `nix-index` to generate the database.",
                );
            }
            SearchError::IndexQuery { pattern } => {
                r.append("Running the index scan for the pattern '");
                r.append(pattern.as_str());
                r.append("' failed.");
            }
        }
        proof {
            assert(r@ =~= spec_error_details(self@));
        }
        r
    }
}

/// The match identifier for a package content hash: a fixed-width,
/// session-stable hash of it. The same hash text always yields the same
/// identifier.
pub open spec fn spec_match_id(hash: Seq<char>) -> u64 {
    DefaultHasher::spec_finish(seq![encode_utf8(hash)])
}

/// The bytes after the last path separator; the whole path if it has none.
pub open spec fn last_segment(p: Seq<u8>) -> Seq<u8>
    decreases p.len(),
{
    if p.len() == 0 {
        p
    } else if p.last() == 47u8 {
        Seq::empty()
    } else {
        last_segment(p.drop_last()).push(p.last())
    }
}

/// The correlation record derived from one raw index record.
pub open spec fn spec_data(r: IndexRecordModel) -> MatchDataModel {
    MatchDataModel {
        package: r.package_name,
        package_noversion: r.package_attr,
        binary_path: lossy_decode(r.path),
        binary_name: lossy_decode(last_segment(r.path)),
    }
}

/// The description text of a display match: the binary path and the
/// package display name, marked up as rich text.
pub open spec fn spec_description(r: IndexRecordModel) -> Seq<char> {
    "Run <big>"@ + lossy_decode(r.path) + "</big> from <big>"@ + r.package_name
        + "</big> package"@
}

/// The display match projected from one raw index record.
pub open spec fn spec_display(r: IndexRecordModel) -> DisplayMatchModel {
    DisplayMatchModel {
        title: r.package_attr,
        description: Some(spec_description(r)),
        use_pango: true,
        icon: None,
        id: Some(spec_match_id(r.package_hash)),
    }
}

/// One item of an index scan: a record, or a per-record fault message.
pub type ScanItemModel = Result<IndexRecordModel, Seq<char>>;

/// The successful records of a scan, in scan order: the faulty items
/// drop out, the rest keep their relative order.
pub open spec fn valid_records(items: Seq<ScanItemModel>) -> Seq<IndexRecordModel>
    decreases items.len(),
{
    if items.len() == 0 {
        Seq::empty()
    } else {
        let rest = valid_records(items.drop_last());
        if items.last() is Ok {
            rest.push(items.last()->Ok_0)
        } else {
            rest
        }
    }
}

/// The first `cap` records, or all of them if there are fewer.
pub open spec fn capped(recs: Seq<IndexRecordModel>, cap: nat) -> Seq<IndexRecordModel> {
    if recs.len() <= cap {
        recs
    } else {
        recs.take(cap as int)
    }
}

/// Each record of a sequence projected to its display match.
pub open spec fn displays_of(recs: Seq<IndexRecordModel>) -> Seq<DisplayMatchModel> {
    recs.map_values(|r: IndexRecordModel| spec_display(r))
}

/// The display matches a scan produces: the valid records in scan order,
/// capped, each projected to its display match.
pub open spec fn spec_matches(items: Seq<ScanItemModel>, cap: nat) -> Seq<DisplayMatchModel> {
    displays_of(capped(valid_records(items), cap))
}

/// The store entries contributed by a record sequence; on an identifier
/// collision the later record wins.
pub open spec fn store_delta(recs: Seq<IndexRecordModel>) -> Map<u64, MatchDataModel>
    decreases recs.len(),
{
    if recs.len() == 0 {
        Map::empty()
    } else {
        store_delta(recs.drop_last()).insert(
            spec_match_id(recs.last().package_hash),
            spec_data(recs.last()),
        )
    }
}

/// The correlation store after projecting `recs` on top of `s0`.
pub open spec fn store_after(
    s0: Map<u64, MatchDataModel>,
    recs: Seq<IndexRecordModel>,
) -> Map<u64, MatchDataModel> {
    s0.union_prefer_right(store_delta(recs))
}

/// Compute the match identifier for a package content hash.
fn compute_match_id(hash: &str) -> (id: u64)
    ensures
        id == spec_match_id(hash@),
{
    let mut h = DefaultHasher::new();
    h.write(hash.as_bytes());
    let id = h.finish();
    proof {
        assert(h@ =~= seq![encode_utf8(hash@)]);
    }
    id
}

/// Copy out the bytes after the last path separator.
fn last_segment_exec(path: &Vec<u8>) -> (name: Vec<u8>)
    ensures
        name@ == last_segment(path@),
{
    let mut start: usize = 0;
    let mut k: usize = 0;
    while k < path.len()
        invariant
            0 <= start <= k <= path.len(),
            last_segment(path@.take(k as int)) == path@.subrange(start as int, k as int),
        decreases path.len() - k,
    {
        proof {
            assert(path@.take(k as int + 1).drop_last() =~= path@.take(k as int));
            assert(path@.take(k as int + 1).last() == path@[k as int]);
        }
        if path[k] == 47u8 {
            start = k + 1;
            proof {
                assert(last_segment(path@.take(k as int + 1)) =~= path@.subrange(
                    start as int,
                    k as int + 1,
                ));
            }
        } else {
            proof {
                assert(last_segment(path@.take(k as int + 1)) =~= path@.subrange(
                    start as int,
                    k as int + 1,
                ));
            }
        }
        k = k + 1;
    }
    proof {
        assert(path@.take(path@.len() as int) =~= path@);
    }
    let mut name: Vec<u8> = Vec::new();
    let mut j: usize = start;
    while j < path.len()
        invariant
            start <= j <= path.len(),
            name@ == path@.subrange(start as int, j as int),
        decreases path.len() - j,
    {
        name.push(path[j]);
        proof {
            assert(name@ =~= path@.subrange(start as int, j as int + 1));
        }
        j = j + 1;
    }
    name
}

/// Build the rich-text description of a display match.
fn make_description(binary_path: &str, package: &str) -> (r: String)
    ensures
        r@ == "Run <big>"@ + binary_path@ + "</big> from <big>"@ + package@ + "</big> package"@,
{
    let mut r = String::new();
    r.append("Run <big>");
    r.append(binary_path);
    r.append("</big> from <big>");
    r.append(package);
    r.append("</big> package");
    proof {
        assert(r@ =~= "Run <big>"@ + binary_path@ + "</big> from <big>"@ + package@
            + "</big> package"@);
    }
    r
}

/// Inserting into the backing map inserts the model into the store model.
proof fn lemma_store_model_insert(m: Map<u64, MatchData>, id: u64, d: MatchData)
    ensures
        store_model(m.insert(id, d)) == store_model(m).insert(id, d@),
{
    assert(store_model(m.insert(id, d)) =~= store_model(m).insert(id, d@));
}

/// Project one raw index record: derive its correlation record, store it
/// under the record's match identifier (overwriting any previous entry for
/// that identifier), and return the display match.
pub fn project_one(rec: IndexRecord, store: &mut HashMap<u64, MatchData>) -> (m: DisplayMatch)
    ensures
        m@ == spec_display(rec@),
        store_model(final(store)@) == store_model(old(store)@).insert(
            spec_match_id(rec@.package_hash),
            spec_data(rec@),
        ),
{
    let binary_path = utf8_lossy(&rec.path);
    let seg = last_segment_exec(&rec.path);
    let binary_name = utf8_lossy(&seg);
    let id = compute_match_id(rec.package_hash.as_str());
    let description = make_description(binary_path.as_str(), rec.package_name.as_str());
    let title = rec.package_attr.clone();
    let data = MatchData {
        package: rec.package_name,
        package_noversion: rec.package_attr,
        binary_path,
        binary_name,
    };
    proof {
        lemma_store_model_insert(store@, id, data);
    }
    store.insert(id, data);
    DisplayMatch {
        title,
        description: Some(description),
        use_pango: true,
        icon: None,
        id: Some(id),
    }
}

/// Every successful item of a scan has a path the built pattern accepts.
pub open spec fn scan_items_match(q: Seq<char>, exact: bool, items: Seq<ScanItemModel>) -> bool {
    forall|i: int|
        #![trigger items[i]]
        0 <= i < items.len() && items[i] is Ok ==> query_matches_path(
            q,
            exact,
            items[i]->Ok_0.path,
        )
}

/// What a successful search delivers: there is a scan item sequence, all
/// of whose records match the built pattern, such that the output is its
/// projection (valid records, in order, capped) and the store grew by
/// exactly the projected records' entries.
pub open spec fn search_delivered(
    q: Seq<char>,
    exact: bool,
    cap: nat,
    items: Seq<ScanItemModel>,
    out: Seq<DisplayMatchModel>,
    s0: Map<u64, MatchDataModel>,
    s1: Map<u64, MatchDataModel>,
) -> bool {
    &&& scan_items_match(q, exact, items)
    &&& out == spec_matches(items, cap)
    &&& s1 == store_after(s0, capped(valid_records(items), cap))
}

/// Which inputs each error reports: the pattern errors carry the built
/// pattern text, the open error carries the configured index location.
pub open spec fn spec_error_cause(
    e: SearchErrorModel,
    q: Seq<char>,
    exact: bool,
    dbpath: Seq<char>,
) -> bool {
    match e {
        SearchErrorModel::Pattern { pattern } => pattern == pattern_chars(q, exact),
        SearchErrorModel::IndexOpen { database } => database == dbpath,
        SearchErrorModel::IndexQuery { pattern } => pattern == pattern_chars(q, exact),
    }
}

/// Appending a scan item extends the valid records with its record, or,
/// for a fault, leaves them unchanged.
proof fn lemma_valid_records_push(items: Seq<ScanItemModel>, x: ScanItemModel)
    ensures
        x is Ok ==> valid_records(items.push(x)) == valid_records(items).push(x->Ok_0),
        x is Err ==> valid_records(items.push(x)) == valid_records(items),
{
    assert(items.push(x).drop_last() == items);
    assert(items.push(x).last() == x);
    if x is Ok {
        assert(valid_records(items.push(x)) =~= valid_records(items).push(x->Ok_0));
    } else {
        assert(valid_records(items.push(x)) =~= valid_records(items));
    }
}

/// Appending a record to a projection appends its display match.
proof fn lemma_displays_push(recs: Seq<IndexRecordModel>, r: IndexRecordModel)
    ensures
        displays_of(recs.push(r)) == displays_of(recs).push(spec_display(r)),
{
    assert(displays_of(recs.push(r)) =~= displays_of(recs).push(spec_display(r)));
}

/// Appending a record to a store's input inserts its entry.
proof fn lemma_store_after_push(
    s0: Map<u64, MatchDataModel>,
    recs: Seq<IndexRecordModel>,
    r: IndexRecordModel,
)
    ensures
        store_after(s0, recs.push(r)) == store_after(s0, recs).insert(
            spec_match_id(r.package_hash),
            spec_data(r),
        ),
{
    assert(recs.push(r).drop_last() == recs);
    assert(recs.push(r).last() == r);
    assert(store_after(s0, recs.push(r)) =~= store_after(s0, recs).insert(
        spec_match_id(r.package_hash),
        spec_data(r),
    ));
}

/// How many faulty records one search call will skip before it gives up
/// on the rest of the scan. A faulty index can repeat the same fault on
/// every step, so the skipping must be bounded for the search to finish;
/// the matches collected up to that point are still returned.
pub const MAX_SKIPPED_FAULTS: usize = 10000;

/// Search the configured index for binaries matching the query: build the
/// pattern, open the index, scan it lazily, and project each valid record
/// into a display match while recording its correlation entry. Faulty
/// records are skipped (up to `MAX_SKIPPED_FAULTS` of them); the scan
/// stops once the configured cap is reached.
pub fn search(query: &String, state: &mut State) -> (r: Result<Vec<DisplayMatch>, SearchError>)
    ensures
        final(state).config == old(state).config,
        match r {
            Ok(matches) => {
                &&& matches@.len() <= old(state).config.max_entries
                &&& exists|items: Seq<ScanItemModel>|
                    #![trigger search_delivered(query@, old(state).config.exact_match, old(state).config.max_entries as nat, items, matches_model(matches@), store_model(old(state).match_data@), store_model(final(state).match_data@))]
                    search_delivered(
                        query@,
                        old(state).config.exact_match,
                        old(state).config.max_entries as nat,
                        items,
                        matches_model(matches@),
                        store_model(old(state).match_data@),
                        store_model(final(state).match_data@),
                    )
            },
            Err(e) => {
                &&& spec_error_cause(
                    e@,
                    query@,
                    old(state).config.exact_match,
                    old(state).config.index_database_path@,
                )
                &&& store_model(final(state).match_data@) == store_model(old(state).match_data@)
            },
        },
{
    let exact = state.config.exact_match;
    let cap = state.config.max_entries;
    let pattern = build_pattern(query.as_str(), exact);
    let re = match regex_new(pattern.as_str()) {
        Some(re) => re,
        None => {
            return Err(SearchError::Pattern { pattern });
        },
    };
    let db = match open_index(state.config.index_database_path.as_str()) {
        Some(db) => db,
        None => {
            return Err(
                SearchError::IndexOpen { database: state.config.index_database_path.clone() },
            );
        },
    };
    let q = index_query(db, &re);
    let mut it = match query_run(q) {
        Some(it) => it,
        None => {
            return Err(SearchError::IndexQuery { pattern });
        },
    };
    let ghost s0 = store_model(state.match_data@);
    let mut out: Vec<DisplayMatch> = Vec::new();
    let mut faults_left: usize = MAX_SKIPPED_FAULTS;
    let ghost mut items: Seq<ScanItemModel> = Seq::empty();
    proof {
        assert(valid_records(items) =~= Seq::<IndexRecordModel>::empty());
        assert(matches_model(out@) =~= displays_of(valid_records(items)));
        assert(store_model(state.match_data@) =~= store_after(s0, valid_records(items)));
    }
    loop
        invariant
            state.config == old(state).config,
            scan_pattern(it) == pattern_chars(query@, exact),
            exact == old(state).config.exact_match,
            cap == old(state).config.max_entries,
            scan_items_match(query@, exact, items),
            valid_records(items).len() == out@.len(),
            out@.len() <= cap,
            matches_model(out@) == displays_of(valid_records(items)),
            store_model(state.match_data@) == store_after(s0, valid_records(items)),
            s0 == store_model(old(state).match_data@),
        decreases faults_left, scan_remaining(it),
    {
        if out.len() >= cap {
            break;
        }
        match scan_next(&mut it) {
            None => {
                break;
            },
            Some(Ok(rec)) => {
                proof {
                    lemma_valid_records_push(items, Ok(rec@));
                    lemma_displays_push(valid_records(items), rec@);
                    lemma_store_after_push(s0, valid_records(items), rec@);
                    items = items.push(Ok(rec@));
                }
                let m = project_one(rec, &mut state.match_data);
                out.push(m);
                proof {
                    assert(matches_model(out@) =~= displays_of(valid_records(items)));
                }
            },
            Some(Err(msg)) => {
                proof {
                    lemma_valid_records_push(items, Err(msg@));
                    items = items.push(Err(msg@));
                }
                log_record_fault(msg.as_str());
                if faults_left == 0 {
                    break;
                }
                faults_left = faults_left - 1;
            },
        }
    }
    proof {
        assert(capped(valid_records(items), cap as nat) == valid_records(items));
        assert(search_delivered(
            query@,
            old(state).config.exact_match,
            old(state).config.max_entries as nat,
            items,
            matches_model(out@),
            store_model(old(state).match_data@),
            store_model(state.match_data@),
        ));
    }
    Ok(out)
}

/// What one backend dispatch hands back: the display matches of an
/// offline search, or the query delegated to the online catalog backend.
pub enum DispatchOutcome {
    Matches(Vec<DisplayMatch>),
    OnlineQuery(String),
}

/// The synthetic display match that surfaces a search failure: the error
/// category as its title, the detail text as its description.
pub open spec fn spec_error_match(e: SearchErrorModel) -> DisplayMatchModel {
    DisplayMatchModel {
        title: spec_error_title(e),
        description: Some(spec_error_details(e)),
        use_pango: false,
        icon: None,
        id: None,
    }
}

/// Turn a search error into its synthetic display match.
fn error_match(e: &SearchError) -> (m: DisplayMatch)
    ensures
        m@ == spec_error_match(e@),
{
    DisplayMatch {
        title: e.description(),
        description: Some(e.details()),
        use_pango: false,
        icon: None,
        id: None,
    }
}

/// What an offline dispatch delivers: either a completed search, or a
/// single synthetic match that explains a search failure while the store
/// stays unchanged.
pub open spec fn dispatch_offline_delivered(
    q: Seq<char>,
    exact: bool,
    cap: nat,
    dbpath: Seq<char>,
    out: Seq<DisplayMatchModel>,
    s0: Map<u64, MatchDataModel>,
    s1: Map<u64, MatchDataModel>,
) -> bool {
    ||| exists|items: Seq<ScanItemModel>|
        #![trigger search_delivered(q, exact, cap, items, out, s0, s1)]
        search_delivered(q, exact, cap, items, out, s0, s1)
    ||| exists|e: SearchErrorModel|
        #![trigger spec_error_cause(e, q, exact, dbpath)]
        spec_error_cause(e, q, exact, dbpath) && out == seq![spec_error_match(e)] && s1 == s0
}

/// Dispatch a query to the configured backend. The offline backend runs
/// the index search end to end and never surfaces a hard failure: a setup
/// error becomes a single informational match. The online backend is
/// performed by the host, so its query is handed back.
pub fn dispatch(query: &String, state: &mut State) -> (r: DispatchOutcome)
    ensures
        final(state).config == old(state).config,
        match r {
            DispatchOutcome::Matches(ms) => {
                &&& old(state).config.backend == SearchBackend::Offline
                &&& dispatch_offline_delivered(
                    query@,
                    old(state).config.exact_match,
                    old(state).config.max_entries as nat,
                    old(state).config.index_database_path@,
                    matches_model(ms@),
                    store_model(old(state).match_data@),
                    store_model(final(state).match_data@),
                )
            },
            DispatchOutcome::OnlineQuery(oq) => {
                &&& old(state).config.backend == SearchBackend::Online
                &&& oq@ == query@
                &&& store_model(final(state).match_data@) == store_model(
                    old(state).match_data@,
                )
            },
        },
{
    match state.config.backend {
        SearchBackend::Online => DispatchOutcome::OnlineQuery(query.clone()),
        SearchBackend::Offline => match search(query, state) {
            Ok(ms) => DispatchOutcome::Matches(ms),
            Err(e) => {
                let m = error_match(&e);
                let mut v: Vec<DisplayMatch> = Vec::new();
                v.push(m);
                proof {
                    assert(matches_model(v@) =~= seq![spec_error_match(e@)]);
                }
                DispatchOutcome::Matches(v)
            },
        },
    }
}

/// A scan with at least `cap` valid records yields exactly `cap` display
/// matches; with fewer, exactly that many (so a cap of zero yields
/// none), and each match is the projection of the valid record at its
/// own position, in scan order.
pub proof fn lemma_result_cap(items: Seq<ScanItemModel>, cap: nat)
    ensures
        spec_matches(items, cap).len() == vstd::math::min(
            cap as int,
            valid_records(items).len() as int,
        ),
        forall|i: int|
            0 <= i < spec_matches(items, cap).len() ==> spec_matches(items, cap)[i]
                == spec_display(valid_records(items)[i]),
{
}

/// Running the same search twice in one session overwrites but does not
/// duplicate or corrupt the store: projecting the same records a second
/// time leaves it unchanged. A record's identifier is the same in both
/// runs, since `spec_match_id` depends on the record's content hash
/// alone.
pub proof fn lemma_search_idempotent(s0: Map<u64, MatchDataModel>, recs: Seq<IndexRecordModel>)
    ensures
        store_after(store_after(s0, recs), recs) == store_after(s0, recs),
{
    assert(store_after(store_after(s0, recs), recs) =~= store_after(s0, recs));
}

/// A faulty record is silently excluded: a scan with a fault inserted at
/// any position projects to exactly the display matches of the scan
/// without it, so faults neither appear in the output nor count against
/// the cap.
pub proof fn lemma_fault_excluded(items: Seq<ScanItemModel>, k: int, msg: Seq<char>, cap: nat)
    requires
        0 <= k <= items.len(),
    ensures
        valid_records(items.insert(k, Err(msg))) == valid_records(items),
        spec_matches(items.insert(k, Err(msg)), cap) == spec_matches(items, cap),
    decreases items.len(),
{
    let f = items.insert(k, Err(msg));
    if k == items.len() {
        assert(f.drop_last() =~= items);
        assert(f.last() == Err::<IndexRecordModel, Seq<char>>(msg));
    } else {
        assert(f.drop_last() =~= items.drop_last().insert(k, Err(msg)));
        assert(f.last() == items.last());
        lemma_fault_excluded(items.drop_last(), k, msg, cap);
    }
}

/// No two projected records carry the same identifier with different
/// correlation data. The identifier is a fixed-width hash of the content
/// hash, so two distinct packages can in principle collide; on the
/// records of such a scan, lookup correctness below is not claimed.
pub open spec fn distinct_data_per_id(recs: Seq<IndexRecordModel>) -> bool {
    forall|i: int, j: int|
        #![trigger spec_match_id(recs[i].package_hash), spec_match_id(recs[j].package_hash)]
        0 <= i < recs.len() && 0 <= j < recs.len() && spec_match_id(recs[i].package_hash)
            == spec_match_id(recs[j].package_hash) ==> spec_data(recs[i]) == spec_data(recs[j])
}

/// Each projected record's entry survives into the contributed store
/// entries, provided no identifier collision carries different data.
proof fn lemma_delta_entry(recs: Seq<IndexRecordModel>, i: int)
    requires
        distinct_data_per_id(recs),
        0 <= i < recs.len(),
    ensures
        store_delta(recs).contains_key(spec_match_id(recs[i].package_hash)),
        store_delta(recs)[spec_match_id(recs[i].package_hash)] == spec_data(recs[i]),
    decreases recs.len(),
{
    if i < recs.len() - 1 {
        assert forall|a: int, b: int|
            #![trigger spec_match_id(recs.drop_last()[a].package_hash), spec_match_id(recs.drop_last()[b].package_hash)]
            0 <= a < recs.drop_last().len() && 0 <= b < recs.drop_last().len()
                && spec_match_id(recs.drop_last()[a].package_hash) == spec_match_id(
                recs.drop_last()[b].package_hash,
            ) implies spec_data(recs.drop_last()[a]) == spec_data(recs.drop_last()[b]) by {
            assert(recs.drop_last()[a] == recs[a]);
            assert(recs.drop_last()[b] == recs[b]);
        }
        lemma_delta_entry(recs.drop_last(), i);
        assert(recs.drop_last()[i] == recs[i]);
        if spec_match_id(recs.last().package_hash) == spec_match_id(recs[i].package_hash) {
            assert(recs.last() == recs[recs.len() - 1]);
            assert(spec_data(recs[recs.len() - 1]) == spec_data(recs[i]));
        }
    }
}

/// For every identifier on a returned display match, a lookup against
/// the store right after the search succeeds, and the record it returns
/// is the one whose binary path and package name that match's
/// description text was built from.
pub proof fn lemma_lookup_after_search(
    s0: Map<u64, MatchDataModel>,
    items: Seq<ScanItemModel>,
    cap: nat,
    i: int,
)
    requires
        distinct_data_per_id(capped(valid_records(items), cap)),
        0 <= i < spec_matches(items, cap).len(),
    ensures
        ({
            let recs = capped(valid_records(items), cap);
            let m = spec_matches(items, cap)[i];
            let s1 = store_after(s0, recs);
            let id = spec_match_id(recs[i].package_hash);
            &&& m.id == Some(id)
            &&& s1.contains_key(id)
            &&& s1[id] == spec_data(recs[i])
            &&& m.description == Some(
                "Run <big>"@ + s1[id].binary_path + "</big> from <big>"@ + s1[id].package
                    + "</big> package"@,
            )
        }),
{
    let recs = capped(valid_records(items), cap);
    lemma_delta_entry(recs, i);
}

/// For a path directly under `/bin/`, the file name the pattern lemmas
/// speak of is exactly the final segment the projector derives.
pub proof fn lemma_bin_entry_final_segment(path: Seq<u8>, name: Seq<u8>)
    requires
        crate::pattern::is_bin_entry(path, name),
    ensures
        last_segment(path) == name,
    decreases name.len(),
{
    if name.len() == 0 {
        assert(path.last() == 47u8);
        assert(last_segment(path) =~= name);
    } else {
        assert(path.last() == name.last());
        assert(path.drop_last() =~= crate::pattern::bin_prefix_bytes() + name.drop_last());
        lemma_bin_entry_final_segment(path.drop_last(), name.drop_last());
        assert(last_segment(path) =~= name);
    }
}

/// The correlation store only grows: a search adds or overwrites
/// entries, it never removes one.
pub proof fn lemma_store_monotone(s0: Map<u64, MatchDataModel>, recs: Seq<IndexRecordModel>)
    ensures
        s0.dom().subset_of(store_after(s0, recs).dom()),
{
    assert forall|k: u64| s0.dom().contains(k) implies store_after(
        s0,
        recs,
    ).dom().contains(k) by {}
}

} // verus!
