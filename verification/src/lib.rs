use vstd::prelude::*;

pub mod pattern;
pub mod query;
pub mod index;
pub mod search;

verus! {

use std::collections::HashMap;

/// Which search backend a session is configured to use.
///
/// `Offline` scans the local package-file index; `Online` delegates the
/// query to a remote catalog, which this library does not perform itself.
#[derive(Clone, Copy, Debug, PartialEq, Eq, Structural)]
pub enum SearchBackend {
    Offline,
    Online,
}

/// Session configuration: immutable for the duration of a search call.
pub struct Config {
    /// Queries must start with this prefix to be routed to this plugin.
    pub prefix: String,
    /// Result cap: at most this many display matches come out of one search.
    pub max_entries: usize,
    /// Whether the built pattern anchors both ends of the binary path.
    pub exact_match: bool,
    /// Filesystem location of the pre-built package-file index.
    pub index_database_path: String,
    /// Which backend a search dispatches to.
    pub backend: SearchBackend,
}

impl Config {
    /// The default configuration, given the user's home directory.
    pub fn default_with_home(home: &str) -> (c: Config)
        ensures
            c.prefix@ == ":nix"@,
            c.max_entries == 3,
            !c.exact_match,
            c.index_database_path@ == home@ + "/.cache/nix-index/files"@,
            c.backend == SearchBackend::Offline,
    {
        let mut path = String::new();
        path.append(home);
        path.append("/.cache/nix-index/files");
        Config {
            prefix: ":nix".to_owned(),
            max_entries: 3,
            exact_match: false,
            index_database_path: path,
            backend: SearchBackend::Offline,
        }
    }
}

/// The data needed to act on a previously displayed match: enough to
/// launch the selected binary from its package.
pub struct MatchData {
    /// Package display name, version included.
    pub package: String,
    /// Version-free package identifier (the origin attribute).
    pub package_noversion: String,
    /// Absolute path of the binary inside the package file tree.
    pub binary_path: String,
    /// File name of the binary: the last path segment.
    pub binary_name: String,
}

impl MatchData {
    /// The command that launches this record's binary: the program to
    /// run and its argument list, for the host to spawn. The binary is
    /// run from its version-free package through the package manager's
    /// shell.
    pub fn launch_command(&self) -> (r: (String, Vec<String>))
        ensures
            r.0@ == "nix-shell"@,
            r.1@.len() == 4,
            r.1@[0]@ == "-p"@,
            r.1@[1]@ == self.package_noversion@,
            r.1@[2]@ == "--run"@,
            r.1@[3]@ == self.binary_name@,
    {
        let mut args: Vec<String> = Vec::new();
        args.push("-p".to_owned());
        args.push(self.package_noversion.clone());
        args.push("--run".to_owned());
        args.push(self.binary_name.clone());
        ("nix-shell".to_owned(), args)
    }
}

/// Mathematical model of a correlation record.
pub struct MatchDataModel {
    pub package: Seq<char>,
    pub package_noversion: Seq<char>,
    pub binary_path: Seq<char>,
    pub binary_name: Seq<char>,
}

impl View for MatchData {
    type V = MatchDataModel;

    open spec fn view(&self) -> MatchDataModel {
        MatchDataModel {
            package: self.package@,
            package_noversion: self.package_noversion@,
            binary_path: self.binary_path@,
            binary_name: self.binary_name@,
        }
    }
}

/// A displayable search result, returned to the caller of a search.
pub struct DisplayMatch {
    pub title: String,
    pub description: Option<String>,
    pub use_pango: bool,
    pub icon: Option<String>,
    pub id: Option<u64>,
}

/// Mathematical model of a display match.
pub struct DisplayMatchModel {
    pub title: Seq<char>,
    pub description: Option<Seq<char>>,
    pub use_pango: bool,
    pub icon: Option<Seq<char>>,
    pub id: Option<u64>,
}

impl View for DisplayMatch {
    type V = DisplayMatchModel;

    open spec fn view(&self) -> DisplayMatchModel {
        DisplayMatchModel {
            title: self.title@,
            description: match self.description {
                Some(ref d) => Some(d@),
                None => None,
            },
            use_pango: self.use_pango,
            icon: match self.icon {
                Some(ref i) => Some(i@),
                None => None,
            },
            id: self.id,
        }
    }
}

/// The models of a sequence of display matches.
pub open spec fn matches_model(ms: Seq<DisplayMatch>) -> Seq<DisplayMatchModel> {
    ms.map_values(|m: DisplayMatch| m@)
}

/// The model of a correlation store: identifiers mapped to record models.
pub open spec fn store_model(m: Map<u64, MatchData>) -> Map<u64, MatchDataModel> {
    Map::new(|id: u64| m.dom().contains(id), |id: u64| m[id]@)
}

/// Session state: the configuration and the match correlation store.
///
/// The store maps a match identifier to the record needed to act on the
/// match later. It starts empty, grows during searches and never evicts.
pub struct State {
    pub config: Config,
    pub match_data: HashMap<u64, MatchData>,
}

impl State {
    /// A fresh session: the given configuration and an empty store.
    pub fn new(config: Config) -> (s: State)
        ensures
            s.config == config,
            store_model(s.match_data@) == Map::<u64, MatchDataModel>::empty(),
    {
        let s = State { config, match_data: HashMap::new() };
        proof {
            assert(store_model(s.match_data@) =~= Map::<u64, MatchDataModel>::empty());
        }
        s
    }

    /// Resolve a previously returned match identifier to its correlation
    /// record. `None` reports the identifier as absent; given the store's
    /// never-evict policy that indicates a defect in the caller.
    pub fn lookup(&self, id: u64) -> (r: Option<&MatchData>)
        ensures
            match r {
                Some(d) => store_model(self.match_data@).contains_key(id)
                    && d@ == store_model(self.match_data@)[id],
                None => !store_model(self.match_data@).contains_key(id),
            },
    {
        self.match_data.get(&id)
    }
}

} // verus!
