//! The catalogue of source repositories: what is tracked, in which state of
//! synchronisation, and how it is searched and shown.

use std::collections::hash_map::Entry;
use std::collections::HashMap;
use vstd::prelude::*;
use vstd::std_specs::iter::IteratorSpec;
use vstd::string::StringExecFns;
use crate::text::{
    debug_form_of, debug_text, decimal, decimal_text, lowercase, lowercase_of, occurs, occurs_in,
};

verus! {

broadcast use vstd::std_specs::hash::group_hash_axioms;

/// The number that a repository is registered under.
pub type RepoId = u32;

/// Why work on a repository failed.
#[derive(Clone, Copy, Debug, PartialEq, Eq, Structural)]
pub enum GitError {
    NetworkError,
    NotFound,
    PermissionDenied,
}

/// Where a repository stands in its synchronisation.
#[derive(Debug, PartialEq, Eq)]
pub enum RepoStatus {
    Unsynced,
    Syncing,
    Synced,
    Error(String),
}

/// What a [`RepoStatus`] is, as plain mathematical values.
pub enum StatusModel {
    Unsynced,
    Syncing,
    Synced,
    Error(Seq<char>),
}

impl View for RepoStatus {
    type V = StatusModel;

    open spec fn view(&self) -> StatusModel {
        match self {
            RepoStatus::Unsynced => StatusModel::Unsynced,
            RepoStatus::Syncing => StatusModel::Syncing,
            RepoStatus::Synced => StatusModel::Synced,
            RepoStatus::Error(message) => StatusModel::Error(message@),
        }
    }
}

/// A tracked source repository.
#[derive(Debug, PartialEq, Eq)]
pub struct Repository {
    pub id: RepoId,
    pub name: String,
    pub url: String,
    pub status: RepoStatus,
    pub size_kb: u64,
}

/// What a [`Repository`] is, as plain mathematical values.
pub struct RepositoryModel {
    pub id: RepoId,
    pub name: Seq<char>,
    pub url: Seq<char>,
    pub status: StatusModel,
    pub size_kb: u64,
}

impl View for Repository {
    type V = RepositoryModel;

    open spec fn view(&self) -> RepositoryModel {
        RepositoryModel {
            id: self.id,
            name: self.name@,
            url: self.url@,
            status: self.status@,
            size_kb: self.size_kb,
        }
    }
}

/// The size that a synchronised repository reports, in kilobytes.
pub const SYNCED_SIZE_KB: u64 = 1024;

/// A URL is refused when this text occurs in it.
pub open spec fn refused_marker() -> Seq<char> {
    "invalid"@
}

/// The message of the status that a refused URL leaves behind.
pub open spec fn refused_message() -> Seq<char> {
    "Invalid URL"@
}

/// The repository as registration leaves it.
pub open spec fn registered(id: RepoId, name: Seq<char>, url: Seq<char>) -> RepositoryModel {
    RepositoryModel { id, name, url, status: StatusModel::Unsynced, size_kb: 0 }
}

/// The repository once a synchronisation has started.
pub open spec fn sync_started(repo: RepositoryModel) -> RepositoryModel {
    RepositoryModel { status: StatusModel::Syncing, ..repo }
}

/// Whether a synchronisation of `repo` succeeds.
pub open spec fn sync_succeeds(repo: RepositoryModel) -> bool {
    !occurs_in(refused_marker(), repo.url)
}

/// The repository once a synchronisation has come to its end.
pub open spec fn sync_finished(repo: RepositoryModel) -> RepositoryModel {
    if sync_succeeds(repo) {
        RepositoryModel { status: StatusModel::Synced, size_kb: SYNCED_SIZE_KB, ..repo }
    } else {
        RepositoryModel { status: StatusModel::Error(refused_message()), ..repo }
    }
}

/// How a status is shown.
pub open spec fn status_label(status: StatusModel) -> Seq<char> {
    match status {
        StatusModel::Unsynced => "Unsynced"@,
        StatusModel::Syncing => "Syncing"@,
        StatusModel::Synced => "Synced"@,
        StatusModel::Error(message) => error_label_of(debug_form_of(message)),
    }
}

/// How the error status is shown, once its message has been quoted.
pub open spec fn error_label_of(quoted: Seq<char>) -> Seq<char> {
    "Error("@ + quoted + ")"@
}

/// How a repository is shown: its number in brackets, its name, and its
/// status in parentheses.
pub open spec fn description(repo: RepositoryModel) -> Seq<char> {
    "["@ + decimal(repo.id as nat) + "] "@ + repo.name + " ("@ + status_label(repo.status) + ")"@
}

/// Whether `query` occurs in `name` when case is set aside.
pub open spec fn name_matches(name: Seq<char>, query: Seq<char>) -> bool {
    occurs_in(lowercase_of(query), lowercase_of(name))
}

/// Something that a text query can be held against.
pub trait Searchable {
    /// Whether the query hits.
    spec fn matches(&self, query: Seq<char>) -> bool;

    fn contains_query(&self, query: &str) -> (hit: bool)
        ensures
            hit == self.matches(query@),
    ;
}

impl RepoStatus {
    /// The status as it is shown.
    pub fn label(&self) -> (text: String)
        ensures
            text@ == status_label(self@),
    {
        match self {
            RepoStatus::Unsynced => "Unsynced".to_owned(),
            RepoStatus::Syncing => "Syncing".to_owned(),
            RepoStatus::Synced => "Synced".to_owned(),
            RepoStatus::Error(message) => {
                let quoted = debug_text(message.as_str());
                error_label(quoted.as_str())
            },
        }
    }
}

/// The error status as it is shown, from its message as already quoted.
pub fn error_label(quoted: &str) -> (text: String)
    ensures
        text@ == error_label_of(quoted@),
{
    let mut text = "Error(".to_owned();
    text.append(quoted);
    text.append(")");
    text
}

impl Repository {
    /// A repository that has not been synchronised yet.
    pub fn new(id: RepoId, name: &str, url: &str) -> (repo: Self)
        ensures
            repo@ == registered(id, name@, url@),
    {
        Repository {
            id,
            name: name.to_owned(),
            url: url.to_owned(),
            status: RepoStatus::Unsynced,
            size_kb: 0,
        }
    }

    /// Marks the repository as being synchronised.
    pub fn begin_sync(&mut self)
        ensures
            final(self)@ == sync_started(old(self)@),
    {
        self.status = RepoStatus::Syncing;
    }

    /// Ends a synchronisation. A URL in which the refused marker occurs
    /// fails with `NotFound` and leaves the error status behind; any other
    /// URL succeeds and the repository reports its size.
    pub fn finish_sync(&mut self) -> (result: Result<(), GitError>)
        ensures
            final(self)@ == sync_finished(old(self)@),
            result == (if sync_succeeds(old(self)@) {
                Ok::<(), GitError>(())
            } else {
                Err::<(), GitError>(GitError::NotFound)
            }),
    {
        if occurs(self.url.as_str(), "invalid") {
            self.status = RepoStatus::Error("Invalid URL".to_owned());
            return Err(GitError::NotFound);
        }
        self.status = RepoStatus::Synced;
        self.size_kb = SYNCED_SIZE_KB;
        Ok(())
    }

    /// A whole synchronisation, from start to end.
    pub fn sync(&mut self) -> (result: Result<(), GitError>)
        ensures
            final(self)@ == sync_finished(old(self)@),
            result == (if sync_succeeds(old(self)@) {
                Ok::<(), GitError>(())
            } else {
                Err::<(), GitError>(GitError::NotFound)
            }),
    {
        self.begin_sync();
        self.finish_sync()
    }

    /// The repository as it is shown.
    pub fn describe(&self) -> (text: String)
        ensures
            text@ == description(self@),
    {
        let mut text = "[".to_owned();
        text.append(decimal_text(self.id).as_str());
        text.append("] ");
        text.append(self.name.as_str());
        text.append(" (");
        text.append(self.status.label().as_str());
        text.append(")");
        text
    }
}

impl Searchable for Repository {
    open spec fn matches(&self, query: Seq<char>) -> bool {
        name_matches(self.name@, query)
    }

    fn contains_query(&self, query: &str) -> (hit: bool) {
        let name = lowercase(self.name.as_str());
        let wanted = lowercase(query);
        occurs(name.as_str(), wanted.as_str())
    }
}

/// The repositories of a catalogue, each under its number.
pub type Catalogue = Map<RepoId, RepositoryModel>;

/// `lines[i]` shows what `catalogue` holds under `ids[i]`, and `ids` names
/// every number of `catalogue` exactly once.
pub open spec fn shown_under(ids: Seq<RepoId>, lines: Seq<Seq<char>>, catalogue: Catalogue) -> bool {
    &&& ids.len() == lines.len()
    &&& ids.no_duplicates()
    &&& ids.to_set() == catalogue.dom()
    &&& forall|i: int| 0 <= i < ids.len() ==> lines[i] == description(catalogue[#[trigger] ids[i]])
}

/// The texts of a sequence of strings, in order.
pub open spec fn texts_of(lines: Seq<String>) -> Seq<Seq<char>> {
    lines.map_values(|line: String| line@)
}

/// The register of tracked repositories, by number.
pub struct RepoManager {
    repos: HashMap<RepoId, Repository>,
}

impl View for RepoManager {
    type V = Catalogue;

    closed spec fn view(&self) -> Catalogue {
        self.repos@.map_values(|repo: Repository| repo@)
    }
}

impl RepoManager {
    /// A register without repositories.
    pub fn new() -> (manager: Self)
        ensures
            manager@ == Map::<RepoId, RepositoryModel>::empty(),
    {
        let manager = RepoManager { repos: HashMap::new() };
        manager
    }

    /// Registers `repo` under its number, in place of what was there.
    pub fn add(&mut self, repo: Repository)
        ensures
            final(self)@ == old(self)@.insert(repo.id, repo@),
    {
        let ghost before = self.repos@;
        self.repos.insert(repo.id, repo);
    }

    /// The repository registered under `id`, to be changed in place.
    pub fn get_mut(&mut self, id: RepoId) -> (found: Option<&mut Repository>)
        ensures
            match found {
                Some(repo) => {
                    &&& old(self)@.contains_key(id)
                    &&& repo@ == old(self)@[id]
                    &&& final(self)@ == old(self)@.insert(id, final(repo)@)
                },
                None => !old(self)@.contains_key(id) && final(self)@ == old(self)@,
            },
    {
        let ghost before = self.repos@;
        match self.repos.entry(id) {
            Entry::Occupied(entry) => {
                let repo = entry.into_mut();
                proof {
                    assert(before.insert(id, *final(repo)).map_values(|r: Repository| r@)
                        =~= before.map_values(|r: Repository| r@).insert(id, final(repo)@));
                }
                Some(repo)
            },
            Entry::Vacant(_) => None,
        }
    }

    /// One line for each repository, as `describe` shows it, in an order
    /// that is not fixed.
    pub fn list_all(&self) -> (lines: Vec<String>)
        ensures
            exists|ids: Seq<RepoId>| shown_under(ids, texts_of(lines@), self@),
    {
        let mut lines: Vec<String> = Vec::new();
        let ghost mut ids: Seq<RepoId> = Seq::empty();
        let ghost pairs = self.repos.iter().remaining();
        for pair in it: self.repos.iter()
            invariant
                it.seq() == pairs,
                lines.len() == it.index(),
                ids.len() == it.index(),
                forall|i: int| 0 <= i < it.index() ==> ids[i] == *pairs[i].0,
                forall|i: int| 0 <= i < it.index() ==> lines[i]@ == description((*pairs[i].1)@),
        {
            let (id, repo) = pair;
            lines.push(repo.describe());
            proof {
                ids = ids.push(*id);
            }
        }
        proof {
            let texts = texts_of(lines@);
            lemma_ids_name_every_number(self.repos@, pairs, ids);
            assert(shown_under(ids, texts, self@));
        }
        lines
    }

    /// The repositories whose name the query hits, in an order that is not
    /// fixed.
    pub fn search(&self, query: &str) -> (hits: Vec<&Repository>)
        ensures
            exists|ids: Seq<RepoId>| found_among(ids, models_of_hits(hits@), self@, query@),
    {
        let mut hits: Vec<&Repository> = Vec::new();
        let ghost mut ids: Seq<RepoId> = Seq::empty();
        let ghost mut kept: Seq<RepoId> = Seq::empty();
        let ghost pairs = self.repos.iter().remaining();
        let ghost catalogue = self@;
        let ghost wanted = |id: RepoId| name_matches(catalogue[id].name, query@);
        for pair in it: self.repos.iter()
            invariant
                it.seq() == pairs,
                catalogue == self@,
                wanted == |id: RepoId| name_matches(catalogue[id].name, query@),
                ids.len() == it.index(),
                forall|i: int| 0 <= i < it.index() ==> ids[i] == *pairs[i].0,
                kept == ids.filter(wanted),
                models_of_hits(hits@) == kept.map_values(|id: RepoId| catalogue[id]),
        {
            let (id, repo) = pair;
            proof {
                lemma_filter_push(ids, *id, wanted);
                ids = ids.push(*id);
            }
            if repo.contains_query(query) {
                let ghost before = models_of_hits(hits@);
                hits.push(repo);
                proof {
                    kept = kept.push(*id);
                    assert(kept.map_values(|id: RepoId| catalogue[id]) =~= before.push(
                        catalogue[*id],
                    ));
                }
            }
        }
        proof {
            lemma_ids_name_every_number(self.repos@, pairs, ids);
            assert(found_among(ids, models_of_hits(hits@), self@, query@));
        }
        hits
    }
}

/// The models of the repositories that a search hands out.
pub open spec fn models_of_hits(hits: Seq<&Repository>) -> Seq<RepositoryModel> {
    hits.map_values(|repo: &Repository| repo@)
}

/// `hits` holds those repositories of `catalogue` whose name `query` hits,
/// in the order in which `ids` names them, and `ids` names every number of
/// `catalogue` exactly once.
pub open spec fn found_among(
    ids: Seq<RepoId>,
    hits: Seq<RepositoryModel>,
    catalogue: Catalogue,
    query: Seq<char>,
) -> bool {
    &&& ids.no_duplicates()
    &&& ids.to_set() == catalogue.dom()
    &&& hits == ids.filter(|id: RepoId| name_matches(catalogue[id].name, query)).map_values(
        |id: RepoId| catalogue[id],
    )
}

/// Filtering a sequence with one item more either appends the item or
/// changes nothing.
pub proof fn lemma_filter_push<A>(items: Seq<A>, item: A, keep: spec_fn(A) -> bool)
    ensures
        items.push(item).filter(keep) == (if keep(item) {
            items.filter(keep).push(item)
        } else {
            items.filter(keep)
        }),
{
    reveal(Seq::filter);
    assert(items.push(item).drop_last() =~= items);
}

/// The numbers under which a walk over the register meets its repositories
/// name every number of the register exactly once.
proof fn lemma_ids_name_every_number(
    repos: Map<RepoId, Repository>,
    pairs: Seq<(&RepoId, &Repository)>,
    ids: Seq<RepoId>,
)
    requires
        pairs.no_duplicates(),
        forall|i: int|
            0 <= i < pairs.len() ==> repos.contains_key(*(#[trigger] pairs[i]).0) && repos[*pairs[i].0]
                == *pairs[i].1,
        forall|id: RepoId| #[trigger] repos.contains_key(id) ==> pairs.contains((&id, &repos[id])),
        ids.len() == pairs.len(),
        forall|i: int| 0 <= i < ids.len() ==> ids[i] == *pairs[i].0,
    ensures
        ids.no_duplicates(),
        ids.to_set() == repos.map_values(|repo: Repository| repo@).dom(),
{
    assert forall|id: RepoId| ids.to_set().contains(id) <==> repos.contains_key(id) by {
        if repos.contains_key(id) {
            let i = choose|i: int| 0 <= i < pairs.len() && pairs[i] == (&id, &repos[id]);
            assert(ids[i] == id);
        }
    }
}

} // verus!
