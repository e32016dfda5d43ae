//! The configuration: which repository keeps the copies, which entries of
//! the machine are kept there, and how a group of the configuration file is
//! chosen.

use vstd::prelude::*;
use vstd::string::*;
use crate::keyed::{keys_distinct, pairs_view, lemma_pairs_view_at, lemma_pairs_view_update, lemma_pairs_view_push, find_key};

verus! {

#[verifier::external_type_specification]
#[verifier::external_body]
pub struct ExIoError(std::io::Error);

#[verifier::external_type_specification]
#[verifier::external_body]
pub struct ExPathBuf(std::path::PathBuf);

/// Why a configuration could not be found, read or accepted.
#[derive(Debug)]
pub enum ConfigError {
    NoConfigHome,
    NoBaseRepositoryProvided,
    InvalidBaseRepository,
    NoEntriesProvided,
    InvalidEntry(String),
    ParseError,
    InvalidGroupName(String),
    Io(std::io::Error),
}

/// One group of the configuration: the repository that keeps the copies and
/// the paths of the entries on this machine.
#[derive(Debug, Clone)]
pub struct Config {
    repository: String,
    entries: Vec<String>,
}

impl Config {
    /// The repository of the group.
    pub closed spec fn repository(self) -> String {
        self.repository
    }

    /// The entries of the group.
    pub closed spec fn entries(self) -> Vec<String> {
        self.entries
    }

    pub fn new(repository: String, entries: Vec<String>) -> (c: Config)
        ensures
            c.repository() == repository,
            c.entries() == entries,
    {
        Config { repository, entries }
    }

    /// Hands out the repository and the entries.
    pub fn extract(self) -> (r: (String, Vec<String>))
        ensures
            r.0 == self.repository(),
            r.1 == self.entries(),
    {
        (self.repository, self.entries)
    }
}


/// `found` fails first at position `i`: every earlier probe found its entry.
pub open spec fn first_missing(found: Seq<bool>, i: int) -> bool {
    &&& 0 <= i < found.len()
    &&& !found[i]
    &&& forall|j: int| 0 <= j < i ==> #[trigger] found[j]
}

/// What the check of a group answers, given whether its repository was found
/// on disk and, entry by entry, whether each entry was found.
pub open spec fn check_outcome(
    repository: Seq<char>,
    entries: Seq<String>,
    repository_found: bool,
    found: Seq<bool>,
) -> Result<(), ConfigError> {
    if repository.len() == 0 {
        Err(ConfigError::NoBaseRepositoryProvided)
    } else if !repository_found {
        Err(ConfigError::InvalidBaseRepository)
    } else if entries.len() == 0 {
        Err(ConfigError::NoEntriesProvided)
    } else if exists|i: int| first_missing(found, i) {
        Err(ConfigError::InvalidEntry(entries[choose|i: int| first_missing(found, i)]))
    } else {
        Ok(())
    }
}

/// Two positions where a probe fails first are the same.
pub proof fn lemma_first_missing_unique(found: Seq<bool>, i: int, j: int)
    requires
        first_missing(found, i),
        first_missing(found, j),
    ensures
        i == j,
{
    if i < j {
        assert(found[i]);
    } else if j < i {
        assert(found[j]);
    }
}

/// `std::path::Path::try_exists` on the path that `path` names. Its answer
/// depends on the file system at the moment of the call, so nothing is
/// stated of it. It is public so that the contract of `Config::check` can
/// name it as the probe that is asked.
#[verifier::external_body]
pub fn path_exists(path: &String) -> (r: Result<bool, std::io::Error>) {
    std::path::Path::new(path).try_exists()
}

/// Some answer that `probe` may give on `path` says whether the path was
/// found: `Ok(true)` exactly where `found`.
pub open spec fn probe_answers<F: Fn(&String) -> Result<bool, std::io::Error>>(probe: F, path: String, found: bool) -> bool {
    exists|r: Result<bool, std::io::Error>| #[trigger] call_ensures(probe, (&path,), r) && found == (r matches Ok(b) && b)
}

/// A probe found its path only where the file system answered `Ok(true)`.
fn probe_found(probe: Result<bool, std::io::Error>) -> (found: bool)
    ensures
        found == (probe matches Ok(b) && b),
{
    match probe {
        Ok(b) => b,
        Err(_) => false,
    }
}

impl Config {
    /// Checks the group against what was found on disk: `repository_found`
    /// tells whether the repository exists, `found[i]` whether the `i`-th
    /// entry exists.
    pub fn check_with(&self, repository_found: bool, found: &Vec<bool>) -> (r: Result<(), ConfigError>)
        requires
            found@.len() == self.entries()@.len(),
        ensures
            r == check_outcome(self.repository()@, self.entries()@, repository_found, found@),
    {
        if self.repository.as_str().is_empty() {
            return Err(ConfigError::NoBaseRepositoryProvided);
        }
        if !repository_found {
            return Err(ConfigError::InvalidBaseRepository);
        }
        if self.entries.len() == 0 {
            return Err(ConfigError::NoEntriesProvided);
        }
        let mut i: usize = 0;
        while i < self.entries.len()
            invariant
                i <= self.entries@.len(),
                found@.len() == self.entries@.len(),
                self.repository@.len() > 0,
                self.entries@.len() > 0,
                repository_found,
                forall|j: int| 0 <= j < i ==> #[trigger] found@[j],
            decreases self.entries@.len() - i,
        {
            if !found[i] {
                proof {
                    assert(first_missing(found@, i as int));
                    let c = choose|c: int| first_missing(found@, c);
                    lemma_first_missing_unique(found@, i as int, c);
                }
                let missing = self.entries[i].clone();
                assert(check_outcome(self.repository()@, self.entries()@, repository_found, found@)
                    == Err::<(), ConfigError>(ConfigError::InvalidEntry(missing)));
                return Err(ConfigError::InvalidEntry(missing));
            }
            i = i + 1;
        }
        assert(!exists|c: int| first_missing(found@, c));
        Ok(())
    }

    /// Checks the group with `probe` telling, path by path, whether a path
    /// exists (`Ok(true)`): first the repository, then the entries in order,
    /// up to the first one that is not found. The answer is `check_with` of
    /// what the probe answered for these paths.
    pub fn check_using<F: Fn(&String) -> Result<bool, std::io::Error>>(&self, probe: F) -> (r: Result<(), ConfigError>)
        requires
            forall|p: &String| #[trigger] call_requires(probe, (p,)),
        ensures
            exists|repository_found: bool, found: Seq<bool>|
                #![trigger check_outcome(self.repository()@, self.entries()@, repository_found, found)]
                {
                    &&& found.len() == self.entries()@.len()
                    &&& self.repository()@.len() > 0 ==> probe_answers(probe, self.repository(), repository_found)
                    &&& self.repository()@.len() > 0 && repository_found ==> forall|k: int|
                        0 <= k < found.len() && (forall|j: int| 0 <= j < k ==> #[trigger] found[j])
                        ==> #[trigger] probe_answers(probe, self.entries()@[k], found[k])
                    &&& r == check_outcome(self.repository()@, self.entries()@, repository_found, found)
                },
    {
        let n = self.entries.len();
        let mut found: Vec<bool> = Vec::new();
        if self.repository.as_str().is_empty() {
            while found.len() < n
                invariant
                    found@.len() <= n,
                decreases n - found@.len(),
            {
                found.push(true);
            }
            let r = self.check_with(true, &found);
            assert(check_outcome(self.repository()@, self.entries()@, true, found@) == r);
            return r;
        }
        let answer = probe(&self.repository);
        let repository_found = probe_found(answer);
        assert(probe_answers(probe, self.repository(), repository_found));
        let mut i: usize = 0;
        let mut all = true;
        if repository_found {
            while i < n && all
                invariant
                    i <= n,
                    n == self.entries@.len(),
                    found@.len() == i,
                    forall|p: &String| #[trigger] call_requires(probe, (p,)),
                    all == (forall|j: int| 0 <= j < i ==> #[trigger] found@[j]),
                    forall|j: int| 0 <= j < i - 1 ==> #[trigger] found@[j],
                    forall|k: int| 0 <= k < i ==> #[trigger] probe_answers(probe, self.entries@[k], found@[k]),
                decreases n - i,
            {
                let answer = probe(&self.entries[i]);
                let f = probe_found(answer);
                assert(probe_answers(probe, self.entries@[i as int], f));
                let ghost prev = found@;
                found.push(f);
                proof {
                    assert(found@[i as int] == f);
                    assert forall|j: int| 0 <= j < i implies #[trigger] found@[j] by {
                        assert(found@[j] == prev[j]);
                    }
                    if !f {
                        assert(!found@[i as int]);
                    }
                }
                all = f;
                i = i + 1;
            }
        }
        let probed = found.len();
        let ghost before = found@;
        while found.len() < n
            invariant
                probed <= found@.len() <= n,
                found@.take(probed as int) == before,
            decreases n - found@.len(),
        {
            found.push(true);
            assert(found@.take(probed as int) =~= before);
        }
        let r = self.check_with(repository_found, &found);
        proof {
            if repository_found {
                assert forall|k: int|
                    0 <= k < found@.len() && (forall|j: int| 0 <= j < k ==> #[trigger] found@[j])
                    implies #[trigger] probe_answers(probe, self.entries@[k], found@[k]) by {
                    if k < probed {
                        assert(found@[k] == before[k]);
                        assert(found@.take(probed as int)[k] == found@[k]);
                    } else {
                        assert(!all);
                        assert(found@.take(probed as int)[probed - 1] == found@[probed - 1]);
                        assert(!found@[probed - 1]);
                    }
                }
            }
            assert(check_outcome(self.repository()@, self.entries()@, repository_found, found@) == r);
        }
        r
    }

    /// Checks that the repository and every entry of the group exist on disk:
    /// `Path::try_exists` is asked about the repository, then about the
    /// entries in order up to the first one that is not found, and the answer
    /// is `check_outcome` of what it said. What the file system says is not
    /// known in advance, so the clauses hold whatever it says.
    pub fn check(&self) -> (r: Result<(), ConfigError>)
        ensures
            exists|repository_found: bool, found: Seq<bool>|
                #![trigger check_outcome(self.repository()@, self.entries()@, repository_found, found)]
                {
                    &&& found.len() == self.entries()@.len()
                    &&& self.repository()@.len() > 0 ==> probe_answers(path_exists, self.repository(), repository_found)
                    &&& self.repository()@.len() > 0 && repository_found ==> forall|k: int|
                        0 <= k < found.len() && (forall|j: int| 0 <= j < k ==> #[trigger] found[j])
                        ==> #[trigger] probe_answers(path_exists, self.entries()@[k], found[k])
                    &&& r == check_outcome(self.repository()@, self.entries()@, repository_found, found)
                },
            (r == Err::<(), ConfigError>(ConfigError::NoBaseRepositoryProvided)) == (self.repository()@.len() == 0),
            r == Err::<(), ConfigError>(ConfigError::InvalidBaseRepository) ==> self.repository()@.len() > 0,
            r == Err::<(), ConfigError>(ConfigError::NoEntriesProvided) ==> self.repository()@.len() > 0
                && self.entries()@.len() == 0,
            r matches Err(ConfigError::InvalidEntry(e)) ==> self.repository()@.len() > 0
                && exists|i: int| 0 <= i < self.entries()@.len() && self.entries()@[i] == e,
            r is Ok ==> self.repository()@.len() > 0 && self.entries()@.len() > 0,
    {
        let r = self.check_using(path_exists);
        proof {
            let (rf, found) = choose|rf: bool, found: Seq<bool>| {
                    &&& found.len() == self.entries()@.len()
                    &&& self.repository()@.len() > 0 ==> probe_answers(path_exists, self.repository(), rf)
                    &&& self.repository()@.len() > 0 && rf ==> forall|k: int|
                        0 <= k < found.len() && (forall|j: int| 0 <= j < k ==> #[trigger] found[j])
                        ==> #[trigger] probe_answers(path_exists, self.entries()@[k], found[k])
                    &&& r == check_outcome(self.repository()@, self.entries()@, rf, found)
                };
            if exists|c: int| first_missing(found, c) {
                let c = choose|c: int| first_missing(found, c);
                assert(0 <= c < self.entries()@.len());
            }
        }
        r
    }
}


/// The groups of a configuration file, by name. No name occurs twice, and
/// inserting a name that is present replaces its group.
pub struct Groups {
    group: Vec<(String, Config)>,
}

impl Groups {
    #[verifier::type_invariant]
    spec fn names_distinct(self) -> bool {
        keys_distinct(self.group@)
    }

    /// The groups, as a map from names to groups.
    pub closed spec fn groups(self) -> Map<Seq<char>, Config> {
        pairs_view(self.group@)
    }

    pub fn new() -> (g: Groups)
        ensures
            g.groups() == Map::<Seq<char>, Config>::empty(),
    {
        let g = Groups { group: Vec::new() };
        assert(g.groups() =~= Map::<Seq<char>, Config>::empty());
        g
    }

    /// Adds the group `config` under `name`, replacing any group of that name.
    pub fn insert(&mut self, name: String, config: Config)
        ensures
            final(self).groups() == old(self).groups().insert(name@, config),
    {
        proof {
            use_type_invariant(&*self);
        }
        let mut group = Vec::new();
        std::mem::swap(&mut group, &mut self.group);
        let ghost before = group@;
        match find_key(&group, &name) {
            Some(i) => {
                proof {
                    lemma_pairs_view_update(before, i as int, name, config);
                }
                group.set(i, (name, config));
            },
            None => {
                proof {
                    lemma_pairs_view_push(before, name, config);
                }
                group.push((name, config));
            },
        }
        self.group = group;
    }

    /// The group of the given name, if there is one.
    pub fn get(&self, name: &String) -> (r: Option<&Config>)
        ensures
            match r {
                Some(c) => self.groups().contains_key(name@) && *c == self.groups()[name@],
                None => !self.groups().contains_key(name@),
            },
    {
        proof {
            use_type_invariant(self);
        }
        match find_key(&self.group, name) {
            Some(i) => {
                proof {
                    lemma_pairs_view_at(self.group@, i as int);
                }
                Some(&self.group[i].1)
            },
            None => None,
        }
    }

    /// Takes out the group of the given name, if there is one.
    pub fn take(self, name: &String) -> (r: Option<Config>)
        ensures
            match r {
                Some(c) => self.groups().contains_key(name@) && c == self.groups()[name@],
                None => !self.groups().contains_key(name@),
            },
    {
        proof {
            use_type_invariant(&self);
        }
        let ghost view = self.groups();
        let Groups { group } = self;
        let mut group = group;
        match find_key(&group, name) {
            Some(i) => {
                proof {
                    lemma_pairs_view_at(group@, i as int);
                }
                let (_, config) = group.remove(i);
                Some(config)
            },
            None => None,
        }
    }
}

/// The group that the configuration file and the name of the current group
/// select: `parsed` is the file as read, or `None` where it could not be
/// read as a configuration.
pub fn resolve_config(parsed: Option<Groups>, group_name: String) -> (r: Result<Config, ConfigError>)
    ensures
        match parsed {
            None => r == Err::<Config, ConfigError>(ConfigError::ParseError),
            Some(g) => if g.groups().contains_key(group_name@) {
                r == Ok::<Config, ConfigError>(g.groups()[group_name@])
            } else {
                r == Err::<Config, ConfigError>(ConfigError::InvalidGroupName(group_name))
            },
        },
{
    match parsed {
        None => Err(ConfigError::ParseError),
        Some(groups) => match groups.take(&group_name) {
            Some(config) => Ok(config),
            None => Err(ConfigError::InvalidGroupName(group_name)),
        },
    }
}

/// `directories::ProjectDirs::from` with the given names, and the project's
/// configuration directory where it gives one. The answer depends on the
/// environment of the process (the home directory), so nothing is stated
/// of it. It is public so that the contract of `config_home` can name it as
/// the function that is asked.
#[verifier::external_body]
pub fn project_config_dir(qualifier: &str, organization: &str, application: &str) -> (r: Option<std::path::PathBuf>) {
    match directories::ProjectDirs::from(qualifier, organization, application) {
        Some(dirs) => Some(dirs.config_dir().to_path_buf()),
        None => None,
    }
}

/// The configuration directory, given what the environment yielded for it.
pub fn config_home_from(dir: Option<std::path::PathBuf>) -> (r: Result<std::path::PathBuf, ConfigError>)
    ensures
        match dir {
            Some(p) => r == Ok::<std::path::PathBuf, ConfigError>(p),
            None => r == Err::<std::path::PathBuf, ConfigError>(ConfigError::NoConfigHome),
        },
{
    match dir {
        Some(p) => Ok(p),
        None => Err(ConfigError::NoConfigHome),
    }
}

/// The names under which the tool's directories are found: qualifier
/// "org", organisation "FileKeeper" and application "FileKeeper".
pub fn project_names() -> (r: (&'static str, &'static str, &'static str))
    ensures
        r.0@ == "org"@,
        r.1@ == "FileKeeper"@,
        r.2@ == "FileKeeper"@,
{
    ("org", "FileKeeper", "FileKeeper")
}

/// The configuration directory of the tool, with `dirs` finding the
/// configuration directory of a project from its qualifier, organisation and
/// application names: it is asked with the names of `project_names`, and its
/// answer is turned into the result as `config_home_from` says.
pub fn config_home_using<F: Fn(&str, &str, &str) -> Option<std::path::PathBuf>>(dirs: F) -> (r: Result<std::path::PathBuf, ConfigError>)
    requires
        forall|q: &str, o: &str, a: &str| #[trigger] call_requires(dirs, (q, o, a)),
    ensures
        exists|q: &str, o: &str, a: &str, d: Option<std::path::PathBuf>| {
            &&& q@ == "org"@
            &&& o@ == "FileKeeper"@
            &&& a@ == "FileKeeper"@
            &&& #[trigger] call_ensures(dirs, (q, o, a), d)
            &&& match d {
                Some(p) => r == Ok::<std::path::PathBuf, ConfigError>(p),
                None => r == Err::<std::path::PathBuf, ConfigError>(ConfigError::NoConfigHome),
            }
        },
{
    let (q, o, a) = project_names();
    let d = dirs(q, o, a);
    config_home_from(d)
}

/// The configuration directory of the tool, as `directories::ProjectDirs`
/// finds it for the names of `project_names`. Which directory that is depends
/// on the environment; where there is none the answer is `NoConfigHome`.
pub fn config_home() -> (r: Result<std::path::PathBuf, ConfigError>)
    ensures
        exists|q: &str, o: &str, a: &str, d: Option<std::path::PathBuf>| {
            &&& q@ == "org"@
            &&& o@ == "FileKeeper"@
            &&& a@ == "FileKeeper"@
            &&& #[trigger] call_ensures(project_config_dir, (q, o, a), d)
            &&& match d {
                Some(p) => r == Ok::<std::path::PathBuf, ConfigError>(p),
                None => r == Err::<std::path::PathBuf, ConfigError>(ConfigError::NoConfigHome),
            }
        },
        r is Ok || r == Err::<std::path::PathBuf, ConfigError>(ConfigError::NoConfigHome),
{
    config_home_using(project_config_dir)
}

/// The name of the file, in the configuration directory, that holds the groups.
pub fn config_file_name() -> (r: &'static str)
    ensures
        r@ == "config.toml"@,
{
    "config.toml"
}

/// The name of the file, in the configuration directory, that names the
/// current group.
pub fn group_file_name() -> (r: &'static str)
    ensures
        r@ == "group_name.txt"@,
{
    "group_name.txt"
}

/// The name of the group that a fresh configuration holds.
pub fn default_group_name() -> (r: String)
    ensures
        r@ == "machine 1"@,
{
    String::from_str("machine 1")
}

/// The text of a fresh configuration file whose one group keeps the entry
/// `entry`.
pub open spec fn default_config_text(entry: Seq<char>) -> Seq<char> {
    "[group.\"machine 1\"]\nrepository = \"path/to/repository\"\nentries = [\""@ + entry + "\"]"@
}

/// The text of a fresh configuration file, given the path of that file as a
/// string, or `None` where the path is not valid Unicode.
pub fn default_config(config_file: Option<&str>) -> (r: Result<String, ConfigError>)
    ensures
        match config_file {
            None => r == Err::<String, ConfigError>(ConfigError::ParseError),
            Some(p) => r matches Ok(text) && text@ == default_config_text(p@),
        },
{
    match config_file {
        None => Err(ConfigError::ParseError),
        Some(p) => {
            let mut text = String::from_str("[group.\"machine 1\"]\nrepository = \"path/to/repository\"\nentries = [\"");
            text.append(p);
            text.append("\"]");
            Ok(text)
        },
    }
}

/// What switching to the group `name` does when the current group is
/// `current`: whether the group file is to be written, and what is said.
pub open spec fn switch_plan(name: Seq<char>, current: Seq<char>) -> (bool, Seq<char>) {
    if name == current {
        (false, "Group is already set to ["@ + name + "]"@)
    } else {
        (true, "Switched to group ["@ + name + "]"@)
    }
}

/// Decides a switch of group: the first component tells whether `name` is
/// to be written to the group file, the second is the message to print.
pub fn plan_switch(name: &String, current: &String) -> (r: (bool, String))
    ensures
        (r.0, r.1@) == switch_plan(name@, current@),
{
    if *name == *current {
        let mut msg = String::from_str("Group is already set to [");
        msg.append(name.as_str());
        msg.append("]");
        (false, msg)
    } else {
        let mut msg = String::from_str("Switched to group [");
        msg.append(name.as_str());
        msg.append("]");
        (true, msg)
    }
}


/// Reading a group back after inserting it gives the inserted group, and
/// inserting a group leaves every other name as it was: where `after` is
/// `before` after `Groups::insert(name, config)`, `Groups::get` and
/// `resolve_config` find `config` under `name`, and under any other name
/// what they found in `before`.
pub proof fn law_groups_read_after_write(before: Groups, after: Groups, name: String, config: Config, other: String)
    requires
        after.groups() == before.groups().insert(name@, config),
    ensures
        after.groups().contains_key(name@),
        after.groups()[name@] == config,
        other@ != name@ ==> (after.groups().contains_key(other@) == before.groups().contains_key(other@)),
        other@ != name@ && before.groups().contains_key(other@) ==> after.groups()[other@] == before.groups()[other@],
{
}

/// A fresh configuration declares, in its first line, the group that a fresh
/// group file names: the two files that setting up writes agree.
pub proof fn law_default_config_declares_default_group(entry: Seq<char>)
    ensures
        default_config_text(entry).take(19) == "[group.\""@ + "machine 1"@ + "\"]"@,
{
    reveal_strlit("[group.\"machine 1\"]\nrepository = \"path/to/repository\"\nentries = [\"");
    reveal_strlit("\"]");
    reveal_strlit("[group.\"");
    reveal_strlit("machine 1");
    assert(default_config_text(entry).take(19) =~= "[group.\""@ + "machine 1"@ + "\"]"@);
}

/// The group file is written exactly when the group changes, so a switch
/// repeated right after it is done (the file then names the group) writes
/// nothing and only reports that the group is already set.
pub proof fn law_switch_is_idempotent(name: Seq<char>, current: Seq<char>)
    ensures
        switch_plan(name, current).0 == (name != current),
        !switch_plan(name, name).0,
        switch_plan(name, name).1 == "Group is already set to ["@ + name + "]"@,
{
}


/// Where a probe fails, some probe fails first.
proof fn lemma_first_missing_exists(found: Seq<bool>, k: int)
    requires
        0 <= k < found.len(),
        !found[k],
    ensures
        exists|i: int| first_missing(found, i),
    decreases k,
{
    if forall|j: int| 0 <= j < k ==> #[trigger] found[j] {
        assert(first_missing(found, k));
    } else {
        let j = choose|j: int| 0 <= j < k && !#[trigger] found[j];
        lemma_first_missing_exists(found, j);
    }
}

/// The check accepts a group exactly where its repository is named and was
/// found, it names at least one entry, and every entry was found. Any entry
/// that was not found makes the answer an error, and an entry that is
/// reported missing is one of the group's entries that was not found.
pub proof fn law_check_accepts_only_when_all_found(
    repository: Seq<char>,
    entries: Seq<String>,
    repository_found: bool,
    found: Seq<bool>,
)
    requires
        found.len() == entries.len(),
    ensures
        check_outcome(repository, entries, repository_found, found) is Ok <==> (repository.len() > 0
            && repository_found && entries.len() > 0 && forall|k: int| 0 <= k < found.len() ==> #[trigger] found[k]),
        forall|k: int| 0 <= k < found.len() && !#[trigger] found[k]
            ==> check_outcome(repository, entries, repository_found, found) is Err,
        check_outcome(repository, entries, repository_found, found) matches Err(ConfigError::InvalidEntry(e))
            ==> exists|k: int| 0 <= k < found.len() && !found[k] && entries[k] == e,
{
    assert forall|k: int| 0 <= k < found.len() && !#[trigger] found[k]
        implies check_outcome(repository, entries, repository_found, found) is Err by {
        lemma_first_missing_exists(found, k);
    }
    if exists|i: int| first_missing(found, i) {
        let i = choose|i: int| first_missing(found, i);
        assert(!found[i]);
    }
}

} // verus!
