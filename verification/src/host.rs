//! What is known of the machine.
//!
//! Nothing in this library performs I/O. A function that depends on the
//! machine takes the [`Facts`] gathered so far and returns the [`Probe`] whose
//! answer it lacks, if it lacks one. The caller performs the probe, records the
//! answer and calls again.

use vstd::prelude::*;

use crate::text::Text;
use crate::text::same;

verus! {

/// A map from strings to values. Of two entries for one key the later counts.
pub struct Table<V> {
    entries: Vec<(String, V)>,
}

spec fn entries_map<V: DeepView>(s: Seq<(String, V)>) -> Map<Text, V::V>
    decreases s.len(),
{
    if s.len() == 0 {
        Map::empty()
    } else {
        entries_map(s.drop_last()).insert(s.last().0@, s.last().1.deep_view())
    }
}

impl<V: DeepView> View for Table<V> {
    type V = Map<Text, V::V>;

    closed spec fn view(&self) -> Map<Text, V::V> {
        entries_map(self.entries@)
    }
}

impl<V: DeepView> Table<V> {
    /// The empty table.
    pub fn new() -> (r: Self)
        ensures
            r@ == Map::<Text, V::V>::empty(),
    {
        Table { entries: Vec::new() }
    }

    /// The value for `key`.
    pub fn get(&self, key: &str) -> (r: Option<&V>)
        ensures
            r is Some <==> self@.contains_key(key@),
            r matches Some(v) ==> v.deep_view() == self@[key@],
    {
        let mut i: usize = self.entries.len();
        assert(self.entries@.take(i as int) =~= self.entries@);
        while i > 0
            invariant
                i <= self.entries@.len(),
                entries_map(self.entries@.take(i as int)).contains_key(key@)
                    == self@.contains_key(key@),
                self@.contains_key(key@) ==> entries_map(self.entries@.take(i as int))[key@]
                    == self@[key@],
            decreases i,
        {
            let ghost t = self.entries@.take(i as int);
            assert(t.drop_last() =~= self.entries@.take(i - 1));
            assert(t.last() == self.entries@[i - 1]);
            if same(self.entries[i - 1].0.as_str(), key) {
                return Some(&self.entries[i - 1].1);
            }
            i -= 1;
        }
        None
    }

    /// Sets the value for `key`.
    pub fn insert(&mut self, key: String, value: V)
        ensures
            final(self)@ == old(self)@.insert(key@, value.deep_view()),
    {
        let ghost before = self.entries@;
        self.entries.push((key, value));
        assert(self.entries@.drop_last() =~= before);
    }
}

/// What a path leads to, symbolic links followed.
#[derive(Debug, Clone, Copy, PartialEq, Eq)]
pub struct Stat {
    pub is_dir: bool,
    /// The device number of a device node, else zero.
    pub rdev: u64,
}

impl DeepView for Stat {
    type V = Stat;

    open spec fn deep_view(&self) -> Stat {
        *self
    }
}

/// The outcome of reading a text file.
#[derive(Debug, PartialEq, Eq)]
pub enum FileRead<T> {
    Text(T),
    /// There is no such file.
    Missing,
    /// The file is there but cannot be read, for the reason given.
    Failed(T),
}

impl DeepView for FileRead<String> {
    type V = FileRead<Text>;

    open spec fn deep_view(&self) -> FileRead<Text> {
        match self {
            FileRead::Text(t) => FileRead::Text(t@),
            FileRead::Missing => FileRead::Missing,
            FileRead::Failed(t) => FileRead::Failed(t@),
        }
    }
}

/// The outcome of listing a directory.
#[derive(Debug, PartialEq, Eq)]
pub enum DirRead<L, T> {
    /// The names of the readable entries, in the order of the listing, and why
    /// the others cannot be read.
    Names(L, L),
    /// There is no such directory.
    Missing,
    /// The directory is there but cannot be listed, for the reason given.
    Failed(T),
}

impl DeepView for DirRead<Vec<String>, String> {
    type V = DirRead<Seq<Text>, Text>;

    open spec fn deep_view(&self) -> DirRead<Seq<Text>, Text> {
        match self {
            DirRead::Names(l, e) => DirRead::Names(l.deep_view(), e.deep_view()),
            DirRead::Missing => DirRead::Missing,
            DirRead::Failed(t) => DirRead::Failed(t@),
        }
    }
}

/// A path with its symbolic links resolved.
#[derive(Debug, PartialEq, Eq)]
pub struct Resolved<T> {
    pub path: T,
    /// The last component; the root directory has none.
    pub name: Option<T>,
    /// Whether the last component is valid UTF-8. If it is not, `name` holds
    /// replacement characters.
    pub name_is_utf8: bool,
}

impl DeepView for Resolved<String> {
    type V = Resolved<Text>;

    open spec fn deep_view(&self) -> Resolved<Text> {
        Resolved {
            path: self.path@,
            name: self.name.deep_view(),
            name_is_utf8: self.name_is_utf8,
        }
    }
}

/// The outcome of running a command.
#[derive(Debug, PartialEq, Eq)]
pub enum RunResult<T> {
    Exited { success: bool, stdout: T },
    /// There is no such program.
    NotFound,
    /// The program could not be run.
    Failed,
}

impl DeepView for RunResult<String> {
    type V = RunResult<Text>;

    open spec fn deep_view(&self) -> RunResult<Text> {
        match self {
            RunResult::Exited { success, stdout } => RunResult::Exited {
                success: *success,
                stdout: stdout@,
            },
            RunResult::NotFound => RunResult::NotFound,
            RunResult::Failed => RunResult::Failed,
        }
    }
}

/// A question about the machine.
#[derive(Debug, PartialEq, Eq)]
pub enum Probe<T> {
    /// What the path leads to.
    Stat(T),
    /// The text of the file.
    ReadFile(T),
    /// The names in the directory.
    ReadDir(T),
    /// The path with its symbolic links resolved.
    Resolve(T),
    /// The path made absolute against the working directory.
    Absolute(T),
    /// Whether the path can be written and searched.
    Writable(T),
    /// `btrfs subvol show <path>`.
    BtrfsSubvolShow(T),
    /// `bcachefs fs usage <path>`.
    BcachefsUsage(T),
    /// `stratis pool list`.
    StratisPoolList,
    /// `uname -m`.
    UnameMachine,
    /// `systemd-detect-virt`.
    DetectVirt,
    /// The name of this host.
    Hostname,
}

impl DeepView for Probe<String> {
    type V = Probe<Text>;

    open spec fn deep_view(&self) -> Probe<Text> {
        match self {
            Probe::Stat(p) => Probe::Stat(p@),
            Probe::ReadFile(p) => Probe::ReadFile(p@),
            Probe::ReadDir(p) => Probe::ReadDir(p@),
            Probe::Resolve(p) => Probe::Resolve(p@),
            Probe::Absolute(p) => Probe::Absolute(p@),
            Probe::Writable(p) => Probe::Writable(p@),
            Probe::BtrfsSubvolShow(p) => Probe::BtrfsSubvolShow(p@),
            Probe::BcachefsUsage(p) => Probe::BcachefsUsage(p@),
            Probe::StratisPoolList => Probe::StratisPoolList,
            Probe::UnameMachine => Probe::UnameMachine,
            Probe::DetectVirt => Probe::DetectVirt,
            Probe::Hostname => Probe::Hostname,
        }
    }
}

/// A probe with its answer.
#[derive(Debug, PartialEq, Eq)]
pub enum Fact<T, L> {
    Stat(T, Option<Stat>),
    ReadFile(T, FileRead<T>),
    ReadDir(T, DirRead<L, T>),
    Resolve(T, Option<Resolved<T>>),
    Absolute(T, Option<T>),
    Writable(T, bool),
    BtrfsSubvolShow(T, RunResult<T>),
    BcachefsUsage(T, RunResult<T>),
    StratisPoolList(RunResult<T>),
    UnameMachine(RunResult<T>),
    DetectVirt(RunResult<T>),
    Hostname(Option<T>),
}

impl DeepView for Fact<String, Vec<String>> {
    type V = Fact<Text, Seq<Text>>;

    open spec fn deep_view(&self) -> Fact<Text, Seq<Text>> {
        match self {
            Fact::Stat(p, a) => Fact::Stat(p@, a.deep_view()),
            Fact::ReadFile(p, a) => Fact::ReadFile(p@, a.deep_view()),
            Fact::ReadDir(p, a) => Fact::ReadDir(p@, a.deep_view()),
            Fact::Resolve(p, a) => Fact::Resolve(p@, a.deep_view()),
            Fact::Absolute(p, a) => Fact::Absolute(p@, a.deep_view()),
            Fact::Writable(p, a) => Fact::Writable(p@, *a),
            Fact::BtrfsSubvolShow(p, a) => Fact::BtrfsSubvolShow(p@, a.deep_view()),
            Fact::BcachefsUsage(p, a) => Fact::BcachefsUsage(p@, a.deep_view()),
            Fact::StratisPoolList(a) => Fact::StratisPoolList(a.deep_view()),
            Fact::UnameMachine(a) => Fact::UnameMachine(a.deep_view()),
            Fact::DetectVirt(a) => Fact::DetectVirt(a.deep_view()),
            Fact::Hostname(a) => Fact::Hostname(a.deep_view()),
        }
    }
}

/// The probe that the fact answers.
pub open spec fn question(fact: Fact<Text, Seq<Text>>) -> Probe<Text> {
    match fact {
        Fact::Stat(p, _) => Probe::Stat(p),
        Fact::ReadFile(p, _) => Probe::ReadFile(p),
        Fact::ReadDir(p, _) => Probe::ReadDir(p),
        Fact::Resolve(p, _) => Probe::Resolve(p),
        Fact::Absolute(p, _) => Probe::Absolute(p),
        Fact::Writable(p, _) => Probe::Writable(p),
        Fact::BtrfsSubvolShow(p, _) => Probe::BtrfsSubvolShow(p),
        Fact::BcachefsUsage(p, _) => Probe::BcachefsUsage(p),
        Fact::StratisPoolList(_) => Probe::StratisPoolList,
        Fact::UnameMachine(_) => Probe::UnameMachine,
        Fact::DetectVirt(_) => Probe::DetectVirt,
        Fact::Hostname(_) => Probe::Hostname,
    }
}

/// What is known of the running process before anything is probed.
#[derive(Debug, PartialEq, Eq)]
pub struct Process<T> {
    /// The target architecture, as Rust names it.
    pub arch: T,
    pub little_endian: bool,
    /// Whether the effective user is root.
    pub is_root: bool,
    /// Whether an elevated parent started this process.
    pub elevated: bool,
}

impl DeepView for Process<String> {
    type V = Process<Text>;

    open spec fn deep_view(&self) -> Process<Text> {
        Process {
            arch: self.arch@,
            little_endian: self.little_endian,
            is_root: self.is_root,
            elevated: self.elevated,
        }
    }
}

/// The answers gathered so far.
pub struct Facts {
    pub process: Process<String>,
    pub stats: Table<Option<Stat>>,
    pub files: Table<FileRead<String>>,
    pub dirs: Table<DirRead<Vec<String>, String>>,
    pub resolved: Table<Option<Resolved<String>>>,
    pub absolute: Table<Option<String>>,
    pub writable: Table<bool>,
    pub btrfs_subvols: Table<RunResult<String>>,
    pub bcachefs_usages: Table<RunResult<String>>,
    pub stratis_pools: Option<RunResult<String>>,
    pub uname_machine: Option<RunResult<String>>,
    pub virt: Option<RunResult<String>>,
    pub hostname: Option<Option<String>>,
}

/// A machine as far as it is known: a partial map from probes to answers.
pub struct Host {
    pub process: Process<Text>,
    pub stats: Map<Text, Option<Stat>>,
    pub files: Map<Text, FileRead<Text>>,
    pub dirs: Map<Text, DirRead<Seq<Text>, Text>>,
    pub resolved: Map<Text, Option<Resolved<Text>>>,
    pub absolute: Map<Text, Option<Text>>,
    pub writable: Map<Text, bool>,
    pub btrfs_subvols: Map<Text, RunResult<Text>>,
    pub bcachefs_usages: Map<Text, RunResult<Text>>,
    pub stratis_pools: Option<RunResult<Text>>,
    pub uname_machine: Option<RunResult<Text>>,
    pub virt: Option<RunResult<Text>>,
    pub hostname: Option<Option<Text>>,
}

impl View for Facts {
    type V = Host;

    open spec fn view(&self) -> Host {
        Host {
            process: self.process.deep_view(),
            stats: self.stats@,
            files: self.files@,
            dirs: self.dirs@,
            resolved: self.resolved@,
            absolute: self.absolute@,
            writable: self.writable@,
            btrfs_subvols: self.btrfs_subvols@,
            bcachefs_usages: self.bcachefs_usages@,
            stratis_pools: self.stratis_pools.deep_view(),
            uname_machine: self.uname_machine.deep_view(),
            virt: self.virt.deep_view(),
            hostname: self.hostname.deep_view(),
        }
    }
}

/// The value of `m` at `key`, or the probe that would supply it.
pub open spec fn known<V>(m: Map<Text, V>, key: Text, probe: Probe<Text>) -> Result<V, Probe<Text>> {
    if m.contains_key(key) {
        Ok(m[key])
    } else {
        Err(probe)
    }
}

/// The answer, or the probe that would supply it.
pub open spec fn answered<V>(answer: Option<V>, probe: Probe<Text>) -> Result<V, Probe<Text>> {
    match answer {
        Some(v) => Ok(v),
        None => Err(probe),
    }
}

/// The meaning of a result that may be a missing fact.
pub open spec fn shown<V: DeepView>(r: Result<V, Probe<String>>) -> Result<V::V, Probe<Text>> {
    match r {
        Ok(v) => Ok(v.deep_view()),
        Err(p) => Err(p.deep_view()),
    }
}

/// The host of which only the process is known.
pub open spec fn unprobed(process: Process<Text>) -> Host {
    Host {
        process,
        stats: Map::empty(),
        files: Map::empty(),
        dirs: Map::empty(),
        resolved: Map::empty(),
        absolute: Map::empty(),
        writable: Map::empty(),
        btrfs_subvols: Map::empty(),
        bcachefs_usages: Map::empty(),
        stratis_pools: None,
        uname_machine: None,
        virt: None,
        hostname: None,
    }
}

/// The host with one more fact known.
pub open spec fn recorded(host: Host, fact: Fact<Text, Seq<Text>>) -> Host {
    match fact {
        Fact::Stat(p, a) => Host { stats: host.stats.insert(p, a), ..host },
        Fact::ReadFile(p, a) => Host { files: host.files.insert(p, a), ..host },
        Fact::ReadDir(p, a) => Host { dirs: host.dirs.insert(p, a), ..host },
        Fact::Resolve(p, a) => Host { resolved: host.resolved.insert(p, a), ..host },
        Fact::Absolute(p, a) => Host { absolute: host.absolute.insert(p, a), ..host },
        Fact::Writable(p, a) => Host { writable: host.writable.insert(p, a), ..host },
        Fact::BtrfsSubvolShow(p, a) => Host {
            btrfs_subvols: host.btrfs_subvols.insert(p, a),
            ..host
        },
        Fact::BcachefsUsage(p, a) => Host {
            bcachefs_usages: host.bcachefs_usages.insert(p, a),
            ..host
        },
        Fact::StratisPoolList(a) => Host { stratis_pools: Some(a), ..host },
        Fact::UnameMachine(a) => Host { uname_machine: Some(a), ..host },
        Fact::DetectVirt(a) => Host { virt: Some(a), ..host },
        Fact::Hostname(a) => Host { hostname: Some(a), ..host },
    }
}

impl Host {
    pub open spec fn stat(self, path: Text) -> Result<Option<Stat>, Probe<Text>> {
        known(self.stats, path, Probe::Stat(path))
    }

    pub open spec fn is_there(self, path: Text) -> Result<bool, Probe<Text>> {
        match self.stat(path) {
            Ok(s) => Ok(s is Some),
            Err(p) => Err(p),
        }
    }

    pub open spec fn is_dir(self, path: Text) -> Result<bool, Probe<Text>> {
        match self.stat(path) {
            Ok(Some(s)) => Ok(s.is_dir),
            Ok(None) => Ok(false),
            Err(p) => Err(p),
        }
    }

    pub open spec fn file(self, path: Text) -> Result<FileRead<Text>, Probe<Text>> {
        known(self.files, path, Probe::ReadFile(path))
    }

    pub open spec fn dir(self, path: Text) -> Result<DirRead<Seq<Text>, Text>, Probe<Text>> {
        known(self.dirs, path, Probe::ReadDir(path))
    }

    pub open spec fn resolve(self, path: Text) -> Result<Option<Resolved<Text>>, Probe<Text>> {
        known(self.resolved, path, Probe::Resolve(path))
    }

    pub open spec fn absolute(self, path: Text) -> Result<Option<Text>, Probe<Text>> {
        known(self.absolute, path, Probe::Absolute(path))
    }

    pub open spec fn writable(self, path: Text) -> Result<bool, Probe<Text>> {
        known(self.writable, path, Probe::Writable(path))
    }

    pub open spec fn btrfs_subvol_show(self, path: Text) -> Result<RunResult<Text>, Probe<Text>> {
        known(self.btrfs_subvols, path, Probe::BtrfsSubvolShow(path))
    }

    pub open spec fn bcachefs_usage(self, path: Text) -> Result<RunResult<Text>, Probe<Text>> {
        known(self.bcachefs_usages, path, Probe::BcachefsUsage(path))
    }

    pub open spec fn stratis_pool_list(self) -> Result<RunResult<Text>, Probe<Text>> {
        answered(self.stratis_pools, Probe::StratisPoolList)
    }

    pub open spec fn uname(self) -> Result<RunResult<Text>, Probe<Text>> {
        answered(self.uname_machine, Probe::UnameMachine)
    }

    pub open spec fn detect_virt(self) -> Result<RunResult<Text>, Probe<Text>> {
        answered(self.virt, Probe::DetectVirt)
    }

    pub open spec fn host_name(self) -> Result<Option<Text>, Probe<Text>> {
        answered(self.hostname, Probe::Hostname)
    }
}

fn lookup<'a, V: DeepView>(table: &'a Table<V>, key: &str, probe: Probe<String>) -> (r: Result<
    &'a V,
    Probe<String>,
>)
    ensures
        shown(r) == known(table@, key@, probe.deep_view()),
{
    match table.get(key) {
        Some(v) => Ok(v),
        None => Err(probe),
    }
}

impl Facts {
    /// Nothing is known yet but the process itself.
    pub fn new(process: Process<String>) -> (r: Self)
        ensures
            r@ == unprobed(process.deep_view()),
    {
        Facts {
            process,
            stats: Table::new(),
            files: Table::new(),
            dirs: Table::new(),
            resolved: Table::new(),
            absolute: Table::new(),
            writable: Table::new(),
            btrfs_subvols: Table::new(),
            bcachefs_usages: Table::new(),
            stratis_pools: None,
            uname_machine: None,
            virt: None,
            hostname: None,
        }
    }

    /// Records the answer to a probe.
    pub fn record(&mut self, fact: Fact<String, Vec<String>>)
        ensures
            final(self)@ == recorded(old(self)@, fact.deep_view()),
    {
        match fact {
            Fact::Stat(p, a) => self.stats.insert(p, a),
            Fact::ReadFile(p, a) => self.files.insert(p, a),
            Fact::ReadDir(p, a) => self.dirs.insert(p, a),
            Fact::Resolve(p, a) => self.resolved.insert(p, a),
            Fact::Absolute(p, a) => self.absolute.insert(p, a),
            Fact::Writable(p, a) => self.writable.insert(p, a),
            Fact::BtrfsSubvolShow(p, a) => self.btrfs_subvols.insert(p, a),
            Fact::BcachefsUsage(p, a) => self.bcachefs_usages.insert(p, a),
            Fact::StratisPoolList(a) => self.stratis_pools = Some(a),
            Fact::UnameMachine(a) => self.uname_machine = Some(a),
            Fact::DetectVirt(a) => self.virt = Some(a),
            Fact::Hostname(a) => self.hostname = Some(a),
        }
    }

    /// What `path` leads to; `None` if it leads nowhere.
    pub fn stat(&self, path: &str) -> (r: Result<Option<Stat>, Probe<String>>)
        ensures
            shown(r) == self@.stat(path@),
    {
        let s = lookup(&self.stats, path, Probe::Stat(path.to_owned()))?;
        Ok(*s)
    }

    /// Whether `path` leads to something.
    pub fn is_there(&self, path: &str) -> (r: Result<bool, Probe<String>>)
        ensures
            shown(r) == self@.is_there(path@),
    {
        let s = self.stat(path)?;
        Ok(s.is_some())
    }

    /// Whether `path` leads to a directory.
    pub fn is_dir(&self, path: &str) -> (r: Result<bool, Probe<String>>)
        ensures
            shown(r) == self@.is_dir(path@),
    {
        match self.stat(path)? {
            Some(s) => Ok(s.is_dir),
            None => Ok(false),
        }
    }

    /// The text of the file at `path`.
    pub fn file(&self, path: &str) -> (r: Result<&FileRead<String>, Probe<String>>)
        ensures
            shown(r) == self@.file(path@),
    {
        lookup(&self.files, path, Probe::ReadFile(path.to_owned()))
    }

    /// The names in the directory at `path`.
    pub fn dir(&self, path: &str) -> (r: Result<&DirRead<Vec<String>, String>, Probe<String>>)
        ensures
            shown(r) == self@.dir(path@),
    {
        lookup(&self.dirs, path, Probe::ReadDir(path.to_owned()))
    }

    /// `path` with its symbolic links resolved; `None` if it leads nowhere.
    pub fn resolve(&self, path: &str) -> (r: Result<&Option<Resolved<String>>, Probe<String>>)
        ensures
            shown(r) == self@.resolve(path@),
    {
        lookup(&self.resolved, path, Probe::Resolve(path.to_owned()))
    }

    /// `path` made absolute against the working directory.
    pub fn absolute(&self, path: &str) -> (r: Result<&Option<String>, Probe<String>>)
        ensures
            shown(r) == self@.absolute(path@),
    {
        lookup(&self.absolute, path, Probe::Absolute(path.to_owned()))
    }

    /// Whether `path` can be written and searched.
    pub fn writable(&self, path: &str) -> (r: Result<bool, Probe<String>>)
        ensures
            shown(r) == self@.writable(path@),
    {
        let b = lookup(&self.writable, path, Probe::Writable(path.to_owned()))?;
        Ok(*b)
    }

    /// The outcome of `btrfs subvol show <path>`.
    pub fn btrfs_subvol_show(&self, path: &str) -> (r: Result<&RunResult<String>, Probe<String>>)
        ensures
            shown(r) == self@.btrfs_subvol_show(path@),
    {
        lookup(&self.btrfs_subvols, path, Probe::BtrfsSubvolShow(path.to_owned()))
    }

    /// The outcome of `bcachefs fs usage <path>`.
    pub fn bcachefs_usage(&self, path: &str) -> (r: Result<&RunResult<String>, Probe<String>>)
        ensures
            shown(r) == self@.bcachefs_usage(path@),
    {
        lookup(&self.bcachefs_usages, path, Probe::BcachefsUsage(path.to_owned()))
    }

    /// The outcome of `stratis pool list`.
    pub fn stratis_pool_list(&self) -> (r: Result<&RunResult<String>, Probe<String>>)
        ensures
            shown(r) == self@.stratis_pool_list(),
    {
        match &self.stratis_pools {
            Some(v) => Ok(v),
            None => Err(Probe::StratisPoolList),
        }
    }

    /// The outcome of `uname -m`.
    pub fn uname(&self) -> (r: Result<&RunResult<String>, Probe<String>>)
        ensures
            shown(r) == self@.uname(),
    {
        match &self.uname_machine {
            Some(v) => Ok(v),
            None => Err(Probe::UnameMachine),
        }
    }

    /// The outcome of `systemd-detect-virt`.
    pub fn detect_virt(&self) -> (r: Result<&RunResult<String>, Probe<String>>)
        ensures
            shown(r) == self@.detect_virt(),
    {
        match &self.virt {
            Some(v) => Ok(v),
            None => Err(Probe::DetectVirt),
        }
    }

    /// The name of this host; `None` if it cannot be told.
    pub fn host_name(&self) -> (r: Result<&Option<String>, Probe<String>>)
        ensures
            shown(r) == self@.host_name(),
    {
        match &self.hostname {
            Some(v) => Ok(v),
            None => Err(Probe::Hostname),
        }
    }
}

}
