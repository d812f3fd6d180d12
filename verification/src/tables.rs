//! The hash tables of the hashbrown crate that the tracker keeps its
//! processes, its applications and its snapshots in.
//!
//! Each struct holds one `hashbrown::HashMap` or `HashSet`. Nothing in this
//! file is proved: every function makes one call into hashbrown, and its
//! contract states what that call does to the entries of the table. The
//! `uninterp` functions name those entries; a table never says in which order
//! it walks them.

use crate::app::{App, AppItem, AppItemView, AppView};
use crate::processes::{Process, ProcessItem, ProcessItemView, ProcessView};
use crate::text::optional_text;
use vstd::prelude::*;

verus! {

/// The processes that the tracker knows, by process id.
#[derive(Debug)]
#[verifier::external_body]
pub struct ProcessTable {
    inner: hashbrown::HashMap<i32, Process>,
}

/// The entries of a `ProcessTable`: each process id with what its process holds.
pub uninterp spec fn process_entries(table: ProcessTable) -> Map<i32, ProcessView>;

impl ProcessTable {
    /// `HashMap::new`: a table without entries.
    #[verifier::external_body]
    pub(crate) fn new() -> (table: ProcessTable)
        ensures
            process_entries(table) =~= Map::empty(),
    {
        ProcessTable { inner: hashbrown::HashMap::new() }
    }

    /// `HashMap::insert`: `pid` now stands for `process`, whether or not it
    /// stood for a process before; no other entry changes.
    #[verifier::external_body]
    pub(crate) fn insert(&mut self, pid: i32, process: Process)
        ensures
            process_entries(*final(self)) == process_entries(*old(self)).insert(pid, process@),
    {
        self.inner.insert(pid, process);
    }

    /// `HashMap::get`: the process that `pid` stands for, if it stands for one.
    #[verifier::external_body]
    pub(crate) fn get(&self, pid: i32) -> (found: Option<&Process>)
        ensures
            found is Some <==> process_entries(*self).contains_key(pid),
            found matches Some(process) ==> process@ == process_entries(*self)[pid],
    {
        self.inner.get(&pid)
    }

    /// `HashMap::remove`: takes the entry of `pid` out of the table and hands
    /// its process over; no other entry changes.
    #[verifier::external_body]
    pub(crate) fn remove(&mut self, pid: i32) -> (taken: Option<Process>)
        ensures
            process_entries(*final(self)) == process_entries(*old(self)).remove(pid),
            taken is Some <==> process_entries(*old(self)).contains_key(pid),
            taken matches Some(process) ==> process@ == process_entries(*old(self))[pid],
    {
        self.inner.remove(&pid)
    }

    /// `HashMap::keys`, copied into a vector: every process id of the table
    /// once, in the order in which the table walks them.
    #[verifier::external_body]
    pub(crate) fn pids(&self) -> (pids: Vec<i32>)
        ensures
            pids@.no_duplicates(),
            pids@.to_set() == process_entries(*self).dom(),
    {
        self.inner.keys().copied().collect()
    }
}

/// The installed applications, by id.
#[derive(Debug)]
#[verifier::external_body]
pub struct AppTable {
    inner: hashbrown::HashMap<String, App>,
}

/// The entries of an `AppTable`: each id, as text, with what its application holds.
pub uninterp spec fn app_entries(table: AppTable) -> Map<Seq<char>, AppView>;

impl AppTable {
    /// `HashMap::new`: a table without entries.
    #[verifier::external_body]
    pub(crate) fn new() -> (table: AppTable)
        ensures
            app_entries(table) =~= Map::empty(),
    {
        AppTable { inner: hashbrown::HashMap::new() }
    }

    /// `HashMap::insert`: `id` now stands for `app`; no other entry changes.
    /// Two strings are one key when they hold the same characters.
    #[verifier::external_body]
    pub(crate) fn insert(&mut self, id: String, app: App)
        ensures
            app_entries(*final(self)) == app_entries(*old(self)).insert(id@, app@),
    {
        self.inner.insert(id, app);
    }

    /// `HashMap::get`: the application that `id` stands for, if it stands for one.
    #[verifier::external_body]
    pub(crate) fn get(&self, id: &str) -> (found: Option<&App>)
        ensures
            found is Some <==> app_entries(*self).contains_key(id@),
            found matches Some(app) ==> app@ == app_entries(*self)[id@],
    {
        self.inner.get(id)
    }

    /// `HashMap::remove`: takes the entry of `id` out of the table and hands
    /// its application over; no other entry changes.
    #[verifier::external_body]
    pub(crate) fn remove(&mut self, id: &str) -> (taken: Option<App>)
        ensures
            app_entries(*final(self)) == app_entries(*old(self)).remove(id@),
            taken is Some <==> app_entries(*old(self)).contains_key(id@),
            taken matches Some(app) ==> app@ == app_entries(*old(self))[id@],
    {
        self.inner.remove(id)
    }

    /// `HashMap::keys`, cloned into a vector: every id of the table once, in
    /// the order in which the table walks them.
    #[verifier::external_body]
    pub(crate) fn ids(&self) -> (ids: Vec<String>)
        ensures
            ids.deep_view().no_duplicates(),
            ids.deep_view().to_set() == app_entries(*self).dom(),
    {
        self.inner.keys().cloned().collect()
    }
}

/// A set of process ids.
#[derive(Debug)]
#[verifier::external_body]
pub struct PidSet {
    inner: hashbrown::HashSet<i32>,
}

/// The process ids that a `PidSet` holds.
pub uninterp spec fn pid_members(set: PidSet) -> Set<i32>;

impl PidSet {
    /// `HashSet::new`: a set without members.
    #[verifier::external_body]
    pub(crate) fn new() -> (set: PidSet)
        ensures
            pid_members(set) =~= Set::empty(),
    {
        PidSet { inner: hashbrown::HashSet::new() }
    }

    /// `HashSet::insert`: `pid` is a member from now on; no other membership changes.
    #[verifier::external_body]
    pub(crate) fn insert(&mut self, pid: i32)
        ensures
            pid_members(*final(self)) == pid_members(*old(self)).insert(pid),
    {
        self.inner.insert(pid);
    }

    /// `HashSet::contains`: whether `pid` is a member.
    #[verifier::external_body]
    pub(crate) fn contains(&self, pid: i32) -> (found: bool)
        ensures
            found == pid_members(*self).contains(pid),
    {
        self.inner.contains(&pid)
    }
}

/// A snapshot of the processes for display, by process id.
#[derive(Debug)]
#[verifier::external_body]
pub struct ProcessItems {
    inner: hashbrown::HashMap<i32, ProcessItem>,
}

/// The entries of a `ProcessItems`: each process id with what its item holds.
pub uninterp spec fn process_item_entries(items: ProcessItems) -> Map<i32, ProcessItemView>;

impl ProcessItems {
    /// `HashMap::new`: a snapshot without entries.
    #[verifier::external_body]
    pub(crate) fn new() -> (items: ProcessItems)
        ensures
            process_item_entries(items) =~= Map::empty(),
    {
        ProcessItems { inner: hashbrown::HashMap::new() }
    }

    /// `HashMap::insert`: `pid` now stands for `item`; no other entry changes.
    #[verifier::external_body]
    pub(crate) fn insert(&mut self, pid: i32, item: ProcessItem)
        ensures
            process_item_entries(*final(self)) == process_item_entries(*old(self)).insert(
                pid,
                item@,
            ),
    {
        self.inner.insert(pid, item);
    }

    /// `HashMap::get`: the item that `pid` stands for, if it stands for one.
    #[verifier::external_body]
    pub(crate) fn lookup(&self, pid: i32) -> (found: Option<&ProcessItem>)
        ensures
            found is Some <==> process_item_entries(*self).contains_key(pid),
            found matches Some(item) ==> item@ == process_item_entries(*self)[pid],
    {
        self.inner.get(&pid)
    }

    /// `HashMap::keys`, copied into a vector: every process id of the
    /// snapshot once, in the order in which the table walks them.
    #[verifier::external_body]
    pub(crate) fn keys(&self) -> (pids: Vec<i32>)
        ensures
            pids@.no_duplicates(),
            pids@.to_set() == process_item_entries(*self).dom(),
    {
        self.inner.keys().copied().collect()
    }
}

/// A snapshot of the running applications for display, by id; the entry
/// without an id stands for the processes that belong to no application.
#[derive(Debug)]
#[verifier::external_body]
pub struct AppItems {
    inner: hashbrown::HashMap<Option<String>, AppItem>,
}

/// The entries of an `AppItems`: each id, as text, with what its item holds.
pub uninterp spec fn app_item_entries(items: AppItems) -> Map<Option<Seq<char>>, AppItemView>;

impl AppItems {
    /// `HashMap::new`: a snapshot without entries.
    #[verifier::external_body]
    pub(crate) fn new() -> (items: AppItems)
        ensures
            app_item_entries(items) =~= Map::empty(),
    {
        AppItems { inner: hashbrown::HashMap::new() }
    }

    /// `HashMap::insert`: `id` now stands for `item`; no other entry changes.
    /// Two ids are one key when both are missing or both hold the same characters.
    #[verifier::external_body]
    pub(crate) fn insert(&mut self, id: Option<String>, item: AppItem)
        ensures
            app_item_entries(*final(self)) == app_item_entries(*old(self)).insert(
                optional_text(id),
                item@,
            ),
    {
        self.inner.insert(id, item);
    }

    /// `HashMap::get`: the item that `id` stands for, if it stands for one.
    #[verifier::external_body]
    pub(crate) fn lookup(&self, id: &Option<String>) -> (found: Option<&AppItem>)
        ensures
            found is Some <==> app_item_entries(*self).contains_key(optional_text(*id)),
            found matches Some(item) ==> item@ == app_item_entries(*self)[optional_text(*id)],
    {
        self.inner.get(id)
    }

    /// `HashMap::keys`, cloned into a vector: every id of the snapshot once,
    /// in the order in which the table walks them.
    #[verifier::external_body]
    pub(crate) fn keys(&self) -> (ids: Vec<Option<String>>)
        ensures
            ids.deep_view().no_duplicates(),
            ids.deep_view().to_set() == app_item_entries(*self).dom(),
    {
        self.inner.keys().cloned().collect()
    }
}

} // verus!
