//! Reading the snapshots that the tracker hands to the display.

use crate::app::AppItem;
use crate::processes::ProcessItem;
use crate::tables::{app_item_entries, process_item_entries, AppItems, ProcessItems};
use crate::text::optional_str;
use vstd::prelude::*;
use vstd::string::StringExecFns;

verus! {

impl ProcessItems {
    /// The item of the process `pid`, if the snapshot shows that process.
    pub fn get(&self, pid: i32) -> (r: Option<&ProcessItem>)
        ensures
            r is Some <==> process_item_entries(*self).contains_key(pid),
            r matches Some(item) ==> item@ == process_item_entries(*self)[pid],
    {
        self.lookup(pid)
    }

    /// Whether the snapshot shows the process `pid`.
    pub fn contains_key(&self, pid: i32) -> (r: bool)
        ensures
            r == process_item_entries(*self).contains_key(pid),
    {
        self.lookup(pid).is_some()
    }

    /// The ids of the processes that the snapshot shows, each once.
    pub fn pids(&self) -> (r: Vec<i32>)
        ensures
            r@.no_duplicates(),
            r@.to_set() == process_item_entries(*self).dom(),
    {
        self.keys()
    }

    /// How many processes the snapshot shows.
    pub fn len(&self) -> (r: usize)
        ensures
            r == process_item_entries(*self).dom().len(),
    {
        let pids = self.keys();
        proof {
            pids@.unique_seq_to_set();
        }
        pids.len()
    }

    /// Whether the snapshot shows no process.
    pub fn is_empty(&self) -> (r: bool)
        ensures
            r == (process_item_entries(*self).dom().len() == 0),
    {
        self.len() == 0
    }
}

impl AppItems {
    /// The item of the application `id`, or of the processes of no
    /// application where `id` is `None`, if the snapshot has it.
    pub fn get(&self, id: Option<&str>) -> (r: Option<&AppItem>)
        ensures
            r is Some <==> app_item_entries(*self).contains_key(optional_str(id)),
            r matches Some(item) ==> item@ == app_item_entries(*self)[optional_str(id)],
    {
        let key = match id {
            Some(text) => Some(String::from_str(text)),
            None => None,
        };
        self.lookup(&key)
    }

    /// Whether the snapshot has an item under `id`.
    pub fn contains_key(&self, id: Option<&str>) -> (r: bool)
        ensures
            r == app_item_entries(*self).contains_key(optional_str(id)),
    {
        self.get(id).is_some()
    }

    /// The ids of the items of the snapshot, each once.
    pub fn ids(&self) -> (r: Vec<Option<String>>)
        ensures
            r.deep_view().no_duplicates(),
            r.deep_view().to_set() == app_item_entries(*self).dom(),
    {
        self.keys()
    }

    /// How many items the snapshot has.
    pub fn len(&self) -> (r: usize)
        ensures
            r == app_item_entries(*self).dom().len(),
    {
        let ids = self.keys();
        proof {
            ids.deep_view().unique_seq_to_set();
        }
        ids.len()
    }
}

} // verus!
