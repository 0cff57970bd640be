use vstd::prelude::*;

pub mod feeds;
pub mod items;

use crate::storage::feeds::{Feed, FeedModel, FeedUrl, UrlModel};
use crate::storage::items::{ItemModel, ItemRow};

verus! {

/// The in-memory relational store: feeds, their observed URLs, and items.
/// It models the persistence layer; durability is the caller's business.
pub struct Store {
    pub feeds: Vec<Feed>,
    pub urls: Vec<FeedUrl>,
    pub items: Vec<ItemRow>,
    pub next_feed_id: u64,
    pub next_url_id: u64,
    pub next_item_id: u64,
}

/// The mathematical contents of a `Store`.
pub struct StoreModel {
    pub feeds: Seq<FeedModel>,
    pub urls: Seq<UrlModel>,
    pub items: Seq<ItemModel>,
    pub next_feed_id: u64,
    pub next_url_id: u64,
    pub next_item_id: u64,
}

impl View for Store {
    type V = StoreModel;

    open spec fn view(&self) -> StoreModel {
        StoreModel {
            feeds: self.feeds@.map_values(|f: Feed| f@),
            urls: self.urls@.map_values(|u: FeedUrl| u@),
            items: self.items@.map_values(|r: ItemRow| r@),
            next_feed_id: self.next_feed_id,
            next_url_id: self.next_url_id,
            next_item_id: self.next_item_id,
        }
    }
}

impl StoreModel {
    /// Row identities are unique and below their allocation counters, and
    /// no two items share a (feed id, guid) pair: the dedup invariant.
    pub open spec fn wf(self) -> bool {
        &&& forall|i: int|
            0 <= i < self.feeds.len() ==> (#[trigger] self.feeds[i]).id < self.next_feed_id
        &&& forall|i: int, j: int|
            0 <= i < j < self.feeds.len() ==> (#[trigger] self.feeds[i]).id != (
            #[trigger] self.feeds[j]).id
        &&& forall|i: int|
            0 <= i < self.urls.len() ==> (#[trigger] self.urls[i]).id < self.next_url_id
        &&& forall|i: int, j: int|
            0 <= i < j < self.urls.len() ==> (#[trigger] self.urls[i]).id != (
            #[trigger] self.urls[j]).id
        &&& forall|i: int|
            0 <= i < self.items.len() ==> (#[trigger] self.items[i]).id < self.next_item_id
        &&& forall|i: int, j: int|
            0 <= i < j < self.items.len() ==> (#[trigger] self.items[i]).id != (
            #[trigger] self.items[j]).id
        &&& forall|i: int, j: int|
            0 <= i < j < self.items.len() ==> !((#[trigger] self.items[i]).feed_id == (
            #[trigger] self.items[j]).feed_id && self.items[i].guid == self.items[j].guid)
    }
}

impl Store {
    /// A fresh, empty store.  Row ids start at 1, as the storage engine's do.
    pub fn new() -> (st: Store)
        ensures
            st@.wf(),
            st@.feeds.len() == 0,
            st@.urls.len() == 0,
            st@.items.len() == 0,
            st@.next_feed_id == 1,
            st@.next_url_id == 1,
            st@.next_item_id == 1,
    {
        Store {
            feeds: Vec::new(),
            urls: Vec::new(),
            items: Vec::new(),
            next_feed_id: 1,
            next_url_id: 1,
            next_item_id: 1,
        }
    }
}

/// Schema set-up hook.  The in-memory store needs no migration steps.
pub fn migrations() {
}

} // verus!
