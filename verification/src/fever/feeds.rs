use vstd::prelude::*;

use crate::storage::feeds::{spec_all_feeds, spec_last_refreshed, FeedModel, UrlModel};
use crate::storage::Store;

verus! {

/// One feed as the read API reports it.
pub struct FeedFever {
    pub id: u64,
    pub favicon_id: u64,
    pub title: String,
    pub url: String,
    pub site_url: String,
    pub is_spark: u8,
    pub last_updated_on_time: u64,
}

/// The mathematical contents of a reported feed.
pub struct FeedFeverModel {
    pub id: u64,
    pub favicon_id: u64,
    pub title: Seq<char>,
    pub url: Seq<char>,
    pub site_url: Seq<char>,
    pub is_spark: u8,
    pub last_updated_on_time: u64,
}

impl View for FeedFever {
    type V = FeedFeverModel;

    open spec fn view(&self) -> FeedFeverModel {
        FeedFeverModel {
            id: self.id,
            favicon_id: self.favicon_id,
            title: self.title@,
            url: self.url@,
            site_url: self.site_url@,
            is_spark: self.is_spark,
            last_updated_on_time: self.last_updated_on_time,
        }
    }
}

/// How one stored feed and its canonical URL are reported: the feed id
/// doubles as favicon id, the site URL is left empty, and the spark
/// flag is off.
pub open spec fn spec_fever_feed(p: (FeedModel, UrlModel)) -> FeedFeverModel {
    FeedFeverModel {
        id: p.0.id,
        favicon_id: p.0.id,
        title: p.0.title,
        url: p.1.url,
        site_url: Seq::empty(),
        is_spark: 0,
        last_updated_on_time: p.0.last_updated,
    }
}

/// The views of a reported feed list.
pub open spec fn spec_fever_feed_views(v: Seq<FeedFever>) -> Seq<FeedFeverModel> {
    v.map_values(|x: FeedFever| x@)
}

/// Every stored feed with its canonical URL, as the read API reports it.
pub fn get_all_feeds(store: &Store) -> (r: Vec<FeedFever>)
    ensures
        spec_fever_feed_views(r@) == spec_all_feeds(store@.feeds, store@.urls).map_values(
            |p: (FeedModel, UrlModel)| spec_fever_feed(p),
        ),
{
    let ghost total = spec_all_feeds(store@.feeds, store@.urls).map_values(
        |p: (FeedModel, UrlModel)| spec_fever_feed(p),
    );
    let mut pairs = match crate::storage::feeds::get_all_feeds(store) {
        Some(v) => v,
        None => Vec::new(),
    };
    let mut out: Vec<FeedFever> = Vec::new();
    proof {
        assert(spec_fever_feed_views(out@) + crate::storage::feeds::spec_feed_pair_views(
            pairs@,
        ).map_values(|p: (FeedModel, UrlModel)| spec_fever_feed(p)) =~= total);
    }
    while pairs.len() > 0
        invariant
            spec_fever_feed_views(out@) + crate::storage::feeds::spec_feed_pair_views(
                pairs@,
            ).map_values(|p: (FeedModel, UrlModel)| spec_fever_feed(p)) == total,
        decreases pairs.len(),
    {
        let ghost prevout = out@;
        let ghost prevpairs = pairs@;
        let (f, u) = pairs.remove(0);
        out.push(
            FeedFever {
                id: f.id,
                favicon_id: f.id,
                title: f.title,
                url: u.url,
                site_url: String::new(),
                is_spark: 0,
                last_updated_on_time: f.last_updated,
            },
        );
        proof {
            assert(pairs@ =~= prevpairs.skip(1));
            assert(spec_fever_feed_views(out@) + crate::storage::feeds::spec_feed_pair_views(
                pairs@,
            ).map_values(|p: (FeedModel, UrlModel)| spec_fever_feed(p)) =~= total);
        }
    }
    proof {
        assert(spec_fever_feed_views(out@) =~= total);
    }
    out
}

/// The most recent refresh time over all feeds, 0 when none is stored.
pub fn get_last_refreshed_time(store: &Store) -> (r: u64)
    ensures
        r == spec_last_refreshed(store@.feeds),
{
    crate::storage::feeds::get_last_refreshed_time(store)
}

} // verus!
