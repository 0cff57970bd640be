use vstd::prelude::*;

use crate::common::{first_index, lemma_first_index, lemma_first_index_is, lemma_first_index_none};
use crate::common::strutil::str_eq;
use crate::storage::{Store, StoreModel};

verus! {

/// One feed row: identity, display title, last-refresh time in epoch seconds.
pub struct Feed {
    pub id: u64,
    pub title: String,
    pub last_updated: u64,
}

/// One URL ever observed for a feed.  A feed may accumulate several rows
/// over time; the row with the largest id is its canonical display URL.
pub struct FeedUrl {
    pub id: u64,
    pub feed_id: u64,
    pub url: String,
}

/// The mathematical contents of a `Feed` row.
pub struct FeedModel {
    pub id: u64,
    pub title: Seq<char>,
    pub last_updated: u64,
}

/// The mathematical contents of a `FeedUrl` row.
pub struct UrlModel {
    pub id: u64,
    pub feed_id: u64,
    pub url: Seq<char>,
}

impl View for Feed {
    type V = FeedModel;

    open spec fn view(&self) -> FeedModel {
        FeedModel { id: self.id, title: self.title@, last_updated: self.last_updated }
    }
}

impl View for FeedUrl {
    type V = UrlModel;

    open spec fn view(&self) -> UrlModel {
        UrlModel { id: self.id, feed_id: self.feed_id, url: self.url@ }
    }
}

/// The predicate picking URL rows whose text is `url`.
pub open spec fn url_pred(url: Seq<char>) -> spec_fn(UrlModel) -> bool {
    |u: UrlModel| u.url == url
}

/// The feed owning the first URL row that matches `url`, if any.
pub open spec fn spec_feed_id_by_url(m: StoreModel, url: Seq<char>) -> Option<u64> {
    let i = first_index(m.urls, url_pred(url));
    if i < 0 {
        None
    } else {
        Some(m.urls[i].feed_id)
    }
}

/// Find the first URL row matching `url`.
fn find_url_index(store: &Store, url: &str) -> (r: Option<usize>)
    ensures
        ({
            let i = first_index(store@.urls, url_pred(url@));
            match r {
                Some(k) => i == k && k < store@.urls.len(),
                None => i == -1,
            }
        }),
{
    let n = store.urls.len();
    let mut k: usize = 0;
    while k < n
        invariant
            k <= n,
            n == store.urls@.len(),
            forall|j: int| 0 <= j < k ==> !url_pred(url@)(#[trigger] store@.urls[j]),
        decreases n - k,
    {
        if str_eq(store.urls[k].url.as_str(), url) {
            proof {
                lemma_first_index_is(store@.urls, url_pred(url@), k as int);
            }
            return Some(k);
        }
        k = k + 1;
    }
    proof {
        lemma_first_index_none(store@.urls, url_pred(url@));
    }
    None
}

/// Look a feed up by URL across all known locations.
pub fn get_feed_id_by_url(store: &Store, url: &str) -> (r: Option<u64>)
    ensures
        r == spec_feed_id_by_url(store@, url@),
{
    match find_url_index(store, url) {
        Some(k) => Some(store.urls[k].feed_id),
        None => None,
    }
}

/// How refreshing touches one feed row: the row with the refreshed id keeps
/// its title and only ever moves its last-refresh time forward.
pub open spec fn spec_touch(f: FeedModel, fid: u64, now: u64) -> FeedModel {
    if f.id == fid && now > f.last_updated {
        FeedModel { id: f.id, title: f.title, last_updated: now }
    } else {
        f
    }
}

/// The store, feed id, location id and creation flag that `upsert_feed`
/// produces: an existing feed is only touched, an unknown URL gets a fresh
/// feed row and a fresh location row.
pub open spec fn spec_upsert_feed(m: StoreModel, url: Seq<char>, title: Seq<char>, now: u64) -> (
    StoreModel,
    u64,
    u64,
    bool,
) {
    let i = first_index(m.urls, url_pred(url));
    if i >= 0 {
        let fid = m.urls[i].feed_id;
        (
            StoreModel {
                feeds: m.feeds.map_values(|f: FeedModel| spec_touch(f, fid, now)),
                urls: m.urls,
                items: m.items,
                next_feed_id: m.next_feed_id,
                next_url_id: m.next_url_id,
                next_item_id: m.next_item_id,
            },
            fid,
            m.urls[i].id,
            false,
        )
    } else {
        (
            StoreModel {
                feeds: m.feeds.push(
                    FeedModel { id: m.next_feed_id, title: title, last_updated: now },
                ),
                urls: m.urls.push(
                    UrlModel { id: m.next_url_id, feed_id: m.next_feed_id, url: url },
                ),
                items: m.items,
                next_feed_id: (m.next_feed_id + 1) as u64,
                next_url_id: (m.next_url_id + 1) as u64,
                next_item_id: m.next_item_id,
            },
            m.next_feed_id,
            m.next_url_id,
            true,
        )
    }
}

/// Upsert a feed by URL: a known URL only moves the owning feed's
/// last-refresh time forward (the originally seen title is preserved);
/// an unknown URL creates a feed row and a location row.  Returns the
/// feed id, the location id, and whether the feed was created.
pub fn upsert_feed(store: &mut Store, url: &str, title: &str, now: u64) -> (r: (u64, u64, bool))
    requires
        old(store)@.wf(),
        old(store)@.next_feed_id < u64::MAX,
        old(store)@.next_url_id < u64::MAX,
    ensures
        final(store)@.wf(),
        ({
            let (m2, fid, uid, created) = spec_upsert_feed(old(store)@, url@, title@, now);
            final(store)@ == m2 && r.0 == fid && r.1 == uid && r.2 == created
        }),
{
    let ghost m0 = store@;
    proof {
        lemma_first_index(m0.urls, url_pred(url@));
    }
    match find_url_index(store, url) {
        Some(k) => {
            let fid = store.urls[k].feed_id;
            let uid = store.urls[k].id;
            let n = store.feeds.len();
            let mut j: usize = 0;
            while j < n
                invariant
                    j <= n,
                    n == store.feeds@.len(),
                    store@.urls == m0.urls,
                    store@.items == m0.items,
                    store@.next_feed_id == m0.next_feed_id,
                    store@.next_url_id == m0.next_url_id,
                    store@.next_item_id == m0.next_item_id,
                    store@.feeds.len() == m0.feeds.len(),
                    forall|p: int|
                        0 <= p < j ==> (#[trigger] store@.feeds[p]) == spec_touch(
                            m0.feeds[p],
                            fid,
                            now,
                        ),
                    forall|p: int| j <= p < n ==> (#[trigger] store@.feeds[p]) == m0.feeds[p],
                decreases n - j,
            {
                let ghost prevfeeds = store.feeds@;
                proof {
                    assert(store.feeds@[j as int]@ == store@.feeds[j as int]);
                }
                if store.feeds[j].id == fid && now > store.feeds[j].last_updated {
                    let idv = store.feeds[j].id;
                    let t = store.feeds[j].title.clone();
                    store.feeds[j] = Feed { id: idv, title: t, last_updated: now };
                }
                proof {
                    assert(store@.feeds[j as int] == spec_touch(m0.feeds[j as int], fid, now)) by {
                        assert(store.feeds@[j as int]@ == store@.feeds[j as int]);
                    }
                    assert forall|p: int| 0 <= p < n && p != j as int implies (
                    #[trigger] store@.feeds[p]) == prevfeeds.map_values(|f: Feed| f@)[p] by {
                        assert(store.feeds@[p] == prevfeeds[p]);
                        assert(store@.feeds[p] == store.feeds@[p]@);
                        assert(prevfeeds.map_values(|f: Feed| f@)[p] == prevfeeds[p]@);
                    }
                }
                j = j + 1;
            }
            proof {
                assert(store@.feeds =~= m0.feeds.map_values(
                    |f: FeedModel| spec_touch(f, fid, now),
                ));
                assert(store@ =~= spec_upsert_feed(m0, url@, title@, now).0);
            }
            (fid, uid, false)
        },
        None => {
            let fid = store.next_feed_id;
            let uid = store.next_url_id;
            store.feeds.push(Feed { id: fid, title: title.to_owned(), last_updated: now });
            store.urls.push(FeedUrl { id: uid, feed_id: fid, url: url.to_owned() });
            store.next_feed_id = fid + 1;
            store.next_url_id = uid + 1;
            proof {
                assert(store@.feeds =~= m0.feeds.push(
                    FeedModel { id: fid, title: title@, last_updated: now },
                ));
                assert(store@.urls =~= m0.urls.push(
                    UrlModel { id: uid, feed_id: fid, url: url@ },
                ));
                assert(store@ =~= spec_upsert_feed(m0, url@, title@, now).0);
            }
            (fid, uid, true)
        },
    }
}

/// The largest last-refresh time over all feeds, or 0 with no feeds.
pub open spec fn spec_last_refreshed(feeds: Seq<FeedModel>) -> u64
    decreases feeds.len(),
{
    if feeds.len() == 0 {
        0u64
    } else {
        let rest = spec_last_refreshed(feeds.drop_last());
        if feeds.last().last_updated > rest {
            feeds.last().last_updated
        } else {
            rest
        }
    }
}

/// The most recent refresh time over all feeds, 0 when none is stored.
pub fn get_last_refreshed_time(store: &Store) -> (r: u64)
    ensures
        r == spec_last_refreshed(store@.feeds),
{
    let n = store.feeds.len();
    let mut best: u64 = 0;
    let mut i: usize = 0;
    while i < n
        invariant
            i <= n,
            n == store.feeds@.len(),
            best == spec_last_refreshed(store@.feeds.take(i as int)),
        decreases n - i,
    {
        proof {
            assert(store@.feeds.take(i + 1).drop_last() =~= store@.feeds.take(i as int));
            assert(store@.feeds.take(i + 1).last() == store@.feeds[i as int]);
        }
        if store.feeds[i].last_updated > best {
            best = store.feeds[i].last_updated;
        }
        i = i + 1;
    }
    proof {
        assert(store@.feeds.take(n as int) =~= store@.feeds);
    }
    best
}


/// What one `spec_upsert_feed` step does and keeps: creation happens
/// exactly for an unseen URL, the URL resolves to the returned feed id
/// afterwards, items are untouched, and well-formedness is preserved.
pub proof fn lemma_upsert_feed_props(m: StoreModel, url: Seq<char>, title: Seq<char>, now: u64)
    ensures
        ({
            let (m2, fid, uid, created) = spec_upsert_feed(m, url, title, now);
            &&& created == (spec_feed_id_by_url(m, url) is None)
            &&& (!created ==> spec_feed_id_by_url(m, url) == Some(fid) && m2.urls == m.urls)
            &&& spec_feed_id_by_url(m2, url) == Some(fid)
            &&& m2.items == m.items
            &&& m2.next_item_id == m.next_item_id
            &&& (m.wf() && m.next_feed_id < u64::MAX && m.next_url_id < u64::MAX ==> m2.wf())
        }),
{
    let (m2, fid, uid, created) = spec_upsert_feed(m, url, title, now);
    lemma_first_index(m.urls, url_pred(url));
    if created {
        assert(url_pred(url)(m2.urls.last()));
        assert(forall|k: int| 0 <= k < m.urls.len() ==> m2.urls[k] == #[trigger] m.urls[k]);
        lemma_first_index_is(m2.urls, url_pred(url), m.urls.len() as int);
        if m.wf() && m.next_feed_id < u64::MAX && m.next_url_id < u64::MAX {
            assert(m2.wf());
        }
    } else {
        let i = first_index(m.urls, url_pred(url));
        if m.wf() && m.next_feed_id < u64::MAX && m.next_url_id < u64::MAX {
            assert forall|p: int| 0 <= p < m2.feeds.len() implies (#[trigger] m2.feeds[p]).id
                == m.feeds[p].id by {
                assert(m2.feeds[p] == spec_touch(m.feeds[p], fid, now));
            }
            assert(m2.wf());
        }
    }
}


/// The URL row of a feed with the largest id — the canonical display
/// URL, the most recently inserted one — if the feed has any.
pub open spec fn spec_best_url(urls: Seq<UrlModel>, fid: u64) -> Option<UrlModel>
    decreases urls.len(),
{
    if urls.len() == 0 {
        None
    } else {
        let rest = spec_best_url(urls.drop_last(), fid);
        let u = urls.last();
        if u.feed_id == fid {
            match rest {
                Some(b) => if u.id > b.id {
                    Some(u)
                } else {
                    Some(b)
                },
                None => Some(u),
            }
        } else {
            rest
        }
    }
}

/// Every feed paired with its canonical display URL, in store order;
/// feeds without any URL row are left out.
pub open spec fn spec_all_feeds(feeds: Seq<FeedModel>, urls: Seq<UrlModel>) -> Seq<
    (FeedModel, UrlModel),
>
    decreases feeds.len(),
{
    if feeds.len() == 0 {
        Seq::empty()
    } else {
        spec_all_feeds(feeds.drop_last(), urls) + match spec_best_url(urls, feeds.last().id) {
            Some(u) => seq![(feeds.last(), u)],
            None => Seq::<(FeedModel, UrlModel)>::empty(),
        }
    }
}

fn best_url_index(store: &Store, fid: u64) -> (r: Option<usize>)
    ensures
        match r {
            Some(k) => k < store@.urls.len() && spec_best_url(store@.urls, fid) == Some(
                store@.urls[k as int],
            ),
            None => spec_best_url(store@.urls, fid) is None,
        },
{
    let n = store.urls.len();
    let mut best: Option<usize> = None;
    let mut j: usize = 0;
    while j < n
        invariant
            j <= n,
            n == store@.urls.len(),
            match best {
                Some(k) => k < j && spec_best_url(store@.urls.take(j as int), fid) == Some(
                    store@.urls[k as int],
                ),
                None => spec_best_url(store@.urls.take(j as int), fid) is None,
            },
        decreases n - j,
    {
        proof {
            assert(store@.urls.take(j + 1).drop_last() =~= store@.urls.take(j as int));
            assert(store@.urls.take(j + 1).last() == store@.urls[j as int]);
        }
        if store.urls[j].feed_id == fid {
            match best {
                Some(k) => {
                    if store.urls[j].id > store.urls[k].id {
                        best = Some(j);
                    }
                },
                None => {
                    best = Some(j);
                },
            }
        }
        j = j + 1;
    }
    proof {
        assert(store@.urls.take(n as int) =~= store@.urls);
    }
    best
}

/// The views of a feed/URL pair list.
pub open spec fn spec_feed_pair_views(v: Seq<(Feed, FeedUrl)>) -> Seq<(FeedModel, UrlModel)> {
    v.map_values(|p: (Feed, FeedUrl)| (p.0@, p.1@))
}

/// Every feed with its canonical display URL, in store order, leaving
/// out feeds that never had a URL row.
pub fn get_all_feeds(store: &Store) -> (r: Option<Vec<(Feed, FeedUrl)>>)
    ensures
        ({
            let pairs = spec_all_feeds(store@.feeds, store@.urls);
            r matches Some(v) && spec_feed_pair_views(v@) == pairs
        }),
{
    let n = store.feeds.len();
    let mut out: Vec<(Feed, FeedUrl)> = Vec::new();
    proof {
        assert(store@.feeds.take(0) =~= Seq::<FeedModel>::empty());
        assert(spec_feed_pair_views(out@) =~= spec_all_feeds(
            store@.feeds.take(0),
            store@.urls,
        ));
    }
    let mut i: usize = 0;
    while i < n
        invariant
            i <= n,
            n == store@.feeds.len(),
            spec_feed_pair_views(out@) == spec_all_feeds(store@.feeds.take(i as int), store@.urls),
        decreases n - i,
    {
        let ghost prevout = out@;
        proof {
            assert(store@.feeds.take(i + 1).drop_last() =~= store@.feeds.take(i as int));
            assert(store@.feeds.take(i + 1).last() == store@.feeds[i as int]);
            assert(store.feeds@[i as int]@ == store@.feeds[i as int]);
        }
        let f = &store.feeds[i];
        match best_url_index(store, f.id) {
            Some(k) => {
                let u = &store.urls[k];
                let fc = Feed { id: f.id, title: f.title.clone(), last_updated: f.last_updated };
                let uc = FeedUrl { id: u.id, feed_id: u.feed_id, url: u.url.clone() };
                out.push((fc, uc));
                proof {
                    assert(store.urls@[k as int]@ == store@.urls[k as int]);
                    assert(spec_feed_pair_views(out@) =~= spec_all_feeds(
                        store@.feeds.take(i + 1),
                        store@.urls,
                    ));
                }
            },
            None => {
                proof {
                    assert(spec_feed_pair_views(out@) =~= spec_all_feeds(
                        store@.feeds.take(i + 1),
                        store@.urls,
                    ));
                }
            },
        }
        i = i + 1;
    }
    proof {
        assert(store@.feeds.take(n as int) =~= store@.feeds);
    }
    Some(out)
}

} // verus!
