use vstd::prelude::*;

use crate::common::{
    eq_pred, first_index, lemma_first_index, lemma_first_index_is, lemma_first_index_none,
};
use crate::common::strutil::{chars_of, parse_u64, spec_parse_u64, str_eq};
use crate::storage::{Store, StoreModel};

verus! {

/// One item as the read-facing API reports it.
pub struct Item {
    pub id: u64,
    pub feed_id: u64,
    pub title: String,
    pub author: String,
    pub html: String,
    pub url: String,
    pub is_saved: u8,
    pub is_read: u8,
    pub created_on_time: u64,
}

/// One stored item row: the reported fields plus the provider-assigned
/// guid that scopes deduplication to (feed id, guid).
pub struct ItemRow {
    pub guid: String,
    pub data: Item,
}

/// The mathematical contents of an item row.
pub struct ItemModel {
    pub id: u64,
    pub feed_id: u64,
    pub guid: Seq<char>,
    pub title: Seq<char>,
    pub author: Seq<char>,
    pub html: Seq<char>,
    pub url: Seq<char>,
    pub is_saved: u8,
    pub is_read: u8,
    pub created_on_time: u64,
}

impl View for ItemRow {
    type V = ItemModel;

    open spec fn view(&self) -> ItemModel {
        ItemModel {
            id: self.data.id,
            feed_id: self.data.feed_id,
            guid: self.guid@,
            title: self.data.title@,
            author: self.data.author@,
            html: self.data.html@,
            url: self.data.url@,
            is_saved: self.data.is_saved,
            is_read: self.data.is_read,
            created_on_time: self.data.created_on_time,
        }
    }
}

/// The predicate picking item rows with the given feed id and guid.
pub open spec fn item_pred(feed_id: u64, guid: Seq<char>) -> spec_fn(ItemModel) -> bool {
    |r: ItemModel| r.feed_id == feed_id && r.guid == guid
}

/// Whether the store already holds an item for (feed id, guid).
pub open spec fn spec_item_exists(m: StoreModel, feed_id: u64, guid: Seq<char>) -> bool {
    first_index(m.items, item_pred(feed_id, guid)) >= 0
}

/// The store, item id and creation flag that `create_item` produces: an
/// existing (feed id, guid) pair is returned untouched, a new pair is
/// appended, substituting `now` for a zero timestamp.
pub open spec fn spec_create_item(
    m: StoreModel,
    feed_id: u64,
    guid: Seq<char>,
    title: Seq<char>,
    html: Seq<char>,
    url: Seq<char>,
    author: Seq<char>,
    created_at: u64,
    now: u64,
) -> (StoreModel, u64, bool) {
    let i = first_index(m.items, item_pred(feed_id, guid));
    if i >= 0 {
        (m, m.items[i].id, false)
    } else {
        let row = ItemModel {
            id: m.next_item_id,
            feed_id: feed_id,
            guid: guid,
            title: title,
            author: author,
            html: html,
            url: url,
            is_saved: 0,
            is_read: 0,
            created_on_time: if created_at == 0 {
                now
            } else {
                created_at
            },
        };
        (
            StoreModel {
                feeds: m.feeds,
                urls: m.urls,
                items: m.items.push(row),
                next_feed_id: m.next_feed_id,
                next_url_id: m.next_url_id,
                next_item_id: (m.next_item_id + 1) as u64,
            },
            m.next_item_id,
            true,
        )
    }
}

/// Find the first item row with this feed id and guid.
fn find_item_index(store: &Store, feed_id: u64, guid: &str) -> (r: Option<usize>)
    ensures
        ({
            let i = first_index(store@.items, item_pred(feed_id, guid@));
            match r {
                Some(k) => i == k && k < store@.items.len(),
                None => i == -1,
            }
        }),
{
    let n = store.items.len();
    let mut k: usize = 0;
    while k < n
        invariant
            k <= n,
            n == store.items@.len(),
            forall|j: int| 0 <= j < k ==> !item_pred(feed_id, guid@)(#[trigger] store@.items[j]),
        decreases n - k,
    {
        if store.items[k].data.feed_id == feed_id && str_eq(store.items[k].guid.as_str(), guid) {
            proof {
                lemma_first_index_is(store@.items, item_pred(feed_id, guid@), k as int);
            }
            return Some(k);
        }
        k = k + 1;
    }
    proof {
        lemma_first_index_none(store@.items, item_pred(feed_id, guid@));
    }
    None
}

/// Create an item unless its (feed id, guid) pair is already stored.
/// Returns the stored item's id and whether it was newly created; a
/// zero `created_at` is replaced by `now` on insertion.  Re-ingesting
/// an existing pair never mutates the store.
pub fn create_item(
    store: &mut Store,
    feed_id: u64,
    guid: &str,
    title: &str,
    html: &str,
    url: &str,
    author: &str,
    created_at: u64,
    now: u64,
) -> (r: (u64, bool))
    requires
        old(store)@.wf(),
        old(store)@.next_item_id < u64::MAX,
    ensures
        final(store)@.wf(),
        ({
            let (m2, id, created) = spec_create_item(
                old(store)@,
                feed_id,
                guid@,
                title@,
                html@,
                url@,
                author@,
                created_at,
                now,
            );
            final(store)@ == m2 && r.0 == id && r.1 == created
        }),
{
    let ghost m0 = store@;
    proof {
        lemma_first_index(m0.items, item_pred(feed_id, guid@));
    }
    match find_item_index(store, feed_id, guid) {
        Some(k) => {
            proof {
                assert(store@ =~= spec_create_item(
                    m0,
                    feed_id,
                    guid@,
                    title@,
                    html@,
                    url@,
                    author@,
                    created_at,
                    now,
                ).0);
            }
            (store.items[k].data.id, false)
        },
        None => {
            let id = store.next_item_id;
            let row = ItemRow {
                guid: guid.to_owned(),
                data: Item {
                    id: id,
                    feed_id: feed_id,
                    title: title.to_owned(),
                    author: author.to_owned(),
                    html: html.to_owned(),
                    url: url.to_owned(),
                    is_saved: 0,
                    is_read: 0,
                    created_on_time: if created_at == 0 {
                        now
                    } else {
                        created_at
                    },
                },
            };
            store.items.push(row);
            store.next_item_id = id + 1;
            proof {
                let (m2, sid, screated) = spec_create_item(
                    m0,
                    feed_id,
                    guid@,
                    title@,
                    html@,
                    url@,
                    author@,
                    created_at,
                    now,
                );
                assert(store@.items =~= m2.items);
                assert(store@ =~= m2);
            }
            (id, true)
        },
    }
}


/// `spec_item_exists` holds exactly when some row carries the pair.
pub proof fn lemma_item_exists_iff(m: StoreModel, feed_id: u64, guid: Seq<char>)
    ensures
        spec_item_exists(m, feed_id, guid) <==> exists|k: int|
            0 <= k < m.items.len() && (#[trigger] m.items[k]).feed_id == feed_id
                && m.items[k].guid == guid,
{
    lemma_first_index(m.items, item_pred(feed_id, guid));
    if spec_item_exists(m, feed_id, guid) {
        let i = first_index(m.items, item_pred(feed_id, guid));
        assert((m.items[i]).feed_id == feed_id && m.items[i].guid == guid);
    }
    if exists|k: int|
        0 <= k < m.items.len() && (#[trigger] m.items[k]).feed_id == feed_id && m.items[k].guid
            == guid {
        let k = choose|k: int|
            0 <= k < m.items.len() && (#[trigger] m.items[k]).feed_id == feed_id
                && m.items[k].guid == guid;
        assert(item_pred(feed_id, guid)(m.items[k]));
    }
}

/// What one `spec_create_item` step does and keeps: creation happens
/// exactly for an unseen pair, the pair is stored afterwards, nothing
/// else moves, existing pairs survive, and well-formedness is preserved.
pub proof fn lemma_create_item_props(
    m: StoreModel,
    feed_id: u64,
    guid: Seq<char>,
    title: Seq<char>,
    html: Seq<char>,
    url: Seq<char>,
    author: Seq<char>,
    created_at: u64,
    now: u64,
)
    ensures
        ({
            let (m2, id, created) = spec_create_item(
                m,
                feed_id,
                guid,
                title,
                html,
                url,
                author,
                created_at,
                now,
            );
            &&& created == !spec_item_exists(m, feed_id, guid)
            &&& spec_item_exists(m2, feed_id, guid)
            &&& m2.feeds == m.feeds
            &&& m2.urls == m.urls
            &&& m2.next_feed_id == m.next_feed_id
            &&& m2.next_url_id == m.next_url_id
            &&& m2.next_item_id <= m.next_item_id + 1
            &&& (!created ==> m2 == m)
            &&& (created ==> m2.items.len() == m.items.len() + 1)
            &&& forall|f2: u64, g2: Seq<char>|
                #[trigger] spec_item_exists(m, f2, g2) ==> spec_item_exists(m2, f2, g2)
            &&& (m.wf() && m.next_item_id < u64::MAX ==> m2.wf())
        }),
{
    let (m2, id, created) = spec_create_item(
        m,
        feed_id,
        guid,
        title,
        html,
        url,
        author,
        created_at,
        now,
    );
    lemma_first_index(m.items, item_pred(feed_id, guid));
    if created {
        let row = m2.items.last();
        assert forall|f2: u64, g2: Seq<char>| #[trigger] spec_item_exists(m, f2, g2) implies
            spec_item_exists(m2, f2, g2) by {
            lemma_item_exists_iff(m, f2, g2);
            lemma_item_exists_iff(m2, f2, g2);
            let k = choose|k: int|
                0 <= k < m.items.len() && (#[trigger] m.items[k]).feed_id == f2 && m.items[k].guid
                    == g2;
            assert(m2.items[k] == m.items[k]);
        }
        lemma_item_exists_iff(m2, feed_id, guid);
        assert(m2.items[m.items.len() as int].feed_id == feed_id);
        if m.wf() && m.next_item_id < u64::MAX {
            assert forall|i: int, j: int| 0 <= i < j < m2.items.len() implies !((
            #[trigger] m2.items[i]).feed_id == (#[trigger] m2.items[j]).feed_id && m2.items[i].guid
                == m2.items[j].guid) by {
                if j == m.items.len() as int {
                    assert(!item_pred(feed_id, guid)(m.items[i]));
                }
            }
            assert(m2.wf());
        }
    } else {
        lemma_item_exists_iff(m, feed_id, guid);
        lemma_item_exists_iff(m2, feed_id, guid);
    }
}


/// The read-facing fields of an item row.
pub struct ItemView {
    pub id: u64,
    pub feed_id: u64,
    pub title: Seq<char>,
    pub author: Seq<char>,
    pub html: Seq<char>,
    pub url: Seq<char>,
    pub is_saved: u8,
    pub is_read: u8,
    pub created_on_time: u64,
}

impl View for Item {
    type V = ItemView;

    open spec fn view(&self) -> ItemView {
        ItemView {
            id: self.id,
            feed_id: self.feed_id,
            title: self.title@,
            author: self.author@,
            html: self.html@,
            url: self.url@,
            is_saved: self.is_saved,
            is_read: self.is_read,
            created_on_time: self.created_on_time,
        }
    }
}

/// The read-facing view of a stored row.
pub open spec fn item_view_of(m: ItemModel) -> ItemView {
    ItemView {
        id: m.id,
        feed_id: m.feed_id,
        title: m.title,
        author: m.author,
        html: m.html,
        url: m.url,
        is_saved: m.is_saved,
        is_read: m.is_read,
        created_on_time: m.created_on_time,
    }
}

fn clone_item(it: &Item) -> (r: Item)
    ensures
        r == *it,
{
    Item {
        id: it.id,
        feed_id: it.feed_id,
        title: it.title.clone(),
        author: it.author.clone(),
        html: it.html.clone(),
        url: it.url.clone(),
        is_saved: it.is_saved,
        is_read: it.is_read,
        created_on_time: it.created_on_time,
    }
}

/// The rows satisfying `p`, in store order.
pub open spec fn spec_filter_items(items: Seq<ItemModel>, p: spec_fn(ItemModel) -> bool) -> Seq<
    ItemModel,
>
    decreases items.len(),
{
    if items.len() == 0 {
        Seq::empty()
    } else {
        spec_filter_items(items.drop_last(), p) + if p(items.last()) {
            seq![items.last()]
        } else {
            Seq::empty()
        }
    }
}

/// The ids of the rows satisfying `p`, in store order.
pub open spec fn spec_filter_ids(items: Seq<ItemModel>, p: spec_fn(ItemModel) -> bool) -> Seq<
    u64,
>
    decreases items.len(),
{
    if items.len() == 0 {
        Seq::empty()
    } else {
        spec_filter_ids(items.drop_last(), p) + if p(items.last()) {
            seq![items.last().id]
        } else {
            Seq::empty()
        }
    }
}

/// The unread predicate.
pub open spec fn unread_pred() -> spec_fn(ItemModel) -> bool {
    |r: ItemModel| r.is_read == 0
}

/// The saved predicate.
pub open spec fn saved_pred() -> spec_fn(ItemModel) -> bool {
    |r: ItemModel| r.is_saved == 1
}

fn filter_ids(store: &Store, want_saved: bool) -> (r: Vec<u64>)
    ensures
        !want_saved ==> r@ == spec_filter_ids(store@.items, unread_pred()),
        want_saved ==> r@ == spec_filter_ids(store@.items, saved_pred()),
{
    let ghost p = if want_saved {
        saved_pred()
    } else {
        unread_pred()
    };
    let n = store.items.len();
    let mut r: Vec<u64> = Vec::new();
    let mut i: usize = 0;
    while i < n
        invariant
            i <= n,
            n == store@.items.len(),
            p == if want_saved {
                saved_pred()
            } else {
                unread_pred()
            },
            r@ == spec_filter_ids(store@.items.take(i as int), p),
        decreases n - i,
    {
        proof {
            assert(store@.items.take(i + 1).drop_last() =~= store@.items.take(i as int));
            assert(store@.items.take(i + 1).last() == store@.items[i as int]);
        }
        let keep = if want_saved {
            store.items[i].data.is_saved == 1
        } else {
            store.items[i].data.is_read == 0
        };
        if keep {
            r.push(store.items[i].data.id);
            proof {
                assert(r@ =~= spec_filter_ids(store@.items.take(i + 1), p));
            }
        } else {
            proof {
                assert(r@ =~= spec_filter_ids(store@.items.take(i + 1), p));
            }
        }
        i = i + 1;
    }
    proof {
        assert(store@.items.take(n as int) =~= store@.items);
    }
    r
}

/// The ids of all unread items, in store order.
pub fn get_unread_item_ids(store: &Store) -> (r: Option<Vec<u64>>)
    ensures
        ({
            let ids = spec_filter_ids(store@.items, unread_pred());
            r matches Some(v) && v@ == ids
        }),
{
    Some(filter_ids(store, false))
}

/// The ids of all saved items, in store order.
pub fn get_saved_item_ids(store: &Store) -> (r: Option<Vec<u64>>)
    ensures
        ({
            let ids = spec_filter_ids(store@.items, saved_pred());
            r matches Some(v) && v@ == ids
        }),
{
    Some(filter_ids(store, true))
}

/// How many items pass the filter: all of them, or the unread ones.
pub open spec fn spec_total_items(items: Seq<ItemModel>, unread_only: bool) -> nat {
    if unread_only {
        spec_filter_ids(items, unread_pred()).len()
    } else {
        items.len()
    }
}

/// Count items, either all or only the unread ones.
pub fn get_total_items(store: &Store, unread_only: bool) -> (r: u64)
    ensures
        r == spec_total_items(store@.items, unread_only),
{
    if unread_only {
        let ids = filter_ids(store, false);
        proof {
            lemma_filter_ids_len_le(store@.items, unread_pred());
        }
        ids.len() as u64
    } else {
        store.items.len() as u64
    }
}

proof fn lemma_filter_ids_len_le(items: Seq<ItemModel>, p: spec_fn(ItemModel) -> bool)
    ensures
        spec_filter_ids(items, p).len() <= items.len(),
    decreases items.len(),
{
    if items.len() > 0 {
        lemma_filter_ids_len_le(items.drop_last(), p);
    }
}

/// How one row looks after a read-flag update aimed at `id`.
pub open spec fn spec_set_read(r: ItemModel, id: u64, status: u8) -> ItemModel {
    if r.id == id {
        ItemModel { is_read: status, ..r }
    } else {
        r
    }
}

/// How one row looks after a saved-flag update aimed at `id`.
pub open spec fn spec_set_saved(r: ItemModel, id: u64, status: u8) -> ItemModel {
    if r.id == id {
        ItemModel { is_saved: status, ..r }
    } else {
        r
    }
}

/// Set the read flag of the item with this id; unknown ids change nothing.
pub fn set_item_read_status(store: &mut Store, id: u64, status: u8)
    ensures
        final(store)@ == (StoreModel {
            items: old(store)@.items.map_values(|r: ItemModel| spec_set_read(r, id, status)),
            ..old(store)@
        }),
{
    let ghost m0 = store@;
    let n = store.items.len();
    let mut j: usize = 0;
    while j < n
        invariant
            j <= n,
            n == store@.items.len(),
            store@.feeds == m0.feeds,
            store@.urls == m0.urls,
            store@.next_feed_id == m0.next_feed_id,
            store@.next_url_id == m0.next_url_id,
            store@.next_item_id == m0.next_item_id,
            forall|p: int|
                0 <= p < j ==> (#[trigger] store@.items[p]) == spec_set_read(
                    m0.items[p],
                    id,
                    status,
                ),
            forall|p: int| j <= p < n ==> (#[trigger] store@.items[p]) == m0.items[p],
        decreases n - j,
    {
        let ghost prevrows = store.items@;
        proof {
            assert(store.items@[j as int]@ == store@.items[j as int]);
        }
        if store.items[j].data.id == id {
            store.items[j].data.is_read = status;
        }
        proof {
            assert(store@.items[j as int] == spec_set_read(m0.items[j as int], id, status)) by {
                assert(store.items@[j as int]@ == store@.items[j as int]);
            }
            assert forall|p: int| 0 <= p < n && p != j as int implies (
            #[trigger] store@.items[p]) == prevrows.map_values(|r: ItemRow| r@)[p] by {
                assert(store.items@[p] == prevrows[p]);
                assert(store@.items[p] == store.items@[p]@);
                assert(prevrows.map_values(|r: ItemRow| r@)[p] == prevrows[p]@);
            }
        }
        j = j + 1;
    }
    proof {
        assert(store@.items =~= m0.items.map_values(|r: ItemModel| spec_set_read(r, id, status)));
        assert(store@ =~= (StoreModel {
            items: m0.items.map_values(|r: ItemModel| spec_set_read(r, id, status)),
            ..m0
        }));
    }
}

/// Set the saved flag of the item with this id; unknown ids change nothing.
pub fn set_item_saved_status(store: &mut Store, id: u64, status: u8)
    ensures
        final(store)@ == (StoreModel {
            items: old(store)@.items.map_values(|r: ItemModel| spec_set_saved(r, id, status)),
            ..old(store)@
        }),
{
    let ghost m0 = store@;
    let n = store.items.len();
    let mut j: usize = 0;
    while j < n
        invariant
            j <= n,
            n == store@.items.len(),
            store@.feeds == m0.feeds,
            store@.urls == m0.urls,
            store@.next_feed_id == m0.next_feed_id,
            store@.next_url_id == m0.next_url_id,
            store@.next_item_id == m0.next_item_id,
            forall|p: int|
                0 <= p < j ==> (#[trigger] store@.items[p]) == spec_set_saved(
                    m0.items[p],
                    id,
                    status,
                ),
            forall|p: int| j <= p < n ==> (#[trigger] store@.items[p]) == m0.items[p],
        decreases n - j,
    {
        let ghost prevrows = store.items@;
        proof {
            assert(store.items@[j as int]@ == store@.items[j as int]);
        }
        if store.items[j].data.id == id {
            store.items[j].data.is_saved = status;
        }
        proof {
            assert(store@.items[j as int] == spec_set_saved(m0.items[j as int], id, status)) by {
                assert(store.items@[j as int]@ == store@.items[j as int]);
            }
            assert forall|p: int| 0 <= p < n && p != j as int implies (
            #[trigger] store@.items[p]) == prevrows.map_values(|r: ItemRow| r@)[p] by {
                assert(store.items@[p] == prevrows[p]);
                assert(store@.items[p] == store.items@[p]@);
                assert(prevrows.map_values(|r: ItemRow| r@)[p] == prevrows[p]@);
            }
        }
        j = j + 1;
    }
    proof {
        assert(store@.items =~= m0.items.map_values(
            |r: ItemModel| spec_set_saved(r, id, status),
        ));
        assert(store@ =~= (StoreModel {
            items: m0.items.map_values(|r: ItemModel| spec_set_saved(r, id, status)),
            ..m0
        }));
    }
}


/// The comma-separated ids of a filter argument, or nothing when any
/// piece is not a number that fits.
pub open spec fn spec_ids_list(s: Seq<char>) -> Option<Seq<u64>>
    decreases s.len(),
    via spec_ids_list_decreases
{
    let i = first_index(s, eq_pred(','));
    if i < 0 {
        match spec_parse_u64(s) {
            Some(v) => Some(seq![v]),
            None => None,
        }
    } else {
        match spec_parse_u64(s.take(i)) {
            Some(v) => match spec_ids_list(s.skip(i + 1)) {
                Some(rest) => Some(seq![v] + rest),
                None => None,
            },
            None => None,
        }
    }
}

#[via_fn]
proof fn spec_ids_list_decreases(s: Seq<char>) {
    lemma_first_index(s, eq_pred(','));
}

/// Parse the comma-separated ids starting at position `p`.
fn parse_ids_from(cs: &Vec<char>, p: usize) -> (r: Option<Vec<u64>>)
    requires
        p <= cs@.len(),
    ensures
        match r {
            Some(v) => spec_ids_list(cs@.skip(p as int)) == Some(v@),
            None => spec_ids_list(cs@.skip(p as int)) is None,
        },
    decreases cs@.len() - p,
{
    let n = cs.len();
    let mut e: usize = p;
    while e < n && cs[e] != ','
        invariant
            p <= e <= n,
            n == cs@.len(),
            forall|k: int| p <= k < e ==> cs@[k] != ',',
        decreases n - e,
    {
        e = e + 1;
    }
    let ghost tail = cs@.skip(p as int);
    let ghost piece = cs@.subrange(p as int, e as int);
    proof {
        assert(forall|k: int| 0 <= k < tail.len() ==> #[trigger] tail[k] == cs@[p + k]);
        if e < n {
            lemma_first_index_is(tail, eq_pred(','), e - p);
        } else {
            lemma_first_index_none(tail, eq_pred(','));
        }
        assert(tail.take(e - p) =~= piece);
    }
    let head = crate::common::seg_to_string(cs, p, e);
    let head_val = parse_u64(head.as_str());
    match head_val {
        None => None,
        Some(v) => {
            if e < n {
                proof {
                    assert(tail.skip(e - p + 1) =~= cs@.skip(e + 1));
                }
                match parse_ids_from(cs, e + 1) {
                    None => None,
                    Some(mut rest) => {
                        let ghost restv = rest@;
                        rest.insert(0, v);
                        proof {
                            assert(rest@ =~= seq![v] + restv);
                        }
                        Some(rest)
                    },
                }
            } else {
                proof {
                    assert(tail =~= piece);
                }
                let mut one: Vec<u64> = Vec::new();
                one.push(v);
                proof {
                    assert(one@ =~= seq![v]);
                }
                Some(one)
            }
        },
    }
}

/// The rows whose id is in the list.
pub open spec fn in_ids_pred(ids: Seq<u64>) -> spec_fn(ItemModel) -> bool {
    |r: ItemModel| ids.contains(r.id)
}

/// The rows whose id is above the threshold.
pub open spec fn since_pred(v: u64) -> spec_fn(ItemModel) -> bool {
    |r: ItemModel| r.id > v
}

/// Every row.
pub open spec fn any_pred() -> spec_fn(ItemModel) -> bool {
    |r: ItemModel| true
}

/// At most the first fifty rows.
pub open spec fn spec_limit_50(items: Seq<ItemModel>) -> Seq<ItemModel> {
    if items.len() <= 50 {
        items
    } else {
        items.take(50)
    }
}

/// What the item query returns: nothing for a malformed id list;
/// otherwise the first fifty rows passing the chosen filter, in store
/// order.  A `since_id` argument must itself be one number.
pub open spec fn spec_get_items(m: StoreModel, op: Seq<char>, arg: Seq<char>) -> Option<
    Seq<ItemModel>,
> {
    match spec_ids_list(arg) {
        None => None,
        Some(ids) => if op == "with_ids"@ {
            Some(spec_limit_50(spec_filter_items(m.items, in_ids_pred(ids))))
        } else if op == "since_id"@ {
            match spec_parse_u64(arg) {
                Some(v) => Some(spec_limit_50(spec_filter_items(m.items, since_pred(v)))),
                None => None,
            }
        } else {
            Some(spec_limit_50(spec_filter_items(m.items, any_pred())))
        },
    }
}

enum RowFilter {
    InIds(Vec<u64>),
    Since(u64),
    All,
}

impl RowFilter {
    spec fn pred(&self) -> spec_fn(ItemModel) -> bool {
        match self {
            RowFilter::InIds(ids) => in_ids_pred(ids@),
            RowFilter::Since(v) => since_pred(*v),
            RowFilter::All => any_pred(),
        }
    }
}

fn ids_contains(ids: &Vec<u64>, x: u64) -> (r: bool)
    ensures
        r == ids@.contains(x),
{
    let n = ids.len();
    let mut i: usize = 0;
    while i < n
        invariant
            i <= n,
            n == ids@.len(),
            forall|k: int| 0 <= k < i ==> ids@[k] != x,
        decreases n - i,
    {
        if ids[i] == x {
            return true;
        }
        i = i + 1;
    }
    false
}

/// The views of a list of items.
pub open spec fn spec_item_views(v: Seq<Item>) -> Seq<ItemView> {
    v.map_values(|it: Item| it@)
}

fn collect_items(store: &Store, f: &RowFilter) -> (r: Vec<Item>)
    ensures
        spec_item_views(r@) == spec_limit_50(spec_filter_items(store@.items, f.pred())).map_values(
            |m: ItemModel| item_view_of(m),
        ),
{
    let ghost p = f.pred();
    let n = store.items.len();
    let mut out: Vec<Item> = Vec::new();
    proof {
        assert(store@.items.take(0) =~= Seq::<ItemModel>::empty());
        assert(spec_item_views(out@) =~= spec_limit_50(
            spec_filter_items(store@.items.take(0), p),
        ).map_values(|m: ItemModel| item_view_of(m)));
    }
    let mut i: usize = 0;
    while i < n
        invariant
            i <= n,
            n == store@.items.len(),
            p == f.pred(),
            out@.len() == spec_limit_50(spec_filter_items(store@.items.take(i as int), p)).len(),
            spec_item_views(out@) == spec_limit_50(
                spec_filter_items(store@.items.take(i as int), p),
            ).map_values(|m: ItemModel| item_view_of(m)),
        decreases n - i,
    {
        let ghost prevf = spec_filter_items(store@.items.take(i as int), p);
        proof {
            assert(store@.items.take(i + 1).drop_last() =~= store@.items.take(i as int));
            assert(store@.items.take(i + 1).last() == store@.items[i as int]);
            assert(store.items@[i as int]@ == store@.items[i as int]);
        }
        let row = &store.items[i];
        let keep = match f {
            RowFilter::InIds(ids) => ids_contains(ids, row.data.id),
            RowFilter::Since(v) => row.data.id > *v,
            RowFilter::All => true,
        };
        proof {
            assert(keep == p(store@.items[i as int]));
        }
        if keep && out.len() < 50 {
            let ghost prevout = out@;
            out.push(clone_item(&row.data));
            proof {
                assert(spec_filter_items(store@.items.take(i + 1), p) =~= prevf.push(
                    store@.items[i as int],
                ));
                assert(prevf.len() < 50);
                assert(spec_limit_50(prevf) == prevf);
                assert(spec_limit_50(prevf.push(store@.items[i as int])) == prevf.push(
                    store@.items[i as int],
                ));
                assert(item_view_of(store@.items[i as int]) == store.items@[i as int].data@);
                assert(spec_item_views(out@) =~= spec_item_views(prevout).push(
                    store.items@[i as int].data@,
                ));
                assert(spec_item_views(out@) =~= spec_limit_50(
                    spec_filter_items(store@.items.take(i + 1), p),
                ).map_values(|m: ItemModel| item_view_of(m)));
            }
        } else {
            proof {
                if keep {
                    assert(prevf.len() >= 50);
                    assert(spec_filter_items(store@.items.take(i + 1), p) =~= prevf.push(
                        store@.items[i as int],
                    ));
                    assert(spec_limit_50(prevf.push(store@.items[i as int])) =~= spec_limit_50(
                        prevf,
                    ));
                }
                assert(spec_item_views(out@) =~= spec_limit_50(
                    spec_filter_items(store@.items.take(i + 1), p),
                ).map_values(|m: ItemModel| item_view_of(m)));
            }
        }
        i = i + 1;
    }
    proof {
        assert(store@.items.take(n as int) =~= store@.items);
    }
    out
}

/// Query items: `with_ids` returns the rows whose id stands in the
/// comma-separated list, `since_id` the rows above the given id, any
/// other operation every row — always at most fifty, in store order,
/// and nothing at all for a malformed argument.
pub fn get_items(store: &Store, filter_op: &str, filter_arg: &str) -> (r: Option<Vec<Item>>)
    ensures
        match r {
            Some(v) => spec_get_items(store@, filter_op@, filter_arg@) matches Some(rows)
                && spec_item_views(v@) == rows.map_values(|m: ItemModel| item_view_of(m)),
            None => spec_get_items(store@, filter_op@, filter_arg@) is None,
        },
{
    let cs = chars_of(filter_arg);
    proof {
        assert(cs@.skip(0) =~= filter_arg@);
    }
    match parse_ids_from(&cs, 0) {
        None => None,
        Some(ids) => {
            if str_eq(filter_op, "with_ids") {
                Some(collect_items(store, &RowFilter::InIds(ids)))
            } else if str_eq(filter_op, "since_id") {
                match parse_u64(filter_arg) {
                    Some(v) => Some(collect_items(store, &RowFilter::Since(v))),
                    None => None,
                }
            } else {
                Some(collect_items(store, &RowFilter::All))
            }
        },
    }
}

} // verus!
