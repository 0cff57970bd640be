use vstd::prelude::*;

use crate::common::strutil::{
    parse_u64, replace_str, spec_parse_u64, spec_replace, spec_u64_dec, str_eq, u64_to_dec,
};
use crate::common::{get_param, spec_param_lookup, view_params};
use crate::storage::items::{
    item_view_of, saved_pred, set_item_read_status, set_item_saved_status, spec_filter_ids,
    spec_get_items, spec_item_views, spec_set_read, spec_set_saved, spec_total_items, unread_pred,
    Item, ItemModel,
};
use crate::storage::{Store, StoreModel};

verus! {

/// A failed or absent query reads as no items.
pub open spec fn spec_items_or_empty(o: Option<Seq<ItemModel>>) -> Seq<ItemModel> {
    match o {
        Some(s) => s,
        None => Seq::empty(),
    }
}

/// What the read API's item query returns: the rows named by `with_ids`
/// (with URL-encoded commas restored), else the rows after `since_id`,
/// else nothing.
pub open spec fn spec_fever_get_items(m: StoreModel, ps: Seq<(Seq<char>, Seq<char>)>) -> Seq<
    ItemModel,
> {
    match spec_param_lookup(ps, "with_ids"@) {
        Some(w) => spec_items_or_empty(
            spec_get_items(m, "with_ids"@, spec_replace(w, "%2C"@, ","@)),
        ),
        None => match spec_param_lookup(ps, "since_id"@) {
            Some(sid) => spec_items_or_empty(spec_get_items(m, "since_id"@, sid)),
            None => Seq::empty(),
        },
    }
}

/// Query items as the request parameters ask, malformed or absent
/// filters reading as no items.
pub fn get_items(store: &Store, params: &Vec<(String, String)>) -> (r: Vec<Item>)
    ensures
        spec_item_views(r@) == spec_fever_get_items(store@, view_params(params@)).map_values(
            |m: ItemModel| item_view_of(m),
        ),
{
    proof {
        reveal_strlit("%2C");
    }
    match get_param(params, "with_ids") {
        Some(w) => {
            let arg = replace_str(w.as_str(), "%2C", ",");
            match crate::storage::items::get_items(store, "with_ids", arg.as_str()) {
                Some(v) => v,
                None => Vec::new(),
            }
        },
        None => match get_param(params, "since_id") {
            Some(sid) => match crate::storage::items::get_items(
                store,
                "since_id",
                sid.as_str(),
            ) {
                Some(v) => v,
                None => Vec::new(),
            },
            None => Vec::new(),
        },
    }
}

/// The total-count fragment appended to the base reply.
pub fn get_total_items(store: &Store) -> (r: String)
    ensures
        r@ == ", \"total_items\": "@ + spec_u64_dec(
            spec_total_items(store@.items, false) as nat,
        ),
{
    let mut s = ", \"total_items\": ".to_owned();
    let n = crate::storage::items::get_total_items(store, false);
    let t = u64_to_dec(n);
    s.append(t.as_str());
    s
}

/// The ids joined by commas.
pub open spec fn spec_join_ids(ids: Seq<u64>) -> Seq<char>
    decreases ids.len(),
{
    if ids.len() == 0 {
        Seq::empty()
    } else if ids.len() == 1 {
        spec_u64_dec(ids[0] as nat)
    } else {
        spec_join_ids(ids.drop_last()) + ","@ + spec_u64_dec(ids.last() as nat)
    }
}

fn join_ids(ids: &Vec<u64>) -> (r: String)
    ensures
        r@ == spec_join_ids(ids@),
{
    let n = ids.len();
    let mut s = String::new();
    let mut i: usize = 0;
    while i < n
        invariant
            i <= n,
            n == ids@.len(),
            s@ == spec_join_ids(ids@.take(i as int)),
        decreases n - i,
    {
        proof {
            assert(ids@.take(i + 1).drop_last() =~= ids@.take(i as int));
            assert(ids@.take(i + 1).last() == ids@[i as int]);
            assert(ids@.take(i + 1)[0] == ids@[0]);
        }
        if i > 0 {
            s.append(",");
        }
        let t = u64_to_dec(ids[i]);
        s.append(t.as_str());
        i = i + 1;
    }
    proof {
        assert(ids@.take(n as int) =~= ids@);
    }
    s
}

/// The unread item ids, comma-joined for the base reply.
pub fn get_unread_item_ids(store: &Store) -> (r: String)
    ensures
        r@ == spec_join_ids(spec_filter_ids(store@.items, unread_pred())),
{
    let ids = match crate::storage::items::get_unread_item_ids(store) {
        Some(v) => v,
        None => Vec::new(),
    };
    join_ids(&ids)
}

/// The saved item ids, comma-joined for the base reply.
pub fn get_saved_item_ids(store: &Store) -> (r: String)
    ensures
        r@ == spec_join_ids(spec_filter_ids(store@.items, saved_pred())),
{
    let ids = match crate::storage::items::get_saved_item_ids(store) {
        Some(v) => v,
        None => Vec::new(),
    };
    join_ids(&ids)
}

/// How a mark request changes the store: nothing for an id that is not
/// a number, else the named flag of that item.
pub open spec fn spec_mark(m: StoreModel, id: Seq<char>, kind: Seq<char>) -> StoreModel {
    match spec_parse_u64(id) {
        None => m,
        Some(i) => if kind == "read"@ {
            StoreModel {
                items: m.items.map_values(|r: ItemModel| spec_set_read(r, i, 1)),
                ..m
            }
        } else if kind == "saved"@ {
            StoreModel {
                items: m.items.map_values(|r: ItemModel| spec_set_saved(r, i, 1)),
                ..m
            }
        } else if kind == "unread"@ {
            StoreModel {
                items: m.items.map_values(|r: ItemModel| spec_set_read(r, i, 0)),
                ..m
            }
        } else if kind == "unsaved"@ {
            StoreModel {
                items: m.items.map_values(|r: ItemModel| spec_set_saved(r, i, 0)),
                ..m
            }
        } else {
            m
        },
    }
}

/// Mark one item read, saved, unread or unsaved; an unparsable id or an
/// unknown kind changes nothing.
pub fn mark(store: &mut Store, id: &str, kind: &str)
    ensures
        final(store)@ == spec_mark(old(store)@, id@, kind@),
{
    match parse_u64(id) {
        None => {
        },
        Some(i) => {
            if str_eq(kind, "read") {
                set_item_read_status(store, i, 1);
            } else if str_eq(kind, "saved") {
                set_item_saved_status(store, i, 1);
            } else if str_eq(kind, "unread") {
                set_item_read_status(store, i, 0);
            } else if str_eq(kind, "unsaved") {
                set_item_saved_status(store, i, 0);
            }
        },
    }
}

} // verus!
