use vstd::prelude::*;

pub mod feeds;
pub mod items;

use crate::common::{spec_param_lookup, view_params};
use crate::common::strutil::{spec_u64_dec, str_eq, u64_to_dec};

verus! {

/// What `str::to_lowercase` returns: the Unicode lowercase form of the
/// text, a function of the characters alone.
pub uninterp spec fn lower_of(s: Seq<char>) -> Seq<char>;

/// Relies on `str::to_lowercase`: the Unicode lowercase form of the
/// text, and nothing else.
#[verifier::external_body]
fn lowercase(s: &str) -> (r: String)
    ensures
        r@ == lower_of(s@),
{
    s.to_lowercase()
}

/// Whether a presented key authorizes the read API: its lowercase form
/// must equal the configured token.
pub fn check_api_key(provided: &str, expected: &str) -> (r: bool)
    ensures
        r == (lower_of(provided@) == expected@),
{
    let low = lowercase(provided);
    str_eq(low.as_str(), expected)
}

/// The one read-API action a request resolves to, in the order the
/// parameters are examined.
pub enum FeverAction {
    Feeds,
    Items,
    UnreadIds,
    SavedIds,
    Links,
    Groups,
    Favicons,
    Mark(String, String),
    Default,
}

/// The mathematical form of a resolved action.
pub enum FeverActionModel {
    Feeds,
    Items,
    UnreadIds,
    SavedIds,
    Links,
    Groups,
    Favicons,
    Mark(Seq<char>, Seq<char>),
    Default,
}

impl View for FeverAction {
    type V = FeverActionModel;

    open spec fn view(&self) -> FeverActionModel {
        match self {
            FeverAction::Feeds => FeverActionModel::Feeds,
            FeverAction::Items => FeverActionModel::Items,
            FeverAction::UnreadIds => FeverActionModel::UnreadIds,
            FeverAction::SavedIds => FeverActionModel::SavedIds,
            FeverAction::Links => FeverActionModel::Links,
            FeverAction::Groups => FeverActionModel::Groups,
            FeverAction::Favicons => FeverActionModel::Favicons,
            FeverAction::Mark(id, kind) => FeverActionModel::Mark(id@, kind@),
            FeverAction::Default => FeverActionModel::Default,
        }
    }
}

/// Which action a parameter list resolves to: the first of the read
/// keys present wins; failing those, a well-formed item mark; anything
/// else falls through to the bare base response.
pub open spec fn spec_fever_action(ps: Seq<(Seq<char>, Seq<char>)>) -> FeverActionModel {
    if spec_param_lookup(ps, "feeds"@) is Some {
        FeverActionModel::Feeds
    } else if spec_param_lookup(ps, "items"@) is Some {
        FeverActionModel::Items
    } else if spec_param_lookup(ps, "unread_item_ids"@) is Some {
        FeverActionModel::UnreadIds
    } else if spec_param_lookup(ps, "saved_item_ids"@) is Some {
        FeverActionModel::SavedIds
    } else if spec_param_lookup(ps, "links"@) is Some {
        FeverActionModel::Links
    } else if spec_param_lookup(ps, "groups"@) is Some {
        FeverActionModel::Groups
    } else if spec_param_lookup(ps, "favicons"@) is Some {
        FeverActionModel::Favicons
    } else if spec_param_lookup(ps, "mark"@) == Some("item"@) && spec_param_lookup(ps, "as"@)
        is Some && spec_param_lookup(ps, "id"@) is Some {
        FeverActionModel::Mark(
            spec_param_lookup(ps, "id"@).unwrap(),
            spec_param_lookup(ps, "as"@).unwrap(),
        )
    } else {
        FeverActionModel::Default
    }
}

/// Resolve a request's parameters to the action they name.
pub fn fever_action(params: &Vec<(String, String)>) -> (r: FeverAction)
    ensures
        r@ == spec_fever_action(view_params(params@)),
{
    if crate::common::get_param(params, "feeds").is_some() {
        FeverAction::Feeds
    } else if crate::common::get_param(params, "items").is_some() {
        FeverAction::Items
    } else if crate::common::get_param(params, "unread_item_ids").is_some() {
        FeverAction::UnreadIds
    } else if crate::common::get_param(params, "saved_item_ids").is_some() {
        FeverAction::SavedIds
    } else if crate::common::get_param(params, "links").is_some() {
        FeverAction::Links
    } else if crate::common::get_param(params, "groups").is_some() {
        FeverAction::Groups
    } else if crate::common::get_param(params, "favicons").is_some() {
        FeverAction::Favicons
    } else {
        let mark = crate::common::get_param(params, "mark");
        let kind = crate::common::get_param(params, "as");
        let id = crate::common::get_param(params, "id");
        match (mark, kind, id) {
            (Some(m), Some(k), Some(i)) => {
                if str_eq(m.as_str(), "item") {
                    FeverAction::Mark(i, k)
                } else {
                    FeverAction::Default
                }
            },
            _ => FeverAction::Default,
        }
    }
}

/// The unauthorized reply body.
pub open spec fn spec_unauthorized_body() -> Seq<char> {
    "{\"api_version\": 3, \"auth\": 0}"@
}

/// The body sent back when the presented key does not authorize.
pub fn unauthorized_body() -> (r: String)
    ensures
        r@ == spec_unauthorized_body(),
{
    "{\"api_version\": 3, \"auth\": 0}".to_owned()
}

/// The base reply body: protocol version, authorization flag, the
/// store's last refresh time, then an optional quoted key with its
/// rendered value, then a caller-supplied tail, all in one JSON object.
pub open spec fn spec_base_response_body(
    last_refreshed: u64,
    k: Seq<char>,
    v_json: Seq<char>,
    a: Seq<char>,
) -> Seq<char> {
    "{\"api_version\": 3, \"auth\": 1, \"last_refreshed_on_time\": "@ + spec_u64_dec(
        last_refreshed as nat,
    ) + (if k.len() == 0 {
        Seq::<char>::empty()
    } else {
        ", \""@ + k + "\": "@ + v_json
    }) + a + "}"@
}

/// Build the base reply body around an optional rendered value.
pub fn base_response_body(last_refreshed: u64, k: &str, v_json: &str, a: &str) -> (r: String)
    ensures
        r@ == spec_base_response_body(last_refreshed, k@, v_json@, a@),
{
    let mut s = "{\"api_version\": 3, \"auth\": 1, \"last_refreshed_on_time\": ".to_owned();
    let t = u64_to_dec(last_refreshed);
    s.append(t.as_str());
    if k.unicode_len() > 0 {
        s.append(", \"");
        s.append(k);
        s.append("\": ");
        s.append(v_json);
    }
    s.append(a);
    s.append("}");
    proof {
        assert(s@ =~= spec_base_response_body(last_refreshed, k@, v_json@, a@));
    }
    s
}

} // verus!
