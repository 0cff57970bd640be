use vstd::prelude::*;

pub mod extract_content;
pub mod strutil;

verus! {

use crate::common::strutil::{chars_of, starts_with, suffix_from};

/// Errors surfaced by the gateway and capture paths.  Transport failures
/// raised outside the library are carried as their rendered messages.
#[derive(Debug)]
pub enum PipeError {
    InvalidHeaderValueError,
    UnsupportedSchemeError,
    HyperError(String),
    HyperLegacyError(String),
    InvalidUri(String),
    HttpError(String),
    SocksError(String),
    FromUtf8Error(String),
}

/// Index of the first element of `s` satisfying `pred`, or -1 if none does.
pub open spec fn first_index<T>(s: Seq<T>, pred: spec_fn(T) -> bool) -> int
    decreases s.len(),
{
    if s.len() == 0 {
        -1
    } else if pred(s[0]) {
        0
    } else {
        let rest = first_index(s.skip(1), pred);
        if rest < 0 {
            -1
        } else {
            1 + rest
        }
    }
}

pub proof fn lemma_first_index<T>(s: Seq<T>, pred: spec_fn(T) -> bool)
    ensures
        first_index(s, pred) < s.len(),
        first_index(s, pred) >= 0 ==> -1 < first_index(s, pred) && pred(
            s[first_index(s, pred)],
        ) && (forall|k: int| 0 <= k < first_index(s, pred) ==> !pred(#[trigger] s[k])),
        first_index(s, pred) < 0 ==> first_index(s, pred) == -1 && (forall|k: int|
            0 <= k < s.len() ==> !pred(#[trigger] s[k])),
    decreases s.len(),
{
    if s.len() > 0 && !pred(s[0]) {
        lemma_first_index(s.skip(1), pred);
        assert(forall|k: int| 1 <= k < s.len() ==> #[trigger] s[k] == s.skip(1)[k - 1]);
    }
}

/// `first_index` is `i` exactly when `pred` holds at `i` and nowhere before.
pub proof fn lemma_first_index_is<T>(s: Seq<T>, pred: spec_fn(T) -> bool, i: int)
    requires
        0 <= i < s.len(),
        pred(s[i]),
        forall|k: int| 0 <= k < i ==> !pred(#[trigger] s[k]),
    ensures
        first_index(s, pred) == i,
    decreases i,
{
    if i == 0 {
    } else {
        assert(forall|k: int| 0 <= k < i - 1 ==> #[trigger] s.skip(1)[k] == s[k + 1]);
        assert(s.skip(1)[i - 1] == s[i]);
        lemma_first_index_is(s.skip(1), pred, i - 1);
    }
}

/// When no element satisfies `pred`, `first_index` is -1.
pub proof fn lemma_first_index_none<T>(s: Seq<T>, pred: spec_fn(T) -> bool)
    requires
        forall|k: int| 0 <= k < s.len() ==> !pred(#[trigger] s[k]),
    ensures
        first_index(s, pred) == -1,
    decreases s.len(),
{
    if s.len() > 0 {
        assert(forall|k: int| 0 <= k < s.len() - 1 ==> #[trigger] s.skip(1)[k] == s[k + 1]);
        lemma_first_index_none(s.skip(1), pred);
    }
}


/// Index of the last element of `s` satisfying `pred`, or -1 if none does.
pub open spec fn last_index<T>(s: Seq<T>, pred: spec_fn(T) -> bool) -> int
    decreases s.len(),
{
    if s.len() == 0 {
        -1
    } else if pred(s.last()) {
        s.len() - 1
    } else {
        last_index(s.drop_last(), pred)
    }
}

/// `last_index` is `i` exactly when `pred` holds at `i` and nowhere after.
pub proof fn lemma_last_index_is<T>(s: Seq<T>, pred: spec_fn(T) -> bool, i: int)
    requires
        0 <= i < s.len(),
        pred(s[i]),
        forall|k: int| i < k < s.len() ==> !pred(#[trigger] s[k]),
    ensures
        last_index(s, pred) == i,
    decreases s.len(),
{
    if i == s.len() - 1 {
    } else {
        assert(!pred(s.last()));
        assert(forall|k: int| i < k < s.len() - 1 ==> #[trigger] s.drop_last()[k] == s[k]);
        assert(s.drop_last()[i] == s[i]);
        lemma_last_index_is(s.drop_last(), pred, i);
    }
}

/// When no element satisfies `pred`, `last_index` is -1.
pub proof fn lemma_last_index_none<T>(s: Seq<T>, pred: spec_fn(T) -> bool)
    requires
        forall|k: int| 0 <= k < s.len() ==> !pred(#[trigger] s[k]),
    ensures
        last_index(s, pred) == -1,
    decreases s.len(),
{
    if s.len() > 0 {
        assert(forall|k: int| 0 <= k < s.len() - 1 ==> #[trigger] s.drop_last()[k] == s[k]);
        lemma_last_index_none(s.drop_last(), pred);
    }
}

/// The predicate picking one character.
pub open spec fn eq_pred(c: char) -> spec_fn(char) -> bool {
    |x: char| x == c
}

/// The pieces of `s` between occurrences of `sep`.  An empty text gives
/// one empty piece, as splitting does.
pub open spec fn spec_split(s: Seq<char>, sep: char) -> Seq<Seq<char>>
    decreases s.len(),
    via spec_split_decreases
{
    let i = first_index(s, eq_pred(sep));
    if i < 0 {
        seq![s]
    } else {
        seq![s.take(i)] + spec_split(s.skip(i + 1), sep)
    }
}

#[via_fn]
proof fn spec_split_decreases(s: Seq<char>, sep: char) {
    lemma_first_index(s, eq_pred(sep));
}

/// The key/value reading of one piece: the key is everything before the
/// first equals sign, the value everything after the last one; a piece
/// with no equals sign is its own key and value.  Pieces with an empty
/// key or value are dropped.
pub open spec fn spec_kv(piece: Seq<char>) -> Option<(Seq<char>, Seq<char>)> {
    let ki = first_index(piece, eq_pred('='));
    let vi = last_index(piece, eq_pred('='));
    let k = if ki < 0 {
        piece
    } else {
        piece.take(ki)
    };
    let v = if vi < 0 {
        piece
    } else {
        piece.skip(vi + 1)
    };
    if k.len() > 0 && v.len() > 0 {
        Some((k, v))
    } else {
        None
    }
}

/// The key/value pairs of a piece list, in order, dropped pieces left out.
pub open spec fn spec_pairs(pieces: Seq<Seq<char>>) -> Seq<(Seq<char>, Seq<char>)>
    decreases pieces.len(),
{
    if pieces.len() == 0 {
        Seq::empty()
    } else {
        let rest = spec_pairs(pieces.skip(1));
        match spec_kv(pieces[0]) {
            Some(kv) => seq![kv] + rest,
            None => rest,
        }
    }
}

/// The parameters carried by a query string and a request body, both
/// split on ampersands, the query's pieces first.
pub open spec fn spec_request_params(query: Seq<char>, body: Seq<char>) -> Seq<
    (Seq<char>, Seq<char>),
> {
    spec_pairs(spec_split(query, '&') + spec_split(body, '&'))
}

/// The views of a parameter list.
pub open spec fn view_params(v: Seq<(String, String)>) -> Seq<(Seq<char>, Seq<char>)> {
    v.map_values(|p: (String, String)| (p.0@, p.1@))
}

/// The piece of `cs` from `a` to `b`, as a string.
pub fn seg_to_string(cs: &Vec<char>, a: usize, b: usize) -> (r: String)
    requires
        a <= b <= cs@.len(),
    ensures
        r@ == cs@.subrange(a as int, b as int),
{
    let mut v: Vec<char> = Vec::new();
    let mut i: usize = a;
    while i < b
        invariant
            a <= i <= b <= cs@.len(),
            v@ == cs@.subrange(a as int, i as int),
        decreases b - i,
    {
        v.push(cs[i]);
        proof {
            assert(v@ =~= cs@.subrange(a as int, i + 1));
        }
        i = i + 1;
    }
    crate::common::strutil::string_of(&v)
}

/// The first position in `[from, cs.len())` holding `c`, or the length.
fn find_char_from(cs: &Vec<char>, from: usize, c: char) -> (e: usize)
    requires
        from <= cs@.len(),
    ensures
        from <= e <= cs@.len(),
        forall|k: int| from <= k < e ==> cs@[k] != c,
        e < cs@.len() ==> cs@[e as int] == c,
{
    let n = cs.len();
    let mut e: usize = from;
    while e < n
        invariant
            from <= e <= n,
            n == cs@.len(),
            forall|k: int| from <= k < e ==> cs@[k] != c,
        decreases n - e,
    {
        if cs[e] == c {
            return e;
        }
        e = e + 1;
    }
    e
}

/// The last position in `[a, b)` holding `c`, or `None`.
fn rfind_char_in(cs: &Vec<char>, a: usize, b: usize, c: char) -> (r: Option<usize>)
    requires
        a <= b <= cs@.len(),
    ensures
        match r {
            Some(i) => a <= i < b && cs@[i as int] == c && forall|k: int|
                i < k < b ==> cs@[k] != c,
            None => forall|k: int| a <= k < b ==> cs@[k] != c,
        },
{
    let mut e: usize = b;
    while e > a
        invariant
            a <= e <= b <= cs@.len(),
            forall|k: int| e <= k < b ==> cs@[k] != c,
        decreases e,
    {
        e = e - 1;
        if cs[e] == c {
            return Some(e);
        }
    }
    None
}

/// Append the parameters found in `cs` from position `p` on.
#[verifier::rlimit(60)]
fn push_params_from(cs: &Vec<char>, p: usize, out: &mut Vec<(String, String)>)
    requires
        p <= cs@.len(),
    ensures
        view_params(final(out)@) == view_params(old(out)@) + spec_pairs(
            spec_split(cs@.skip(p as int), '&'),
        ),
    decreases cs@.len() - p,
{
    let ghost out0 = out@;
    let n = cs.len();
    let e = find_char_from(cs, p, '&');
    let ghost tail = cs@.skip(p as int);
    let ghost piece = cs@.subrange(p as int, e as int);
    proof {
        assert(forall|k: int| 0 <= k < tail.len() ==> #[trigger] tail[k] == cs@[p + k]);
        if e < n {
            lemma_first_index_is(tail, eq_pred('&'), e - p);
        } else {
            lemma_first_index_none(tail, eq_pred('&'));
        }
        assert(tail.take(e - p) =~= piece);
    }
    let ki = find_char_from(cs, p, '=');
    let ki_in = if ki < e {
        ki
    } else {
        e
    };
    let vi = rfind_char_in(cs, p, e, '=');
    proof {
        assert(forall|k: int| 0 <= k < piece.len() ==> #[trigger] piece[k] == cs@[p + k]);
        if ki_in < e {
            lemma_first_index_is(piece, eq_pred('='), ki_in - p);
        } else {
            lemma_first_index_none(piece, eq_pred('='));
        }
        match vi {
            Some(v) => {
                lemma_last_index_is(piece, eq_pred('='), v - p);
            },
            None => {
                lemma_last_index_none(piece, eq_pred('='));
            },
        }
    }
    let k_str = if ki_in < e {
        seg_to_string(cs, p, ki_in)
    } else {
        seg_to_string(cs, p, e)
    };
    let v_str = match vi {
        Some(v) => seg_to_string(cs, v + 1, e),
        None => seg_to_string(cs, p, e),
    };
    proof {
        if first_index(piece, eq_pred('=')) >= 0 {
            assert(piece.take(ki_in - p) =~= cs@.subrange(p as int, ki_in as int));
        }
        if last_index(piece, eq_pred('=')) >= 0 {
            let v = vi.unwrap();
            assert(piece.skip(v - p + 1) =~= cs@.subrange(v + 1, e as int));
        }
    }
    let ghost mid = out@;
    if k_str.as_str().unicode_len() > 0 && v_str.as_str().unicode_len() > 0 {
        out.push((k_str, v_str));
        proof {
            assert(view_params(out@) =~= view_params(mid) + seq![spec_kv(piece).unwrap()]);
        }
    } else {
        proof {
            assert(spec_kv(piece) is None);
        }
    }
    let ghost mid2v = view_params(out@);
    if e < n {
        push_params_from(cs, e + 1, out);
        proof {
            assert(tail.skip(e - p + 1) =~= cs@.skip(e + 1));
            assert(spec_split(tail, '&') == seq![piece] + spec_split(cs@.skip(e + 1), '&'));
            let rest_pieces = spec_split(cs@.skip(e + 1), '&');
            assert((seq![piece] + rest_pieces).skip(1) =~= rest_pieces);
            assert((seq![piece] + rest_pieces)[0] == piece);
            match spec_kv(piece) {
                Some(kv) => {
                    assert(spec_pairs(spec_split(tail, '&')) =~= seq![kv] + spec_pairs(
                        rest_pieces,
                    ));
                    assert(view_params(out@) =~= view_params(out0) + spec_pairs(
                        spec_split(tail, '&'),
                    ));
                },
                None => {
                    assert(spec_pairs(spec_split(tail, '&')) =~= spec_pairs(rest_pieces));
                    assert(view_params(out@) =~= view_params(out0) + spec_pairs(
                        spec_split(tail, '&'),
                    ));
                },
            }
        }
    } else {
        proof {
            assert(spec_split(tail, '&') == seq![tail]);
            assert(tail =~= piece);
            let pieces = spec_split(tail, '&');
            assert(pieces.skip(1) =~= Seq::<Seq<char>>::empty());
            assert(pieces[0] == piece);
            assert(spec_pairs(Seq::<Seq<char>>::empty()) == Seq::<
                (Seq<char>, Seq<char>),
            >::empty());
            match spec_kv(piece) {
                Some(kv) => {
                    assert(spec_pairs(pieces) =~= seq![kv]);
                },
                None => {
                    assert(spec_pairs(pieces) =~= Seq::<(Seq<char>, Seq<char>)>::empty());
                },
            }
            assert(view_params(out@) =~= view_params(out0) + spec_pairs(pieces));
        }
    }
}

/// Collect the key/value parameters of a query string and a request
/// body, both split on ampersands: in each piece the key stands before
/// the first equals sign and the value after the last one, a piece
/// without one is its own key and value, and pieces with an empty key
/// or value are dropped.  Later pairs with the same key are meant to
/// win on lookup, as `get_param` reads them.
pub fn get_request_params(query: &str, body: &str) -> (r: Vec<(String, String)>)
    ensures
        view_params(r@) == spec_request_params(query@, body@),
{
    let qv = chars_of(query);
    let bv = chars_of(body);
    let mut out: Vec<(String, String)> = Vec::new();
    push_params_from(&qv, 0, &mut out);
    let ghost qpairs = view_params(out@);
    push_params_from(&bv, 0, &mut out);
    proof {
        assert(qv@.skip(0) =~= query@);
        assert(bv@.skip(0) =~= body@);
        lemma_split_pairs_add(query@, body@);
        assert(view_params(out@) =~= spec_request_params(query@, body@));
    }
    out
}

/// Reading the pairs of two piece lists one after the other is reading
/// them together.
proof fn lemma_pairs_add(xs: Seq<Seq<char>>, ys: Seq<Seq<char>>)
    ensures
        spec_pairs(xs + ys) == spec_pairs(xs) + spec_pairs(ys),
    decreases xs.len(),
{
    if xs.len() == 0 {
        assert(xs + ys =~= ys);
        assert(spec_pairs(xs) + spec_pairs(ys) =~= spec_pairs(ys));
    } else {
        assert((xs + ys)[0] == xs[0]);
        assert((xs + ys).skip(1) =~= xs.skip(1) + ys);
        lemma_pairs_add(xs.skip(1), ys);
        match spec_kv(xs[0]) {
            Some(kv) => {
                assert(seq![kv] + (spec_pairs(xs.skip(1)) + spec_pairs(ys)) =~= (seq![kv]
                    + spec_pairs(xs.skip(1))) + spec_pairs(ys));
            },
            None => {
            },
        }
    }
}

proof fn lemma_split_pairs_add(query: Seq<char>, body: Seq<char>)
    ensures
        spec_request_params(query, body) == spec_pairs(spec_split(query, '&')) + spec_pairs(
            spec_split(body, '&'),
        ),
{
    lemma_pairs_add(spec_split(query, '&'), spec_split(body, '&'));
}

/// The value of the last pair carrying `key`, if any: later pairs
/// overwrite earlier ones, as a map built from the list would.
pub open spec fn spec_param_lookup(ps: Seq<(Seq<char>, Seq<char>)>, key: Seq<char>) -> Option<
    Seq<char>,
>
    decreases ps.len(),
{
    if ps.len() == 0 {
        None
    } else if ps.last().0 == key {
        Some(ps.last().1)
    } else {
        spec_param_lookup(ps.drop_last(), key)
    }
}

/// Look a parameter up by key; the latest pair with that key wins.
pub fn get_param(params: &Vec<(String, String)>, key: &str) -> (r: Option<String>)
    ensures
        match r {
            Some(v) => spec_param_lookup(view_params(params@), key@) == Some(v@),
            None => spec_param_lookup(view_params(params@), key@) is None,
        },
{
    let n = params.len();
    proof {
        assert(view_params(params@).take(n as int) =~= view_params(params@));
    }
    let mut i: usize = n;
    while i > 0
        invariant
            i <= n,
            n == params@.len(),
            spec_param_lookup(view_params(params@), key@) == spec_param_lookup(
                view_params(params@).take(i as int),
                key@,
            ),
        decreases i,
    {
        i = i - 1;
        proof {
            assert(view_params(params@).take(i + 1).drop_last() =~= view_params(params@).take(
                i as int,
            ));
            assert(view_params(params@).take(i + 1).last() == view_params(params@)[i as int]);
        }
        if crate::common::strutil::str_eq(params[i].0.as_str(), key) {
            let v = params[i].1.clone();
            return Some(v);
        }
    }
    proof {
        assert(view_params(params@).take(0) =~= Seq::<(Seq<char>, Seq<char>)>::empty());
    }
    None
}


/// Where an inbound request path leads.
pub enum Route {
    Metrics,
    Fever,
    CaptureHttp(String),
    CaptureHttps(String),
    Invoke(String),
    NotFound,
}

/// The mathematical form of a resolved route.
pub enum RouteModel {
    Metrics,
    Fever,
    CaptureHttp(Seq<char>),
    CaptureHttps(Seq<char>),
    Invoke(Seq<char>),
    NotFound,
}

impl View for Route {
    type V = RouteModel;

    open spec fn view(&self) -> RouteModel {
        match self {
            Route::Metrics => RouteModel::Metrics,
            Route::Fever => RouteModel::Fever,
            Route::CaptureHttp(u) => RouteModel::CaptureHttp(u@),
            Route::CaptureHttps(u) => RouteModel::CaptureHttps(u@),
            Route::Invoke(m) => RouteModel::Invoke(m@),
            Route::NotFound => RouteModel::NotFound,
        }
    }
}

/// Whether `p` starts `s`.
pub open spec fn spec_starts_with(s: Seq<char>, p: Seq<char>) -> bool {
    s.len() >= p.len() && s.take(p.len() as int) == p
}

/// Where a request path leads: the metrics page, the read API under the
/// configured prefix, a capture of the target reassembled from the rest
/// of the path, a transform invocation, or nowhere.
pub open spec fn spec_route(path: Seq<char>, prefix: Seq<char>) -> RouteModel {
    if path == "/metrics"@ {
        RouteModel::Metrics
    } else if spec_starts_with(path, "/"@ + prefix + "/fever"@) {
        RouteModel::Fever
    } else if spec_starts_with(path, "/http/"@) {
        RouteModel::CaptureHttp("http://"@ + path.skip(6))
    } else if spec_starts_with(path, "/https/"@) {
        RouteModel::CaptureHttps("https://"@ + path.skip(7))
    } else if spec_starts_with(path, "/invoke/"@) {
        RouteModel::Invoke(path.skip(8))
    } else {
        RouteModel::NotFound
    }
}

/// Resolve a request path against the configured read-API prefix.
pub fn route_request(path: &str, prefix: &str) -> (r: Route)
    ensures
        r@ == spec_route(path@, prefix@),
{
    proof {
        reveal_strlit("/metrics");
        reveal_strlit("/");
        reveal_strlit("/fever");
        reveal_strlit("/http/");
        reveal_strlit("http://");
        reveal_strlit("/https/");
        reveal_strlit("https://");
        reveal_strlit("/invoke/");
    }
    let mut fever_prefix = "/".to_owned();
    fever_prefix.append(prefix);
    fever_prefix.append("/fever");
    if strutil::str_eq(path, "/metrics") {
        Route::Metrics
    } else if starts_with(path, fever_prefix.as_str()) {
        Route::Fever
    } else if starts_with(path, "/http/") {
        let mut u = "http://".to_owned();
        let rest = suffix_from(path, 6);
        u.append(rest.as_str());
        Route::CaptureHttp(u)
    } else if starts_with(path, "/https/") {
        let mut u = "https://".to_owned();
        let rest = suffix_from(path, 7);
        u.append(rest.as_str());
        Route::CaptureHttps(u)
    } else if starts_with(path, "/invoke/") {
        Route::Invoke(suffix_from(path, 8))
    } else {
        Route::NotFound
    }
}

} // verus!
