use rss_pipe::common::{get_param, get_request_params, route_request, Route};
use rss_pipe::common::strutil::{parse_u64, u64_to_dec};
use rss_pipe::fever::{base_response_body, check_api_key, fever_action, unauthorized_body, FeverAction};
use rss_pipe::push::bark::{build_bark_request, preview_text};
use rss_pipe::pipe::proxy::{classify_scheme, forward_uri, proxied_request_parts, UrlScheme};
use rss_pipe::pipe::invoke_source_url;
use rss_pipe::storage::feeds::upsert_feed;
use rss_pipe::storage::items::create_item;
use rss_pipe::storage::Store;

#[test]
fn request_params_from_query_and_body() {
    let ps = get_request_params("a=1&b=2", "c=3");
    assert_eq!(ps.len(), 3);
    assert_eq!(get_param(&ps, "a"), Some("1".to_owned()));
    assert_eq!(get_param(&ps, "b"), Some("2".to_owned()));
    assert_eq!(get_param(&ps, "c"), Some("3".to_owned()));
    assert_eq!(get_param(&ps, "d"), None);
}

#[test]
fn later_pairs_win() {
    let ps = get_request_params("k=old", "k=new");
    assert_eq!(get_param(&ps, "k"), Some("new".to_owned()));
}

#[test]
fn bare_piece_is_its_own_key_and_value() {
    let ps = get_request_params("feeds", "");
    assert_eq!(get_param(&ps, "feeds"), Some("feeds".to_owned()));
}

#[test]
fn empty_keys_or_values_are_dropped() {
    let ps = get_request_params("a=&=b&&", "");
    assert_eq!(ps.len(), 0);
}

#[test]
fn double_equals_takes_outer_parts() {
    let ps = get_request_params("a=b=c", "");
    assert_eq!(get_param(&ps, "a"), Some("c".to_owned()));
}

#[test]
fn api_key_check_is_case_insensitive() {
    assert!(check_api_key("AbCdEf", "abcdef"));
    assert!(!check_api_key("AbCdEf", "other"));
}

#[test]
fn action_dispatch_order() {
    let ps = get_request_params("api_key=x&items&feeds", "");
    assert!(matches!(fever_action(&ps), FeverAction::Feeds));
    let ps2 = get_request_params("unread_item_ids", "");
    assert!(matches!(fever_action(&ps2), FeverAction::UnreadIds));
    let ps3 = get_request_params("api_key=x", "");
    assert!(matches!(fever_action(&ps3), FeverAction::Default));
}

#[test]
fn mark_action_needs_all_three_parts() {
    let ps = get_request_params("mark=item&as=read&id=4", "");
    match fever_action(&ps) {
        FeverAction::Mark(id, kind) => {
            assert_eq!(id, "4");
            assert_eq!(kind, "read");
        },
        _ => panic!("expected a mark action"),
    }
    let ps2 = get_request_params("mark=item&as=read", "");
    assert!(matches!(fever_action(&ps2), FeverAction::Default));
    let ps3 = get_request_params("mark=group&as=read&id=4", "");
    assert!(matches!(fever_action(&ps3), FeverAction::Default));
}

#[test]
fn fever_mark_flips_flags() {
    let mut st = Store::new();
    let (fid, _, _) = upsert_feed(&mut st, "http://a.example", "A", 1);
    let (iid, _) = create_item(&mut st, fid, "g1", "", "", "", "", 1, 1);
    rss_pipe::fever::items::mark(&mut st, &iid.to_string(), "read");
    assert_eq!(st.items[0].data.is_read, 1);
    rss_pipe::fever::items::mark(&mut st, &iid.to_string(), "unread");
    assert_eq!(st.items[0].data.is_read, 0);
    rss_pipe::fever::items::mark(&mut st, &iid.to_string(), "saved");
    assert_eq!(st.items[0].data.is_saved, 1);
    rss_pipe::fever::items::mark(&mut st, "junk", "read");
    assert_eq!(st.items[0].data.is_read, 0);
}

#[test]
fn fever_item_queries() {
    let mut st = Store::new();
    let (fid, _, _) = upsert_feed(&mut st, "http://a.example", "A", 1);
    let (i1, _) = create_item(&mut st, fid, "g1", "t1", "", "", "", 1, 1);
    let (i2, _) = create_item(&mut st, fid, "g2", "t2", "", "", "", 1, 1);
    let ps = get_request_params(&format!("with_ids={}%2C{}", i1, i2), "");
    let got = rss_pipe::fever::items::get_items(&st, &ps);
    assert_eq!(got.len(), 2);
    let ps2 = get_request_params(&format!("since_id={}", i1), "");
    let got2 = rss_pipe::fever::items::get_items(&st, &ps2);
    assert_eq!(got2.len(), 1);
    assert_eq!(got2[0].title, "t2");
    assert_eq!(rss_pipe::fever::items::get_unread_item_ids(&st), format!("{},{}", i1, i2));
    assert_eq!(rss_pipe::fever::items::get_saved_item_ids(&st), "");
    assert_eq!(rss_pipe::fever::items::get_total_items(&st), ", \"total_items\": 2");
}

#[test]
fn fever_feed_listing() {
    let mut st = Store::new();
    upsert_feed(&mut st, "http://a.example/feed", "A", 42);
    let feeds = rss_pipe::fever::feeds::get_all_feeds(&st);
    assert_eq!(feeds.len(), 1);
    assert_eq!(feeds[0].id, 1);
    assert_eq!(feeds[0].favicon_id, 1);
    assert_eq!(feeds[0].title, "A");
    assert_eq!(feeds[0].url, "http://a.example/feed");
    assert_eq!(feeds[0].site_url, "");
    assert_eq!(feeds[0].is_spark, 0);
    assert_eq!(feeds[0].last_updated_on_time, 42);
    assert_eq!(rss_pipe::fever::feeds::get_last_refreshed_time(&st), 42);
}

#[test]
fn response_bodies() {
    assert_eq!(unauthorized_body(), "{\"api_version\": 3, \"auth\": 0}");
    assert_eq!(
        base_response_body(9, "feeds", "[]", ""),
        "{\"api_version\": 3, \"auth\": 1, \"last_refreshed_on_time\": 9, \"feeds\": []}"
    );
    assert_eq!(
        base_response_body(0, "", "", ", \"total_items\": 2"),
        "{\"api_version\": 3, \"auth\": 1, \"last_refreshed_on_time\": 0, \"total_items\": 2}"
    );
}

#[test]
fn number_round_trips() {
    assert_eq!(u64_to_dec(0), "0");
    assert_eq!(u64_to_dec(18446744073709551615), "18446744073709551615");
    assert_eq!(parse_u64("0"), Some(0));
    assert_eq!(parse_u64("+42"), Some(42));
    assert_eq!(parse_u64("18446744073709551615"), Some(18446744073709551615));
    assert_eq!(parse_u64("18446744073709551616"), None);
    assert_eq!(parse_u64(""), None);
    assert_eq!(parse_u64("+"), None);
    assert_eq!(parse_u64("1x"), None);
}

#[test]
fn routes() {
    assert!(matches!(route_request("/metrics", "rss_pipe"), Route::Metrics));
    assert!(matches!(route_request("/rss_pipe/fever", "rss_pipe"), Route::Fever));
    match route_request("/http/blog.example/feed", "rss_pipe") {
        Route::CaptureHttp(u) => assert_eq!(u, "http://blog.example/feed"),
        _ => panic!("expected an http capture"),
    }
    match route_request("/https/blog.example/feed", "rss_pipe") {
        Route::CaptureHttps(u) => assert_eq!(u, "https://blog.example/feed"),
        _ => panic!("expected an https capture"),
    }
    match route_request("/invoke/tidy", "rss_pipe") {
        Route::Invoke(m) => assert_eq!(m, "tidy"),
        _ => panic!("expected an invocation"),
    }
    assert!(matches!(route_request("/elsewhere", "rss_pipe"), Route::NotFound));
}

#[test]
fn scheme_dispatch() {
    assert!(matches!(classify_scheme("http://a.example"), UrlScheme::Http));
    assert!(matches!(classify_scheme("https://a.example"), UrlScheme::Https));
    assert!(matches!(classify_scheme("ftp://a.example"), UrlScheme::Other));
}

#[test]
fn forwarded_uri_keeps_the_query() {
    assert_eq!(forward_uri("http://a.example/feed", Some("k=v")), "http://a.example/feed?k=v");
    assert_eq!(forward_uri("http://a.example/feed", None), "http://a.example/feed");
}

#[test]
fn proxied_parts_carry_query_and_host() {
    let (uri, host) = proxied_request_parts("http://blog.example/feed", Some("k=v"));
    assert_eq!(uri, "http://blog.example/feed?k=v");
    assert_eq!(host, Some("blog.example".to_owned()));
    let (_, none_host) = proxied_request_parts("not a uri", None);
    assert_eq!(none_host, None);
}

#[test]
fn synthetic_source_identifier() {
    assert_eq!(invoke_source_url("rss_pipe.py", "tidy"), "rss_pipe://rss_pipe.py/tidy");
}

#[test]
fn bark_request_defaults_the_group() {
    let r = build_bark_request("Blog", "Post", "<p>Body</p>", "", Some("http://l".to_owned()), None);
    assert_eq!(r.title, "Blog");
    assert_eq!(r.group, "rss_pipe_rust");
    assert_eq!(r.url, Some("http://l".to_owned()));
    assert_eq!(r.image, None);
    assert!(r.body.contains("Body"));
    let r2 = build_bark_request("Blog", "Post", "<p>Body</p>", "mine", None, None);
    assert_eq!(r2.group, "mine");
}

#[test]
fn bark_body_is_truncated() {
    let long = "x".repeat(400);
    let r = build_bark_request("Blog", "Post", &long, "", None, None);
    assert_eq!(r.body.chars().count(), 253);
    assert!(r.body.ends_with("..."));
}

#[test]
fn preview_trims_trailing_newlines() {
    assert_eq!(
        preview_text("T", "body\n\n"),
        "======== Bark Preview ========\nT\nbody\n=============================="
    );
}
