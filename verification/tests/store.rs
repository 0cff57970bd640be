use rss_pipe::storage::feeds::{
    get_all_feeds, get_feed_id_by_url, get_last_refreshed_time, upsert_feed, Feed, FeedUrl,
};
use rss_pipe::storage::items::{
    create_item, get_items, get_saved_item_ids, get_total_items, get_unread_item_ids,
    set_item_read_status, set_item_saved_status,
};
use rss_pipe::storage::Store;

#[test]
fn upsert_creates_then_finds() {
    let mut st = Store::new();
    let (fid, uid, created) = upsert_feed(&mut st, "http://a.example/feed", "A", 100);
    assert_eq!((fid, uid, created), (1, 1, true));
    assert_eq!(get_feed_id_by_url(&st, "http://a.example/feed"), Some(1));
    let (fid2, _uid2, created2) = upsert_feed(&mut st, "http://a.example/feed", "A2", 200);
    assert_eq!(fid2, 1);
    assert!(!created2);
    assert_eq!(st.feeds.len(), 1);
}

#[test]
fn upsert_preserves_original_title() {
    let mut st = Store::new();
    upsert_feed(&mut st, "http://a.example/feed", "first title", 100);
    upsert_feed(&mut st, "http://a.example/feed", "second title", 200);
    assert_eq!(st.feeds[0].title, "first title");
}

#[test]
fn last_refreshed_only_moves_forward() {
    let mut st = Store::new();
    upsert_feed(&mut st, "http://a.example/feed", "A", 100);
    upsert_feed(&mut st, "http://a.example/feed", "A", 300);
    assert_eq!(st.feeds[0].last_updated, 300);
    upsert_feed(&mut st, "http://a.example/feed", "A", 200);
    assert_eq!(st.feeds[0].last_updated, 300);
    assert_eq!(get_last_refreshed_time(&st), 300);
}

#[test]
fn unknown_url_is_unknown() {
    let st = Store::new();
    assert_eq!(get_feed_id_by_url(&st, "http://nowhere.example"), None);
}

#[test]
fn create_item_dedups_by_feed_and_guid() {
    let mut st = Store::new();
    let (fid, _, _) = upsert_feed(&mut st, "http://a.example/feed", "A", 100);
    let (id1, created1) = create_item(&mut st, fid, "g1", "t", "<p>h</p>", "http://l", "au", 7, 50);
    assert!(created1);
    let (id2, created2) = create_item(&mut st, fid, "g1", "t", "<p>h</p>", "http://l", "au", 7, 60);
    assert!(!created2);
    assert_eq!(id1, id2);
    assert_eq!(st.items.len(), 1);
}

#[test]
fn same_guid_under_other_feed_is_a_new_item() {
    let mut st = Store::new();
    let (fa, _, _) = upsert_feed(&mut st, "http://a.example", "A", 1);
    let (fb, _, _) = upsert_feed(&mut st, "http://b.example", "B", 1);
    let (_, ca) = create_item(&mut st, fa, "g", "", "", "", "", 1, 1);
    let (_, cb) = create_item(&mut st, fb, "g", "", "", "", "", 1, 1);
    assert!(ca && cb);
    assert_eq!(st.items.len(), 2);
}

#[test]
fn zero_timestamp_takes_the_clock() {
    let mut st = Store::new();
    let (fid, _, _) = upsert_feed(&mut st, "http://a.example", "A", 1);
    create_item(&mut st, fid, "g0", "", "", "", "", 0, 777);
    create_item(&mut st, fid, "g9", "", "", "", "", 9, 777);
    assert_eq!(st.items[0].data.created_on_time, 777);
    assert_eq!(st.items[1].data.created_on_time, 9);
}

#[test]
fn all_feeds_pick_the_latest_location() {
    let mut st = Store::new();
    st.feeds.push(Feed { id: 1, title: "A".to_owned(), last_updated: 5 });
    st.urls.push(FeedUrl { id: 1, feed_id: 1, url: "http://old.example".to_owned() });
    st.urls.push(FeedUrl { id: 2, feed_id: 1, url: "http://new.example".to_owned() });
    st.next_feed_id = 2;
    st.next_url_id = 3;
    let all = get_all_feeds(&st).unwrap();
    assert_eq!(all.len(), 1);
    assert_eq!(all[0].1.url, "http://new.example");
    assert_eq!(all[0].0.title, "A");
}

#[test]
fn feeds_without_location_are_left_out() {
    let mut st = Store::new();
    st.feeds.push(Feed { id: 1, title: "A".to_owned(), last_updated: 5 });
    st.next_feed_id = 2;
    assert_eq!(get_all_feeds(&st).unwrap().len(), 0);
}

#[test]
fn read_and_saved_flags() {
    let mut st = Store::new();
    let (fid, _, _) = upsert_feed(&mut st, "http://a.example", "A", 1);
    let (i1, _) = create_item(&mut st, fid, "g1", "", "", "", "", 1, 1);
    let (i2, _) = create_item(&mut st, fid, "g2", "", "", "", "", 1, 1);
    assert_eq!(get_unread_item_ids(&st).unwrap(), vec![i1, i2]);
    assert_eq!(get_saved_item_ids(&st).unwrap(), Vec::<u64>::new());
    set_item_read_status(&mut st, i1, 1);
    set_item_saved_status(&mut st, i2, 1);
    assert_eq!(get_unread_item_ids(&st).unwrap(), vec![i2]);
    assert_eq!(get_saved_item_ids(&st).unwrap(), vec![i2]);
    assert_eq!(get_total_items(&st, false), 2);
    assert_eq!(get_total_items(&st, true), 1);
}

#[test]
fn get_items_with_ids() {
    let mut st = Store::new();
    let (fid, _, _) = upsert_feed(&mut st, "http://a.example", "A", 1);
    let (i1, _) = create_item(&mut st, fid, "g1", "t1", "", "", "", 1, 1);
    let (_i2, _) = create_item(&mut st, fid, "g2", "t2", "", "", "", 1, 1);
    let (i3, _) = create_item(&mut st, fid, "g3", "t3", "", "", "", 1, 1);
    let got = get_items(&st, "with_ids", &format!("{},{}", i1, i3)).unwrap();
    assert_eq!(got.len(), 2);
    assert_eq!(got[0].title, "t1");
    assert_eq!(got[1].title, "t3");
}

#[test]
fn get_items_since_id() {
    let mut st = Store::new();
    let (fid, _, _) = upsert_feed(&mut st, "http://a.example", "A", 1);
    let (i1, _) = create_item(&mut st, fid, "g1", "t1", "", "", "", 1, 1);
    create_item(&mut st, fid, "g2", "t2", "", "", "", 1, 1);
    let got = get_items(&st, "since_id", &i1.to_string()).unwrap();
    assert_eq!(got.len(), 1);
    assert_eq!(got[0].title, "t2");
}

#[test]
fn get_items_rejects_malformed_ids() {
    let st = Store::new();
    assert!(get_items(&st, "with_ids", "1,x,3").is_none());
    assert!(get_items(&st, "with_ids", "").is_none());
}

#[test]
fn get_items_caps_at_fifty() {
    let mut st = Store::new();
    let (fid, _, _) = upsert_feed(&mut st, "http://a.example", "A", 1);
    for k in 0..60u64 {
        create_item(&mut st, fid, &format!("g{}", k), "", "", "", "", 1, 1);
    }
    let got = get_items(&st, "since_id", "0").unwrap();
    assert_eq!(got.len(), 50);
}
