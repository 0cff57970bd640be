use rss_pipe::pipe::parse::{ParsedEntry, ParsedFeed};
use rss_pipe::pipe::{
    capture, handle_feed, process_payload, render_metrics, CapturedPayload, IngestQueue, Metrics,
};
use rss_pipe::storage::Store;

fn entry(guid: &str, title: &str, content: &str, link: &str) -> ParsedEntry {
    ParsedEntry {
        guid: guid.to_owned(),
        title: title.to_owned(),
        content: content.to_owned(),
        link: link.to_owned(),
        author: "".to_owned(),
        timestamp: 1,
    }
}

fn feed(title: &str, entries: Vec<ParsedEntry>) -> ParsedFeed {
    ParsedFeed { title: title.to_owned(), entries }
}

#[test]
fn new_subscription_yields_one_tuple() {
    let mut st = Store::new();
    let f = feed("Blog", vec![entry("g3", "t3", "c3", "l3"), entry("g2", "t2", "c2", "l2"), entry("g1", "t1", "c1", "l1")]);
    let notifs = handle_feed(&mut st, "http://a.example/feed", &f, 100);
    assert_eq!(notifs.len(), 1);
    assert_eq!(notifs[0].feed_title, "New Feed Subscription");
    assert_eq!(notifs[0].item_title, "");
    assert_eq!(notifs[0].content, "Blog");
    assert_eq!(notifs[0].link, "");
    assert_eq!(st.items.len(), 3);
}

#[test]
fn identical_payload_twice_stores_once_and_stays_silent() {
    let mut st = Store::new();
    let f = feed("Blog", vec![entry("g2", "t2", "c2", "l2"), entry("g1", "t1", "c1", "l1")]);
    let first = handle_feed(&mut st, "http://a.example/feed", &f, 100);
    assert_eq!(first.len(), 1);
    let items_after_first = st.items.len();
    let second = handle_feed(&mut st, "http://a.example/feed", &f, 200);
    assert_eq!(second.len(), 0);
    assert_eq!(st.items.len(), items_after_first);
    assert_eq!(st.items.len(), 2);
}

#[test]
fn one_added_entry_yields_its_tuple() {
    let mut st = Store::new();
    let f1 = feed("Blog", vec![entry("g1", "t1", "c1", "l1")]);
    handle_feed(&mut st, "http://a.example/feed", &f1, 100);
    let f2 = feed("Blog", vec![entry("g2", "fresh title", "fresh body", "http://fresh"), entry("g1", "t1", "c1", "l1")]);
    let notifs = handle_feed(&mut st, "http://a.example/feed", &f2, 200);
    assert_eq!(notifs.len(), 1);
    assert_eq!(notifs[0].feed_title, "Blog");
    assert_eq!(notifs[0].item_title, "fresh title");
    assert_eq!(notifs[0].content, "fresh body");
    assert_eq!(notifs[0].link, "http://fresh");
}

#[test]
fn notifications_come_oldest_first() {
    let mut st = Store::new();
    let f1 = feed("Blog", vec![entry("g0", "t0", "c0", "l0")]);
    handle_feed(&mut st, "http://a.example/feed", &f1, 100);
    let f2 = feed(
        "Blog",
        vec![entry("g2", "newest", "c", "l"), entry("g1", "older", "c", "l"), entry("g0", "t0", "c0", "l0")],
    );
    let notifs = handle_feed(&mut st, "http://a.example/feed", &f2, 200);
    assert_eq!(notifs.len(), 2);
    assert_eq!(notifs[0].item_title, "older");
    assert_eq!(notifs[1].item_title, "newest");
}

#[test]
fn capture_returns_the_body_untouched() {
    let mut m = Metrics::new();
    let mut q = IngestQueue::new(4);
    let body = vec![1u8, 2, 3];
    let out = capture(&mut m, &mut q, "http://a.example", 200, body.clone(), false);
    assert_eq!(out, body);
    assert_eq!(m.http_200, 1);
    assert_eq!(m.pipe_err, 0);
    assert_eq!(q.len(), 1);
}

#[test]
fn full_queue_only_bumps_the_error_counter() {
    let mut m = Metrics::new();
    let mut q = IngestQueue::new(2);
    capture(&mut m, &mut q, "http://a.example", 200, vec![1], false);
    capture(&mut m, &mut q, "http://a.example", 200, vec![2], false);
    let body = vec![9u8, 9];
    let out = capture(&mut m, &mut q, "http://a.example", 200, body.clone(), false);
    assert_eq!(out, body);
    assert_eq!(q.len(), 2);
    assert_eq!(m.pipe_err, 1);
    assert_eq!(m.http_200, 3);
}

#[test]
fn queue_is_first_in_first_out() {
    let mut q = IngestQueue::new(8);
    let a = CapturedPayload { url: "http://a".to_owned(), status: 200, body: vec![1], recovered: false };
    let b = CapturedPayload { url: "http://b".to_owned(), status: 200, body: vec![2], recovered: false };
    assert!(q.try_enqueue(a));
    assert!(q.try_enqueue(b));
    assert_eq!(q.dequeue().unwrap().url, "http://a");
    assert_eq!(q.dequeue().unwrap().url, "http://b");
    assert!(q.dequeue().is_none());
}

#[test]
fn fifo_holds_from_a_nonempty_queue() {
    let mut q = IngestQueue::new(8);
    let c = CapturedPayload { url: "http://c".to_owned(), status: 200, body: vec![], recovered: false };
    let a = CapturedPayload { url: "http://a".to_owned(), status: 200, body: vec![], recovered: false };
    let b = CapturedPayload { url: "http://b".to_owned(), status: 200, body: vec![], recovered: false };
    q.try_enqueue(c);
    q.try_enqueue(a);
    q.try_enqueue(b);
    assert_eq!(q.dequeue().unwrap().url, "http://c");
    assert_eq!(q.dequeue().unwrap().url, "http://a");
    assert_eq!(q.dequeue().unwrap().url, "http://b");
}

#[test]
fn payloads_for_one_feed_apply_in_order() {
    let mut q = IngestQueue::new(8);
    let mut st = Store::new();
    let pa = CapturedPayload { url: "http://f.example".to_owned(), status: 200, body: vec![], recovered: false };
    let pb = CapturedPayload { url: "http://f.example".to_owned(), status: 200, body: vec![], recovered: false };
    q.try_enqueue(pa);
    q.try_enqueue(pb);
    let first = q.dequeue().unwrap();
    let fa = feed("Blog", vec![entry("g1", "t1", "c1", "l1")]);
    let na = handle_feed(&mut st, &first.url, &fa, 100);
    assert_eq!(na.len(), 1);
    let second = q.dequeue().unwrap();
    let fb = feed("Blog", vec![entry("g2", "t2", "c2", "l2"), entry("g1", "t1", "c1", "l1")]);
    let nb = handle_feed(&mut st, &second.url, &fb, 200);
    assert_eq!(nb.len(), 1);
    assert_eq!(nb[0].item_title, "t2");
}

#[test]
fn unparsable_304_for_unknown_feed_asks_one_refetch() {
    let mut st = Store::new();
    let mut m = Metrics::new();
    let (notifs, refetch) =
        process_payload(&mut st, &mut m, "http://a.example/feed", 304, false, None, 100);
    assert!(refetch);
    assert_eq!(notifs.len(), 0);
    assert_eq!(m.pipe_err, 0);
}

#[test]
fn recovered_payload_never_refetches_again() {
    let mut st = Store::new();
    let mut m = Metrics::new();
    let (_, refetch) =
        process_payload(&mut st, &mut m, "http://a.example/feed", 304, true, None, 100);
    assert!(!refetch);
    assert_eq!(m.pipe_err, 1);
}

#[test]
fn unparsable_304_for_known_feed_does_not_refetch() {
    let mut st = Store::new();
    let f = feed("Blog", vec![]);
    handle_feed(&mut st, "http://a.example/feed", &f, 50);
    let mut m = Metrics::new();
    let (_, refetch) =
        process_payload(&mut st, &mut m, "http://a.example/feed", 304, false, None, 100);
    assert!(!refetch);
    assert_eq!(m.pipe_err, 1);
}

#[test]
fn unparsable_other_status_counts_an_error() {
    let mut st = Store::new();
    let mut m = Metrics::new();
    let (_, refetch) =
        process_payload(&mut st, &mut m, "http://a.example/feed", 200, false, None, 100);
    assert!(!refetch);
    assert_eq!(m.pipe_err, 1);
}

#[test]
fn status_classes_are_counted() {
    let mut m = Metrics::new();
    m.record_status(200);
    m.record_status(304);
    m.record_status(502);
    m.record_status(503);
    m.record_status(404);
    assert_eq!((m.http_200, m.http_304, m.http_502, m.http_503, m.pipe_err), (1, 1, 1, 1, 0));
}

#[test]
fn metrics_page_text() {
    let m = Metrics { http_200: 3, http_304: 1, http_502: 0, http_503: 2, pipe_err: 4 };
    let text = render_metrics(&m, 7);
    assert_eq!(
        text,
        "# RSS Pipe Metrics\n\
         rss_pipe_status_code_count{status_code=\"200\"} 3\n\
         rss_pipe_status_code_count{status_code=\"304\"} 1\n\
         rss_pipe_status_code_count{status_code=\"502\"} 0\n\
         rss_pipe_status_code_count{status_code=\"503\"} 2\n\
         rss_pipe_error_count{} 4\n\
         rss_pipe_unread_count{} 7"
    );
}

fn reduce_feed(bytes: &[u8]) -> Option<ParsedFeed> {
    let parsed = feed_rs::parser::parse(bytes).ok()?;
    let title = parsed.title.map(|t| t.content).unwrap_or_default();
    let entries = parsed
        .entries
        .into_iter()
        .map(|e| {
            rss_pipe::pipe::parse::build_entry(
                e.id,
                e.title.map(|t| t.content),
                e.content.and_then(|c| c.body),
                e.summary.map(|t| t.content),
                e.links.first().map(|l| l.href.clone()),
                e.authors.first().map(|p| (p.email.clone(), p.name.clone())),
                e.published.map(|d| d.timestamp()),
                e.updated.map(|d| d.timestamp()),
            )
        })
        .collect();
    Some(ParsedFeed { title, entries })
}

#[test]
fn reducing_a_real_feed() {
    let xml = "<?xml version=\"1.0\" encoding=\"utf-8\"?>\
        <feed xmlns=\"http://www.w3.org/2005/Atom\">\
        <title>Example Feed</title>\
        <id>urn:feed</id>\
        <updated>2024-01-02T00:00:00Z</updated>\
        <entry>\
        <title>First Post</title>\
        <id>urn:post:1</id>\
        <link href=\"http://blog.example/1\"/>\
        <updated>2024-01-01T00:00:00Z</updated>\
        <author><name>Ada</name><email>ada@example.com</email></author>\
        <summary>A short summary</summary>\
        </entry>\
        </feed>";
    let parsed = reduce_feed(xml.as_bytes()).unwrap();
    assert_eq!(parsed.title, "Example Feed");
    assert_eq!(parsed.entries.len(), 1);
    let e = &parsed.entries[0];
    assert_eq!(e.guid, "urn:post:1");
    assert_eq!(e.title, "First Post");
    assert_eq!(e.content, "A short summary");
    assert_eq!(e.link, "http://blog.example/1");
    assert_eq!(e.author, "ada@example.com");
    assert_eq!(e.timestamp, 1704067200);
}

#[test]
fn junk_bytes_do_not_parse() {
    assert!(reduce_feed(b"not a feed").is_none());
}

#[test]
fn build_entry_selection_rules() {
    let e = rss_pipe::pipe::parse::build_entry(
        "g".to_owned(),
        None,
        None,
        Some("the summary".to_owned()),
        None,
        Some((None, Some("Ada".to_owned()))),
        None,
        Some(9),
    );
    assert_eq!(e.title, "");
    assert_eq!(e.content, "the summary");
    assert_eq!(e.link, "");
    assert_eq!(e.author, "Ada");
    assert_eq!(e.timestamp, 9);
    let e2 = rss_pipe::pipe::parse::build_entry(
        "g".to_owned(),
        Some("t".to_owned()),
        Some("the body".to_owned()),
        Some("the summary".to_owned()),
        Some("l".to_owned()),
        Some((Some("ada@example.com".to_owned()), Some("Ada".to_owned()))),
        Some(5),
        Some(9),
    );
    assert_eq!(e2.content, "the body");
    assert_eq!(e2.author, "ada@example.com");
    assert_eq!(e2.timestamp, 5);
    let e3 = rss_pipe::pipe::parse::build_entry(
        "g".to_owned(),
        None,
        None,
        None,
        None,
        None,
        None,
        None,
    );
    assert_eq!(e3.timestamp, 0);
    assert_eq!(e3.author, "");
}

#[test]
fn ingesting_a_parsed_feed_end_to_end() {
    let xml = "<?xml version=\"1.0\" encoding=\"utf-8\"?>\
        <feed xmlns=\"http://www.w3.org/2005/Atom\">\
        <title>Example Feed</title>\
        <id>urn:feed</id>\
        <updated>2024-01-02T00:00:00Z</updated>\
        <entry><title>First Post</title><id>urn:post:1</id>\
        <updated>2024-01-01T00:00:00Z</updated></entry>\
        </feed>";
    let parsed = reduce_feed(xml.as_bytes());
    let mut st = Store::new();
    let mut m = Metrics::new();
    let (notifs, refetch) = process_payload(
        &mut st,
        &mut m,
        "http://blog.example/feed",
        200,
        false,
        parsed.as_ref(),
        100,
    );
    assert!(!refetch);
    assert_eq!(notifs.len(), 1);
    assert_eq!(notifs[0].feed_title, "New Feed Subscription");
    assert_eq!(st.items.len(), 1);
    assert_eq!(st.feeds[0].title, "Example Feed");
}
