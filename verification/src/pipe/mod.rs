use vstd::prelude::*;

pub mod laws;
pub mod proxy;
pub mod parse;

use crate::pipe::parse::{ParsedEntryModel, ParsedFeed, ParsedFeedModel};
use crate::storage::feeds::{spec_feed_id_by_url, spec_upsert_feed, upsert_feed};
use crate::storage::items::{create_item, spec_create_item};
use crate::common::strutil::{spec_u64_dec, u64_to_dec};
use crate::storage::{Store, StoreModel};

verus! {

/// Process-wide counters: one per tracked status-code class, plus the
/// pipeline error counter.  Increments wrap, as the process-wide atomic
/// counters they model do.
#[derive(Clone, Copy, PartialEq, Eq, Structural)]
pub struct Metrics {
    pub http_200: u64,
    pub http_304: u64,
    pub http_502: u64,
    pub http_503: u64,
    pub pipe_err: u64,
}

/// A wrapping increment.
pub open spec fn spec_bump(c: u64) -> u64 {
    if c == u64::MAX {
        0u64
    } else {
        (c + 1) as u64
    }
}

fn bump(c: u64) -> (r: u64)
    ensures
        r == spec_bump(c),
{
    if c == u64::MAX {
        0
    } else {
        c + 1
    }
}

/// The counters after recording one response status: the matching
/// status-class counter is bumped; other codes leave every counter alone.
pub open spec fn spec_record_status(m: Metrics, status: u16) -> Metrics {
    if status == 200 {
        Metrics { http_200: spec_bump(m.http_200), ..m }
    } else if status == 304 {
        Metrics { http_304: spec_bump(m.http_304), ..m }
    } else if status == 502 {
        Metrics { http_502: spec_bump(m.http_502), ..m }
    } else if status == 503 {
        Metrics { http_503: spec_bump(m.http_503), ..m }
    } else {
        m
    }
}

/// The counters after one pipeline error.
pub open spec fn spec_count_error(m: Metrics) -> Metrics {
    Metrics { pipe_err: spec_bump(m.pipe_err), ..m }
}

impl Metrics {
    /// All counters start at zero.
    pub fn new() -> (m: Metrics)
        ensures
            m == (Metrics { http_200: 0u64, http_304: 0u64, http_502: 0u64, http_503: 0u64, pipe_err: 0u64 }),
    {
        Metrics { http_200: 0, http_304: 0, http_502: 0, http_503: 0, pipe_err: 0 }
    }

    /// Record one response status code.
    pub fn record_status(&mut self, status: u16)
        ensures
            *final(self) == spec_record_status(*old(self), status),
    {
        if status == 200 {
            self.http_200 = bump(self.http_200);
        } else if status == 304 {
            self.http_304 = bump(self.http_304);
        } else if status == 502 {
            self.http_502 = bump(self.http_502);
        } else if status == 503 {
            self.http_503 = bump(self.http_503);
        }
    }

    /// Record one pipeline error.
    pub fn count_error(&mut self)
        ensures
            *final(self) == spec_count_error(*old(self)),
    {
        self.pipe_err = bump(self.pipe_err);
    }
}

/// One captured response on its way to the ingestion pipeline.
/// `recovered` marks a payload produced by the single conditional-refetch
/// recovery attempt; such a payload never triggers another one.
pub struct CapturedPayload {
    pub url: String,
    pub status: u16,
    pub body: Vec<u8>,
    pub recovered: bool,
}

/// The mathematical contents of a captured payload.
pub struct PayloadModel {
    pub url: Seq<char>,
    pub status: u16,
    pub body: Seq<u8>,
    pub recovered: bool,
}

impl View for CapturedPayload {
    type V = PayloadModel;

    open spec fn view(&self) -> PayloadModel {
        PayloadModel {
            url: self.url@,
            status: self.status,
            body: self.body@,
            recovered: self.recovered,
        }
    }
}

/// The bounded FIFO queue between the capture path and the single
/// ingestion consumer.  It is the only synchronization point between
/// the two sides; a full queue refuses new payloads instead of blocking.
pub struct IngestQueue {
    buf: Vec<CapturedPayload>,
    cap: usize,
}

/// The mathematical contents of the queue: pending payloads in FIFO
/// order, oldest first, and the fixed capacity.
pub struct QueueModel {
    pub buf: Seq<PayloadModel>,
    pub cap: usize,
}

/// What enqueueing does: append when below capacity, refuse otherwise.
pub open spec fn spec_try_enqueue(q: QueueModel, p: PayloadModel) -> (QueueModel, bool) {
    if q.buf.len() < q.cap {
        (QueueModel { buf: q.buf.push(p), cap: q.cap }, true)
    } else {
        (q, false)
    }
}

/// What dequeueing does: remove and return the oldest payload, if any.
pub open spec fn spec_dequeue(q: QueueModel) -> (QueueModel, Option<PayloadModel>) {
    if q.buf.len() == 0 {
        (q, None)
    } else {
        (QueueModel { buf: q.buf.skip(1), cap: q.cap }, Some(q.buf[0]))
    }
}

/// What `n` dequeues in a row return, in the order they come out.
pub open spec fn spec_dequeue_n(q: QueueModel, n: nat) -> (QueueModel, Seq<PayloadModel>)
    decreases n,
{
    if n == 0 {
        (q, Seq::empty())
    } else {
        let (q1, r) = spec_dequeue(q);
        match r {
            None => (q1, Seq::empty()),
            Some(p) => {
                let (q2, rest) = spec_dequeue_n(q1, (n - 1) as nat);
                (q2, seq![p] + rest)
            },
        }
    }
}

impl View for IngestQueue {
    type V = QueueModel;

    closed spec fn view(&self) -> QueueModel {
        QueueModel { buf: self.buf@.map_values(|p: CapturedPayload| p@), cap: self.cap }
    }
}

impl IngestQueue {
    /// An empty queue with the given capacity.
    pub fn new(cap: usize) -> (q: IngestQueue)
        ensures
            q@.buf.len() == 0,
            q@.cap == cap,
    {
        IngestQueue { buf: Vec::new(), cap: cap }
    }

    /// How many payloads are pending.
    pub fn len(&self) -> (n: usize)
        ensures
            n == self@.buf.len(),
    {
        self.buf.len()
    }

    /// The fixed capacity the queue was created with.
    pub fn capacity(&self) -> (n: usize)
        ensures
            n == self@.cap,
    {
        self.cap
    }

    /// Append a payload unless the queue is full.  Never blocks; a full
    /// queue leaves the contents untouched and reports failure.
    pub fn try_enqueue(&mut self, p: CapturedPayload) -> (ok: bool)
        ensures
            final(self)@ == spec_try_enqueue(old(self)@, p@).0,
            ok == spec_try_enqueue(old(self)@, p@).1,
            ok == (old(self)@.buf.len() < old(self)@.cap),
    {
        if self.buf.len() < self.cap {
            self.buf.push(p);
            proof {
                assert(self@.buf =~= old(self)@.buf.push(p@));
            }
            true
        } else {
            false
        }
    }

    /// Remove and return the oldest pending payload, if any.
    pub fn dequeue(&mut self) -> (r: Option<CapturedPayload>)
        ensures
            final(self)@ == spec_dequeue(old(self)@).0,
            match r {
                Some(p) => spec_dequeue(old(self)@).1 == Some(p@),
                None => spec_dequeue(old(self)@).1 is None,
            },
    {
        if self.buf.len() == 0 {
            None
        } else {
            let p = self.buf.remove(0);
            proof {
                assert(self@.buf =~= old(self)@.buf.skip(1));
            }
            Some(p)
        }
    }
}

/// Clone a byte buffer.
fn clone_bytes(v: &Vec<u8>) -> (r: Vec<u8>)
    ensures
        r@ == v@,
{
    let mut r: Vec<u8> = Vec::new();
    let n = v.len();
    let mut i: usize = 0;
    while i < n
        invariant
            i <= n,
            n == v@.len(),
            r@ == v@.take(i as int),
        decreases n - i,
    {
        r.push(v[i]);
        proof {
            assert(r@ =~= v@.take(i + 1));
        }
        i = i + 1;
    }
    proof {
        assert(v@.take(n as int) =~= v@);
    }
    r
}

/// Capture one upstream response: count its status class, hand a copy of
/// the body to the ingestion queue, and return the bytes for the client
/// untouched.  A full queue only bumps the error counter; the client-facing
/// result never depends on the ingestion outcome.
pub fn capture(
    metrics: &mut Metrics,
    queue: &mut IngestQueue,
    url: &str,
    status: u16,
    body: Vec<u8>,
    recovered: bool,
) -> (passthrough: Vec<u8>)
    ensures
        passthrough@ == body@,
        final(queue)@.cap == old(queue)@.cap,
        ({
            let m1 = spec_record_status(*old(metrics), status);
            let p = PayloadModel { url: url@, status: status, body: body@, recovered: recovered };
            if old(queue)@.buf.len() < old(queue)@.cap {
                &&& final(queue)@.buf == old(queue)@.buf.push(p)
                &&& *final(metrics) == m1
            } else {
                &&& final(queue)@.buf == old(queue)@.buf
                &&& *final(metrics) == spec_count_error(m1)
            }
        }),
{
    metrics.record_status(status);
    let copy = clone_bytes(&body);
    let payload = CapturedPayload { url: url.to_owned(), status: status, body: body, recovered: recovered };
    let ok = queue.try_enqueue(payload);
    if !ok {
        metrics.count_error();
    }
    copy
}


/// One notification tuple on its way to the push fan-out.
pub struct Notification {
    pub feed_title: String,
    pub item_title: String,
    pub content: String,
    pub link: String,
}

/// The mathematical contents of a notification tuple.
pub struct NotificationModel {
    pub feed_title: Seq<char>,
    pub item_title: Seq<char>,
    pub content: Seq<char>,
    pub link: Seq<char>,
}

impl View for Notification {
    type V = NotificationModel;

    open spec fn view(&self) -> NotificationModel {
        NotificationModel {
            feed_title: self.feed_title@,
            item_title: self.item_title@,
            content: self.content@,
            link: self.link@,
        }
    }
}

/// The views of a list of notifications.
pub open spec fn spec_notifs(ns: Seq<Notification>) -> Seq<NotificationModel> {
    ns.map_values(|n: Notification| n@)
}

/// The title of the one tuple announcing a brand-new subscription.
pub open spec fn new_subscription_title() -> Seq<char> {
    "New Feed Subscription"@
}

fn new_subscription_title_str() -> (r: String)
    ensures
        r@ == new_subscription_title(),
{
    "New Feed Subscription".to_owned()
}

/// The per-item notification tuple: payload feed title plus the entry's
/// own title, content and link.
pub open spec fn spec_item_notif(feed_title: Seq<char>, e: ParsedEntryModel) -> NotificationModel {
    NotificationModel {
        feed_title: feed_title,
        item_title: e.title,
        content: e.content,
        link: e.link,
    }
}

/// The one tuple emitted instead of per-item tuples when the feed itself
/// was just created.
pub open spec fn spec_subscription_notif(feed_title: Seq<char>) -> NotificationModel {
    NotificationModel {
        feed_title: new_subscription_title(),
        item_title: Seq::empty(),
        content: feed_title,
        link: Seq::empty(),
    }
}

/// Ingest entries from the last one to the first (the feed lists newest
/// first; notifications must go out oldest first).  Each entry is created
/// unless its (feed id, guid) pair is stored already; a tuple is emitted
/// for each created item, unless the feed itself was just created.
pub open spec fn spec_ingest_entries(
    m: StoreModel,
    feed_id: u64,
    feed_created: bool,
    feed_title: Seq<char>,
    entries: Seq<ParsedEntryModel>,
    now: u64,
) -> (StoreModel, Seq<NotificationModel>)
    decreases entries.len(),
{
    if entries.len() == 0 {
        (m, Seq::empty())
    } else {
        let e = entries.last();
        let (m1, id, created) = spec_create_item(
            m,
            feed_id,
            e.guid,
            e.title,
            e.content,
            e.link,
            e.author,
            e.timestamp,
            now,
        );
        let here: Seq<NotificationModel> = if created && !feed_created {
            seq![spec_item_notif(feed_title, e)]
        } else {
            Seq::empty()
        };
        let (m2, rest) = spec_ingest_entries(
            m1,
            feed_id,
            feed_created,
            feed_title,
            entries.drop_last(),
            now,
        );
        (m2, here + rest)
    }
}

/// One full ingestion cycle for a parsed payload: upsert the feed by its
/// source URL, then ingest the entries.  A brand-new feed yields exactly
/// the subscription tuple; a known feed yields one tuple per new item.
pub open spec fn spec_handle_feed(m: StoreModel, url: Seq<char>, fd: ParsedFeedModel, now: u64) -> (
    StoreModel,
    Seq<NotificationModel>,
) {
    let (m1, feed_id, url_id, created) = spec_upsert_feed(m, url, fd.title, now);
    let subs: Seq<NotificationModel> = if created {
        seq![spec_subscription_notif(fd.title)]
    } else {
        Seq::empty()
    };
    let (m2, ns) = spec_ingest_entries(m1, feed_id, created, fd.title, fd.entries, now);
    (m2, subs + ns)
}

/// Ingest one parsed payload: upsert its feed, create its new items from
/// the oldest entry to the newest, and return the notification tuples in
/// that order, all exactly as `spec_handle_feed` lays down.
pub fn handle_feed(store: &mut Store, url: &str, feed: &ParsedFeed, now: u64) -> (notifs: Vec<
    Notification,
>)
    requires
        old(store)@.wf(),
        old(store)@.next_feed_id < u64::MAX,
        old(store)@.next_url_id < u64::MAX,
        old(store)@.next_item_id + feed@.entries.len() < u64::MAX,
    ensures
        final(store)@.wf(),
        ({
            let (m2, ns) = spec_handle_feed(old(store)@, url@, feed@, now);
            final(store)@ == m2 && spec_notifs(notifs@) == ns
        }),
{
    let ghost m0 = store@;
    let (feed_id, url_id, feed_created) = upsert_feed(store, url, feed.title.as_str(), now);
    let ghost m1 = store@;
    let mut notifs: Vec<Notification> = Vec::new();
    if feed_created {
        notifs.push(
            Notification {
                feed_title: new_subscription_title_str(),
                item_title: String::new(),
                content: feed.title.clone(),
                link: String::new(),
            },
        );
    }
    let ghost subs = spec_notifs(notifs@);
    proof {
        if feed_created {
            assert(subs =~= seq![spec_subscription_notif(feed@.title)]);
        } else {
            assert(subs =~= Seq::<NotificationModel>::empty());
        }
    }
    let n = feed.entries.len();
    proof {
        assert(feed@.entries.take(n as int) =~= feed@.entries);
        assert(spec_notifs(notifs@).take(subs.len() as int) =~= subs);
        assert(spec_notifs(notifs@).skip(subs.len() as int) =~= Seq::<NotificationModel>::empty());
        let (ms, ns) = spec_ingest_entries(store@, feed_id, feed_created, feed@.title, feed@.entries, now);
        assert(Seq::<NotificationModel>::empty() + ns =~= ns);
    }
    let mut i: usize = n;
    while i > 0
        invariant
            i <= n,
            n == feed.entries@.len(),
            store@.wf(),
            store@.next_item_id <= m1.next_item_id + (n - i),
            m1.next_item_id + n < u64::MAX,
            subs.len() <= notifs@.len(),
            spec_notifs(notifs@).take(subs.len() as int) == subs,
            spec_ingest_entries(m1, feed_id, feed_created, feed@.title, feed@.entries, now) == ({
                let (ms, ns) = spec_ingest_entries(
                    store@,
                    feed_id,
                    feed_created,
                    feed@.title,
                    feed@.entries.take(i as int),
                    now,
                );
                (ms, spec_notifs(notifs@).skip(subs.len() as int) + ns)
            }),
        decreases i,
    {
        let ghost pre = store@;
        let ghost prenotifs = notifs@;
        let e = &feed.entries[i - 1];
        proof {
            assert(feed.entries@[i - 1]@ == feed@.entries[i - 1]);
            assert(feed@.entries.take(i as int).last() == feed@.entries[i - 1]);
            assert(feed@.entries.take(i as int).drop_last() =~= feed@.entries.take(i - 1));
        }
        let (item_id, item_created) = create_item(
            store,
            feed_id,
            e.guid.as_str(),
            e.title.as_str(),
            e.content.as_str(),
            e.link.as_str(),
            e.author.as_str(),
            e.timestamp,
            now,
        );
        if item_created && !feed_created {
            notifs.push(
                Notification {
                    feed_title: feed.title.clone(),
                    item_title: e.title.clone(),
                    content: e.content.clone(),
                    link: e.link.clone(),
                },
            );
            proof {
                assert(spec_notifs(notifs@) =~= spec_notifs(prenotifs).push(
                    spec_item_notif(feed@.title, feed@.entries[i - 1]),
                ));
            }
        }
        proof {
            assert(spec_notifs(notifs@).take(subs.len() as int) =~= subs);
            let tail_pre = spec_notifs(prenotifs).skip(subs.len() as int);
            let tail_post = spec_notifs(notifs@).skip(subs.len() as int);
            let e_m = feed@.entries[i - 1];
            let (cm, cid, ccreated) = spec_create_item(
                pre,
                feed_id,
                e_m.guid,
                e_m.title,
                e_m.content,
                e_m.link,
                e_m.author,
                e_m.timestamp,
                now,
            );
            let here: Seq<NotificationModel> = if ccreated && !feed_created {
                seq![spec_item_notif(feed@.title, e_m)]
            } else {
                Seq::empty()
            };
            assert(tail_post =~= tail_pre + here);
            let (ms_post, ns_post) = spec_ingest_entries(
                store@,
                feed_id,
                feed_created,
                feed@.title,
                feed@.entries.take(i - 1),
                now,
            );
            assert(tail_pre + (here + ns_post) =~= (tail_pre + here) + ns_post);
        }
        i = i - 1;
    }
    proof {
        assert(feed@.entries.take(n as int) =~= feed@.entries);
        assert(feed@.entries.take(0) =~= Seq::<ParsedEntryModel>::empty());
        let tail = spec_notifs(notifs@).skip(subs.len() as int);
        assert(tail + Seq::<NotificationModel>::empty() =~= tail);
        assert(spec_notifs(notifs@) =~= subs + tail);
        let (m2, ns) = spec_handle_feed(m0, url@, feed@, now);
        assert(spec_notifs(notifs@) =~= ns);
    }
    notifs
}


/// Whether a failed parse asks for the conditional-refetch recovery: the
/// origin said "not modified", the store knows no feed for the URL, and
/// the payload is not itself the result of a recovery attempt.
pub open spec fn spec_refetch_decision(
    m: StoreModel,
    url: Seq<char>,
    status: u16,
    recovered: bool,
) -> bool {
    status == 304 && spec_feed_id_by_url(m, url) is None && !recovered
}

/// Decide what a failed parse leads to: either the one recovery re-fetch
/// (reported to the caller, nothing counted yet), or one pipeline error
/// counted and the payload discarded.
pub fn handle_feed_error(
    store: &Store,
    metrics: &mut Metrics,
    url: &str,
    status: u16,
    recovered: bool,
) -> (refetch: bool)
    ensures
        refetch == spec_refetch_decision(store@, url@, status, recovered),
        recovered ==> !refetch,
        *final(metrics) == if refetch {
            *old(metrics)
        } else {
            spec_count_error(*old(metrics))
        },
{
    if status == 304 && !recovered {
        if crate::storage::feeds::get_feed_id_by_url(store, url).is_none() {
            return true;
        }
    }
    metrics.count_error();
    false
}

/// One consumer step for a dequeued payload whose body has already been
/// offered to the feed parser.  A parsed feed is ingested and its
/// notification tuples returned; a failed parse either asks the caller
/// for the single recovery re-fetch or counts one pipeline error.  The
/// second component of the result says whether to re-fetch the URL.
pub fn process_payload(
    store: &mut Store,
    metrics: &mut Metrics,
    url: &str,
    status: u16,
    recovered: bool,
    parsed: Option<&ParsedFeed>,
    now: u64,
) -> (r: (Vec<Notification>, bool))
    requires
        old(store)@.wf(),
        old(store)@.next_feed_id < u64::MAX,
        old(store)@.next_url_id < u64::MAX,
        parsed matches Some(f) ==> old(store)@.next_item_id + f@.entries.len() < u64::MAX,
    ensures
        final(store)@.wf(),
        match parsed {
            Some(f) => ({
                let (m2, ns) = spec_handle_feed(old(store)@, url@, f@, now);
                &&& final(store)@ == m2
                &&& spec_notifs(r.0@) == ns
                &&& r.1 == false
                &&& *final(metrics) == *old(metrics)
            }),
            None => ({
                &&& final(store)@ == old(store)@
                &&& r.0@.len() == 0
                &&& r.1 == spec_refetch_decision(old(store)@, url@, status, recovered)
                &&& *final(metrics) == if r.1 {
                    *old(metrics)
                } else {
                    spec_count_error(*old(metrics))
                }
            }),
        },
{
    match parsed {
        Some(f) => {
            let notifs = handle_feed(store, url, f, now);
            (notifs, false)
        },
        None => {
            let refetch = handle_feed_error(store, metrics, url, status, recovered);
            (Vec::new(), refetch)
        },
    }
}


/// Count one gateway failure and hand the error text back for the
/// client-facing reply.
pub fn handle_error(metrics: &mut Metrics, message: String) -> (r: String)
    ensures
        r == message,
        *final(metrics) == (Metrics { http_502: spec_bump(old(metrics).http_502), ..*old(metrics) }),
{
    metrics.http_502 = bump(metrics.http_502);
    message
}

/// The synthetic source identifier of a transform-produced payload.
pub open spec fn spec_invoke_source_url(engine: Seq<char>, method: Seq<char>) -> Seq<char> {
    "rss_pipe://"@ + engine + "/"@ + method
}

/// Build the synthetic source identifier of a transform-produced payload.
pub fn invoke_source_url(engine: &str, method: &str) -> (r: String)
    ensures
        r@ == spec_invoke_source_url(engine@, method@),
{
    let mut s = "rss_pipe://".to_owned();
    s.append(engine);
    s.append("/");
    s.append(method);
    s
}

/// The metrics page: one line per status-class counter, the pipeline
/// error counter, and the live unread count.
pub open spec fn spec_render_metrics(m: Metrics, unread: u64) -> Seq<char> {
    "# RSS Pipe Metrics\nrss_pipe_status_code_count{status_code=\"200\"} "@ + spec_u64_dec(
        m.http_200 as nat,
    ) + "\nrss_pipe_status_code_count{status_code=\"304\"} "@ + spec_u64_dec(m.http_304 as nat)
        + "\nrss_pipe_status_code_count{status_code=\"502\"} "@ + spec_u64_dec(
        m.http_502 as nat,
    ) + "\nrss_pipe_status_code_count{status_code=\"503\"} "@ + spec_u64_dec(m.http_503 as nat)
        + "\nrss_pipe_error_count{} "@ + spec_u64_dec(m.pipe_err as nat) + "\nrss_pipe_unread_count{} "@
        + spec_u64_dec(unread as nat)
}

/// Render the metrics page text.
pub fn render_metrics(m: &Metrics, unread: u64) -> (r: String)
    ensures
        r@ == spec_render_metrics(*m, unread),
{
    let mut s = "# RSS Pipe Metrics\nrss_pipe_status_code_count{status_code=\"200\"} ".to_owned();
    let t200 = u64_to_dec(m.http_200);
    s.append(t200.as_str());
    s.append("\nrss_pipe_status_code_count{status_code=\"304\"} ");
    let t304 = u64_to_dec(m.http_304);
    s.append(t304.as_str());
    s.append("\nrss_pipe_status_code_count{status_code=\"502\"} ");
    let t502 = u64_to_dec(m.http_502);
    s.append(t502.as_str());
    s.append("\nrss_pipe_status_code_count{status_code=\"503\"} ");
    let t503 = u64_to_dec(m.http_503);
    s.append(t503.as_str());
    s.append("\nrss_pipe_error_count{} ");
    let terr = u64_to_dec(m.pipe_err);
    s.append(terr.as_str());
    s.append("\nrss_pipe_unread_count{} ");
    let tunread = u64_to_dec(unread);
    s.append(tunread.as_str());
    s
}

} // verus!
