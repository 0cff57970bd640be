use vstd::prelude::*;

use crate::pipe::parse::{ParsedEntryModel, ParsedFeedModel};
use crate::pipe::{
    spec_dequeue, spec_dequeue_n, spec_handle_feed, spec_ingest_entries, spec_item_notif,
    spec_refetch_decision, spec_subscription_notif, spec_try_enqueue, NotificationModel,
    PayloadModel, QueueModel,
};
use crate::storage::feeds::{lemma_upsert_feed_props, spec_feed_id_by_url, spec_upsert_feed};
use crate::storage::items::{lemma_create_item_props, spec_create_item, spec_item_exists};
use crate::storage::StoreModel;

verus! {

/// What ingesting a list of entries does and keeps: feeds and URLs are
/// untouched, stored pairs survive, every ingested entry's pair is stored
/// afterwards, and a just-created feed suppresses every per-item tuple.
pub proof fn lemma_ingest_entries_props(
    m: StoreModel,
    feed_id: u64,
    feed_created: bool,
    feed_title: Seq<char>,
    entries: Seq<ParsedEntryModel>,
    now: u64,
)
    ensures
        ({
            let (m2, ns) = spec_ingest_entries(m, feed_id, feed_created, feed_title, entries, now);
            &&& m2.feeds == m.feeds
            &&& m2.urls == m.urls
            &&& m2.next_feed_id == m.next_feed_id
            &&& m2.next_url_id == m.next_url_id
            &&& m2.next_item_id <= m.next_item_id + entries.len()
            &&& forall|f2: u64, g2: Seq<char>|
                #[trigger] spec_item_exists(m, f2, g2) ==> spec_item_exists(m2, f2, g2)
            &&& forall|k: int|
                0 <= k < entries.len() ==> spec_item_exists(
                    m2,
                    feed_id,
                    (#[trigger] entries[k]).guid,
                )
            &&& (feed_created ==> ns == Seq::<NotificationModel>::empty())
            &&& (m.wf() && m.next_item_id + entries.len() <= u64::MAX ==> m2.wf())
        }),
    decreases entries.len(),
{
    if entries.len() > 0 {
        let e = entries.last();
        let (m1, id, created) = spec_create_item(
            m,
            feed_id,
            e.guid,
            e.title,
            e.content,
            e.link,
            e.author,
            e.timestamp,
            now,
        );
        lemma_create_item_props(
            m,
            feed_id,
            e.guid,
            e.title,
            e.content,
            e.link,
            e.author,
            e.timestamp,
            now,
        );
        lemma_ingest_entries_props(
            m1,
            feed_id,
            feed_created,
            feed_title,
            entries.drop_last(),
            now,
        );
        let (m2, rest) = spec_ingest_entries(
            m1,
            feed_id,
            feed_created,
            feed_title,
            entries.drop_last(),
            now,
        );
        assert forall|k: int| 0 <= k < entries.len() implies spec_item_exists(
            m2,
            feed_id,
            (#[trigger] entries[k]).guid,
        ) by {
            if k < entries.len() - 1 {
                assert(entries.drop_last()[k] == entries[k]);
            } else {
                assert(spec_item_exists(m1, feed_id, e.guid));
            }
        }
        if feed_created {
            let ns = spec_ingest_entries(m, feed_id, feed_created, feed_title, entries, now).1;
            assert(ns =~= Seq::<NotificationModel>::empty());
        }
    }
}

/// Ingesting entries whose pairs are all stored already changes nothing
/// and yields no tuples.
pub proof fn lemma_ingest_entries_noop(
    m: StoreModel,
    feed_id: u64,
    feed_created: bool,
    feed_title: Seq<char>,
    entries: Seq<ParsedEntryModel>,
    now: u64,
)
    requires
        forall|k: int|
            0 <= k < entries.len() ==> spec_item_exists(m, feed_id, (#[trigger] entries[k]).guid),
    ensures
        ({
            let (m2, ns) = spec_ingest_entries(m, feed_id, feed_created, feed_title, entries, now);
            m2 == m && ns == Seq::<NotificationModel>::empty()
        }),
    decreases entries.len(),
{
    if entries.len() > 0 {
        let e = entries.last();
        lemma_create_item_props(
            m,
            feed_id,
            e.guid,
            e.title,
            e.content,
            e.link,
            e.author,
            e.timestamp,
            now,
        );
        assert(spec_item_exists(m, feed_id, e.guid));
        assert(forall|k: int|
            0 <= k < entries.len() - 1 ==> #[trigger] entries.drop_last()[k] == entries[k]);
        lemma_ingest_entries_noop(m, feed_id, feed_created, feed_title, entries.drop_last(), now);
        let (m2, ns) = spec_ingest_entries(m, feed_id, feed_created, feed_title, entries, now);
        assert(ns =~= Seq::<NotificationModel>::empty());
    }
}

/// Ingesting entries of which exactly one, at index `j`, is new yields
/// exactly that entry's tuple (the feed itself was not just created).
pub proof fn lemma_ingest_entries_one_new(
    m: StoreModel,
    feed_id: u64,
    feed_title: Seq<char>,
    entries: Seq<ParsedEntryModel>,
    j: int,
    now: u64,
)
    requires
        0 <= j < entries.len(),
        !spec_item_exists(m, feed_id, entries[j].guid),
        forall|k: int|
            0 <= k < entries.len() && k != j ==> spec_item_exists(
                m,
                feed_id,
                (#[trigger] entries[k]).guid,
            ),
    ensures
        ({
            let (m2, ns) = spec_ingest_entries(m, feed_id, false, feed_title, entries, now);
            ns == seq![spec_item_notif(feed_title, entries[j])]
        }),
    decreases entries.len(),
{
    let e = entries.last();
    let (m1, id, created) = spec_create_item(
        m,
        feed_id,
        e.guid,
        e.title,
        e.content,
        e.link,
        e.author,
        e.timestamp,
        now,
    );
    lemma_create_item_props(
        m,
        feed_id,
        e.guid,
        e.title,
        e.content,
        e.link,
        e.author,
        e.timestamp,
        now,
    );
    assert(forall|k: int|
        0 <= k < entries.len() - 1 ==> #[trigger] entries.drop_last()[k] == entries[k]);
    let (m2, ns) = spec_ingest_entries(m, feed_id, false, feed_title, entries, now);
    if j == entries.len() - 1 {
        assert(created);
        assert forall|k: int| 0 <= k < entries.drop_last().len() implies spec_item_exists(
            m1,
            feed_id,
            (#[trigger] entries.drop_last()[k]).guid,
        ) by {
            assert(spec_item_exists(m, feed_id, entries[k].guid));
        }
        lemma_ingest_entries_noop(m1, feed_id, false, feed_title, entries.drop_last(), now);
        assert(ns =~= seq![spec_item_notif(feed_title, entries[j])]);
    } else {
        assert(spec_item_exists(m, feed_id, e.guid));
        assert(!created);
        assert(m1 == m);
        lemma_ingest_entries_one_new(m, feed_id, feed_title, entries.drop_last(), j, now);
        assert(entries.drop_last()[j] == entries[j]);
        assert(ns =~= seq![spec_item_notif(feed_title, entries[j])]);
    }
}

/// Dedup idempotence: ingesting the identical payload twice stores no
/// further item and yields no tuple at all the second time; and a
/// well-formed store stays well-formed, so no (feed id, guid) pair is
/// ever stored twice.
pub proof fn lemma_dedup_idempotent(
    m: StoreModel,
    url: Seq<char>,
    fd: ParsedFeedModel,
    now1: u64,
    now2: u64,
)
    ensures
        ({
            let (ma, na) = spec_handle_feed(m, url, fd, now1);
            let (mb, nb) = spec_handle_feed(ma, url, fd, now2);
            &&& nb == Seq::<NotificationModel>::empty()
            &&& mb.items == ma.items
            &&& (m.wf() && m.next_feed_id < u64::MAX && m.next_url_id < u64::MAX
                && m.next_item_id + fd.entries.len() <= u64::MAX ==> ma.wf() && mb.wf())
        }),
{
    let (m1, fid, uid, created) = spec_upsert_feed(m, url, fd.title, now1);
    lemma_upsert_feed_props(m, url, fd.title, now1);
    lemma_ingest_entries_props(m1, fid, created, fd.title, fd.entries, now1);
    let (ma, na) = spec_handle_feed(m, url, fd, now1);
    assert(spec_feed_id_by_url(ma, url) == Some(fid)) by {
        assert(ma.urls == m1.urls);
    }
    let (m1b, fidb, uidb, createdb) = spec_upsert_feed(ma, url, fd.title, now2);
    lemma_upsert_feed_props(ma, url, fd.title, now2);
    assert(!createdb);
    assert(fidb == fid);
    assert(m1b.items == ma.items);
    assert forall|k: int| 0 <= k < fd.entries.len() implies spec_item_exists(
        m1b,
        fid,
        (#[trigger] fd.entries[k]).guid,
    ) by {
        assert(spec_item_exists(ma, fid, fd.entries[k].guid));
        assert(m1b.items == ma.items);
    }
    lemma_ingest_entries_noop(m1b, fid, false, fd.title, fd.entries, now2);
    let (mb, nb) = spec_handle_feed(ma, url, fd, now2);
    assert(nb =~= Seq::<NotificationModel>::empty());
}

/// New-subscription suppression: ingesting a payload for a URL never seen
/// before yields exactly one tuple, the subscription tuple, however many
/// entries the payload carries.
pub proof fn lemma_new_subscription_suppression(
    m: StoreModel,
    url: Seq<char>,
    fd: ParsedFeedModel,
    now: u64,
)
    requires
        spec_feed_id_by_url(m, url) is None,
    ensures
        spec_handle_feed(m, url, fd, now).1 == seq![spec_subscription_notif(fd.title)],
{
    let (m1, fid, uid, created) = spec_upsert_feed(m, url, fd.title, now);
    lemma_upsert_feed_props(m, url, fd.title, now);
    assert(created);
    lemma_ingest_entries_props(m1, fid, created, fd.title, fd.entries, now);
    assert(spec_handle_feed(m, url, fd, now).1 =~= seq![spec_subscription_notif(fd.title)]);
}

/// Subsequent-item notification: a payload for an already-known feed
/// whose entries add exactly one new pair, at index `j`, yields exactly
/// one tuple, carrying that entry's title, content and link.
pub proof fn lemma_subsequent_item_notification(
    m: StoreModel,
    url: Seq<char>,
    fd: ParsedFeedModel,
    j: int,
    now: u64,
)
    requires
        spec_feed_id_by_url(m, url) is Some,
        0 <= j < fd.entries.len(),
        !spec_item_exists(m, spec_feed_id_by_url(m, url).unwrap(), fd.entries[j].guid),
        forall|k: int|
            0 <= k < fd.entries.len() && k != j ==> spec_item_exists(
                m,
                spec_feed_id_by_url(m, url).unwrap(),
                (#[trigger] fd.entries[k]).guid,
            ),
    ensures
        spec_handle_feed(m, url, fd, now).1 == seq![spec_item_notif(fd.title, fd.entries[j])],
{
    let (m1, fid, uid, created) = spec_upsert_feed(m, url, fd.title, now);
    lemma_upsert_feed_props(m, url, fd.title, now);
    assert(!created);
    assert(fid == spec_feed_id_by_url(m, url).unwrap());
    assert(m1.items == m.items);
    assert forall|k: int| 0 <= k < fd.entries.len() && k != j implies spec_item_exists(
        m1,
        fid,
        (#[trigger] fd.entries[k]).guid,
    ) by {
        assert(spec_item_exists(m, fid, fd.entries[k].guid));
    }
    lemma_ingest_entries_one_new(m1, fid, fd.title, fd.entries, j, now);
    assert(spec_handle_feed(m, url, fd, now).1 =~= seq![
        spec_item_notif(fd.title, fd.entries[j]),
    ]);
}

/// Conditional-refetch termination: a payload that is itself the result
/// of the recovery re-fetch never asks for another one, whatever the
/// store, URL and status are.
pub proof fn lemma_conditional_refetch_terminates(m: StoreModel, url: Seq<char>, status: u16)
    ensures
        !spec_refetch_decision(m, url, status, true),
{
}

/// Draining a queue returns its pending payloads in enqueue order: `n`
/// dequeues yield exactly the `n` oldest payloads, oldest first.
pub proof fn lemma_drain_order(q: QueueModel, n: nat)
    requires
        n <= q.buf.len(),
    ensures
        spec_dequeue_n(q, n).1 == q.buf.take(n as int),
        spec_dequeue_n(q, n).0.buf == q.buf.skip(n as int),
    decreases n,
{
    if n > 0 {
        let (q1, r) = spec_dequeue(q);
        lemma_drain_order(q1, (n - 1) as nat);
        assert(seq![q.buf[0]] + q.buf.skip(1).take(n - 1) =~= q.buf.take(n as int));
        assert(q.buf.skip(1).skip(n - 1) =~= q.buf.skip(n as int));
    } else {
        assert(q.buf.take(0) =~= Seq::<PayloadModel>::empty());
        assert(q.buf.skip(0) =~= q.buf);
    }
}

/// FIFO ordering: two payloads enqueued in order A then B sit in the
/// queue in that order and, from any starting contents, come back out
/// in that order when the queue is drained — the single sequential
/// consumer therefore sees and applies A before it processes B.
pub proof fn lemma_fifo_order(q0: QueueModel, a: PayloadModel, b: PayloadModel)
    requires
        q0.buf.len() + 2 <= q0.cap,
    ensures
        ({
            let (q1, ok1) = spec_try_enqueue(q0, a);
            let (q2, ok2) = spec_try_enqueue(q1, b);
            let (qd, drained) = spec_dequeue_n(q2, (q0.buf.len() + 2) as nat);
            &&& ok1 && ok2
            &&& q2.buf.len() == q0.buf.len() + 2
            &&& q2.buf[q0.buf.len() as int] == a
            &&& q2.buf[q0.buf.len() as int + 1] == b
            &&& drained == q2.buf
            &&& drained[q0.buf.len() as int] == a
            &&& drained[q0.buf.len() as int + 1] == b
            &&& qd.buf.len() == 0
        }),
{
    let (q1, ok1) = spec_try_enqueue(q0, a);
    let (q2, ok2) = spec_try_enqueue(q1, b);
    lemma_drain_order(q2, (q0.buf.len() + 2) as nat);
    assert(q2.buf.take((q0.buf.len() + 2) as int) =~= q2.buf);
    assert(q2.buf.skip((q0.buf.len() + 2) as int) =~= Seq::<PayloadModel>::empty());
}

/// Sequential observation: once one payload for a URL has been
/// ingested, the upsert of any later payload for the same URL finds
/// what the first one left — it resolves to the same feed id and never
/// creates a second feed row.
pub proof fn lemma_sequential_observation(
    m: StoreModel,
    url: Seq<char>,
    fa: ParsedFeedModel,
    fb_title: Seq<char>,
    now1: u64,
    now2: u64,
)
    ensures
        ({
            let (ma, na) = spec_handle_feed(m, url, fa, now1);
            let (m1a, fid_a, uid_a, created_a) = spec_upsert_feed(m, url, fa.title, now1);
            let (mb, fid_b, uid_b, created_b) = spec_upsert_feed(ma, url, fb_title, now2);
            &&& !created_b
            &&& fid_b == fid_a
        }),
{
    lemma_upsert_feed_props(m, url, fa.title, now1);
    let (m1, fid, uid, created) = spec_upsert_feed(m, url, fa.title, now1);
    lemma_ingest_entries_props(m1, fid, created, fa.title, fa.entries, now1);
    let (ma, na) = spec_handle_feed(m, url, fa, now1);
    assert(ma.urls == m1.urls);
    assert(spec_feed_id_by_url(ma, url) == Some(fid));
    lemma_upsert_feed_props(ma, url, fb_title, now2);
}

} // verus!
