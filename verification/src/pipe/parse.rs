//! The plain shape of a parsed feed, and the verified reduction of one
//! entry's raw values to it.  The syndication parser itself runs at the
//! unverified edge of the process: it can panic on hostile input, which
//! no contract here could delimit, so the caller catches that and reads
//! it as a parse failure before anything reaches these types.

use vstd::prelude::*;

verus! {

/// One feed entry reduced to plain values: the provider-assigned guid,
/// the chosen title, content, link and author, and the entry timestamp
/// in epoch seconds (0 when the source carries none).
pub struct ParsedEntry {
    pub guid: String,
    pub title: String,
    pub content: String,
    pub link: String,
    pub author: String,
    pub timestamp: u64,
}

/// A parsed feed reduced to plain values: its title and its entries in
/// the feed's natural order, newest first.
pub struct ParsedFeed {
    pub title: String,
    pub entries: Vec<ParsedEntry>,
}

/// The mathematical contents of a parsed entry.
pub struct ParsedEntryModel {
    pub guid: Seq<char>,
    pub title: Seq<char>,
    pub content: Seq<char>,
    pub link: Seq<char>,
    pub author: Seq<char>,
    pub timestamp: u64,
}

/// The mathematical contents of a parsed feed.
pub struct ParsedFeedModel {
    pub title: Seq<char>,
    pub entries: Seq<ParsedEntryModel>,
}

impl View for ParsedEntry {
    type V = ParsedEntryModel;

    open spec fn view(&self) -> ParsedEntryModel {
        ParsedEntryModel {
            guid: self.guid@,
            title: self.title@,
            content: self.content@,
            link: self.link@,
            author: self.author@,
            timestamp: self.timestamp,
        }
    }
}

impl View for ParsedFeed {
    type V = ParsedFeedModel;

    open spec fn view(&self) -> ParsedFeedModel {
        ParsedFeedModel {
            title: self.title@,
            entries: self.entries@.map_values(|e: ParsedEntry| e@),
        }
    }
}


/// The view of an optional string.
pub open spec fn opt_view(o: Option<String>) -> Option<Seq<char>> {
    match o {
        Some(s) => Some(s@),
        None => None,
    }
}

/// The view of an optional author pair.
pub open spec fn author_view(o: Option<(Option<String>, Option<String>)>) -> Option<
    (Option<Seq<char>>, Option<Seq<char>>),
> {
    match o {
        Some((e, n)) => Some((opt_view(e), opt_view(n))),
        None => None,
    }
}

/// An absent text reads as empty.
pub open spec fn spec_or_empty(o: Option<Seq<char>>) -> Seq<char> {
    match o {
        Some(s) => s,
        None => Seq::empty(),
    }
}

/// The entry text used for notifications: the content body when there
/// is one, else the summary, else nothing.
pub open spec fn spec_select_content(
    content: Option<Seq<char>>,
    summary: Option<Seq<char>>,
) -> Seq<char> {
    match content {
        Some(x) => x,
        None => spec_or_empty(summary),
    }
}

/// The author credited for an entry: the first author's email when
/// given, else that author's name, else nothing.
pub open spec fn spec_select_author(
    author: Option<(Option<Seq<char>>, Option<Seq<char>>)>,
) -> Seq<char> {
    match author {
        Some((email, name)) => match email {
            Some(e) => e,
            None => spec_or_empty(name),
        },
        None => Seq::empty(),
    }
}

/// A timestamp as the store keeps it: the two's-complement reading of
/// the signed epoch seconds.
pub open spec fn spec_ts_u64(t: i64) -> u64 {
    if t >= 0 {
        t as u64
    } else {
        (t + 0x10000000000000000) as u64
    }
}

/// The entry timestamp: publication first, else update, else zero (and
/// zero later makes the store substitute the ingestion time).
pub open spec fn spec_select_timestamp(published: Option<i64>, updated: Option<i64>) -> u64 {
    match published {
        Some(t) => spec_ts_u64(t),
        None => match updated {
            Some(t) => spec_ts_u64(t),
            None => 0u64,
        },
    }
}

fn ts_to_u64(t: i64) -> (r: u64)
    ensures
        r == spec_ts_u64(t),
{
    if t >= 0 {
        t as u64
    } else {
        let wide: i128 = t as i128 + 0x10000000000000000i128;
        wide as u64
    }
}

/// What one reduced entry holds, given the plain values drawn from the
/// parsed entry.
pub open spec fn spec_build_entry(
    guid: Seq<char>,
    title: Option<Seq<char>>,
    content: Option<Seq<char>>,
    summary: Option<Seq<char>>,
    link: Option<Seq<char>>,
    author: Option<(Option<Seq<char>>, Option<Seq<char>>)>,
    published: Option<i64>,
    updated: Option<i64>,
) -> ParsedEntryModel {
    ParsedEntryModel {
        guid: guid,
        title: spec_or_empty(title),
        content: spec_select_content(content, summary),
        link: spec_or_empty(link),
        author: spec_select_author(author),
        timestamp: spec_select_timestamp(published, updated),
    }
}

/// Reduce one entry's plain values to the stored shape: absent texts
/// become empty, the content falls back to the summary, the author's
/// email is preferred over the name, and the publication time over the
/// update time.
pub fn build_entry(
    guid: String,
    title: Option<String>,
    content: Option<String>,
    summary: Option<String>,
    link: Option<String>,
    author: Option<(Option<String>, Option<String>)>,
    published: Option<i64>,
    updated: Option<i64>,
) -> (r: ParsedEntry)
    ensures
        r@ == spec_build_entry(
            guid@,
            opt_view(title),
            opt_view(content),
            opt_view(summary),
            opt_view(link),
            author_view(author),
            published,
            updated,
        ),
{
    let title_s = match title {
        Some(t) => t,
        None => String::new(),
    };
    let content_s = match content {
        Some(c) => c,
        None => match summary {
            Some(su) => su,
            None => String::new(),
        },
    };
    let link_s = match link {
        Some(l) => l,
        None => String::new(),
    };
    let author_s = match author {
        Some((email, name)) => match email {
            Some(e) => e,
            None => match name {
                Some(n) => n,
                None => String::new(),
            },
        },
        None => String::new(),
    };
    let ts = match published {
        Some(t) => ts_to_u64(t),
        None => match updated {
            Some(t) => ts_to_u64(t),
            None => 0u64,
        },
    };
    ParsedEntry {
        guid: guid,
        title: title_s,
        content: content_s,
        link: link_s,
        author: author_s,
        timestamp: ts,
    }
}

} // verus!
