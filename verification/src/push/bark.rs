use vstd::prelude::*;

use crate::common::extract_content::{extract_content, spec_extract_content};
use crate::common::strutil::{chars_of, spec_trim_back, string_of};

verus! {

/// One push notification, ready to be serialized and posted.
pub struct BarkRequest {
    pub body: String,
    pub title: String,
    pub group: String,
    pub url: Option<String>,
    pub image: Option<String>,
}

/// The mathematical contents of a push notification.
pub struct BarkRequestModel {
    pub body: Seq<char>,
    pub title: Seq<char>,
    pub group: Seq<char>,
    pub url: Option<Seq<char>>,
    pub image: Option<Seq<char>>,
}

impl View for BarkRequest {
    type V = BarkRequestModel;

    open spec fn view(&self) -> BarkRequestModel {
        BarkRequestModel {
            body: self.body@,
            title: self.title@,
            group: self.group@,
            url: match &self.url {
                Some(u) => Some(u@),
                None => None,
            },
            image: match &self.image {
                Some(u) => Some(u@),
                None => None,
            },
        }
    }
}

/// The notification body limit.
pub open spec fn spec_body_limit() -> nat {
    250
}

/// The group name used when the caller passes none.
pub open spec fn spec_default_group() -> Seq<char> {
    "rss_pipe_rust"@
}

/// What a push request carries: the feed title as its title, the given
/// group or the default one, the item's extracted body truncated to the
/// limit, and the optional link and image.
pub open spec fn spec_build_bark_request(
    feed_title: Seq<char>,
    item_title: Seq<char>,
    content: Seq<char>,
    group: Seq<char>,
    link: Option<Seq<char>>,
    image: Option<Seq<char>>,
) -> BarkRequestModel {
    BarkRequestModel {
        body: spec_extract_content(item_title, content, spec_body_limit()),
        title: feed_title,
        group: if group.len() == 0 {
            spec_default_group()
        } else {
            group
        },
        url: link,
        image: image,
    }
}

/// Compose a push request from a notification tuple.
pub fn build_bark_request(
    feed_title: &str,
    item_title: &str,
    content: &str,
    group: &str,
    link: Option<String>,
    image: Option<String>,
) -> (r: BarkRequest)
    ensures
        ({
            let linkv = match link {
                Some(u) => Some(u@),
                None => None,
            };
            let imagev = match image {
                Some(u) => Some(u@),
                None => None,
            };
            r@ == spec_build_bark_request(
                feed_title@,
                item_title@,
                content@,
                group@,
                linkv,
                imagev,
            )
        }),
{
    let body = extract_content(item_title, content, 250);
    let g = if group.unicode_len() == 0 {
        "rss_pipe_rust".to_owned()
    } else {
        group.to_owned()
    };
    BarkRequest { body: body, title: feed_title.to_owned(), group: g, url: link, image: image }
}

/// The newline-trimming predicate for the console preview.
pub open spec fn nl_pred() -> spec_fn(char) -> bool {
    |c: char| c == '\n'
}

/// The bordered console preview written when delivery cannot even be
/// attempted: the title, then the body without its trailing newlines.
pub open spec fn spec_preview_text(title: Seq<char>, body: Seq<char>) -> Seq<char> {
    "======== Bark Preview ========\n"@ + title + "\n"@ + spec_trim_back(body, nl_pred())
        + "\n=============================="@
}

/// Render the console preview of an undeliverable notification.
pub fn preview_text(title: &str, body: &str) -> (r: String)
    ensures
        r@ == spec_preview_text(title@, body@),
{
    let bv = chars_of(body);
    let n = bv.len();
    let mut b: usize = n;
    while b > 0 && bv[b - 1] == '\n'
        invariant
            b <= n,
            n == bv@.len(),
            forall|k: int| b <= k < n ==> #[trigger] bv@[k] == '\n',
        decreases b,
    {
        b = b - 1;
    }
    let mut trimmed: Vec<char> = Vec::new();
    let mut i: usize = 0;
    while i < b
        invariant
            i <= b <= n,
            n == bv@.len(),
            trimmed@ == bv@.subrange(0, i as int),
        decreases b - i,
    {
        trimmed.push(bv[i]);
        proof {
            assert(trimmed@ =~= bv@.subrange(0, i + 1));
        }
        i = i + 1;
    }
    proof {
        crate::common::strutil::lemma_trim_back_at(body@, nl_pred(), b as int);
        assert(bv@.subrange(0, b as int) =~= body@.take(b as int));
    }
    let mut s = "======== Bark Preview ========\n".to_owned();
    s.append(title);
    s.append("\n");
    let tb = string_of(&trimmed);
    s.append(tb.as_str());
    s.append("\n==============================");
    s
}

} // verus!
