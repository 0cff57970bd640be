use vstd::prelude::*;

use crate::common::strutil::{
    chars_of, replace_str, space_pred, spec_replace, spec_trim, str_eq, string_of,
    trim_space_chars, trim_ws_chars, ws_pred,
};

verus! {

/// The least of three naturals.
pub open spec fn min3(x: nat, y: nat, z: nat) -> nat {
    if x <= y && x <= z {
        x
    } else if y <= z {
        y
    } else {
        z
    }
}

/// The Levenshtein distance: the least number of character insertions,
/// deletions and substitutions turning `a` into `b`.
pub open spec fn lev(a: Seq<char>, b: Seq<char>) -> nat
    decreases a.len() + b.len(),
{
    if a.len() == 0 {
        b.len()
    } else if b.len() == 0 {
        a.len()
    } else {
        let cost: nat = if a.last() == b.last() {
            0nat
        } else {
            1nat
        };
        min3(
            lev(a.drop_last(), b) + 1,
            lev(a, b.drop_last()) + 1,
            lev(a.drop_last(), b.drop_last()) + cost,
        )
    }
}

/// The distance never exceeds the longer length.
pub proof fn lemma_lev_le_max(a: Seq<char>, b: Seq<char>)
    ensures
        lev(a, b) <= a.len() || lev(a, b) <= b.len(),
        lev(a, b) <= a.len() + b.len(),
    decreases a.len() + b.len(),
{
    if a.len() > 0 && b.len() > 0 {
        lemma_lev_le_max(a.drop_last(), b);
        lemma_lev_le_max(a, b.drop_last());
        lemma_lev_le_max(a.drop_last(), b.drop_last());
    }
}

/// A string is at distance zero from itself.
pub proof fn lemma_lev_refl(a: Seq<char>)
    ensures
        lev(a, a) == 0,
    decreases a.len(),
{
    if a.len() > 0 {
        lemma_lev_refl(a.drop_last());
    }
}

/// The dynamic-programming step over prefixes.
proof fn lemma_lev_step(a: Seq<char>, b: Seq<char>, i: int, j: int)
    requires
        1 <= i <= a.len(),
        1 <= j <= b.len(),
    ensures
        lev(a.take(i), b.take(j)) == min3(
            lev(a.take(i - 1), b.take(j)) + 1,
            lev(a.take(i), b.take(j - 1)) + 1,
            lev(a.take(i - 1), b.take(j - 1)) + if a[i - 1] == b[j - 1] {
                0nat
            } else {
                1nat
            },
        ),
{
    let ai = a.take(i);
    let bj = b.take(j);
    assert(ai.drop_last() =~= a.take(i - 1));
    assert(bj.drop_last() =~= b.take(j - 1));
    assert(ai.last() == a[i - 1]);
    assert(bj.last() == b[j - 1]);
}

fn umin3(x: u128, y: u128, z: u128) -> (r: u128)
    ensures
        r == min3(x as nat, y as nat, z as nat),
{
    if x <= y && x <= z {
        x
    } else if y <= z {
        y
    } else {
        z
    }
}

/// The Levenshtein distance between two strings, counted over characters.
pub fn levenshtein_distance(str1: &str, str2: &str) -> (r: usize)
    ensures
        r == lev(str1@, str2@),
{
    if str_eq(str1, str2) {
        proof {
            lemma_lev_refl(str1@);
        }
        return 0;
    }
    let a = chars_of(str1);
    let b = chars_of(str2);
    let m = a.len();
    let n = b.len();
    let ghost av = str1@;
    let ghost bv = str2@;
    if m == 0 {
        proof {
            assert(av =~= Seq::<char>::empty());
        }
        return n;
    }
    if n == 0 {
        return m;
    }
    let mut v0: Vec<u128> = Vec::new();
    v0.push(0);
    let mut jj: usize = 0;
    while jj < n
        invariant
            jj <= n,
            v0@.len() == jj + 1,
            forall|t: int| 0 <= t <= jj ==> v0@[t] == t,
        decreases n - jj,
    {
        jj = jj + 1;
        v0.push(jj as u128);
    }
    let mut v1: Vec<u128> = Vec::new();
    v1.push(0);
    let mut kk: usize = 0;
    while kk < n
        invariant
            kk <= n,
            v1@.len() == kk + 1,
        decreases n - kk,
    {
        v1.push(0);
        kk = kk + 1;
    }
    proof {
        assert forall|t: int| 0 <= t <= n implies v0@[t] == lev(av.take(0), bv.take(t)) by {
            assert(av.take(0) =~= Seq::<char>::empty());
        }
    }
    let mut i: usize = 0;
    while i < m
        invariant
            i <= m,
            m == av.len(),
            n == bv.len(),
            a@ == av,
            b@ == bv,
            1 <= m,
            1 <= n,
            v0@.len() == n + 1,
            v1@.len() == n + 1,
            forall|t: int| 0 <= t <= n ==> v0@[t] == lev(av.take(i as int), bv.take(t)),
        decreases m - i,
    {
        v1[0] = (i + 1) as u128;
        proof {
            assert(bv.take(0) =~= Seq::<char>::empty());
            assert(av.take(i + 1).len() == i + 1);
            assert(lev(av.take(i + 1), bv.take(0)) == i + 1);
        }
        let mut j: usize = 0;
        while j < n
            invariant
                j <= n,
                i < m,
                m == av.len(),
                n == bv.len(),
                a@ == av,
                b@ == bv,
                v0@.len() == n + 1,
                v1@.len() == n + 1,
                forall|t: int| 0 <= t <= n ==> v0@[t] == lev(av.take(i as int), bv.take(t)),
                forall|t: int| 0 <= t <= j ==> v1@[t] == lev(av.take(i + 1), bv.take(t)),
            decreases n - j,
        {
            let cost: u128 = if a[i] == b[j] {
                0
            } else {
                1
            };
            proof {
                lemma_lev_le_max(av.take(i + 1), bv.take(j as int));
                lemma_lev_le_max(av.take(i as int), bv.take(j + 1));
                lemma_lev_le_max(av.take(i as int), bv.take(j as int));
            }
            let x = v1[j] + 1;
            let y = v0[j + 1] + 1;
            let z = v0[j] + cost;
            let w = umin3(x, y, z);
            v1[j + 1] = w;
            proof {
                lemma_lev_step(av, bv, i + 1, j + 1);
                assert(v1@[j + 1] == lev(av.take(i + 1), bv.take(j + 1)));
            }
            j = j + 1;
        }
        let mut t: usize = 0;
        while t < n
            invariant
                t <= n,
                v0@.len() == n + 1,
                v1@.len() == n + 1,
                forall|u: int| 0 <= u <= n ==> v1@[u] == lev(av.take(i + 1), bv.take(u)),
                forall|u: int| 0 <= u < t ==> v0@[u] == lev(av.take(i + 1), bv.take(u)),
            decreases n - t,
        {
            v0[t] = v1[t];
            t = t + 1;
        }
        v0[n] = v1[n];
        i = i + 1;
    }
    let result = v0[n];
    proof {
        assert(av.take(m as int) =~= av);
        assert(bv.take(n as int) =~= bv);
        lemma_lev_le_max(av, bv);
    }
    result as usize
}


/// What `char::is_alphabetic` returns: the Unicode Alphabetic property,
/// a function of the character alone.
pub uninterp spec fn alpha_of(c: char) -> bool;

/// Relies on `char::is_alphabetic`: the Unicode Alphabetic property of
/// the character, and nothing else.  Within ASCII that property holds
/// exactly of the letters.
#[verifier::external_body]
fn is_alphabetic_char(c: char) -> (r: bool)
    ensures
        r == alpha_of(c),
        c <= '\u{7f}' ==> r == (('a' <= c && c <= 'z') || ('A' <= c && c <= 'Z')),
{
    c.is_alphabetic()
}

/// What `char::is_numeric` returns: the Unicode numeric property, a
/// function of the character alone.
pub uninterp spec fn numeric_of(c: char) -> bool;

/// Relies on `char::is_numeric`: the Unicode numeric property of the
/// character, and nothing else.  Within ASCII that property holds
/// exactly of the decimal digits.
#[verifier::external_body]
fn is_numeric_char(c: char) -> (r: bool)
    ensures
        r == numeric_of(c),
        c <= '\u{7f}' ==> r == ('0' <= c && c <= '9'),
{
    c.is_numeric()
}

/// Whether a character survives cleaning: alphabetic or numeric.
pub open spec fn spec_alnum(c: char) -> bool {
    alpha_of(c) || numeric_of(c)
}

/// Cleaning before the distance is measured: every character that is
/// neither alphabetic nor numeric becomes a space, then spaces are
/// trimmed from both ends.
pub open spec fn spec_clean_str(s: Seq<char>) -> Seq<char> {
    spec_trim(
        s.map_values(
            |c: char|
                if spec_alnum(c) {
                    c
                } else {
                    ' '
                },
        ),
        space_pred(),
    )
}

/// Blank out everything but letters and digits, then trim spaces.
pub fn clean_str(s: &str) -> (r: String)
    ensures
        r@ == spec_clean_str(s@),
{
    let cs = chars_of(s);
    let n = cs.len();
    let mut mapped: Vec<char> = Vec::new();
    let mut i: usize = 0;
    while i < n
        invariant
            i <= n,
            n == cs@.len(),
            cs@ == s@,
            mapped@.len() == i,
            forall|k: int|
                0 <= k < i ==> mapped@[k] == if spec_alnum(s@[k]) {
                    s@[k]
                } else {
                    ' '
                },
        decreases n - i,
    {
        let c = cs[i];
        if is_alphabetic_char(c) || is_numeric_char(c) {
            mapped.push(c);
        } else {
            mapped.push(' ');
        }
        i = i + 1;
    }
    proof {
        assert(mapped@ =~= s@.map_values(
            |c: char|
                if spec_alnum(c) {
                    c
                } else {
                    ' '
                },
        ));
    }
    let trimmed = trim_space_chars(&mapped);
    string_of(&trimmed)
}

/// Whether the normalized edit-distance similarity of `a` and `b`
/// exceeds nine tenths: both are non-empty and ten times the distance
/// between their cleaned forms stays under their combined raw length.
pub open spec fn spec_ratio_exceeds(a: Seq<char>, b: Seq<char>) -> bool {
    a.len() > 0 && b.len() > 0 && 10 * lev(spec_clean_str(a), spec_clean_str(b)) < a.len()
        + b.len()
}

fn ratio_exceeds(s1: &str, s2: &str) -> (r: bool)
    ensures
        r == spec_ratio_exceeds(s1@, s2@),
{
    let n1 = s1.unicode_len();
    let n2 = s2.unicode_len();
    if n1 == 0 || n2 == 0 {
        return false;
    }
    let c1 = clean_str(s1);
    let c2 = clean_str(s2);
    let d = levenshtein_distance(c1.as_str(), c2.as_str());
    10u128 * (d as u128) < (n1 as u128) + (n2 as u128)
}

/// Somewhere along `mx`, a window of `mn`'s length exceeds the ratio
/// threshold against `mn`.
pub open spec fn spec_window_exceeds(mn: Seq<char>, mx: Seq<char>) -> bool {
    exists|i: int|
        0 <= i <= mx.len() - mn.len() && spec_ratio_exceeds(
            mn,
            #[trigger] mx.subrange(i, i + mn.len()),
        )
}

/// The best-window similarity: the shorter string slides across the
/// longer one; somewhere the ratio exceeds the threshold.
pub open spec fn spec_partial_exceeds(s1: Seq<char>, s2: Seq<char>) -> bool {
    if s1.len() < s2.len() {
        spec_window_exceeds(s1, s2)
    } else {
        spec_window_exceeds(s2, s1)
    }
}

fn partial_exceeds(s1: &str, s2: &str) -> (r: bool)
    ensures
        r == spec_partial_exceeds(s1@, s2@),
{
    let n1 = s1.unicode_len();
    let n2 = s2.unicode_len();
    let mn: &str = if n1 < n2 {
        s1
    } else {
        s2
    };
    let mx: &str = if n1 < n2 {
        s2
    } else {
        s1
    };
    let nmn = if n1 < n2 {
        n1
    } else {
        n2
    };
    let nmx = if n1 < n2 {
        n2
    } else {
        n1
    };
    if nmn == 0 {
        return false;
    }
    let mut i: usize = 0;
    while i <= nmx - nmn
        invariant
            0 <= i <= nmx - nmn + 1,
            1 <= nmn <= nmx,
            nmn == mn@.len(),
            nmx == mx@.len(),
            mn@ == if s1@.len() < s2@.len() {
                s1@
            } else {
                s2@
            },
            mx@ == if s1@.len() < s2@.len() {
                s2@
            } else {
                s1@
            },
            forall|t: int|
                0 <= t < i ==> !spec_ratio_exceeds(mn@, #[trigger] mx@.subrange(t, t + mn@.len())),
        decreases nmx - nmn - i + 1,
    {
        let w = mx.substring_char(i, i + nmn);
        if ratio_exceeds(mn, w) {
            proof {
                assert(spec_window_exceeds(mn@, mx@)) by {
                    assert(0 <= i as int <= mx@.len() - mn@.len());
                    assert(spec_ratio_exceeds(
                        mn@,
                        mx@.subrange(i as int, i as int + mn@.len()),
                    ));
                }
            }
            return true;
        }
        i = i + 1;
    }
    false
}

/// The title counts as redundant with the content when, after carriage
/// returns and line feeds are dropped from the content, the best-window
/// similarity exceeds the threshold.
pub open spec fn spec_similar(title: Seq<char>, content: Seq<char>) -> bool {
    spec_partial_exceeds(title, spec_replace(content, "\r\n"@, Seq::empty()))
}

/// Whether the title is already contained, near enough, in the content.
pub fn similar(title: &str, content: &str) -> (r: bool)
    ensures
        r == spec_similar(title@, content@),
{
    proof {
        reveal_strlit("\r\n");
        reveal_strlit("");
        assert(""@ =~= Seq::<char>::empty());
    }
    let cleaned = replace_str(content, "\r\n", "");
    partial_exceeds(title, cleaned.as_str())
}

/// What the fixed image-tag rewrite returns: each image tag's quoted alt
/// text copied in front of the tag, a function of the text alone.
pub uninterp spec fn img_alt_moved(s: Seq<char>) -> Seq<char>;

/// Relies on regex's `Regex::replace_all` with the fixed pattern below:
/// the quoted alt text of each image tag is copied in front of the tag.
/// The pattern is a valid regex, so compiling it cannot fail, and the
/// result depends on the input text alone.
#[verifier::external_body]
fn img_alt_rewrite(s: &str) -> (r: String)
    ensures
        r@ == img_alt_moved(s@),
{
    regex::Regex::new("<img alt=['\"]([^'\"]*)['\"]").unwrap().replace_all(s, "${1}<img").to_string()
}

/// Neutralizing markup before text extraction: line breaks become
/// explicit, anchors are disarmed so link text is not mistaken for
/// flowing content, and image alt text is moved in front of its tag.
pub open spec fn spec_clean_html(c: Seq<char>) -> Seq<char> {
    img_alt_moved(
        spec_replace(
            spec_replace(spec_replace(c, "\n"@, "\n<br/>"@), "<a href"@, "<div ignore"@),
            "</a>"@,
            "</div>"@,
        ),
    )
}

fn clean_html(content: &str) -> (r: String)
    ensures
        r@ == spec_clean_html(content@),
{
    proof {
        reveal_strlit("\n");
        reveal_strlit("<a href");
        reveal_strlit("</a>");
    }
    let a = replace_str(content, "\n", "\n<br/>");
    let b = replace_str(a.as_str(), "<a href", "<div ignore");
    let c = replace_str(b.as_str(), "</a>", "</div>");
    img_alt_rewrite(c.as_str())
}

/// What `nanohtml2text::html2text` returns: the plain-text rendering of
/// the markup, a function of the markup alone.
pub uninterp spec fn html_text_of(s: Seq<char>) -> Seq<char>;

/// Relies on `nanohtml2text::html2text`: the plain-text rendering of the
/// HTML, and nothing else.
#[verifier::external_body]
fn html_to_text(s: &str) -> (r: String)
    ensures
        r@ == html_text_of(s@),
{
    nanohtml2text::html2text(s)
}

/// The notification body before truncation: the content's plain text,
/// with the title prepended unless it is already similar to that text,
/// trimmed of surrounding whitespace.
pub open spec fn spec_extract_trimmed(title: Seq<char>, content: Seq<char>) -> Seq<char> {
    let txt = html_text_of(spec_clean_html(content));
    let joined = if spec_similar(title, txt) {
        txt
    } else {
        title + "\r\n"@ + txt
    };
    spec_trim(joined, ws_pred())
}

/// The notification body: the trimmed text, hard-truncated to `max`
/// characters with a three-dot marker when it does not fit.
pub open spec fn spec_extract_content(title: Seq<char>, content: Seq<char>, max: nat) -> Seq<
    char,
> {
    let trimmed = spec_extract_trimmed(title, content);
    if trimmed.len() < max {
        trimmed
    } else {
        trimmed.take(max as int) + "..."@
    }
}

/// Compose a notification body from an item title and its HTML content:
/// extract plain text, prepend the title unless it is redundant, trim,
/// and truncate to `max_size` characters plus a three-dot marker.  The
/// result never exceeds `max_size` plus the marker's three characters.
pub fn extract_content(title: &str, content: &str, max_size: usize) -> (r: String)
    ensures
        r@ == spec_extract_content(title@, content@, max_size as nat),
        r@.len() <= max_size + 3,
        spec_extract_trimmed(title@, content@).len() >= max_size ==> r@.len() == max_size + 3,
{
    let cleaned = clean_html(content);
    let txt = html_to_text(cleaned.as_str());
    let is_redundant = similar(title, txt.as_str());
    let joined: String = if is_redundant {
        txt
    } else {
        let mut s = title.to_owned();
        s.append("\r\n");
        s.append(txt.as_str());
        s
    };
    let jv = chars_of(joined.as_str());
    let mut trimmed = trim_ws_chars(&jv);
    proof {
        reveal_strlit("...");
    }
    if trimmed.len() < max_size {
        string_of(&trimmed)
    } else {
        trimmed.truncate(max_size);
        let s = string_of(&trimmed);
        s.concat("...")
    }
}

} // verus!
