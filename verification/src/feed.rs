#![verifier::loop_isolation(false)]
//! The article feed: scanning the fetched front page for its articles and
//! an article page for the name of the subject it covers.
//!
//! The scan works on a fixed marker grammar, not a full HTML parse. An
//! article block starts at an occurrence of `id="newsfeed_` and runs to
//! the next one, wherever in the page those markers stand. Inside a block,
//! a `data-type="Editorial"` attribute excludes it (a block with no
//! `data-type` attribute counts as an article); the link and title sit at
//! the `class="newsfeed-title"` element (its `href="` value and its tag
//! text), the photo address is the `data-src="` value, and the summary is
//! the tag text at `class="summary"`. A block missing any of these is
//! skipped whole.
//!
//! Tag text is read flat: the characters between the element's opening
//! `>` and the next `<`. The grammar therefore expects the title, summary
//! and subject-name elements to hold their text directly, with no nested
//! markup inside; on pages that nest tags within them, only the leading
//! text segment is taken.

use vstd::prelude::*;

use crate::strutil::{chars_to_string, str_to_chars};

verus! {

/// One article of the feed.
#[derive(Debug, Clone)]
pub struct Article {
    pub url: String,
    pub title: String,
    pub summary: String,
    pub image_url: String,
    pub meme_name: Option<String>,
}

/// Why the feed could not supply an article.
#[derive(Clone, Copy, PartialEq, Eq, Structural, Debug)]
pub enum FeedError {
    /// The page held no well-formed article block.
    NoArticles,
    /// The article page held no recognizable subject name.
    MemeNameMissing,
}

/// Whether `pat` occurs in `s` at position `i`.
pub open spec fn match_at(s: Seq<char>, pat: Seq<char>, i: int) -> bool {
    0 <= i && i + pat.len() <= s.len() && s.subrange(i, i + pat.len()) == pat
}

/// The first occurrence of `pat` in `s` at or after `from`.
pub open spec fn spec_find(s: Seq<char>, pat: Seq<char>, from: int) -> Option<int>
    decreases s.len() - from,
{
    if from < 0 || pat.len() == 0 {
        None
    } else if from + pat.len() > s.len() {
        None
    } else if match_at(s, pat, from) {
        Some(from)
    } else {
        spec_find(s, pat, from + 1)
    }
}

/// What a found position satisfies.
pub proof fn lemma_find_props(s: Seq<char>, pat: Seq<char>, from: int)
    ensures
        spec_find(s, pat, from) matches Some(p) ==> from <= p && 0 <= p && p + pat.len()
            <= s.len() && match_at(s, pat, p),
    decreases s.len() - from,
{
    if from >= 0 && pat.len() > 0 && from + pat.len() <= s.len() && !match_at(s, pat, from) {
        lemma_find_props(s, pat, from + 1);
    }
}

/// Finds the first occurrence of `pat` at or after `from`.
#[verifier::loop_isolation(true)]
pub fn find_from(s: &Vec<char>, pat: &Vec<char>, from: usize) -> (r: Option<usize>)
    ensures
        match r {
            Some(i) => spec_find(s@, pat@, from as int) == Some(i as int),
            None => spec_find(s@, pat@, from as int) is None,
        },
{
    let n = s.len();
    let m = pat.len();
    if m == 0 {
        return None;
    }
    let mut i = from;
    loop
        invariant
            from <= i,
            n == s@.len(),
            m == pat@.len(),
            1 <= m,
            spec_find(s@, pat@, from as int) == spec_find(s@, pat@, i as int),
        ensures
            match spec_find(s@, pat@, i as int) {
                Some(p) => p == i,
                None => i + m > n,
            },
            spec_find(s@, pat@, from as int) == spec_find(s@, pat@, i as int),
        decreases n + 1 - i,
    {
        if m > n || i > n - m {
            proof {
                assert(spec_find(s@, pat@, i as int) is None);
            }
            break ;
        }
        let mut j: usize = 0;
        let mut matches = true;
        while j < m
            invariant
                j <= m,
                i + m <= n,
                n == s@.len(),
                m == pat@.len(),
                matches == (forall|q: int| 0 <= q < j ==> s@[i + q] == pat@[q]),
            decreases m - j,
        {
            if s[i + j] != pat[j] {
                matches = false;
                proof {
                    assert(s@[i + j as int] != pat@[j as int]);
                }
                j = m;
            } else {
                j = j + 1;
            }
        }
        if matches {
            proof {
                assert(s@.subrange(i as int, i + m as int) =~= pat@);
                assert(match_at(s@, pat@, i as int));
            }
            break ;
        }
        proof {
            if match_at(s@, pat@, i as int) {
                assert forall|q: int| 0 <= q < m implies s@[i + q] == pat@[q] by {
                    assert(s@.subrange(i as int, i + m as int)[q] == s@[i + q]);
                }
            }
        }
        i = i + 1;
    }
    if m <= n && i <= n - m {
        Some(i)
    } else {
        None
    }
}

/// Copies the characters between `a` and `b`.
fn slice_chars(s: &Vec<char>, a: usize, b: usize) -> (r: Vec<char>)
    requires
        a <= b <= s@.len(),
    ensures
        r@ == s@.subrange(a as int, b as int),
{
    let mut out: Vec<char> = Vec::new();
    let mut p = a;
    while p < b
        invariant
            a <= p <= b <= s@.len(),
            out@ == s@.subrange(a as int, p as int),
        decreases b - p,
    {
        let c = s[p];
        out.push(c);
        proof {
            assert(out@ =~= s@.subrange(a as int, p as int + 1));
        }
        p = p + 1;
    }
    out
}

/// The quoted value after the first `pat` at or after `from`, provided the
/// pattern occurs before `bound`: the text up to the next quote.
pub open spec fn spec_value_after(s: Seq<char>, pat: Seq<char>, from: int, bound: int) -> Option<
    Seq<char>,
> {
    match spec_find(s, pat, from) {
        None => None,
        Some(p) => {
            if p >= bound {
                None
            } else {
                match spec_find(s, seq!['"'], p + pat.len()) {
                    None => None,
                    Some(q) => Some(s.subrange(p + pat.len(), q)),
                }
            }
        },
    }
}

/// The tag text after `from`, provided the opening `>` sits before
/// `bound`: the text between the next `>` and the following `<`.
pub open spec fn spec_text_after(s: Seq<char>, from: int, bound: int) -> Option<Seq<char>> {
    match spec_find(s, seq!['>'], from) {
        None => None,
        Some(g) => {
            if g >= bound {
                None
            } else {
                match spec_find(s, seq!['<'], g + 1) {
                    None => None,
                    Some(l) => Some(s.subrange(g + 1, l)),
                }
            }
        },
    }
}

/// Extracts a quoted attribute value, mirroring `spec_value_after`.
fn value_after(s: &Vec<char>, pat: &Vec<char>, from: usize, bound: usize) -> (r: Option<Vec<char>>)
    requires
        bound <= s@.len(),
    ensures
        match r {
            Some(v) => spec_value_after(s@, pat@, from as int, bound as int) == Some(v@),
            None => spec_value_after(s@, pat@, from as int, bound as int) is None,
        },
{
    let quote = str_to_chars("\"");
    proof {
        reveal_strlit("\"");
        assert(quote@ =~= seq!['"']);
    }
    let n = s.len();
    match find_from(s, pat, from) {
        None => None,
        Some(p) => {
            if p >= bound {
                None
            } else {
                proof {
                    lemma_find_props(s@, pat@, from as int);
                    assert(p + pat@.len() <= n);
                }
                match find_from(s, &quote, p + pat.len()) {
                    None => None,
                    Some(q) => {
                        proof {
                            lemma_find_props(s@, quote@, p + pat@.len());
                        }
                        Some(slice_chars(s, p + pat.len(), q))
                    },
                }
            }
        },
    }
}

/// Extracts tag text, mirroring `spec_text_after`.
fn text_after(s: &Vec<char>, from: usize, bound: usize) -> (r: Option<Vec<char>>)
    requires
        bound <= s@.len(),
    ensures
        match r {
            Some(v) => spec_text_after(s@, from as int, bound as int) == Some(v@),
            None => spec_text_after(s@, from as int, bound as int) is None,
        },
{
    let gt = str_to_chars(">");
    let lt = str_to_chars("<");
    proof {
        reveal_strlit(">");
        reveal_strlit("<");
        assert(gt@ =~= seq!['>']);
        assert(lt@ =~= seq!['<']);
    }
    match find_from(s, &gt, from) {
        None => None,
        Some(g) => {
            if g >= bound {
                None
            } else {
                proof {
                    lemma_find_props(s@, gt@, from as int);
                }
                match find_from(s, &lt, g + 1) {
                    None => None,
                    Some(l) => {
                        proof {
                            lemma_find_props(s@, lt@, g as int + 1);
                        }
                        Some(slice_chars(s, g + 1, l))
                    },
                }
            }
        },
    }
}

/// The fields of the article block `[a, b)`, or nothing when the block is
/// an editorial or lacks a field: (link, title, summary, photo address).
pub open spec fn spec_parse_block(s: Seq<char>, a: int, b: int) -> Option<
    (Seq<char>, Seq<char>, Seq<char>, Seq<char>),
> {
    let editorial = match spec_value_after(s, "data-type=\""@, a, b) {
        Some(v) => v == "Editorial"@,
        None => false,
    };
    if editorial {
        None
    } else {
        match spec_find(s, "class=\"newsfeed-title\""@, a) {
            None => None,
            Some(t) => {
                if t >= b {
                    None
                } else {
                    match spec_value_after(s, "href=\""@, t, b) {
                        None => None,
                        Some(url) => {
                            match spec_text_after(s, t, b) {
                                None => None,
                                Some(title) => {
                                    match spec_value_after(s, "data-src=\""@, a, b) {
                                        None => None,
                                        Some(img) => {
                                            match spec_find(s, "class=\"summary\""@, a) {
                                                None => None,
                                                Some(sp) => {
                                                    if sp >= b {
                                                        None
                                                    } else {
                                                        match spec_text_after(s, sp, b) {
                                                            None => None,
                                                            Some(sum) => Some(
                                                                (url, title, sum, img),
                                                            ),
                                                        }
                                                    }
                                                },
                                            }
                                        },
                                    }
                                },
                            }
                        },
                    }
                }
            },
        }
    }
}

/// Compares a character list against the editorial marker.
fn is_editorial_value(v: &Vec<char>) -> (r: bool)
    ensures
        r == (v@ == "Editorial"@),
{
    let pat = str_to_chars("Editorial");
    let n = v.len();
    if n != pat.len() {
        proof {
            assert(v@.len() != "Editorial"@.len());
        }
        return false;
    }
    let mut j: usize = 0;
    while j < n
        invariant
            j <= n,
            n == v@.len(),
            n == pat@.len(),
            pat@ == "Editorial"@,
            forall|q: int| 0 <= q < j ==> v@[q] == pat@[q],
        decreases n - j,
    {
        if v[j] != pat[j] {
            proof {
                assert(v@[j as int] != "Editorial"@[j as int]);
            }
            return false;
        }
        j = j + 1;
    }
    proof {
        assert(v@ =~= "Editorial"@);
    }
    true
}

/// Parses one article block, mirroring `spec_parse_block`.
fn parse_block(s: &Vec<char>, a: usize, b: usize) -> (r: Option<Article>)
    requires
        b <= s@.len(),
    ensures
        match r {
            Some(art) => {
                &&& spec_parse_block(s@, a as int, b as int) == Some(
                    (art.url@, art.title@, art.summary@, art.image_url@),
                )
                &&& art.meme_name is None
            },
            None => spec_parse_block(s@, a as int, b as int) is None,
        },
{
    let dt_pat = str_to_chars("data-type=\"");
    let editorial = match value_after(s, &dt_pat, a, b) {
        Some(v) => is_editorial_value(&v),
        None => false,
    };
    if editorial {
        return None;
    }
    let title_pat = str_to_chars("class=\"newsfeed-title\"");
    let t = match find_from(s, &title_pat, a) {
        None => {
            return None;
        },
        Some(t) => t,
    };
    if t >= b {
        return None;
    }
    let href_pat = str_to_chars("href=\"");
    let url = match value_after(s, &href_pat, t, b) {
        None => {
            return None;
        },
        Some(u) => u,
    };
    let title = match text_after(s, t, b) {
        None => {
            return None;
        },
        Some(v) => v,
    };
    let src_pat = str_to_chars("data-src=\"");
    let img = match value_after(s, &src_pat, a, b) {
        None => {
            return None;
        },
        Some(v) => v,
    };
    let sum_pat = str_to_chars("class=\"summary\"");
    let sp = match find_from(s, &sum_pat, a) {
        None => {
            return None;
        },
        Some(p) => p,
    };
    if sp >= b {
        return None;
    }
    let summary = match text_after(s, sp, b) {
        None => {
            return None;
        },
        Some(v) => v,
    };
    Some(
        Article {
            url: chars_to_string(&url),
            title: chars_to_string(&title),
            summary: chars_to_string(&summary),
            image_url: chars_to_string(&img),
            meme_name: None,
        },
    )
}

/// The article fields found scanning from `from`: each marker opens a
/// block that runs to the next marker, parsed blocks in page order.
pub open spec fn spec_feed_scan(s: Seq<char>, from: int) -> Seq<
    (Seq<char>, Seq<char>, Seq<char>, Seq<char>),
>
    decreases s.len() - from,
    via spec_feed_scan_decreases
{
    match spec_find(s, "id=\"newsfeed_"@, from) {
        None => Seq::empty(),
        Some(a) => {
            let b = match spec_find(s, "id=\"newsfeed_"@, a + 1) {
                None => s.len() as int,
                Some(n2) => n2,
            };
            let rest = spec_feed_scan(s, b);
            match spec_parse_block(s, a, b) {
                None => rest,
                Some(art) => seq![art] + rest,
            }
        },
    }
}

#[via_fn]
proof fn spec_feed_scan_decreases(s: Seq<char>, from: int) {
    lemma_find_props(s, "id=\"newsfeed_"@, from);
    match spec_find(s, "id=\"newsfeed_"@, from) {
        Some(a) => {
            lemma_find_props(s, "id=\"newsfeed_"@, a + 1);
            reveal_strlit("id=\"newsfeed_");
        },
        None => {},
    }
}

/// The view a feed article contributes to the scan result.
pub open spec fn article_core(a: Article) -> (Seq<char>, Seq<char>, Seq<char>, Seq<char>) {
    (a.url@, a.title@, a.summary@, a.image_url@)
}

/// Scans the front page text for its articles, in page order, none of them
/// carrying a subject name yet.
#[verifier::loop_isolation(true)]
pub fn get_feed(html: &str) -> (r: Vec<Article>)
    ensures
        r@.map_values(|a: Article| article_core(a)) == spec_feed_scan(html@, 0),
        forall|i: int| 0 <= i < r@.len() ==> (#[trigger] r@[i]).meme_name is None,
{
    let chars = str_to_chars(html);
    let ghost full = chars@;
    let marker = str_to_chars("id=\"newsfeed_");
    let mut out: Vec<Article> = Vec::new();
    let mut pos: usize = 0;
    proof {
        assert(out@.map_values(|a: Article| article_core(a)) + spec_feed_scan(full, 0)
            =~= spec_feed_scan(full, 0));
    }
    loop
        invariant
            chars@ == full,
            marker@ == "id=\"newsfeed_"@,
            pos <= full.len() + 1,
            out@.map_values(|a: Article| article_core(a)) + spec_feed_scan(full, pos as int)
                == spec_feed_scan(full, 0),
            forall|i: int| 0 <= i < out@.len() ==> (#[trigger] out@[i]).meme_name is None,
        ensures
            spec_feed_scan(full, pos as int) =~= Seq::<
                (Seq<char>, Seq<char>, Seq<char>, Seq<char>),
            >::empty(),
            out@.map_values(|a: Article| article_core(a)) + spec_feed_scan(full, pos as int)
                == spec_feed_scan(full, 0),
            forall|i: int| 0 <= i < out@.len() ==> (#[trigger] out@[i]).meme_name is None,
        decreases full.len() + 1 - pos,
    {
        let a = match find_from(&chars, &marker, pos) {
            None => {
                break ;
            },
            Some(a) => a,
        };
        let n = chars.len();
        proof {
            lemma_find_props(full, marker@, pos as int);
            reveal_strlit("id=\"newsfeed_");
            assert(a + marker@.len() <= n && marker@.len() >= 1);
        }
        let b = match find_from(&chars, &marker, a + 1) {
            None => chars.len(),
            Some(n2) => n2,
        };
        proof {
            lemma_find_props(full, marker@, a as int + 1);
            reveal_strlit("id=\"newsfeed_");
        }
        let parsed = parse_block(&chars, a, b);
        let ghost before = out@;
        match parsed {
            Some(art) => {
                out.push(art);
                proof {
                    assert(out@.map_values(|x: Article| article_core(x)) =~= before.map_values(
                        |x: Article| article_core(x),
                    ).push(article_core(art)));
                    assert(before.map_values(|x: Article| article_core(x)).push(article_core(art))
                        + spec_feed_scan(full, b as int) =~= before.map_values(
                        |x: Article| article_core(x),
                    ) + (seq![article_core(art)] + spec_feed_scan(full, b as int)));
                }
            },
            None => {
            },
        }
        pos = b;
    }
    out
}

/// The character view of an optional string.
pub open spec fn opt_view(o: Option<String>) -> Option<Seq<char>> {
    match o {
        Some(s) => Some(s@),
        None => None,
    }
}

/// Whether `s` begins with `pre`.
pub open spec fn spec_starts_with(s: Seq<char>, pre: Seq<char>) -> bool {
    s.len() >= pre.len() && s.subrange(0, pre.len() as int) == pre
}

fn starts_with_chars(v: &Vec<char>, pat: &Vec<char>) -> (r: bool)
    ensures
        r == spec_starts_with(v@, pat@),
{
    let m = pat.len();
    if v.len() < m {
        return false;
    }
    let mut j: usize = 0;
    while j < m
        invariant
            j <= m,
            m == pat@.len(),
            m <= v@.len(),
            forall|q: int| 0 <= q < j ==> v@[q] == pat@[q],
        decreases m - j,
    {
        if v[j] != pat[j] {
            proof {
                assert(v@.subrange(0, m as int)[j as int] == v@[j as int]);
            }
            return false;
        }
        j = j + 1;
    }
    proof {
        assert(v@.subrange(0, m as int) =~= pat@);
    }
    true
}

/// The subject name on a desktop article page: the first heading inside
/// the `class="info"` section.
pub open spec fn spec_desktop_title(page: Seq<char>) -> Option<Seq<char>> {
    match spec_find(page, "class=\"info\""@, 0) {
        None => None,
        Some(p) => {
            match spec_find(page, "<h1"@, p) {
                None => None,
                Some(hp) => spec_text_after(page, hp, page.len() as int),
            }
        },
    }
}

/// The subject name on a mobile article page: the `class="entry-title"`
/// element's text.
pub open spec fn spec_mobile_title(page: Seq<char>) -> Option<Seq<char>> {
    match spec_find(page, "class=\"entry-title\""@, 0) {
        None => None,
        Some(p) => spec_text_after(page, p, page.len() as int),
    }
}

/// The subject name on a media page: the `id="media-title"` element's text.
pub open spec fn spec_media_title(page: Seq<char>) -> Option<Seq<char>> {
    match spec_find(page, "id=\"media-title\""@, 0) {
        None => None,
        Some(p) => spec_text_after(page, p, page.len() as int),
    }
}

/// The subject name of the article at `url` on its fetched page: meme
/// pages are read as desktop pages first and mobile pages second; anything
/// else is read as a media page.
pub open spec fn spec_meme_title(page: Seq<char>, url: Seq<char>) -> Option<Seq<char>> {
    if spec_starts_with(url, "/memes/"@) {
        match spec_desktop_title(page) {
            Some(t) => Some(t),
            None => spec_mobile_title(page),
        }
    } else {
        spec_media_title(page)
    }
}

/// Reads the subject name of the article at `article_url` off its fetched
/// page text, or reports that the page holds none.
pub fn get_meme_title(page_html: &str, article_url: &str) -> (r: Result<String, FeedError>)
    ensures
        r matches Ok(t) ==> spec_meme_title(page_html@, article_url@) == Some(t@),
        r is Err ==> spec_meme_title(page_html@, article_url@) is None && r == Err::<
            String,
            FeedError,
        >(FeedError::MemeNameMissing),
{
    let page = str_to_chars(page_html);
    let url = str_to_chars(article_url);
    let memes_pat = str_to_chars("/memes/");
    let found: Option<Vec<char>> = if starts_with_chars(&url, &memes_pat) {
        let info_pat = str_to_chars("class=\"info\"");
        let h1_pat = str_to_chars("<h1");
        let desktop: Option<Vec<char>> = match find_from(&page, &info_pat, 0) {
            None => None,
            Some(p) => {
                match find_from(&page, &h1_pat, p) {
                    None => None,
                    Some(hp) => text_after(&page, hp, page.len()),
                }
            },
        };
        match desktop {
            Some(t) => Some(t),
            None => {
                let mobile_pat = str_to_chars("class=\"entry-title\"");
                match find_from(&page, &mobile_pat, 0) {
                    None => None,
                    Some(p) => text_after(&page, p, page.len()),
                }
            },
        }
    } else {
        let media_pat = str_to_chars("id=\"media-title\"");
        match find_from(&page, &media_pat, 0) {
            None => None,
            Some(p) => text_after(&page, p, page.len()),
        }
    };
    match found {
        Some(t) => Ok(chars_to_string(&t)),
        None => Err(FeedError::MemeNameMissing),
    }
}

/// The newest article of the feed page: the first well-formed block, or an
/// error when the page has none.
pub fn get_newest_article(html: &str) -> (r: Result<Article, FeedError>)
    ensures
        r is Err <==> spec_feed_scan(html@, 0).len() == 0,
        r is Err ==> r == Err::<Article, FeedError>(FeedError::NoArticles),
        r matches Ok(a) ==> article_core(a) == spec_feed_scan(html@, 0)[0] && a.meme_name is None,
{
    let mut feed = get_feed(html);
    if feed.len() == 0 {
        Err(FeedError::NoArticles)
    } else {
        let a = feed.remove(0);
        proof {
            assert(article_core(a) == spec_feed_scan(html@, 0)[0]);
        }
        Ok(a)
    }
}

/// The newest article with its subject name filled in from the article's
/// own fetched page, when one is given and readable.
pub fn get_newest_meme_article(html: &str, meme_page: Option<&str>) -> (r: Result<
    Article,
    FeedError,
>)
    ensures
        r is Err <==> spec_feed_scan(html@, 0).len() == 0,
        r is Err ==> r == Err::<Article, FeedError>(FeedError::NoArticles),
        r matches Ok(a) ==> {
            &&& article_core(a) == spec_feed_scan(html@, 0)[0]
            &&& opt_view(a.meme_name) == match meme_page {
                Some(p) => spec_meme_title(p@, spec_feed_scan(html@, 0)[0].0),
                None => None::<Seq<char>>,
            }
        },
{
    let article = match get_newest_article(html) {
        Ok(a) => a,
        Err(e) => {
            return Err(e);
        },
    };
    let meme_name: Option<String> = match meme_page {
        Some(p) => {
            match get_meme_title(p, article.url.as_str()) {
                Ok(t) => Some(t),
                Err(_) => None,
            }
        },
        None => None,
    };
    Ok(
        Article {
            url: article.url,
            title: article.title,
            summary: article.summary,
            image_url: article.image_url,
            meme_name,
        },
    )
}

/// All articles of the feed page, each with its subject name read from the
/// matching entry of `pages` (the fetched text of that article's own page,
/// where the caller could get one).
pub fn get_feed_full(html: &str, pages: &Vec<Option<String>>) -> (r: Result<Vec<Article>, FeedError>)
    ensures
        r is Ok,
        r matches Ok(v) ==> {
            &&& v@.map_values(|a: Article| article_core(a)) == spec_feed_scan(html@, 0)
            &&& forall|i: int|
                0 <= i < v@.len() ==> opt_view(#[trigger] v@[i].meme_name) == (if i < pages@.len() {
                    match pages@[i] {
                        Some(p) => spec_meme_title(p@, spec_feed_scan(html@, 0)[i].0),
                        None => None::<Seq<char>>,
                    }
                } else {
                    None::<Seq<char>>
                })
        },
{
    let ghost scan = spec_feed_scan(html@, 0);
    let mut feed = get_feed(html);
    let ghost orig = feed@;
    let mut out: Vec<Article> = Vec::new();
    while feed.len() > 0
        invariant
            orig.map_values(|a: Article| article_core(a)) == scan,
            out@.len() + feed@.len() == orig.len(),
            feed@ == orig.skip(out@.len() as int),
            forall|i: int|
                0 <= i < out@.len() ==> article_core(#[trigger] out@[i]) == article_core(
                    orig[i],
                ),
            forall|i: int|
                0 <= i < out@.len() ==> opt_view(#[trigger] out@[i].meme_name) == (if i
                    < pages@.len() {
                    match pages@[i] {
                        Some(p) => spec_meme_title(p@, scan[i].0),
                        None => None::<Seq<char>>,
                    }
                } else {
                    None::<Seq<char>>
                }),
        decreases feed@.len(),
    {
        let article = feed.remove(0);
        let idx = out.len();
        proof {
            assert(article == orig[idx as int]);
            assert(feed@ =~= orig.skip(idx as int + 1));
            assert(scan[idx as int] == article_core(orig[idx as int]));
        }
        let meme_name: Option<String> = if idx < pages.len() {
            match &pages[idx] {
                Some(p) => {
                    match get_meme_title(p.as_str(), article.url.as_str()) {
                        Ok(t) => Some(t),
                        Err(_) => None,
                    }
                },
                None => None,
            }
        } else {
            None
        };
        out.push(
            Article {
                url: article.url,
                title: article.title,
                summary: article.summary,
                image_url: article.image_url,
                meme_name,
            },
        );
    }
    proof {
        assert(out@.map_values(|a: Article| article_core(a)) =~= scan);
    }
    Ok(out)
}

} // verus!
