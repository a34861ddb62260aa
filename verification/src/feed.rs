//! Feed documents as the reader reads them, entry identity, and article extraction.

use vstd::prelude::*;
use crate::model::{copy_opt, copy_strings, opt_text};
use crate::text::{decimal, decimal_string, join2, join3, string_views};
use crate::date_guard::{dates_cleared, dates_safe};

verus! {

/// What the reader takes from one entry of a parsed feed.
#[derive(Debug)]
pub struct FeedEntry {
    pub id: Option<String>,
    pub title: Option<String>,
    pub link: Option<String>,
    /// The `href` of each link of the entry, in document order.
    pub links: Vec<String>,
    pub summary: Option<String>,
    /// The publication time in RFC 3339 notation.
    pub published: Option<String>,
    pub author: Option<String>,
}

/// The value a [`FeedEntry`] stands for.
pub struct FeedEntryRecord {
    pub id: Option<Seq<char>>,
    pub title: Option<Seq<char>>,
    pub link: Option<Seq<char>>,
    pub links: Seq<Seq<char>>,
    pub summary: Option<Seq<char>>,
    pub published: Option<Seq<char>>,
    pub author: Option<Seq<char>>,
}

impl View for FeedEntry {
    type V = FeedEntryRecord;

    open spec fn view(&self) -> FeedEntryRecord {
        FeedEntryRecord {
            id: opt_text(self.id),
            title: opt_text(self.title),
            link: opt_text(self.link),
            links: string_views(self.links@),
            summary: opt_text(self.summary),
            published: opt_text(self.published),
            author: opt_text(self.author),
        }
    }
}

impl FeedEntry {
    /// A copy of this entry.
    pub fn duplicate(&self) -> (r: FeedEntry)
        ensures
            r@ == self@,
    {
        FeedEntry {
            id: copy_opt(&self.id),
            title: copy_opt(&self.title),
            link: copy_opt(&self.link),
            links: copy_strings(&self.links),
            summary: copy_opt(&self.summary),
            published: copy_opt(&self.published),
            author: copy_opt(&self.author),
        }
    }
}

/// The values of a list of feed entries.
pub open spec fn feed_entry_records(v: Seq<FeedEntry>) -> Seq<FeedEntryRecord> {
    v.map_values(|e: FeedEntry| e@)
}

/// What the reader takes from a parsed feed document.
#[derive(Debug)]
pub struct FeedDocument {
    pub title: Option<String>,
    pub entries: Vec<FeedEntry>,
}

/// The value a [`FeedDocument`] stands for.
pub struct FeedDocumentRecord {
    pub title: Option<Seq<char>>,
    pub entries: Seq<FeedEntryRecord>,
}

impl View for FeedDocument {
    type V = FeedDocumentRecord;

    open spec fn view(&self) -> FeedDocumentRecord {
        FeedDocumentRecord { title: opt_text(self.title), entries: feed_entry_records(self.entries@) }
    }
}

/// The feed document that `feedparser_rs::parse` makes of `bytes`, or the
/// text of the error it reports.
pub uninterp spec fn parsed_feed(bytes: Seq<u8>) -> Result<FeedDocumentRecord, Seq<char>>;

/// `feedparser_rs::parse`: the result, taken field by field into a
/// [`FeedDocument`] (link hrefs as text, publication times in RFC 3339), or
/// the error's text, is the one `parsed_feed` names for these bytes.
///
/// `feedparser_rs` 0.7.2 panics on some date texts: when a date text,
/// trimmed, is 7 bytes long and has `-` as its fifth character, it slices
/// bytes `..4` and `5..7` (`util/date.rs`), which panics when byte offset
/// 4 or 5 falls inside a character; that needs a character of several
/// bytes among the two right before the dash, and at most one byte after
/// it. The `requires` keeps out every document in which such a date text
/// can arise (see [`crate::date_guard`]): the document is read in an
/// encoding that keeps ASCII bytes as themselves, and each place that can
/// give a dash either has four plain ASCII bytes before it (which give the
/// text at least two single-byte characters there, or start it) or at
/// least two bytes of kept text after it. Nothing else is claimed of the
/// calls it keeps out.
#[verifier::external_body]
pub(crate) fn parse_feed(bytes: &[u8]) -> (r: Result<FeedDocument, String>)
    requires
        dates_cleared(bytes@),
    ensures
        match r {
            Ok(d) => parsed_feed(bytes@) == Ok::<FeedDocumentRecord, Seq<char>>(d@),
            Err(m) => parsed_feed(bytes@) == Err::<FeedDocumentRecord, Seq<char>>(m@),
        },
{
    match feedparser_rs::parse(bytes) {
        Ok(f) => Ok(FeedDocument {
            title: f.feed.title.clone(),
            entries: f.entries.iter().map(|e| FeedEntry {
                id: e.id.as_ref().map(|s| s.to_string()),
                title: e.title.clone(),
                link: e.link.clone(),
                links: e.links.iter().map(|l| l.href.as_str().to_string()).collect(),
                summary: e.summary.clone(),
                published: e.published.map(|p| p.to_rfc3339()),
                author: e.author.as_ref().map(|s| s.to_string()),
            }).collect(),
        }),
        Err(e) => Err(e.to_string()),
    }
}

/// The text of an optional string, empty when absent.
pub open spec fn text_or_empty(o: Option<Seq<char>>) -> Seq<char> {
    match o {
        Some(s) => s,
        None => seq![],
    }
}

/// The key that identifies an entry across fetches: its id, else its link,
/// else its first link, else its title (with the publication time when
/// there is one), else a fallback built from summary, author and time, or,
/// when all three are empty, from the entry's position in the feed.
pub open spec fn entry_key_spec(e: FeedEntryRecord, index: nat) -> Seq<char> {
    match e.id {
        Some(id) => "id:"@ + id,
        None => match e.link {
            Some(link) => "link:"@ + link,
            None => if e.links.len() > 0 {
                "link:"@ + e.links[0]
            } else {
                match e.title {
                    Some(title) => match e.published {
                        Some(p) => "title:"@ + title + "|published:"@ + p,
                        None => "title:"@ + title,
                    },
                    None => {
                        let s = text_or_empty(e.summary);
                        let a = text_or_empty(e.author);
                        let p = text_or_empty(e.published);
                        if s.len() == 0 && a.len() == 0 && p.len() == 0 {
                            "fallback:empty:"@ + decimal(index)
                        } else {
                            "fallback:"@ + s + "|"@ + a + "|"@ + p
                        }
                    },
                }
            },
        },
    }
}

/// The key that identifies `entry`, the `index`-th entry of its feed.
pub fn entry_key(entry: &FeedEntry, index: usize) -> (r: String)
    ensures
        r@ == entry_key_spec(entry@, index as nat),
{
    if let Some(id) = &entry.id {
        return join2("id:", id.as_str());
    }
    if let Some(link) = &entry.link {
        return join2("link:", link.as_str());
    }
    if entry.links.len() > 0 {
        return join2("link:", entry.links[0].as_str());
    }
    if let Some(title) = &entry.title {
        if let Some(published) = &entry.published {
            let mut r = join2("title:", title.as_str());
            r.append("|published:");
            r.append(published.as_str());
            return r;
        }
        return join2("title:", title.as_str());
    }
    let summary = text_of(&entry.summary);
    let author = text_of(&entry.author);
    let published = text_of(&entry.published);
    if summary.as_str().is_empty() && author.as_str().is_empty() && published.as_str().is_empty() {
        let n = decimal_string(index);
        return join2("fallback:empty:", n.as_str());
    }
    assert(!(summary@.len() == 0 && author@.len() == 0 && published@.len() == 0)) by {
        if summary@.len() == 0 && author@.len() == 0 && published@.len() == 0 {
            assert(summary@ =~= Seq::<char>::empty());
            assert(author@ =~= Seq::<char>::empty());
            assert(published@ =~= Seq::<char>::empty());
        }
    }
    let mut r = join3("fallback:", summary.as_str(), "|");
    r.append(author.as_str());
    r.append("|");
    r.append(published.as_str());
    r
}

/// The text of an optional string, empty when absent.
pub fn text_of(o: &Option<String>) -> (r: String)
    ensures
        r@ == text_or_empty(opt_text(*o)),
{
    match o {
        Some(s) => s.clone(),
        None => String::new(),
    }
}

/// The title shown for an entry: its own, or `(untitled)`.
pub open spec fn entry_title_spec(e: FeedEntryRecord) -> Seq<char> {
    match e.title {
        Some(t) => t,
        None => "(untitled)"@,
    }
}

/// The title shown for `entry`.
pub fn entry_title(entry: &FeedEntry) -> (r: String)
    ensures
        r@ == entry_title_spec(entry@),
{
    match &entry.title {
        Some(t) => t.clone(),
        None => String::from_str("(untitled)"),
    }
}

/// The link opened for an entry: its link, else its first link, else nothing.
pub open spec fn entry_link_spec(e: FeedEntryRecord) -> Seq<char> {
    match e.link {
        Some(l) => l,
        None => if e.links.len() > 0 {
            e.links[0]
        } else {
            seq![]
        },
    }
}

/// The link opened for `entry`.
pub fn entry_link(entry: &FeedEntry) -> (r: String)
    ensures
        r@ == entry_link_spec(entry@),
{
    match &entry.link {
        Some(l) => l.clone(),
        None => if entry.links.len() > 0 {
            entry.links[0].clone()
        } else {
            String::new()
        },
    }
}

/// The HTML of the first element of `html` that CSS `selector` matches, as
/// `scraper` finds it, or nothing when no element matches or the selector
/// does not parse.
pub uninterp spec fn first_match_html(html: Seq<char>, selector: Seq<char>) -> Option<Seq<char>>;

/// `scraper`: parses `html` as a document (`Html::parse_document`), parses
/// `selector` (`Selector::parse`) and gives the outer HTML
/// (`ElementRef::html`) of the first match; the result is the one
/// `first_match_html` names.
#[verifier::external_body]
fn select_first_html(html: &str, selector: &str) -> (r: Option<String>)
    ensures
        opt_text(r) == first_match_html(html@, selector@),
{
    let document = scraper::Html::parse_document(html);
    match scraper::Selector::parse(selector) {
        Ok(sel) => document.select(&sel).next().map(|element| element.html()),
        Err(_) => None,
    }
}

/// The selectors tried, in order, to find an article's body.
pub open spec fn article_selectors_spec() -> Seq<Seq<char>> {
    seq![
        "article"@,
        "main"@,
        "div.post-content"@,
        "div.article-content"@,
        "div.entry-content"@,
        "div.post-body"@,
        "div#content"@,
    ]
}

/// The first found fragment, or `fallback` when none was found.
pub open spec fn first_found_spec(found: Seq<Option<Seq<char>>>, fallback: Seq<char>) -> Seq<char>
    decreases found.len(),
{
    if found.len() == 0 {
        fallback
    } else {
        match found[0] {
            Some(h) => h,
            None => first_found_spec(found.drop_first(), fallback),
        }
    }
}

/// The article part of a page: the first fragment that one of the article
/// selectors matches, else the whole page.
pub open spec fn article_html_spec(html: Seq<char>) -> Seq<char> {
    first_found_spec(
        article_selectors_spec().map_values(|sel: Seq<char>| first_match_html(html, sel)),
        html,
    )
}

/// The views of a list of optional strings.
pub open spec fn opt_texts(v: Seq<Option<String>>) -> Seq<Option<Seq<char>>> {
    v.map_values(|o: Option<String>| opt_text(o))
}

/// The first fragment in `found` that is present, or `fallback`.
pub fn first_found(found: &Vec<Option<String>>, fallback: &str) -> (r: String)
    ensures
        r@ == first_found_spec(opt_texts(found@), fallback@),
{
    let mut i: usize = 0;
    assert(opt_texts(found@).skip(0) == opt_texts(found@));
    while i < found.len()
        invariant
            i <= found.len(),
            first_found_spec(opt_texts(found@), fallback@) == first_found_spec(
                opt_texts(found@).skip(i as int),
                fallback@,
            ),
        decreases found.len() - i,
    {
        assert(opt_texts(found@).skip(i as int).drop_first() == opt_texts(found@).skip(i + 1));
        if let Some(h) = &found[i] {
            return h.clone();
        }
        i += 1;
    }
    assert(opt_texts(found@).skip(i as int) =~= Seq::<Option<Seq<char>>>::empty());
    String::from_str(fallback)
}

/// The article part of the page `html`.
pub fn extract_article_html(html: &str) -> (r: String)
    ensures
        r@ == article_html_spec(html@),
{
    let mut selectors: Vec<&str> = Vec::new();
    selectors.push("article");
    selectors.push("main");
    selectors.push("div.post-content");
    selectors.push("div.article-content");
    selectors.push("div.entry-content");
    selectors.push("div.post-body");
    selectors.push("div#content");
    let ghost sels = selectors@.map_values(|s: &str| s@);
    assert(selectors@.len() == 7);
    assert(selectors@[0]@ == "article"@);
    assert(sels =~= article_selectors_spec());
    let mut found: Vec<Option<String>> = Vec::new();
    let mut i: usize = 0;
    while i < selectors.len()
        invariant
            i <= selectors.len(),
            sels == selectors@.map_values(|s: &str| s@),
            opt_texts(found@) == sels.take(i as int).map_values(
                |sel: Seq<char>| first_match_html(html@, sel),
            ),
        decreases selectors.len() - i,
    {
        let f = select_first_html(html, selectors[i]);
        let ghost prev = found@;
        found.push(f);
        assert(opt_texts(found@) == opt_texts(prev).push(opt_text(f)));
        assert(sels.take(i + 1) == sels.take(i as int).push(sels[i as int]));
        assert(sels[i as int] == selectors@[i as int]@);
        assert(opt_texts(found@) =~= sels.take(i + 1).map_values(
            |sel: Seq<char>| first_match_html(html@, sel),
        ));
        i += 1;
    }
    assert(sels.take(i as int) == sels);
    first_found(&found, html)
}

/// The value of a parse result.
pub open spec fn doc_result_view(r: Result<FeedDocument, String>) -> Result<FeedDocumentRecord, Seq<char>> {
    match r {
        Ok(d) => Ok(d@),
        Err(e) => Err(e@),
    }
}

/// The error given for a document that is not handed to the feed parser.
pub open spec fn uncleared_message() -> Seq<char> {
    "feed not parsed: it may hold a date text the feed parser cannot read"@
}

/// The document that fetched bytes hold, an error for bytes the feed
/// parser cannot be handed, or the fetch error passed on.
pub open spec fn fetched_doc_spec(fetched: Result<Seq<u8>, Seq<char>>) -> Result<FeedDocumentRecord, Seq<char>> {
    match fetched {
        Ok(bytes) => if dates_cleared(bytes) {
            parsed_feed(bytes)
        } else {
            Err(uncleared_message())
        },
        Err(e) => Err(e),
    }
}

/// The value of a fetch result.
pub open spec fn fetched_view(r: Result<Vec<u8>, String>) -> Result<Seq<u8>, Seq<char>> {
    match r {
        Ok(b) => Ok(b@),
        Err(e) => Err(e@),
    }
}

/// Parses the bytes of a fetched feed when [`dates_safe`] clears them, and
/// gives the uncleared error otherwise; a fetch error is passed on.
pub fn parse_fetched(fetched: Result<Vec<u8>, String>) -> (r: Result<FeedDocument, String>)
    ensures
        doc_result_view(r) == fetched_doc_spec(fetched_view(fetched)),
{
    match fetched {
        Ok(bytes) => {
            if dates_safe(bytes.as_slice()) {
                parse_feed(bytes.as_slice())
            } else {
                Err(String::from_str("feed not parsed: it may hold a date text the feed parser cannot read"))
            }
        },
        Err(e) => Err(e),
    }
}

} // verus!
