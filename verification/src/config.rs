//! The feed list: command-line URLs, a feeds file, or the defaults.

use vstd::prelude::*;
use crate::model::opt_text;
use crate::text::{
    decimal, decimal_string, join2, lines_of, lines_spec, starts_with_char, string_views, trim,
    trim_spec,
};

verus! {

/// The options the reader is started with.
#[derive(Debug)]
pub struct Args {
    /// A single feed URL given without a flag.
    pub url: Option<String>,
    /// Feed URLs given with `--feed`, in order.
    pub feeds: Vec<String>,
    /// The path of a feeds file given with `--feeds`.
    pub feeds_file: Option<String>,
    pub timeout_secs: u64,
    pub user_agent: String,
    pub max_items: usize,
    pub seen_cap: usize,
}

/// Why no feed list could be made.
#[derive(Debug)]
pub enum FeedResolveError {
    /// The feeds file could not be read; `source` is what the reader reported.
    Io { path: String, source: String },
    /// A value is not a URL; `line` is its 1-based line in the feeds file.
    InvalidUrl { value: String, line: Option<usize> },
    /// The options name no feed at all.
    NoFeeds,
}

/// The value a [`FeedResolveError`] stands for.
pub enum ResolveFailure {
    Io { path: Seq<char>, source: Seq<char> },
    InvalidUrl { value: Seq<char>, line: Option<usize> },
    NoFeeds,
}

impl View for FeedResolveError {
    type V = ResolveFailure;

    open spec fn view(&self) -> ResolveFailure {
        match self {
            FeedResolveError::Io { path, source } => ResolveFailure::Io { path: path@, source: source@ },
            FeedResolveError::InvalidUrl { value, line } => ResolveFailure::InvalidUrl {
                value: value@,
                line: *line,
            },
            FeedResolveError::NoFeeds => ResolveFailure::NoFeeds,
        }
    }
}

/// The text shown for a failure.
pub open spec fn failure_message(f: ResolveFailure) -> Seq<char> {
    match f {
        ResolveFailure::Io { path, source } => "failed to read feeds file "@ + path + ": "@ + source,
        ResolveFailure::InvalidUrl { value, line } => match line {
            Some(n) => if n > 0 {
                "invalid feed URL at line "@ + decimal(n as nat) + ": "@ + value
            } else {
                "invalid feed URL: "@ + value
            },
            None => "invalid feed URL: "@ + value,
        },
        ResolveFailure::NoFeeds => "no feeds provided"@,
    }
}

impl FeedResolveError {
    /// The text shown for this error.
    pub fn message(&self) -> (r: String)
        ensures
            r@ == failure_message(self@),
    {
        match self {
            FeedResolveError::Io { path, source } => {
                let mut r = join2("failed to read feeds file ", path.as_str());
                r.append(": ");
                r.append(source.as_str());
                r
            },
            FeedResolveError::InvalidUrl { value, line } => match line {
                Some(n) => if *n > 0 {
                    let digits = decimal_string(*n);
                    let mut r = join2("invalid feed URL at line ", digits.as_str());
                    r.append(": ");
                    r.append(value.as_str());
                    r
                } else {
                    join2("invalid feed URL: ", value.as_str())
                },
                None => join2("invalid feed URL: ", value.as_str()),
            },
            FeedResolveError::NoFeeds => String::from_str("no feeds provided"),
        }
    }
}

/// Whether `url::Url::parse` accepts `s` as an absolute URL.
pub uninterp spec fn url_parses(s: Seq<char>) -> bool;

/// `url::Url::parse`: true exactly when it returns `Ok` for `value`, which
/// `url_parses` names.
#[verifier::external_body]
fn url_accepts(value: &str) -> (r: bool)
    ensures
        r == url_parses(value@),
{
    url::Url::parse(value).is_ok()
}

/// The outcome of validating `value`, found at `line`, once the URL parser
/// has said whether it `parses`.
pub open spec fn validation_spec(value: Seq<char>, line: Option<usize>, parses: bool) -> Result<Seq<char>, ResolveFailure> {
    if parses {
        Ok(value)
    } else {
        Err(ResolveFailure::InvalidUrl { value, line })
    }
}

/// The value of a validation result.
pub open spec fn url_result_view(r: Result<String, FeedResolveError>) -> Result<Seq<char>, ResolveFailure> {
    match r {
        Ok(s) => Ok(s@),
        Err(e) => Err(e@),
    }
}

/// Turns the URL parser's verdict on `value` into the validation result:
/// the value itself, or an invalid-URL error that carries `line`.
pub fn url_verdict(value: &str, line: Option<usize>, parses: bool) -> (r: Result<String, FeedResolveError>)
    ensures
        url_result_view(r) == validation_spec(value@, line, parses),
{
    if parses {
        Ok(String::from_str(value))
    } else {
        Err(FeedResolveError::InvalidUrl { value: String::from_str(value), line })
    }
}

/// Checks that `value` is a URL; `line` is where it was found, if in a file.
pub fn validate_feed_url(value: &str, line: Option<usize>) -> (r: Result<String, FeedResolveError>)
    ensures
        url_result_view(r) == validation_spec(value@, line, url_parses(value@)),
{
    let parses = url_accepts(value);
    url_verdict(value, line, parses)
}

/// Whether a line of a feeds file is skipped: blank, or a `#` comment.
pub open spec fn skipped_line(line: Seq<char>) -> bool {
    let t = trim_spec(line);
    t.len() == 0 || t[0] == '#'
}

/// The URLs of the lines from the `i`-th on, or the first invalid one
/// (with its 1-based line number).
pub open spec fn parse_lines_spec(lines: Seq<Seq<char>>, i: int) -> Result<Seq<Seq<char>>, ResolveFailure>
    decreases lines.len() - i,
{
    if i < 0 || i >= lines.len() {
        Ok(seq![])
    } else if skipped_line(lines[i]) {
        parse_lines_spec(lines, i + 1)
    } else {
        let t = trim_spec(lines[i]);
        if !url_parses(t) {
            Err(ResolveFailure::InvalidUrl { value: t, line: Some((i + 1) as usize) })
        } else {
            match parse_lines_spec(lines, i + 1) {
                Ok(rest) => Ok(seq![t] + rest),
                Err(e) => Err(e),
            }
        }
    }
}

/// The feeds a feeds file lists: one URL per line, each trimmed; blank
/// lines and lines starting with `#` are skipped.
pub open spec fn feeds_file_spec(contents: Seq<char>) -> Result<Seq<Seq<char>>, ResolveFailure> {
    parse_lines_spec(lines_spec(contents), 0)
}

/// The value of a list result.
pub open spec fn list_result_view(r: Result<Vec<String>, FeedResolveError>) -> Result<Seq<Seq<char>>, ResolveFailure> {
    match r {
        Ok(v) => Ok(string_views(v@)),
        Err(e) => Err(e@),
    }
}

/// The feeds listed in the text of a feeds file.
pub fn parse_feeds_text(contents: &str) -> (r: Result<Vec<String>, FeedResolveError>)
    ensures
        list_result_view(r) == feeds_file_spec(contents@),
{
    let lines = lines_of(contents);
    let ghost ls = lines_spec(contents@);
    let mut feeds: Vec<String> = Vec::new();
    let mut index: usize = 0;
    assert(ls.len() == lines.len());
    while index < lines.len()
        invariant
            ls == string_views(lines@),
            index <= lines.len(),
            feeds_file_spec(contents@) == match parse_lines_spec(ls, index as int) {
                Ok(rest) => Ok(string_views(feeds@) + rest),
                Err(e) => Err(e),
            },
        decreases lines.len() - index,
    {
        let line = trim(lines[index].as_str());
        assert(ls[index as int] == lines@[index as int]@);
        if line.as_str().is_empty() || starts_with_char(line.as_str(), '#') {
            index += 1;
        } else {
            let ghost prev = feeds@;
            match validate_feed_url(line.as_str(), Some(index + 1)) {
                Ok(url) => {
                    feeds.push(url);
                    assert(string_views(feeds@) == string_views(prev).push(line@));
                    proof {
                        match parse_lines_spec(ls, index + 1) {
                            Ok(rest) => {
                                assert(string_views(prev) + (seq![line@] + rest) =~= string_views(feeds@) + rest);
                            },
                            Err(e) => {},
                        }
                    }
                },
                Err(e) => {
                    return Err(e);
                },
            }
            index += 1;
        }
    }
    assert(string_views(feeds@) + Seq::<Seq<char>>::empty() =~= string_views(feeds@));
    Ok(feeds)
}

/// The failure of reading the feeds file at `path`, or the feeds it lists.
pub open spec fn read_feeds_file_spec(path: Seq<char>, contents: Result<Seq<char>, Seq<char>>) -> Result<Seq<Seq<char>>, ResolveFailure> {
    match contents {
        Ok(c) => feeds_file_spec(c),
        Err(source) => Err(ResolveFailure::Io { path, source }),
    }
}

/// The value of a read result.
pub open spec fn read_view(r: Result<String, String>) -> Result<Seq<char>, Seq<char>> {
    match r {
        Ok(c) => Ok(c@),
        Err(m) => Err(m@),
    }
}

/// The feeds of the feeds file at `path`, given what reading it gave: its
/// text, or the reason it could not be read.
pub fn parse_feeds_file(path: &str, contents: Result<String, String>) -> (r: Result<Vec<String>, FeedResolveError>)
    ensures
        list_result_view(r) == read_feeds_file_spec(path@, read_view(contents)),
{
    match contents {
        Ok(text) => parse_feeds_text(text.as_str()),
        Err(source) => Err(FeedResolveError::Io { path: String::from_str(path), source }),
    }
}

/// `acc` followed by each element of `xs` not already in it, in order.
pub open spec fn dedup_append(acc: Seq<Seq<char>>, xs: Seq<Seq<char>>) -> Seq<Seq<char>>
    decreases xs.len(),
{
    if xs.len() == 0 {
        acc
    } else {
        dedup_append(if acc.contains(xs[0]) { acc } else { acc.push(xs[0]) }, xs.drop_first())
    }
}

/// The first of `xs` that is not a URL, as an invalid-URL failure, if any.
pub open spec fn first_invalid(xs: Seq<Seq<char>>) -> Option<ResolveFailure>
    decreases xs.len(),
{
    if xs.len() == 0 {
        None
    } else if !url_parses(xs[0]) {
        Some(ResolveFailure::InvalidUrl { value: xs[0], line: None })
    } else {
        first_invalid(xs.drop_first())
    }
}

/// The feeds used when none is given.
pub open spec fn default_feeds_spec() -> Seq<Seq<char>> {
    seq!["https://hnrss.org/frontpage"@, "https://tech.meituan.com/feed/"@]
}

/// The value of a set of options.
pub struct ArgsRecord {
    pub url: Option<Seq<char>>,
    pub feeds: Seq<Seq<char>>,
    pub feeds_file: Option<Seq<char>>,
}

impl Args {
    /// The options that decide the feed list.
    pub open spec fn feed_options(&self) -> ArgsRecord {
        ArgsRecord { url: opt_text(self.url), feeds: string_views(self.feeds@), feeds_file: opt_text(self.feeds_file) }
    }
}

/// The feed list the options give: the `--feed` URLs, then those of the
/// feeds file, each kept once in first-seen order; when both are absent, the
/// bare URL or else the defaults; an error for the first value that is not a
/// URL, for a feeds file that cannot be read, and when no feed remains.
pub open spec fn resolve_spec(a: ArgsRecord, file: Result<Seq<char>, Seq<char>>) -> Result<Seq<Seq<char>>, ResolveFailure> {
    match first_invalid(a.feeds) {
        Some(e) => Err(e),
        None => {
            let acc1 = dedup_append(seq![], a.feeds);
            let r2 = match a.feeds_file {
                None => Ok(acc1),
                Some(path) => match read_feeds_file_spec(path, file) {
                    Err(e) => Err(e),
                    Ok(fs) => Ok(dedup_append(acc1, fs)),
                },
            };
            match r2 {
                Err(e) => Err(e),
                Ok(acc2) => {
                    let r3 = if acc2.len() == 0 && a.feeds_file is None {
                        match a.url {
                            Some(u) => if url_parses(u) {
                                Ok(dedup_append(acc2, seq![u]))
                            } else {
                                Err(ResolveFailure::InvalidUrl { value: u, line: None })
                            },
                            None => match first_invalid(default_feeds_spec()) {
                                Some(e) => Err(e),
                                None => Ok(dedup_append(acc2, default_feeds_spec())),
                            },
                        }
                    } else {
                        Ok(acc2)
                    };
                    match r3 {
                        Err(e) => Err(e),
                        Ok(acc3) => if acc3.len() == 0 {
                            Err(ResolveFailure::NoFeeds)
                        } else {
                            Ok(acc3)
                        },
                    }
                },
            }
        },
    }
}

/// Appends to `acc` each of `xs` that is not in it yet.
fn append_new(acc: &mut Vec<String>, xs: &Vec<String>)
    ensures
        string_views(final(acc)@) == dedup_append(string_views(old(acc)@), string_views(xs@)),
{
    let mut i: usize = 0;
    assert(string_views(xs@).skip(0) == string_views(xs@));
    while i < xs.len()
        invariant
            i <= xs.len(),
            dedup_append(string_views(old(acc)@), string_views(xs@)) == dedup_append(
                string_views(acc@),
                string_views(xs@).skip(i as int),
            ),
        decreases xs.len() - i,
    {
        let ghost prev = string_views(acc@);
        assert(string_views(xs@).skip(i as int).drop_first() == string_views(xs@).skip(i + 1));
        assert(string_views(xs@).skip(i as int)[0] == xs@[i as int]@);
        if !crate::update::contains_key(acc, xs[i].as_str()) {
            acc.push(xs[i].clone());
            assert(string_views(acc@) == prev.push(xs@[i as int]@));
        }
        i += 1;
    }
    assert(string_views(xs@).skip(i as int) =~= Seq::<Seq<char>>::empty());
}

/// `Err` with the first of `xs` that is not a URL, if any.
fn check_all(xs: &Vec<String>) -> (r: Result<(), FeedResolveError>)
    ensures
        match r {
            Ok(()) => first_invalid(string_views(xs@)) is None,
            Err(e) => first_invalid(string_views(xs@)) == Some(e@),
        },
{
    let mut i: usize = 0;
    assert(string_views(xs@).skip(0) == string_views(xs@));
    while i < xs.len()
        invariant
            i <= xs.len(),
            first_invalid(string_views(xs@)) == first_invalid(string_views(xs@).skip(i as int)),
        decreases xs.len() - i,
    {
        assert(string_views(xs@).skip(i as int).drop_first() == string_views(xs@).skip(i + 1));
        assert(string_views(xs@).skip(i as int)[0] == xs@[i as int]@);
        match validate_feed_url(xs[i].as_str(), None) {
            Ok(_) => {},
            Err(e) => {
                return Err(e);
            },
        }
        i += 1;
    }
    assert(string_views(xs@).skip(i as int) =~= Seq::<Seq<char>>::empty());
    Ok(())
}

/// The feeds used when none is given.
pub fn default_feeds() -> (r: Vec<String>)
    ensures
        string_views(r@) == default_feeds_spec(),
{
    let mut r: Vec<String> = Vec::new();
    r.push(String::from_str("https://hnrss.org/frontpage"));
    r.push(String::from_str("https://tech.meituan.com/feed/"));
    assert(string_views(r@) =~= default_feeds_spec());
    r
}

/// The value of the options' feed list result.
pub open spec fn resolve_view(r: Result<Vec<String>, FeedResolveError>) -> Result<Seq<Seq<char>>, ResolveFailure> {
    list_result_view(r)
}

impl Args {
    /// The feed list these options give (see [`resolve_spec`]).
    /// `feeds_file_contents` is what reading the feeds file gave; it is
    /// consulted only when `feeds_file` is set.
    pub fn resolve_feeds(&self, feeds_file_contents: Result<String, String>) -> (r: Result<Vec<String>, FeedResolveError>)
        ensures
            resolve_view(r) == resolve_spec(self.feed_options(), read_view(feeds_file_contents)),
    {
        match check_all(&self.feeds) {
            Err(e) => {
                return Err(e);
            },
            Ok(()) => {},
        }
        let mut feeds: Vec<String> = Vec::new();
        assert(string_views(feeds@) =~= Seq::<Seq<char>>::empty());
        append_new(&mut feeds, &self.feeds);
        if let Some(path) = &self.feeds_file {
            match parse_feeds_file(path.as_str(), feeds_file_contents) {
                Err(e) => {
                    return Err(e);
                },
                Ok(file_feeds) => {
                    append_new(&mut feeds, &file_feeds);
                },
            }
        }
        if feeds.len() == 0 && self.feeds_file.is_none() {
            if let Some(url) = &self.url {
                match validate_feed_url(url.as_str(), None) {
                    Err(e) => {
                        return Err(e);
                    },
                    Ok(valid) => {
                        let mut one: Vec<String> = Vec::new();
                        one.push(valid);
                        assert(string_views(one@) =~= seq![url@]);
                        append_new(&mut feeds, &one);
                    },
                }
            } else {
                let defaults = default_feeds();
                match check_all(&defaults) {
                    Err(e) => {
                        return Err(e);
                    },
                    Ok(()) => {},
                }
                append_new(&mut feeds, &defaults);
            }
        }
        if feeds.len() == 0 {
            return Err(FeedResolveError::NoFeeds);
        }
        Ok(feeds)
    }

    /// Checks the `--feed` values alone: `Err` with the first that is not a
    /// URL, which is then what [`Args::resolve_feeds`] gives whatever the
    /// feeds file holds, so that file need not be read.
    pub fn check_feed_flags(&self) -> (r: Result<(), FeedResolveError>)
        ensures
            match r {
                Ok(()) => first_invalid(self.feed_options().feeds) is None,
                Err(e) => first_invalid(self.feed_options().feeds) == Some(e@) && forall|file: Result<Seq<char>, Seq<char>>|
                    #[trigger] resolve_spec(self.feed_options(), file) == Err::<Seq<Seq<char>>, ResolveFailure>(e@),
            },
    {
        check_all(&self.feeds)
    }

    /// The seen-key cap in use: the configured one, but at least 1.
    pub fn effective_seen_cap(&self) -> (r: usize)
        ensures
            r >= 1,
            r == if self.seen_cap >= 1 { self.seen_cap } else { 1 },
    {
        if self.seen_cap >= 1 { self.seen_cap } else { 1 }
    }
}

} // verus!
