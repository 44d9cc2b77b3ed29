//! Stylesheets and scripts that a document includes, by link or by content.

use crate::errors::{BigError, Result};
use crate::text::{chain, chain3, starts_with, str_equal, to_chars};
use vstd::prelude::*;

verus! {

/// A stylesheet or script, on disk or at a URL.
#[derive(Debug, Clone)]
pub struct ResourceFile {
    pub path: String,
    pub is_remote: bool,
}

/// What came of reading a resource's content.
#[derive(Debug, Clone)]
pub enum ContentRead {
    /// The local file does not exist.
    Missing,
    /// The content, read from disk or fetched.
    Text(String),
    /// Reading the local file failed; the description of the failure.
    ReadFailed(String),
    /// Fetching the remote resource failed.
    FetchFailed(BigError),
}

/// A resource together with what reading it gave. When the resource is only
/// linked, `read` is never looked at.
#[derive(Debug, Clone)]
pub struct LoadedResource {
    pub file: ResourceFile,
    pub read: ContentRead,
}

/// Whether `path` names a remote resource: it begins with `http://` or
/// `https://`.
pub open spec fn is_remote_path(path: Seq<char>) -> bool {
    "http://"@.is_prefix_of(path) || "https://"@.is_prefix_of(path)
}

/// The element that links to the resource at `path`, if `kind` is `css` or
/// `js`.
pub open spec fn link_tag(kind: Seq<char>, path: Seq<char>) -> Option<Seq<char>> {
    if kind == "css"@ {
        Some("<link rel=\"stylesheet\" href=\""@ + path + "\">"@)
    } else if kind == "js"@ {
        Some("<script src=\""@ + path + "\"></script>"@)
    } else {
        None
    }
}

/// The element that holds `content` itself, if `kind` is `css` or `js`.
pub open spec fn embed_tag(kind: Seq<char>, content: Seq<char>) -> Option<Seq<char>> {
    if kind == "css"@ {
        Some("<style>"@ + content + "</style>"@)
    } else if kind == "js"@ {
        Some("<script>"@ + content + "</script>"@)
    } else {
        None
    }
}

/// Whether `r` is the refusal of the resource kind `kind`.
pub open spec fn is_unknown_kind(r: Result<String>, kind: Seq<char>) -> bool {
    r matches Err(BigError::InvalidResourcePath(d)) && d@ == "Unknown resource type: "@ + kind
}

/// Whether `r` is what a read gives for the resource at `path`: the text that
/// was read, or the error that tells why there is none.
pub open spec fn is_content_of(r: Result<String>, path: Seq<char>, read: ContentRead) -> bool {
    match read {
        ContentRead::Missing => r matches Err(BigError::PathNotFoundError(p)) && p@ == path,
        ContentRead::Text(s) => r matches Ok(t) && t@ == s@,
        ContentRead::ReadFailed(d) => r matches Err(BigError::FileReadError(m)) && m@ == d@,
        ContentRead::FetchFailed(e) => r == Err::<String, BigError>(e),
    }
}

/// The element that includes a resource, where there is one: a link needs a
/// known kind, an embedded resource its content as well.
pub open spec fn tag_text(path: Seq<char>, kind: Seq<char>, embed: bool, read: ContentRead) -> Option<
    Seq<char>,
> {
    if !embed {
        link_tag(kind, path)
    } else {
        match read {
            ContentRead::Text(c) => embed_tag(kind, c@),
            _ => None,
        }
    }
}

/// Whether `r` is the element for a resource, or the error that stands for
/// it. Where embedding fails for want of content, the error is that of the
/// read; otherwise it is the refusal of the kind.
pub open spec fn is_tag_of(
    r: Result<String>,
    path: Seq<char>,
    kind: Seq<char>,
    embed: bool,
    read: ContentRead,
) -> bool {
    match tag_text(path, kind, embed, read) {
        Some(t) => r matches Ok(s) && s@ == t,
        None => if embed && !(read is Text) {
            r is Err && is_content_of(r, path, read)
        } else {
            is_unknown_kind(r, kind)
        },
    }
}

/// A copy of `e`.
pub fn clone_error(e: &BigError) -> (r: BigError)
    ensures
        r == *e,
{
    match e {
        BigError::FileReadError(d) => BigError::FileReadError(d.clone()),
        BigError::FetchError(d) => BigError::FetchError(d.clone()),
        BigError::InvalidResourcePath(d) => BigError::InvalidResourcePath(d.clone()),
        BigError::MarkdownError(d) => BigError::MarkdownError(d.clone()),
        BigError::HtmlError(d) => BigError::HtmlError(d.clone()),
        BigError::BrowserError { message } => BigError::BrowserError { message: message.clone() },
        BigError::ScreenshotError(d) => BigError::ScreenshotError(d.clone()),
        BigError::PptxError(d) => BigError::PptxError(d.clone()),
        BigError::ValidationError(d) => BigError::ValidationError(d.clone()),
        BigError::BrowserNotFound => BigError::BrowserNotFound,
        BigError::PathNotFoundError(d) => BigError::PathNotFoundError(d.clone()),
        BigError::NoSlidesFoundError(d) => BigError::NoSlidesFoundError(d.clone()),
        BigError::TimeoutError(d) => BigError::TimeoutError(d.clone()),
        BigError::ConfigError(d) => BigError::ConfigError(d.clone()),
        BigError::WatchError(d) => BigError::WatchError(d.clone()),
        BigError::UnknownError(d) => BigError::UnknownError(d.clone()),
    }
}

impl ResourceFile {
    /// The resource that `path` names. A path that begins with `http://` or
    /// `https://` is remote and kept as it is. Any other path is local and
    /// replaced by `canonical`, its canonical form, where there is one.
    pub fn new(path: &str, canonical: Option<String>) -> (r: ResourceFile)
        ensures
            r.is_remote == is_remote_path(path@),
            r.path@ == match canonical {
                Some(c) if !is_remote_path(path@) => c@,
                _ => path@,
            },
    {
        let chars = to_chars(path);
        let http = to_chars("http://");
        let https = to_chars("https://");
        let is_remote = starts_with(&chars, &http) || starts_with(&chars, &https);
        let normalized: String = if is_remote {
            path.to_owned()
        } else {
            match canonical {
                Some(c) => c,
                None => path.to_owned(),
            }
        };
        ResourceFile { path: normalized, is_remote }
    }

    /// The content of the resource, from what reading it gave.
    pub fn content(&self, read: &ContentRead) -> (r: Result<String>)
        ensures
            is_content_of(r, self.path@, *read),
    {
        match read {
            ContentRead::Missing => Err(BigError::PathNotFoundError(self.path.clone())),
            ContentRead::Text(s) => Ok(s.clone()),
            ContentRead::ReadFailed(d) => Err(BigError::FileReadError(d.clone())),
            ContentRead::FetchFailed(e) => Err(clone_error(e)),
        }
    }

    /// The element that includes the resource in a document: a link to it,
    /// or, with `embed`, its content. `tag_type` is `css` or `js`; `read` is
    /// what reading the resource gave, and matters only with `embed`.
    pub fn tag(&self, tag_type: &str, embed: bool, read: &ContentRead) -> (r: Result<String>)
        ensures
            is_tag_of(r, self.path@, tag_type@, embed, *read),
    {
        let is_css = str_equal(tag_type, "css");
        let is_js = str_equal(tag_type, "js");
        if !embed {
            if is_css {
                Ok(chain3("<link rel=\"stylesheet\" href=\"", self.path.as_str(), "\">"))
            } else if is_js {
                Ok(chain3("<script src=\"", self.path.as_str(), "\"></script>"))
            } else {
                Err(BigError::InvalidResourcePath(chain("Unknown resource type: ", tag_type)))
            }
        } else {
            match self.content(read) {
                Err(e) => Err(e),
                Ok(content) => {
                    if is_css {
                        Ok(chain3("<style>", content.as_str(), "</style>"))
                    } else if is_js {
                        Ok(chain3("<script>", content.as_str(), "</script>"))
                    } else {
                        Err(
                            BigError::InvalidResourcePath(
                                chain("Unknown resource type: ", tag_type),
                            ),
                        )
                    }
                },
            }
        }
    }
}

/// One try at fetching a remote resource.
#[derive(Debug, Clone, Copy, PartialEq, Eq, Structural)]
pub enum Attempt {
    First,
    Second,
    Third,
}

/// What came of one try.
#[derive(Debug)]
pub enum FetchOutcome {
    /// The server answered with success, and this is the body.
    Body(String),
    /// A failure that another try would not mend, as when the server
    /// answered with success but the body could not be read; the
    /// description of the failure.
    Fatal(String),
    /// The server answered with this status, which is no success.
    Status(String),
    /// The request could not be sent; the description of the failure.
    SendFailed(String),
}

/// What follows a try.
#[derive(Debug)]
pub enum FetchStep {
    /// The fetch is over, with this result.
    Done(Result<String>),
    /// Wait, then try again.
    Retry { wait_ms: u64, next: Attempt },
    /// Wait, then give up with this error.
    GiveUp { wait_ms: u64, error: BigError },
}

/// The wait after a failed try: a second, doubled with every try.
pub open spec fn retry_delay(attempt: Attempt) -> u64 {
    match attempt {
        Attempt::First => 1000,
        Attempt::Second => 2000,
        Attempt::Third => 4000,
    }
}

/// Whether `e` is the error for the outcome of a failed try.
pub open spec fn is_fetch_error(e: BigError, outcome: FetchOutcome) -> bool {
    match outcome {
        FetchOutcome::Status(status) => e matches BigError::ValidationError(d) && d@
            == "HTTP error: "@ + status@,
        FetchOutcome::SendFailed(cause) => e matches BigError::FetchError(d) && d@ == cause@,
        FetchOutcome::Fatal(cause) => e matches BigError::FetchError(d) && d@ == cause@,
        FetchOutcome::Body(_) => false,
    }
}

/// Whether `step` follows a try with this outcome. A body ends the fetch
/// with success, and a failure that another try would not mend ends it with
/// an error at once. After any other failure comes a wait; then the next try, or, after
/// the third, the error of the last failure.
pub open spec fn is_fetch_step(step: FetchStep, attempt: Attempt, outcome: FetchOutcome) -> bool {
    match outcome {
        FetchOutcome::Body(text) => step matches FetchStep::Done(Ok(t)) && t@ == text@,
        FetchOutcome::Fatal(_) => step matches FetchStep::Done(Err(e)) && is_fetch_error(
            e,
            outcome,
        ),
        _ => match attempt {
            Attempt::First => step matches FetchStep::Retry { wait_ms, next } && wait_ms == 1000
                && next == Attempt::Second,
            Attempt::Second => step matches FetchStep::Retry { wait_ms, next } && wait_ms == 2000
                && next == Attempt::Third,
            Attempt::Third => step matches FetchStep::GiveUp { wait_ms, error } && wait_ms == 4000
                && is_fetch_error(error, outcome),
        },
    }
}

/// Decides what follows a try at fetching a remote resource.
pub fn after_attempt(attempt: Attempt, outcome: FetchOutcome) -> (step: FetchStep)
    ensures
        is_fetch_step(step, attempt, outcome),
{
    let error: BigError = match outcome {
        FetchOutcome::Body(text) => {
            return FetchStep::Done(Ok(text));
        },
        FetchOutcome::Fatal(cause) => {
            return FetchStep::Done(Err(BigError::FetchError(cause)));
        },
        FetchOutcome::Status(status) => BigError::ValidationError(
            chain("HTTP error: ", status.as_str()),
        ),
        FetchOutcome::SendFailed(cause) => BigError::FetchError(cause),
    };
    match attempt {
        Attempt::First => FetchStep::Retry { wait_ms: 1000, next: Attempt::Second },
        Attempt::Second => FetchStep::Retry { wait_ms: 2000, next: Attempt::Third },
        Attempt::Third => FetchStep::GiveUp { wait_ms: 4000, error },
    }
}

/// What a fetch did: the waits it made, in milliseconds and in order, and
/// how it ended.
#[derive(Debug)]
pub struct FetchReport {
    pub waits: Vec<u64>,
    pub result: Result<String>,
}

/// The try that comes as the k-th, counted from 0.
pub open spec fn attempt_at(k: int) -> Attempt {
    if k <= 0 {
        Attempt::First
    } else if k == 1 {
        Attempt::Second
    } else {
        Attempt::Third
    }
}

/// Whether a try with this outcome is followed by a wait: the request
/// could not be sent, or the server answered with a status that is no
/// success.
pub open spec fn calls_for_wait(outcome: FetchOutcome) -> bool {
    outcome is Status || outcome is SendFailed
}

/// Whether `report` tells of a fetch whose tries had these outcomes: one to
/// three tries, each but the last followed by a wait and another try; a wait
/// after every failed try, a second at first and twice as long each time;
/// and in the end the body of the last try, or the error of its failure.
pub open spec fn is_fetch_report(report: FetchReport, outcomes: Seq<FetchOutcome>) -> bool {
    &&& 1 <= outcomes.len() <= 3
    &&& forall|k: int| 0 <= k < outcomes.len() - 1 ==> calls_for_wait(#[trigger] outcomes[k])
    &&& report.waits@.len() == if calls_for_wait(outcomes.last()) {
        outcomes.len()
    } else {
        (outcomes.len() - 1) as nat
    }
    &&& forall|k: int|
        0 <= k < report.waits@.len() ==> #[trigger] report.waits@[k] == retry_delay(attempt_at(k))
    &&& calls_for_wait(outcomes.last()) ==> outcomes.len() == 3
    &&& match outcomes.last() {
        FetchOutcome::Body(text) => report.result matches Ok(t) && t@ == text@,
        _ => report.result matches Err(e) && is_fetch_error(e, outcomes.last()),
    }
}

/// Fetches a remote resource with up to three tries. `try_once` makes one
/// try; `wait` lets the given number of milliseconds pass.
pub fn fetch<F, W>(try_once: F, wait: W) -> (report: FetchReport) where
    F: Fn() -> FetchOutcome,
    W: Fn(u64) -> (),

    requires
        try_once.requires(()),
        forall|ms: u64| wait.requires((ms,)),
    ensures
        exists|outcomes: Seq<FetchOutcome>|
            #![trigger is_fetch_report(report, outcomes)]
            is_fetch_report(report, outcomes) && forall|k: int|
                0 <= k < outcomes.len() ==> try_once.ensures((), #[trigger] outcomes[k]),
{
    let mut attempt = Attempt::First;
    let mut waits: Vec<u64> = Vec::new();
    let ghost mut outcomes: Seq<FetchOutcome> = Seq::empty();
    loop
        invariant
            try_once.requires(()),
            forall|ms: u64| wait.requires((ms,)),
            outcomes.len() <= 2,
            attempt == attempt_at(outcomes.len() as int),
            waits@.len() == outcomes.len(),
            forall|k: int| 0 <= k < outcomes.len() ==> calls_for_wait(#[trigger] outcomes[k]),
            forall|k: int| 0 <= k < waits@.len() ==> #[trigger] waits@[k] == retry_delay(
                attempt_at(k),
            ),
            forall|k: int|
                0 <= k < outcomes.len() ==> try_once.ensures((), #[trigger] outcomes[k]),
        decreases 3 - outcomes.len(),
    {
        let outcome = try_once();
        let ghost earlier = outcomes;
        proof {
            outcomes = outcomes.push(outcome);
            assert forall|k: int| 0 <= k < outcomes.len() implies try_once.ensures(
                (),
                #[trigger] outcomes[k],
            ) by {
                if k < earlier.len() {
                    assert(outcomes[k] == earlier[k]);
                }
            }
            assert forall|k: int| 0 <= k < outcomes.len() - 1 implies calls_for_wait(
                #[trigger] outcomes[k],
            ) by {
                assert(outcomes[k] == earlier[k]);
            }
        }
        match after_attempt(attempt, outcome) {
            FetchStep::Done(result) => {
                let report = FetchReport { waits, result };
                proof {
                    assert(is_fetch_report(report, outcomes));
                }
                return report;
            },
            FetchStep::Retry { wait_ms, next } => {
                wait(wait_ms);
                waits.push(wait_ms);
                attempt = next;
            },
            FetchStep::GiveUp { wait_ms, error } => {
                wait(wait_ms);
                waits.push(wait_ms);
                let report = FetchReport { waits, result: Err(error) };
                proof {
                    assert(is_fetch_report(report, outcomes));
                }
                return report;
            },
        }
    }
}

/// How long fetched content stays fresh: five minutes, in milliseconds.
pub const CACHE_TTL_MS: u64 = 300_000;

/// Fetched content and the instant at which it goes stale.
pub struct CacheEntry {
    pub url: String,
    pub content: String,
    /// In milliseconds on the clock of the cache's owner.
    pub expires_at: u128,
}

/// What was fetched of late, by URL.
pub struct RemoteCache {
    entries: Vec<CacheEntry>,
}

/// The first entry for `url`, if there is one.
pub open spec fn entry_for(entries: Seq<CacheEntry>, url: Seq<char>) -> Option<CacheEntry>
    decreases entries.len(),
{
    if entries.len() == 0 {
        None
    } else if entries[0].url@ == url {
        Some(entries[0])
    } else {
        entry_for(entries.drop_first(), url)
    }
}

/// Replacing the first entry for a URL changes what is held for that URL
/// and for no other.
pub proof fn lemma_entry_replaced(
    entries: Seq<CacheEntry>,
    i: int,
    entry: CacheEntry,
    url: Seq<char>,
)
    requires
        0 <= i < entries.len(),
        entries[i].url@ == entry.url@,
        forall|k: int| 0 <= k < i ==> entries[k].url@ != entry.url@,
    ensures
        entry_for(entries.update(i, entry), url) == if url == entry.url@ {
            Some(entry)
        } else {
            entry_for(entries, url)
        },
    decreases entries.len(),
{
    let after = entries.update(i, entry);
    if i == 0 {
        assert(after.drop_first() =~= entries.drop_first());
    } else {
        assert(after.drop_first() =~= entries.drop_first().update(i - 1, entry));
        assert forall|k: int| 0 <= k < i - 1 implies entries.drop_first()[k].url@
            != entry.url@ by {
            assert(entries.drop_first()[k] == entries[k + 1]);
        }
        lemma_entry_replaced(entries.drop_first(), i - 1, entry, url);
    }
}

/// Adding an entry for a URL that has none changes what is held for that
/// URL and for no other.
pub proof fn lemma_entry_added(entries: Seq<CacheEntry>, entry: CacheEntry, url: Seq<char>)
    requires
        forall|k: int| 0 <= k < entries.len() ==> entries[k].url@ != entry.url@,
    ensures
        entry_for(entries.push(entry), url) == if url == entry.url@ {
            Some(entry)
        } else {
            entry_for(entries, url)
        },
    decreases entries.len(),
{
    let after = entries.push(entry);
    if entries.len() == 0 {
        assert(after.drop_first() =~= Seq::<CacheEntry>::empty());
    } else {
        assert(after.drop_first() =~= entries.drop_first().push(entry));
        assert forall|k: int| 0 <= k < entries.drop_first().len() implies entries.drop_first()[k].url@
            != entry.url@ by {
            assert(entries.drop_first()[k] == entries[k + 1]);
        }
        lemma_entry_added(entries.drop_first(), entry, url);
    }
}

/// No entry before the first one for a URL is for that URL.
pub proof fn lemma_entry_absent(entries: Seq<CacheEntry>, url: Seq<char>, n: int)
    requires
        0 <= n <= entries.len(),
        forall|k: int| 0 <= k < n ==> entries[k].url@ != url,
    ensures
        entry_for(entries, url) == entry_for(entries.skip(n), url),
    decreases n,
{
    if n == 0 {
        assert(entries.skip(0) =~= entries);
    } else {
        assert forall|k: int| 0 <= k < n - 1 implies entries.drop_first()[k].url@ != url by {
            assert(entries.drop_first()[k] == entries[k + 1]);
        }
        lemma_entry_absent(entries.drop_first(), url, n - 1);
        assert(entries.drop_first().skip(n - 1) =~= entries.skip(n));
    }
}

impl RemoteCache {
    /// What the cache holds for `url`: the content and the instant at which
    /// it goes stale.
    pub closed spec fn held(self, url: Seq<char>) -> Option<(Seq<char>, u128)> {
        match entry_for(self.entries@, url) {
            Some(e) => Some((e.content@, e.expires_at)),
            None => None,
        }
    }

    /// The content that the cache answers with at `now`: what it holds for
    /// `url`, while that is fresh.
    pub open spec fn fresh(self, url: Seq<char>, now_ms: u64) -> Option<Seq<char>> {
        match self.held(url) {
            Some((content, expires_at)) if now_ms < expires_at => Some(content),
            _ => None,
        }
    }

    /// A cache that holds nothing.
    pub fn new() -> (c: RemoteCache)
        ensures
            forall|url: Seq<char>| c.held(url) is None,
    {
        RemoteCache { entries: Vec::new() }
    }

    /// The index of the entry for `url`.
    fn position(&self, url: &str) -> (r: Option<usize>)
        ensures
            match r {
                Some(i) => i < self.entries@.len() && self.entries@[i as int].url@ == url@
                    && forall|k: int| 0 <= k < i ==> self.entries@[k].url@ != url@,
                None => forall|k: int| 0 <= k < self.entries@.len() ==> self.entries@[k].url@ != url@,
            },
    {
        let mut i: usize = 0;
        while i < self.entries.len()
            invariant
                i <= self.entries.len(),
                forall|k: int| 0 <= k < i ==> self.entries@[k].url@ != url@,
            decreases self.entries.len() - i,
        {
            if str_equal(self.entries[i].url.as_str(), url) {
                return Some(i);
            }
            i += 1;
        }
        None
    }

    /// The content for `url`, if the cache holds it and it is fresh at
    /// `now_ms`.
    pub fn lookup(&self, url: &str, now_ms: u64) -> (r: Option<String>)
        ensures
            match r {
                Some(content) => self.fresh(url@, now_ms) == Some(content@),
                None => self.fresh(url@, now_ms) is None,
            },
    {
        match self.position(url) {
            Some(i) => {
                proof {
                    lemma_entry_absent(self.entries@, url@, i as int);
                }
                let entry = &self.entries[i];
                if (now_ms as u128) < entry.expires_at {
                    Some(entry.content.clone())
                } else {
                    None
                }
            },
            None => {
                proof {
                    lemma_entry_absent(self.entries@, url@, self.entries@.len() as int);
                }
                None
            },
        }
    }

    /// Keeps `content` for `url`, fresh for five minutes from `now_ms`, in
    /// place of what was held for that URL. Nothing else changes.
    pub fn insert(&mut self, url: &str, content: String, now_ms: u64)
        ensures
            forall|other: Seq<char>|
                #[trigger] final(self).held(other) == if other == url@ {
                    Some((content@, (now_ms + CACHE_TTL_MS) as u128))
                } else {
                    old(self).held(other)
                },
    {
        let entry = CacheEntry {
            url: url.to_owned(),
            content,
            expires_at: now_ms as u128 + CACHE_TTL_MS as u128,
        };
        match self.position(url) {
            Some(i) => {
                proof {
                    assert forall|other: Seq<char>|
                        #[trigger] entry_for(self.entries@.update(i as int, entry), other) == if other
                            == url@ {
                            Some(entry)
                        } else {
                            entry_for(self.entries@, other)
                        } by {
                        lemma_entry_replaced(self.entries@, i as int, entry, other);
                    }
                }
                self.entries.set(i, entry);
            },
            None => {
                proof {
                    assert forall|other: Seq<char>|
                        #[trigger] entry_for(self.entries@.push(entry), other) == if other == url@ {
                            Some(entry)
                        } else {
                            entry_for(self.entries@, other)
                        } by {
                        lemma_entry_added(self.entries@, entry, other);
                    }
                }
                self.entries.push(entry);
            },
        }
    }
}

/// How the content of a remote resource was had.
#[derive(Debug)]
pub enum RemoteRead {
    /// From the cache, which was asked at `asked_at`.
    Cached { asked_at: u64, content: String },
    /// By a fetch, as the cache, asked at `asked_at`, held nothing fresh.
    /// Content that was fetched went into the cache at `kept_at`.
    Fetched { asked_at: u64, report: FetchReport, kept_at: Option<u64> },
}

/// Whether the cache holds after a fetch what it should: the body that was
/// fetched, kept at `kept_at` for the URL, and all else as before; or, after
/// a fetch that failed, everything as before.
pub open spec fn is_kept(
    before: RemoteCache,
    after: RemoteCache,
    url: Seq<char>,
    result: Result<String>,
    kept_at: Option<u64>,
) -> bool {
    match result {
        Ok(body) => kept_at matches Some(at) && forall|other: Seq<char>|
            #[trigger] after.held(other) == if other == url {
                Some((body@, (at + CACHE_TTL_MS) as u128))
            } else {
                before.held(other)
            },
        Err(_) => kept_at is None && after == before,
    }
}

impl RemoteRead {
    /// The content, or the error of the fetch.
    pub open spec fn outcome(self) -> Result<String> {
        match self {
            RemoteRead::Cached { content, .. } => Ok(content),
            RemoteRead::Fetched { report, .. } => report.result,
        }
    }

    /// The content, or the error of the fetch.
    pub fn into_result(self) -> (r: Result<String>)
        ensures
            r == self.outcome(),
    {
        match self {
            RemoteRead::Cached { content, .. } => Ok(content),
            RemoteRead::Fetched { report, .. } => report.result,
        }
    }
}

impl ResourceFile {
    /// The content of a remote resource: what the cache holds for its URL
    /// while that is fresh, and otherwise what a fetch gives, which is kept
    /// in the cache for the next time. `clock` reads the time in
    /// milliseconds; `try_once` makes one try at fetching; `wait` lets the
    /// given number of milliseconds pass.
    pub fn fetch_remote_content<C, F, W>(
        &self,
        cache: &mut RemoteCache,
        clock: C,
        try_once: F,
        wait: W,
    ) -> (r: RemoteRead) where C: Fn() -> u64, F: Fn() -> FetchOutcome, W: Fn(u64) -> ()
        requires
            clock.requires(()),
            try_once.requires(()),
            forall|ms: u64| wait.requires((ms,)),
        ensures
            match r {
                RemoteRead::Cached { asked_at, content } => {
                    &&& clock.ensures((), asked_at)
                    &&& old(cache).fresh(self.path@, asked_at) == Some(content@)
                    &&& *final(cache) == *old(cache)
                },
                RemoteRead::Fetched { asked_at, report, kept_at } => {
                    &&& clock.ensures((), asked_at)
                    &&& old(cache).fresh(self.path@, asked_at) is None
                    &&& exists|outcomes: Seq<FetchOutcome>|
                        #![trigger is_fetch_report(report, outcomes)]
                        is_fetch_report(report, outcomes) && forall|k: int|
                            0 <= k < outcomes.len() ==> try_once.ensures(
                                (),
                                #[trigger] outcomes[k],
                            )
                    &&& kept_at matches Some(at) ==> clock.ensures((), at)
                    &&& is_kept(*old(cache), *final(cache), self.path@, report.result, kept_at)
                },
            },
    {
        let asked_at = clock();
        match cache.lookup(self.path.as_str(), asked_at) {
            Some(content) => RemoteRead::Cached { asked_at, content },
            None => {
                let report = fetch(try_once, wait);
                let kept_at: Option<u64> = match &report.result {
                    Ok(body) => {
                        let at = clock();
                        cache.insert(self.path.as_str(), body.clone(), at);
                        Some(at)
                    },
                    Err(_) => None,
                };
                RemoteRead::Fetched { asked_at, report, kept_at }
            },
        }
    }
}

} // verus!
