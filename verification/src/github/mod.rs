//! GitHub releases: the release records, the rate-limit headers, and the
//! ETag cache that lets a cold restart reuse the last listing.

use chrono::TimeZone;
use vstd::prelude::*;

use crate::paths::{std_with_extension, with_extension};
use crate::strmap::StrMap;
use crate::text::{parse_i64, parse_i64_spec, parse_u32, parse_u32_spec};

verus! {

/// The GitHub API root.
pub const API_BASE: &'static str = "https://api.github.com";

#[derive(Debug, Clone, PartialEq, Eq)]
pub struct Release {
    pub tag_name: String,
    pub name: Option<String>,
    pub published_at: Option<String>,
    pub assets: Vec<ReleaseAsset>,
}

#[derive(Debug, Clone, PartialEq, Eq)]
pub struct ReleaseAsset {
    pub name: String,
    pub browser_download_url: String,
    pub size: u64,
}

/// A copy of `a`.
pub fn clone_asset(a: &ReleaseAsset) -> (r: ReleaseAsset)
    ensures
        r == *a,
{
    ReleaseAsset {
        name: a.name.clone(),
        browser_download_url: a.browser_download_url.clone(),
        size: a.size,
    }
}

/// Bytes received so far of a download, and its length when announced.
#[derive(Debug, Clone, Copy)]
pub struct DownloadProgress {
    pub downloaded: u64,
    pub total: Option<u64>,
}

/// A copy of the optional text `o`.
fn clone_opt(o: &Option<String>) -> (r: Option<String>)
    ensures
        r == *o,
{
    match o {
        Some(s) => Some(s.clone()),
        None => None,
    }
}

/// A release as `(tag_name, name, published_at, assets)`.
pub open spec fn release_view(r: Release) -> (Seq<char>, Option<Seq<char>>, Option<Seq<char>>, Seq<
    ReleaseAsset,
>) {
    (r.tag_name@, crate::text::opt_view(r.name), crate::text::opt_view(r.published_at), r.assets@)
}

/// Releases by `release_view`, in order.
pub open spec fn releases_view(v: Seq<Release>) -> Seq<
    (Seq<char>, Option<Seq<char>>, Option<Seq<char>>, Seq<ReleaseAsset>),
> {
    v.map_values(|r: Release| release_view(r))
}

/// A copy of `r`.
pub fn clone_release(r: &Release) -> (c: Release)
    ensures
        release_view(c) == release_view(*r),
{
    let mut assets: Vec<ReleaseAsset> = Vec::new();
    let n = r.assets.len();
    for i in 0..n
        invariant
            n == r.assets@.len(),
            assets@ == r.assets@.take(i as int),
    {
        assets.push(clone_asset(&r.assets[i]));
        assert(assets@ =~= r.assets@.take(i + 1));
    }
    assert(assets@ =~= r.assets@);
    Release {
        tag_name: r.tag_name.clone(),
        name: clone_opt(&r.name),
        published_at: clone_opt(&r.published_at),
        assets,
    }
}

/// A copy of the list `v`.
pub fn clone_releases(v: &Vec<Release>) -> (c: Vec<Release>)
    ensures
        releases_view(c@) == releases_view(v@),
{
    let mut out: Vec<Release> = Vec::new();
    let n = v.len();
    for i in 0..n
        invariant
            n == v@.len(),
            releases_view(out@) == releases_view(v@.take(i as int)),
    {
        let ghost before = out@;
        out.push(clone_release(&v[i]));
        assert(releases_view(out@) =~= releases_view(before).push(release_view(out@.last())));
        assert(releases_view(v@.take(i + 1)) =~= releases_view(v@.take(i as int)).push(
            release_view(v@[i as int]),
        ));
    }
    assert(v@.take(n as int) =~= v@);
    out
}

// ---------------------------------------------------------------------------
// Rate limits
// ---------------------------------------------------------------------------

/// GitHub's rate-limit headers of the last response. `reset_at` is the reset
/// time in seconds since the Unix epoch.
#[derive(Debug, Clone, Copy, PartialEq, Eq)]
pub struct RateLimitStatus {
    pub remaining: Option<u32>,
    pub limit: Option<u32>,
    pub reset_at: Option<i64>,
}

impl Default for RateLimitStatus {
    fn default() -> (r: Self)
        ensures
            r.remaining is None,
            r.limit is None,
            r.reset_at is None,
    {
        RateLimitStatus { remaining: None, limit: None, reset_at: None }
    }
}

/// The first second chrono represents: -262143-01-01T00:00:00Z.
pub const CHRONO_MIN_TIMESTAMP: i64 = -8334601228800;

/// The last second chrono represents: +262142-12-31T23:59:59Z.
pub const CHRONO_MAX_TIMESTAMP: i64 = 8210266876799;

/// Whether `chrono::Utc.timestamp_opt(secs, 0)` gives a single time: whether
/// `secs` lies in the range of times chrono represents, from the first day
/// of year -262143 to the last second of year 262142.
pub open spec fn chrono_timestamp_valid(secs: i64) -> bool {
    CHRONO_MIN_TIMESTAMP <= secs <= CHRONO_MAX_TIMESTAMP
}

/// Calls `chrono::Utc.timestamp_opt(secs, 0).single()` and tells whether it
/// gave a time. `DateTime::from_timestamp` splits `secs` into a day and a
/// second of the day and gives a time exactly when the day's date lies
/// between `NaiveDate::MIN` (-262143-01-01) and `NaiveDate::MAX`
/// (262142-12-31); `Utc` maps every such time to a single one.
#[verifier::external_body]
fn utc_timestamp_valid(secs: i64) -> (r: bool)
    ensures
        r == chrono_timestamp_valid(secs),
{
    chrono::Utc.timestamp_opt(secs, 0).single().is_some()
}

/// A reset time read back from a snapshot: kept when chrono can represent it.
pub fn valid_reset(secs: Option<i64>) -> (r: Option<i64>)
    ensures
        r == match secs {
            Some(t) => if chrono_timestamp_valid(t) {
                Some(t)
            } else {
                None
            },
            None => None,
        },
{
    match secs {
        Some(t) => if utc_timestamp_valid(t) {
            Some(t)
        } else {
            None
        },
        None => None,
    }
}

/// A header parsed as `u32`, when present and well formed.
pub open spec fn header_u32(h: Option<Seq<char>>) -> Option<u32> {
    match h {
        Some(s) => parse_u32_spec(s),
        None => None,
    }
}

/// The reset header parsed as seconds, when present, well formed and
/// within chrono's range.
pub open spec fn header_reset(h: Option<Seq<char>>) -> Option<i64> {
    match h {
        Some(s) => match parse_i64_spec(s) {
            Some(t) => if chrono_timestamp_valid(t) {
                Some(t)
            } else {
                None
            },
            None => None,
        },
        None => None,
    }
}

fn parse_opt_u32(h: &Option<String>) -> (r: Option<u32>)
    ensures
        r == header_u32(crate::text::opt_view(*h)),
{
    match h {
        Some(s) => parse_u32(s),
        None => None,
    }
}

/// The rate-limit status of a response, from its `x-ratelimit-remaining`,
/// `x-ratelimit-limit` and `x-ratelimit-reset` headers (as text, when
/// present and readable as text).
pub fn parse_rate_limit(
    remaining: &Option<String>,
    limit: &Option<String>,
    reset: &Option<String>,
) -> (r: RateLimitStatus)
    ensures
        r.remaining == header_u32(crate::text::opt_view(*remaining)),
        r.limit == header_u32(crate::text::opt_view(*limit)),
        r.reset_at == header_reset(crate::text::opt_view(*reset)),
{
    let reset_at = match reset {
        Some(s) => match parse_i64(s) {
            Some(t) => valid_reset(Some(t)),
            None => None,
        },
        None => None,
    };
    RateLimitStatus { remaining: parse_opt_u32(remaining), limit: parse_opt_u32(limit), reset_at }
}

// ---------------------------------------------------------------------------
// Errors
// ---------------------------------------------------------------------------

/// Why a GitHub request failed.
#[derive(Debug, Clone, PartialEq, Eq)]
pub enum Error {
    /// The API refused the request for its rate limit (or a secondary limit).
    RateLimited { reset_at: Option<i64> },
    /// The request itself failed.
    Http(String),
    /// A status that is neither success, "not modified" nor a rate limit.
    UnexpectedStatus { status: u16, body: String },
    /// A file of the cache or of a download could not be written.
    Io { path: String, message: String },
    /// The cache could not be encoded.
    CacheDecode(String),
}

// ---------------------------------------------------------------------------
// Listing releases
// ---------------------------------------------------------------------------

/// What a response to a release listing means.
#[derive(Debug, Clone, Copy, PartialEq, Eq)]
pub enum ListingStatus {
    /// 304: the cached listing is still current.
    NotModified,
    /// 403 or 429: rate limited. Secondary limits answer 403 without
    /// `remaining == 0`, so every such answer counts.
    RateLimited,
    /// Any other status outside 200..=299.
    Unexpected,
    /// A fresh listing in the body.
    Fresh,
}

/// Classifies the status code of a release listing.
pub fn classify_status(status: u16) -> (r: ListingStatus)
    ensures
        r == (if status == 304 {
            ListingStatus::NotModified
        } else if status == 403 || status == 429 {
            ListingStatus::RateLimited
        } else if status < 200 || status > 299 {
            ListingStatus::Unexpected
        } else {
            ListingStatus::Fresh
        }),
{
    if status == 304 {
        ListingStatus::NotModified
    } else if status == 403 || status == 429 {
        ListingStatus::RateLimited
    } else if status < 200 || status > 299 {
        ListingStatus::Unexpected
    } else {
        ListingStatus::Fresh
    }
}

/// The error a rate-limited listing gives.
pub fn rate_limited(rl: &RateLimitStatus) -> (e: Error)
    ensures
        e == (Error::RateLimited { reset_at: rl.reset_at }),
{
    Error::RateLimited { reset_at: rl.reset_at }
}

/// The last listing of one repository, and the ETag it came with.
#[derive(Debug, Clone)]
pub struct CacheEntry {
    pub etag: String,
    pub releases: Vec<Release>,
}

/// Listings by repository slug, persisted so that a cold restart can send
/// `If-None-Match` and reuse the listing on a 304.
#[derive(Debug)]
pub struct EtagCache {
    pub entries: StrMap<CacheEntry>,
}

impl EtagCache {
    /// An empty cache.
    pub fn new() -> (c: Self)
        ensures
            c.entries@ == Map::<Seq<char>, CacheEntry>::empty(),
    {
        EtagCache { entries: StrMap::new() }
    }

    /// The ETag to send when listing `repo`.
    pub fn etag_for(&self, repo: &str) -> (r: Option<String>)
        ensures
            match r {
                Some(e) => self.entries@.contains_key(repo@) && self.entries@[repo@].etag@ == e@,
                None => !self.entries@.contains_key(repo@),
            },
    {
        match self.entries.get(repo) {
            Some(e) => Some(e.etag.clone()),
            None => None,
        }
    }

    /// The cached listing of `repo`; empty when there is none.
    pub fn releases_for(&self, repo: &str) -> (r: Vec<Release>)
        ensures
            releases_view(r@) == (if self.entries@.contains_key(repo@) {
                releases_view(self.entries@[repo@].releases@)
            } else {
                Seq::empty()
            }),
    {
        match self.entries.get(repo) {
            Some(e) => clone_releases(&e.releases),
            None => {
                let v: Vec<Release> = Vec::new();
                assert(releases_view(v@) =~= Seq::empty());
                v
            },
        }
    }

    /// Remembers a fresh listing of `repo` and its ETag.
    pub fn record(&mut self, repo: &str, etag: String, releases: Vec<Release>)
        ensures
            final(self).entries@ == old(self).entries@.insert(
                repo@,
                CacheEntry { etag, releases },
            ),
    {
        self.entries.insert(crate::text::owned(repo), CacheEntry { etag, releases });
    }
}

/// After a listing is recorded, a "not modified" answer for the same
/// repository gives that listing back, and the next request sends its ETag;
/// other repositories are untouched.
pub proof fn law_cache_read_after_record(
    m: Map<Seq<char>, CacheEntry>,
    repo: Seq<char>,
    entry: CacheEntry,
    other: Seq<char>,
)
    requires
        other != repo,
    ensures
        m.insert(repo, entry).contains_key(repo),
        m.insert(repo, entry)[repo].releases == entry.releases,
        m.insert(repo, entry)[repo].etag == entry.etag,
        m.insert(repo, entry).contains_key(other) == m.contains_key(other),
        m.contains_key(other) ==> m.insert(repo, entry)[other] == m[other],
{
}

/// The file a download is written to until it is complete.
pub fn download_temp_path(dest: &str) -> (r: String)
    ensures
        r@ == std_with_extension(dest@, "shipyard-partial"@),
{
    proof {
        reveal_strlit("shipyard-partial");
    }
    with_extension(dest, "shipyard-partial")
}

/// The file the cache is written to before it replaces the cache file.
pub fn cache_temp_path(path: &str) -> (r: String)
    ensures
        r@ == std_with_extension(path@, "json.tmp"@),
{
    proof {
        reveal_strlit("json.tmp");
    }
    with_extension(path, "json.tmp")
}

/// The token to authenticate with: `GITHUB_TOKEN` when set and not empty.
pub fn token_from(value: Option<String>) -> (r: Option<String>)
    ensures
        r == match value {
            Some(v) => if v@.len() > 0 {
                Some(v)
            } else {
                None
            },
            None => None,
        },
{
    match value {
        Some(v) => if crate::text::chars_of(&v).len() > 0 {
            Some(v)
        } else {
            None
        },
        None => None,
    }
}

} // verus!
