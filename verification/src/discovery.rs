//! The community registry: its entries, how old a cached copy may be, and
//! the order in which a fetch tries the cache and the network.
use vstd::prelude::*;
use crate::text::{chars_of, string_of};

verus! {

/// How many seconds a cached registry stays fresh.
pub const CACHE_MAX_AGE_SECS: u64 = 3600;

/// One plugin as the registry describes it.
pub struct CatalogEntry {
    pub id: String,
    pub name: String,
    pub description: String,
    pub author: Option<String>,
    pub version: Option<String>,
    pub category: Option<String>,
    pub tags: Vec<String>,
    pub kind: Option<String>,
}

/// A registry entry: the repository to install from and the plugin it holds.
pub struct Source {
    pub repo: String,
    pub catalog: CatalogEntry,
}

/// Whether a cached registry of the given age (in whole seconds, `None`
/// when the cache or its modification time cannot be read) is fresh.
pub fn cache_is_fresh(age_secs: Option<u64>) -> (fresh: bool)
    ensures
        fresh == (age_secs matches Some(a) && a < CACHE_MAX_AGE_SECS),
{
    match age_secs {
        Some(a) => a < CACHE_MAX_AGE_SECS,
        None => false,
    }
}

/// Why a fetch failed.
pub enum FetchError {
    /// The registry was downloaded but could not be parsed.
    RegistryParse,
}

/// What the caller reports to the fetch, step by step.
pub enum FetchEvent {
    /// A fetch starts.
    Begin { force_refresh: bool, cache_fresh: bool },
    /// The fresh cache was read: its entries, or `None` when it could not be read or parsed.
    FreshCache(Option<Vec<Source>>),
    /// The registry was downloaded: its entries, or `None` when it did not parse.
    Downloaded(Option<Vec<Source>>),
    /// The download failed.
    DownloadFailed,
    /// The cache was read after a failed download: its entries, or `None`.
    StaleCache(Option<Vec<Source>>),
}

/// What the caller does next.
pub enum FetchAction {
    /// Read and parse the cached registry, then report `FreshCache`.
    ReadFreshCache,
    /// Download the registry, then report `Downloaded` or `DownloadFailed`.
    Download,
    /// Read and parse the cached registry, then report `StaleCache`.
    ReadStaleCache,
    /// Write the downloaded text to the cache (ignoring failure) and return these entries.
    StoreAndFinish(Vec<Source>),
    /// Return these entries.
    Finish(Vec<Source>),
    /// Return this error.
    Fail(FetchError),
}

/// One step of a registry fetch. A fresh, readable cache is used unless a
/// refresh is forced; otherwise the registry is downloaded. A download that
/// fails falls back to the cache, stale or not, and to no entries at all
/// when there is nothing cached; only a download that does not parse is an
/// error.
pub fn fetch_step(event: FetchEvent) -> (action: FetchAction)
    ensures
        match event {
            FetchEvent::Begin { force_refresh, cache_fresh } => if !force_refresh && cache_fresh {
                action is ReadFreshCache
            } else {
                action is Download
            },
            FetchEvent::FreshCache(Some(s)) => action == FetchAction::Finish(s),
            FetchEvent::FreshCache(None) => action is Download,
            FetchEvent::Downloaded(Some(s)) => action == FetchAction::StoreAndFinish(s),
            FetchEvent::Downloaded(None) => action == FetchAction::Fail(FetchError::RegistryParse),
            FetchEvent::DownloadFailed => action is ReadStaleCache,
            FetchEvent::StaleCache(Some(s)) => action == FetchAction::Finish(s),
            FetchEvent::StaleCache(None) => action matches FetchAction::Finish(v) && v@.len() == 0,
        },
{
    match event {
        FetchEvent::Begin { force_refresh, cache_fresh } => {
            if !force_refresh && cache_fresh {
                FetchAction::ReadFreshCache
            } else {
                FetchAction::Download
            }
        },
        FetchEvent::FreshCache(Some(s)) => FetchAction::Finish(s),
        FetchEvent::FreshCache(None) => FetchAction::Download,
        FetchEvent::Downloaded(Some(s)) => FetchAction::StoreAndFinish(s),
        FetchEvent::Downloaded(None) => FetchAction::Fail(FetchError::RegistryParse),
        FetchEvent::DownloadFailed => FetchAction::ReadStaleCache,
        FetchEvent::StaleCache(Some(s)) => FetchAction::Finish(s),
        FetchEvent::StaleCache(None) => FetchAction::Finish(Vec::new()),
    }
}


/// Whether a character separates the words of a plugin id.
pub open spec fn is_separator(c: char) -> bool {
    c == '-' || c == '_'
}

/// An ASCII lowercase letter in upper case; any other character unchanged.
pub open spec fn upper(c: char) -> char {
    if 'a' <= c && c <= 'z' {
        ((c as u32) - 32) as char
    } else {
        c
    }
}

/// The character at `i` of the readable form of `id`: separators become
/// spaces, and the first letter of each word is put in upper case.
pub open spec fn readable_char(id: Seq<char>, i: int) -> char {
    if is_separator(id[i]) {
        ' '
    } else if i == 0 || is_separator(id[i - 1]) {
        upper(id[i])
    } else {
        id[i]
    }
}

/// The readable name derived from a plugin id, such as `Proton Mail` from `proton-mail`.
pub open spec fn readable(id: Seq<char>) -> Seq<char> {
    Seq::new(id.len(), |i: int| readable_char(id, i))
}

/// The name an entry is shown under: its registry name, or the readable
/// form of its id when the registry gives no name.
pub open spec fn shown_name(c: CatalogEntry) -> Seq<char> {
    if c.name@.len() == 0 {
        readable(c.id@)
    } else {
        c.name@
    }
}

fn upper_char(c: char) -> (r: char)
    ensures
        r == upper(c),
{
    if 'a' <= c && c <= 'z' {
        let b = c as u8;
        ((b - 32) as u8) as char
    } else {
        c
    }
}

/// The readable name derived from a plugin id.
pub fn readable_name(id: &str) -> (r: String)
    ensures
        r@ == readable(id@),
{
    let cs = chars_of(id);
    let mut out: Vec<char> = Vec::new();
    let mut i: usize = 0;
    while i < cs.len()
        invariant
            cs@ == id@,
            i <= cs.len(),
            out@ == readable(id@).subrange(0, i as int),
        decreases cs.len() - i,
    {
        let c = cs[i];
        let r = if c == '-' || c == '_' {
            ' '
        } else if i == 0 || cs[i - 1] == '-' || cs[i - 1] == '_' {
            upper_char(c)
        } else {
            c
        };
        out.push(r);
        i += 1;
        assert(out@ =~= readable(id@).subrange(0, i as int));
    }
    assert(out@ =~= readable(id@));
    string_of(&out)
}

/// The name an entry is shown under.
pub fn display_name(c: &CatalogEntry) -> (r: String)
    ensures
        r@ == shown_name(*c),
{
    if c.name.as_str().unicode_len() == 0 {
        readable_name(c.id.as_str())
    } else {
        c.name.clone()
    }
}

/// The category an entry is filed under; empty when it has none.
pub open spec fn category_of(s: Source) -> Seq<char> {
    match s.catalog.category {
        Some(c) => c@,
        None => Seq::empty(),
    }
}

/// The address of GitHub repositories.
pub open spec fn github_prefix() -> Seq<char> {
    seq!['h', 't', 't', 'p', 's', ':', '/', '/', 'g', 'i', 't', 'h', 'u', 'b', '.', 'c', 'o', 'm', '/']
}

/// The address of GitHub's repository API.
pub open spec fn api_prefix() -> Seq<char> {
    "https://api.github.com/repos/"@
}

/// A text without one trailing slash.
pub open spec fn without_slash(s: Seq<char>) -> Seq<char> {
    if s.len() > 0 && s.last() == '/' {
        s.drop_last()
    } else {
        s
    }
}

/// A text without a trailing `.git`.
pub open spec fn without_git(s: Seq<char>) -> Seq<char> {
    if s.len() >= 4 && s.subrange(s.len() - 4, s.len() as int) == seq!['.', 'g', 'i', 't'] {
        s.subrange(0, s.len() - 4)
    } else {
        s
    }
}

/// The `owner/name` path of a GitHub repository address, if it is one.
pub open spec fn github_path(repo: Seq<char>) -> Option<Seq<char>> {
    let p = github_prefix();
    if p.len() <= repo.len() && repo.subrange(0, p.len() as int) == p {
        let rest = without_git(without_slash(repo.subrange(p.len() as int, repo.len() as int)));
        if rest.len() > 0 {
            Some(rest)
        } else {
            None
        }
    } else {
        None
    }
}

/// The API address that describes a repository: defined for GitHub repositories only.
pub open spec fn description_address(repo: Seq<char>) -> Option<Seq<char>> {
    match github_path(repo) {
        Some(path) => Some(api_prefix() + path),
        None => None,
    }
}

fn starts_with(s: &Vec<char>, p: &Vec<char>) -> (b: bool)
    ensures
        b == (p@.len() <= s@.len() && s@.subrange(0, p@.len() as int) == p@),
{
    if p.len() > s.len() {
        return false;
    }
    let mut i: usize = 0;
    while i < p.len()
        invariant
            p@.len() <= s@.len(),
            i <= p.len(),
            forall|k: int| 0 <= k < i ==> s@[k] == p@[k],
        decreases p.len() - i,
    {
        if s[i] != p[i] {
            assert(s@.subrange(0, p@.len() as int)[i as int] != p@[i as int]);
            return false;
        }
        i += 1;
    }
    assert(s@.subrange(0, p@.len() as int) =~= p@);
    true
}

fn slice_of(s: &Vec<char>, from: usize, to: usize) -> (r: Vec<char>)
    requires
        from <= to <= s@.len(),
    ensures
        r@ == s@.subrange(from as int, to as int),
{
    let mut r: Vec<char> = Vec::new();
    let mut i = from;
    while i < to
        invariant
            from <= i <= to <= s@.len(),
            r@ == s@.subrange(from as int, i as int),
        decreases to - i,
    {
        r.push(s[i]);
        i += 1;
        assert(r@ =~= s@.subrange(from as int, i as int));
    }
    r
}

/// The API address that describes a repository, for GitHub repositories.
pub fn description_url(repo: &str) -> (r: Option<String>)
    ensures
        match description_address(repo@) {
            Some(a) => r matches Some(u) && u@ == a,
            None => r is None,
        },
{
    let s = chars_of(repo);
    let p: Vec<char> = vec!['h', 't', 't', 'p', 's', ':', '/', '/', 'g', 'i', 't', 'h', 'u', 'b', '.', 'c', 'o', 'm', '/'];
    assert(p@ =~= github_prefix());
    if !starts_with(&s, &p) {
        return None;
    }
    let mut rest = slice_of(&s, p.len(), s.len());
    if rest.len() > 0 && rest[rest.len() - 1] == '/' {
        rest.pop();
        assert(rest@ =~= without_slash(s@.subrange(p@.len() as int, s@.len() as int)));
    }
    let ghost stripped = rest@;
    let n = rest.len();
    if n >= 4 && rest[n - 4] == '.' && rest[n - 3] == 'g' && rest[n - 2] == 'i' && rest[n - 1] == 't' {
        assert(stripped.subrange(n - 4, n as int) =~= seq!['.', 'g', 'i', 't']);
        rest = slice_of(&rest, 0, n - 4);
    } else {
        assert(n >= 4 ==> stripped.subrange(n - 4, n as int)[0] == stripped[n - 4]);
        assert(n >= 4 ==> stripped.subrange(n - 4, n as int)[1] == stripped[n - 3]);
        assert(n >= 4 ==> stripped.subrange(n - 4, n as int)[2] == stripped[n - 2]);
        assert(n >= 4 ==> stripped.subrange(n - 4, n as int)[3] == stripped[n - 1]);
    }
    if rest.len() == 0 {
        return None;
    }
    let path = string_of(&rest);
    let base = "https://api.github.com/repos/".to_string();
    Some(base.concat(path.as_str()))
}

} // verus!
