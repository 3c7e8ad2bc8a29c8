//! The local library of llama.cpp builds: build directories, their names,
//! and the policy of the cached release list.

use vstd::prelude::*;

use crate::github::{backend_label_spec, copy_release, Backend, BuildAsset, Release, ReleaseModel, dir_name_spec};
use crate::paths::{join_path, joined, plain_component, verbatim};
use crate::order::{
    chars_less, lemma_text_less_irreflexive, lemma_text_less_total, lemma_text_less_transitive,
    text_less,
};
use crate::text::{contains, contains_seq, find, from_chars, has_prefix, starts_with, to_chars};

verus! {

/// Progress event shown while a build is downloaded and unpacked.
#[derive(Clone, Copy, Debug, PartialEq, Eq)]
pub enum Progress {
    Downloading { downloaded: u64, total: u64 },
    Extracting,
}

/// A build installed in the local library (a subdirectory of the builds
/// directory).
#[derive(Clone, Debug, PartialEq)]
pub struct InstalledBuild {
    pub dir: String,
    pub tag: String,
    pub backend: Backend,
}

/// Label of an installed build: `<tag> · <backend>`.
pub open spec fn build_label_spec(tag: Seq<char>, backend: Backend) -> Seq<char> {
    tag + " · "@ + backend_label_spec(backend)
}

impl InstalledBuild {
    /// Label of the build: its tag and backend.
    pub fn label(&self) -> (r: String)
        ensures
            r@ == build_label_spec(self.tag@, self.backend),
    {
        let mut out = to_chars(self.tag.as_str());
        crate::text::extend_chars(&mut out, &to_chars(" · "));
        crate::text::extend_chars(&mut out, &to_chars(self.backend.label()));
        from_chars(&out)
    }
}

/// File name of the llama-server executable: with `.exe` on Windows.
pub open spec fn server_exe_spec(windows: bool) -> Seq<char> {
    if windows {
        "llama-server.exe"@
    } else {
        "llama-server"@
    }
}

/// File name of the llama-server executable.
pub fn server_exe_name(windows: bool) -> (r: &'static str)
    ensures
        r@ == server_exe_spec(windows),
{
    if windows {
        "llama-server.exe"
    } else {
        "llama-server"
    }
}

/// Where llama-server may lie in a build directory, in the order to look:
/// directly in `dir`, then one level down in each of `entries` (the paths
/// of the directory's entries, in the order they were listed). The first
/// candidate that is a file is the server binary. Each candidate is the
/// executable's name joined to its directory (see [`joined`]); for Windows
/// verbatim directories (`\\?\...`) the joined form is not described.
pub fn server_binary_candidates(dir: &str, entries: &[String], windows: bool) -> (r: Vec<String>)
    ensures
        r@.len() == entries@.len() + 1,
        !verbatim(dir@) ==> joined(dir@, server_exe_spec(windows), r@[0]@),
        forall|i: int|
            0 <= i < entries@.len() && !verbatim(entries@[i]@) ==> joined(
                entries@[i]@,
                server_exe_spec(windows),
                #[trigger] r@[i + 1]@,
            ),
{
    let exe = server_exe_name(windows);
    proof {
        reveal_strlit("llama-server.exe");
        reveal_strlit("llama-server");
        let unix = seq!['l', 'l', 'a', 'm', 'a', '-', 's', 'e', 'r', 'v', 'e', 'r'];
        let win = unix + seq!['.', 'e', 'x', 'e'];
        assert forall|i: int| 0 <= i < win.len() implies #[trigger] win[i] != '/' && win[i] != '\\'
            && win[i] != ':' by {
            assert(0 <= i < 16);
        }
        assert(forall|i: int| 0 <= i < unix.len() ==> #[trigger] unix[i] == win[i]);
        assert("llama-server"@ =~= unix);
        assert("llama-server.exe"@ =~= win);
    }
    let mut out: Vec<String> = Vec::new();
    out.push(join_path(dir, exe));
    let mut i: usize = 0;
    while i < entries.len()
        invariant
            i <= entries@.len(),
            exe@ == server_exe_spec(windows),
            plain_component(exe@),
            out@.len() == i + 1,
            !verbatim(dir@) ==> joined(dir@, exe@, out@[0]@),
            forall|k: int| 0 <= k < i && !verbatim(entries@[k]@) ==> joined(entries@[k]@, exe@, #[trigger] out@[k + 1]@),
        decreases entries@.len() - i,
    {
        out.push(join_path(entries[i].as_str(), exe));
        i += 1;
    }
    out
}

/// Parse of a build directory name such as `llama-b10635-win-cuda-12.4-x64`:
/// after the `llama-` prefix, the tag runs up to the next `-` and must not
/// be empty; the rest of the name decides the backend (vulkan, else cuda,
/// else CPU). Other names give `None`.
pub open spec fn parse_dir_name_spec(name: Seq<char>) -> Option<(Seq<char>, Backend)> {
    if !has_prefix(name, "llama-"@) {
        None
    } else {
        let rest = name.skip(6);
        if !contains_seq(rest, seq!['-']) {
            None
        } else {
            let dash = choose|i: int|
                crate::text::occurs_at(rest, seq!['-'], i) && forall|j: int|
                    0 <= j < i ==> !crate::text::occurs_at(rest, seq!['-'], j);
            if dash == 0 {
                None
            } else {
                Some(
                    (
                        rest.take(dash),
                        if contains_seq(rest, "vulkan"@) {
                            Backend::Vulkan
                        } else if contains_seq(rest, "cuda"@) {
                            Backend::Cuda
                        } else {
                            Backend::Cpu
                        },
                    ),
                )
            }
        }
    }
}

/// Tag and backend of a build directory name; `None` for other directories.
pub fn parse_dir_name(name: &str) -> (r: Option<(String, Backend)>)
    ensures
        match parse_dir_name_spec(name@) {
            Some((tag, backend)) => r matches Some((t, b)) && t@ == tag && b == backend,
            None => r is None,
        },
{
    let n = to_chars(name);
    let prefix = to_chars("llama-");
    proof {
        reveal_strlit("llama-");
    }
    if !starts_with(&n, &prefix) {
        return None;
    }
    let rest_slice = vstd::slice::slice_subrange(n.as_slice(), 6, n.len());
    assert(rest_slice@ =~= n@.skip(6));
    let mut dash_pat: Vec<char> = Vec::new();
    dash_pat.push('-');
    assert(dash_pat@ =~= seq!['-']);
    let dash = match find(rest_slice, &dash_pat) {
        Some(d) => d,
        None => return None,
    };
    let ghost rest = n@.skip(6);
    proof {
        let chosen = choose|i: int|
            crate::text::occurs_at(rest, seq!['-'], i) && forall|j: int|
                0 <= j < i ==> !crate::text::occurs_at(rest, seq!['-'], j);
        assert(crate::text::occurs_at(rest, seq!['-'], dash as int));
        if chosen < dash {
        } else if chosen > dash {
        }
        assert(chosen == dash);
    }
    if dash == 0 {
        return None;
    }
    let tag = vstd::slice::slice_subrange(rest_slice, 0, dash);
    assert(tag@ =~= rest.take(dash as int));
    let backend = if contains(rest_slice, &to_chars("vulkan")) {
        Backend::Vulkan
    } else if contains(rest_slice, &to_chars("cuda")) {
        Backend::Cuda
    } else {
        Backend::Cpu
    };
    Some((from_chars(tag), backend))
}

/// The local library of builds in the builds directory.
pub struct BuildsStore {
    dir: String,
}

impl View for BuildsStore {
    type V = Seq<char>;

    /// The builds directory.
    closed spec fn view(&self) -> Seq<char> {
        self.dir@
    }
}

impl BuildsStore {
    /// A library in the given directory.
    pub fn new(dir: String) -> (r: Self)
        ensures
            r@ == dir@,
    {
        BuildsStore { dir }
    }

    /// The builds directory.
    pub fn dir(&self) -> (r: &str)
        ensures
            r@ == self@,
    {
        self.dir.as_str()
    }

    /// Directory for the given build (whether or not it is installed): the
    /// build's directory name inside the builds directory (see [`joined`];
    /// not described for a Windows verbatim builds directory).
    pub fn dir_for(&self, asset: &BuildAsset) -> (r: String)
        ensures
            plain_component(dir_name_spec(asset.asset.name@)) && !verbatim(self@) ==> joined(
                self@,
                dir_name_spec(asset.asset.name@),
                r@,
            ),
    {
        let name = asset.dir_name();
        join_path(self.dir.as_str(), name.as_str())
    }
}

// ---------------------------------------------------------------------------
// Installed builds
// ---------------------------------------------------------------------------

pub struct InstalledModel {
    pub dir: Seq<char>,
    pub tag: Seq<char>,
    pub backend: Backend,
}

impl View for InstalledBuild {
    type V = InstalledModel;

    open spec fn view(&self) -> InstalledModel {
        InstalledModel { dir: self.dir@, tag: self.tag@, backend: self.backend }
    }
}

/// Newest first: no build comes before a build whose path is greater.
pub open spec fn sorted_desc(s: Seq<InstalledModel>) -> bool {
    forall|i: int, j: int| 0 <= i < j < s.len() ==> !text_less(#[trigger] s[i].dir, #[trigger] s[j].dir)
}

/// The builds among directory entries, each given as its path and its file
/// name: the entries whose name parses as a build directory, in the order
/// given.
pub open spec fn builds_of(entries: Seq<(Seq<char>, Seq<char>)>) -> Seq<InstalledModel>
    decreases entries.len(),
{
    if entries.len() == 0 {
        seq![]
    } else {
        let before = builds_of(entries.drop_last());
        let (path, name) = entries.last();
        match parse_dir_name_spec(name) {
            Some((tag, backend)) => before.push(InstalledModel { dir: path, tag, backend }),
            None => before,
        }
    }
}

pub open spec fn builds_view(s: Seq<InstalledBuild>) -> Seq<InstalledModel> {
    s.map_values(|b: InstalledBuild| b@)
}

/// Inserts `b` into the newest-first list `out`, before the first build
/// whose path is smaller.
fn insert_sorted(out: &mut Vec<InstalledBuild>, b: InstalledBuild)
    requires
        sorted_desc(builds_view(old(out)@)),
    ensures
        sorted_desc(builds_view(final(out)@)),
        builds_view(final(out)@).to_multiset() == builds_view(old(out)@).to_multiset().insert(b@),
{
    let ghost s = builds_view(out@);
    let key = to_chars(b.dir.as_str());
    let mut p: usize = 0;
    let mut found = false;
    while !found && p < out.len()
        invariant
            p <= out@.len(),
            s == builds_view(out@),
            key@ == b@.dir,
            found ==> p < out@.len() && text_less(s[p as int].dir, b@.dir),
            forall|k: int| 0 <= k < p ==> !text_less(#[trigger] s[k].dir, b@.dir),
        decreases out@.len() - p, if found { 0int } else { 1int },
    {
        if chars_less(&to_chars(out[p].dir.as_str()), &key) {
            found = true;
        } else {
            p += 1;
        }
    }
    let ghost x = b@;
    out.insert(p, b);
    proof {
        let t = builds_view(out@);
        assert(t =~= s.insert(p as int, x));
        vstd::seq_lib::to_multiset_insert(s, p as int, x);
        assert forall|i: int, j: int| 0 <= i < j < t.len() implies !text_less(
            #[trigger] t[i].dir,
            #[trigger] t[j].dir,
        ) by {
            if j < p {
                assert(t[i] == s[i] && t[j] == s[j]);
            } else if j == p {
                assert(t[i] == s[i]);
            } else if i > p {
                assert(t[i] == s[i - 1] && t[j] == s[j - 1]);
            } else if i == p {
                // s[p] < x, and s[j - 1] comes no later than s[p].
                assert(t[j] == s[j - 1]);
                assert(found);
                assert(text_less(s[p as int].dir, x.dir));
                lemma_text_less_total(s[j - 1].dir, s[p as int].dir);
                if text_less(x.dir, s[j - 1].dir) {
                    if text_less(s[j - 1].dir, s[p as int].dir) {
                        lemma_text_less_transitive(x.dir, s[j - 1].dir, s[p as int].dir);
                    } else if j - 1 > p {
                        assert(!text_less(s[p as int].dir, s[j - 1].dir));
                        assert(s[j - 1].dir == s[p as int].dir);
                    }
                    lemma_text_less_transitive(x.dir, s[p as int].dir, x.dir);
                    lemma_text_less_irreflexive(x.dir);
                }
            } else {
                assert(t[i] == s[i] && t[j] == s[j - 1]);
            }
        }
    }
}

impl BuildsStore {
    /// The installed builds among the entries of the builds directory (see
    /// [`builds_of`]; the caller lists the subdirectories whose names are
    /// text), newest first: sorted by path, greatest first.
    pub fn installed(&self, entries: &[(String, String)]) -> (r: Vec<InstalledBuild>)
        ensures
            sorted_desc(builds_view(r@)),
            builds_view(r@).to_multiset() == builds_of(
                entries@.map_values(|e: (String, String)| (e.0@, e.1@)),
            ).to_multiset(),
    {
        let ghost es = entries@.map_values(|e: (String, String)| (e.0@, e.1@));
        let mut out: Vec<InstalledBuild> = Vec::new();
        let mut i: usize = 0;
        assert(es.take(0) =~= Seq::<(Seq<char>, Seq<char>)>::empty());
        assert(builds_view(out@) =~= builds_of(es.take(0)));
        while i < entries.len()
            invariant
                i <= entries@.len(),
                es == entries@.map_values(|e: (String, String)| (e.0@, e.1@)),
                sorted_desc(builds_view(out@)),
                builds_view(out@).to_multiset() == builds_of(es.take(i as int)).to_multiset(),
            decreases entries@.len() - i,
        {
            assert(es.take(i + 1).drop_last() =~= es.take(i as int));
            assert(es.take(i + 1).last() == es[i as int]);
            let (path, name) = &entries[i];
            match parse_dir_name(name.as_str()) {
                Some((tag, backend)) => {
                    let b = InstalledBuild { dir: path.clone(), tag, backend };
                    let ghost prev = builds_of(es.take(i as int));
                    proof {
                        vstd::seq_lib::to_multiset_build(prev, b@);
                    }
                    insert_sorted(&mut out, b);
                },
                None => {},
            }
            i += 1;
        }
        assert(es.take(entries@.len() as int) =~= es);
        out
    }
}

// ---------------------------------------------------------------------------
// Cached release list
// ---------------------------------------------------------------------------

/// Seconds during which a cached release list counts as fresh (a day).
pub const RELEASES_CACHE_AGE_SECS: u64 = 86400;

/// Whether a cached release list fetched at `fetched_at` may be used at
/// `now` without asking the network: never when a refresh is forced or no
/// cache could be read, else when it is less than a day old (a cache from
/// the future counts as fresh).
pub open spec fn cache_fresh_spec(force_refresh: bool, fetched_at: Option<u64>, now: u64) -> bool {
    !force_refresh && match fetched_at {
        Some(t) => (if now >= t {
            now - t
        } else {
            0
        }) < RELEASES_CACHE_AGE_SECS,
        None => false,
    }
}

/// Whether the cached release list can be used without asking the network.
pub fn releases_cache_is_fresh(force_refresh: bool, fetched_at: Option<u64>, now: u64) -> (r: bool)
    ensures
        r == cache_fresh_spec(force_refresh, fetched_at, now),
{
    if force_refresh {
        return false;
    }
    match fetched_at {
        Some(t) => now.saturating_sub(t) < RELEASES_CACHE_AGE_SECS,
        None => false,
    }
}

/// A release list as kept on disk, with the time (Unix seconds) at which it
/// was fetched.
pub struct ReleasesCache {
    pub fetched_at: u64,
    pub releases: Vec<Release>,
}

pub struct ReleasesCacheModel {
    pub fetched_at: u64,
    pub releases: Seq<ReleaseModel>,
}

impl View for ReleasesCache {
    type V = ReleasesCacheModel;

    open spec fn view(&self) -> ReleasesCacheModel {
        ReleasesCacheModel { fetched_at: self.fetched_at, releases: releases_view(self.releases@) }
    }
}

pub open spec fn releases_view(l: Seq<Release>) -> Seq<ReleaseModel> {
    l.map_values(|x: Release| x@)
}

/// What is written to the cache after asking the network at `now`: the
/// fetched list stamped with `now`; nothing when the request failed.
pub open spec fn cache_written_spec(fetched: Option<Seq<ReleaseModel>>, now: u64) -> Option<
    ReleasesCacheModel,
> {
    match fetched {
        Some(list) => Some(ReleasesCacheModel { fetched_at: now, releases: list }),
        None => None,
    }
}

/// The list that a cache read back from disk gives without asking the
/// network: its list when it is fresh (see [`cache_fresh_spec`]), else
/// nothing.
pub open spec fn cached_list_spec(force_refresh: bool, cache: Option<ReleasesCacheModel>, now: u64) -> Option<
    Seq<ReleaseModel>,
> {
    match cache {
        Some(c) => if cache_fresh_spec(force_refresh, Some(c.fetched_at), now) {
            Some(c.releases)
        } else {
            None
        },
        None => None,
    }
}

/// The cache to write after asking the network at `now` (see
/// [`cache_written_spec`]).
pub fn cache_to_write(fetched: &Result<Vec<Release>, String>, now: u64) -> (r: Option<ReleasesCache>)
    ensures
        match r {
            Some(c) => cache_written_spec(
                match fetched {
                    Ok(l) => Some(releases_view(l@)),
                    Err(_) => None,
                },
                now,
            ) == Some(c@),
            None => fetched is Err,
        },
{
    match fetched {
        Ok(list) => {
            let mut copy: Vec<Release> = Vec::new();
            let mut i: usize = 0;
            while i < list.len()
                invariant
                    i <= list@.len(),
                    copy@.len() == i,
                    forall|k: int| 0 <= k < i ==> (#[trigger] copy@[k])@ == list@[k]@,
                decreases list@.len() - i,
            {
                copy.push(copy_release(&list[i]));
                i += 1;
            }
            assert(releases_view(copy@) =~= releases_view(list@));
            Some(ReleasesCache { fetched_at: now, releases: copy })
        },
        Err(_) => None,
    }
}

/// The release list that a cache read from disk gives without asking the
/// network (see [`cached_list_spec`]).
pub fn cached_releases(force_refresh: bool, cache: Option<ReleasesCache>, now: u64) -> (r: Option<
    Vec<Release>,
>)
    ensures
        match r {
            Some(l) => cached_list_spec(force_refresh, opt_cache_view(cache), now) == Some(
                releases_view(l@),
            ),
            None => cached_list_spec(force_refresh, opt_cache_view(cache), now) is None,
        },
{
    match cache {
        Some(c) => if releases_cache_is_fresh(force_refresh, Some(c.fetched_at), now) {
            Some(c.releases)
        } else {
            None
        },
        None => None,
    }
}

pub open spec fn opt_cache_view(c: Option<ReleasesCache>) -> Option<ReleasesCacheModel> {
    match c {
        Some(x) => Some(x@),
        None => None,
    }
}

/// A list fetched at `t` and written to the cache is what an unforced read
/// of that cache gives back at any `now` less than a day after `t`; a
/// forced read, or one a day or more later, gives nothing and asks the
/// network again.
pub proof fn lemma_cache_roundtrip(list: Seq<ReleaseModel>, t: u64, now: u64)
    ensures
        now < t + RELEASES_CACHE_AGE_SECS ==> cached_list_spec(
            false,
            cache_written_spec(Some(list), t),
            now,
        ) == Some(list),
        now >= t + RELEASES_CACHE_AGE_SECS ==> cached_list_spec(
            false,
            cache_written_spec(Some(list), t),
            now,
        ) is None,
        cached_list_spec(true, cache_written_spec(Some(list), t), now) is None,
{
}

/// The release list after asking the network: the fetched list when the
/// request succeeded; otherwise the stale cached list when there is one;
/// otherwise the network error.
pub fn releases_after_fetch(
    fetched: Result<Vec<Release>, String>,
    stale_cache: Option<Vec<Release>>,
) -> (r: Result<Vec<Release>, String>)
    ensures
        match fetched {
            Ok(list) => r == Ok::<Vec<Release>, String>(list),
            Err(e) => match stale_cache {
                Some(cached) => r == Ok::<Vec<Release>, String>(cached),
                None => r == Err::<Vec<Release>, String>(e),
            },
        },
{
    match fetched {
        Ok(list) => Ok(list),
        Err(e) => match stale_cache {
            Some(cached) => Ok(cached),
            None => Err(e),
        },
    }
}

} // verus!
