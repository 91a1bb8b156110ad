//! Game detection: matching running processes against the detectable games
//! database, and the cache of detected games.

use vstd::prelude::*;
use crate::text::{
    chars_eq, chars_of, contains, has_substring, join_from, joined, lowercase_of, replace_all,
    replaced, split, split_on, string_of, string_views, to_lowercase, views_of,
};
use crate::keyed::{
    distinct_keys, keyed_map, lemma_keyed_map_absent, lemma_keyed_map_index,
    lemma_keyed_map_push, lemma_keyed_map_update,
};
use crate::types::{DetectableGame, Executable, Pid, ProcessInfo};

verus! {

// ---------------------------------------------------------------------------
// Platforms
// ---------------------------------------------------------------------------

/// The operating system the server runs on, as far as executable filters go.
#[derive(Debug, Clone, Copy, PartialEq, Eq, Structural)]
pub enum Platform {
    Windows,
    MacOs,
    Linux,
    /// A system with no filter: executables of every OS are considered.
    Other,
}

/// The `os` value of the executables that run on `p`, if `p` filters.
pub open spec fn os_tag(p: Platform) -> Option<Seq<char>> {
    match p {
        Platform::Windows => Some("win32"@),
        Platform::MacOs => Some("darwin"@),
        Platform::Linux => Some("linux"@),
        Platform::Other => None,
    }
}

// ---------------------------------------------------------------------------
// Path variants
// ---------------------------------------------------------------------------

/// The trailing path suffixes of `path`: for `a/b/c`, `c`, then `b/c`
/// (all suffixes made of whole segments, the whole path excepted).
pub open spec fn path_suffixes(path: Seq<char>) -> Seq<Seq<char>> {
    let parts = split_on(path, '/');
    let n = parts.len();
    Seq::new((n - 1) as nat, |k: int| joined(parts.subrange(n - 1 - k, n as int), "/"@))
}

/// The substrings removed from a path suffix to get its 32-bit spellings.
pub open spec fn bitness_marker(t: int) -> Seq<char> {
    if t == 0 {
        "64"@
    } else if t == 1 {
        ".x64"@
    } else if t == 2 {
        "x64"@
    } else {
        "_64"@
    }
}

/// For each suffix in turn, the suffix with each bitness marker removed.
pub open spec fn bitness_variants(base: Seq<Seq<char>>) -> Seq<Seq<char>> {
    Seq::new(
        4 * base.len(),
        |m: int| replaced(base[m / 4], bitness_marker(m % 4), Seq::<char>::empty()),
    )
}

/// The strings an executable name is compared against for `path` (already
/// lower-cased, with `/` separators): its suffixes, then their variants.
pub open spec fn path_variants(path: Seq<char>) -> Seq<Seq<char>> {
    path_suffixes(path) + bitness_variants(path_suffixes(path))
}

fn marker_chars(t: usize) -> (r: Vec<char>)
    requires
        t < 4,
    ensures
        r@ == bitness_marker(t as int),
        r@.len() > 0,
{
    proof {
        reveal_strlit("64");
        reveal_strlit(".x64");
        reveal_strlit("x64");
        reveal_strlit("_64");
    }
    if t == 0 {
        chars_of("64")
    } else if t == 1 {
        chars_of(".x64")
    } else if t == 2 {
        chars_of("x64")
    } else {
        chars_of("_64")
    }
}

/// The path variants of `path`, as character vectors.
pub fn path_variant_chars(path: &Vec<char>) -> (r: Vec<Vec<char>>)
    ensures
        views_of(r@) == path_variants(path@),
{
    let parts = split(path, '/');
    let ghost pv = views_of(parts@);
    let n = parts.len();
    proof {
        crate::text::lemma_split_nonempty(path@, '/');
    }
    let slash = chars_of("/");
    let mut base: Vec<Vec<char>> = Vec::new();
    let mut i: usize = 1;
    while i < n
        invariant
            1 <= i <= n,
            n == parts.len(),
            pv == views_of(parts@),
            pv == split_on(path@, '/'),
            slash@ == "/"@,
            views_of(base@) == path_suffixes(path@).take(i - 1),
        decreases n - i,
    {
        let piece = join_from(&parts, n - i, &slash);
        let ghost before = base@;
        base.push(piece);
        proof {
            crate::text::lemma_views_push(before, piece);
        }
        assert(path_suffixes(path@)[i - 1] == piece@);
        assert(views_of(base@) =~= path_suffixes(path@).take(i as int));
        i += 1;
    }
    let ghost bv = views_of(base@);
    assert(bv =~= path_suffixes(path@));
    let m = base.len();
    let mut out: Vec<Vec<char>> = Vec::new();
    let mut j: usize = 0;
    while j < m
        invariant
            j <= m,
            m == base.len(),
            bv == views_of(base@),
            views_of(out@) == bitness_variants(bv.take(j as int)),
        decreases m - j,
    {
        let ghost before = views_of(out@);
        let empty: Vec<char> = Vec::new();
        let mut t: usize = 0;
        while t < 4
            invariant
                t <= 4,
                j < m,
                m == base.len(),
                bv == views_of(base@),
                views_of(out@).len() == 4 * j + t,
                forall|x: int|
                    0 <= x < 4 * j ==> #[trigger] views_of(out@)[x] == before[x],
                forall|x: int|
                    4 * j <= x < 4 * j + t ==> #[trigger] views_of(out@)[x] == replaced(
                        bv[j as int],
                        bitness_marker(x - 4 * j),
                        Seq::<char>::empty(),
                    ),
                before == bitness_variants(bv.take(j as int)),
                empty@ == Seq::<char>::empty(),
            decreases 4 - t,
        {
            let marker = marker_chars(t);
            let v = replace_all(&base[j], &marker, &empty);
            let ghost prev = out@;
            out.push(v);
            proof {
                crate::text::lemma_views_push(prev, v);
            }
            t += 1;
        }
        let ghost target = bitness_variants(bv.take(j + 1));
        assert forall|x: int| 0 <= x < 4 * (j + 1) implies #[trigger] views_of(out@)[x]
            == target[x] by {
            if x < 4 * j {
                assert(before[x] == bitness_variants(bv.take(j as int))[x]);
                assert(x / 4 < j);
            } else {
                assert(x / 4 == j);
                assert(x % 4 == x - 4 * j);
            }
        }
        assert(views_of(out@) =~= target);
        j += 1;
    }
    assert(bv.take(m as int) =~= bv);
    let mut all: Vec<Vec<char>> = base;
    let ghost head = views_of(all@);
    let mut k: usize = 0;
    while k < out.len()
        invariant
            k <= out.len(),
            head == bv,
            views_of(out@) == bitness_variants(bv),
            views_of(all@) == head + views_of(out@).take(k as int),
        decreases out.len() - k,
    {
        let v = slice_all(&out[k]);
        let ghost prev = all@;
        all.push(v);
        proof {
            crate::text::lemma_views_push(prev, v);
        }
        assert(views_of(all@) =~= head + views_of(out@).take(k + 1));
        k += 1;
    }
    assert(views_of(out@).take(out.len() as int) =~= views_of(out@));
    all
}

fn slice_all(v: &Vec<char>) -> (r: Vec<char>)
    ensures
        r@ == v@,
{
    let r = crate::text::slice_chars(v, 0, v.len());
    assert(v@.subrange(0, v.len() as int) =~= v@);
    r
}

fn strings_of(v: &Vec<Vec<char>>) -> (r: Vec<String>)
    ensures
        string_views(r@) == views_of(v@),
{
    let mut out: Vec<String> = Vec::new();
    let mut i: usize = 0;
    while i < v.len()
        invariant
            i <= v.len(),
            string_views(out@) == views_of(v@).take(i as int),
        decreases v.len() - i,
    {
        let st = string_of(&v[i]);
        let ghost prev = out@;
        out.push(st);
        proof {
            crate::text::lemma_string_views_push(prev, st);
        }
        assert(string_views(out@) =~= views_of(v@).take(i + 1));
        i += 1;
    }
    assert(views_of(v@).take(v.len() as int) =~= views_of(v@));
    out
}

/// Generate the path variants that executable names are matched against
/// (the rules of the detectable games database): the trailing suffixes of `path`, then for each of them
/// its spellings without `64`, `.x64`, `x64` and `_64`.
pub fn generate_path_variants(path: &str) -> (r: Vec<String>)
    ensures
        string_views(r@) == path_variants(path@),
{
    let chars = chars_of(path);
    let v = path_variant_chars(&chars);
    strings_of(&v)
}

// ---------------------------------------------------------------------------
// Executable matching
// ---------------------------------------------------------------------------

/// The character sequence of an optional character vector.
pub open spec fn opt_chars_view(o: Option<Vec<char>>) -> Option<Seq<char>> {
    match o {
        Some(v) => Some(v@),
        None => None,
    }
}

/// The character sequence of an optional string.
pub open spec fn opt_view(o: Option<String>) -> Option<Seq<char>> {
    match o {
        Some(s) => Some(s@),
        None => None,
    }
}

/// The lower-cased executable name `n` matches the path variants
/// `to_compare`: a name starting with `>` must equal the first variant
/// without its `>`; any other name must equal some variant.
pub open spec fn lowered_name_matches(n: Seq<char>, to_compare: Seq<Seq<char>>) -> bool {
    if n.len() > 0 && n[0] == '>' {
        to_compare.len() > 0 && to_compare[0] == n.drop_first()
    } else {
        exists|j: int| 0 <= j < to_compare.len() && to_compare[j] == n
    }
}

/// The executable name `name` matches the path variants `to_compare` once
/// lower-cased.
pub open spec fn name_matches(name: Seq<char>, to_compare: Seq<Seq<char>>) -> bool {
    lowered_name_matches(lowercase_of(name), to_compare)
}

/// The executable's OS fits the platform: platforms without a filter take
/// every executable; the others take executables without an `os` and those
/// whose `os` is theirs.
pub open spec fn os_allows(os: Option<String>, p: Platform) -> bool {
    match os_tag(p) {
        None => true,
        Some(tag) => match os {
            None => true,
            Some(o) => o@ == tag,
        },
    }
}

/// The process arguments fit the executable: required arguments must occur
/// in the process's argument string.
pub open spec fn args_allow(required: Option<String>, args: Option<Seq<char>>) -> bool {
    match required {
        None => true,
        Some(req) => match args {
            Some(a) => has_substring(a, req@),
            None => false,
        },
    }
}

/// The executable entry matches the process.
pub open spec fn executable_matches(
    exe: Executable,
    to_compare: Seq<Seq<char>>,
    args: Option<Seq<char>>,
    p: Platform,
) -> bool {
    &&& !exe.is_launcher
    &&& os_allows(exe.os, p)
    &&& name_matches(exe.name@, to_compare)
    &&& args_allow(exe.arguments, args)
}

/// Some executable entry of the list matches the process.
pub open spec fn some_executable_matches(
    exes: Seq<Executable>,
    to_compare: Seq<Seq<char>>,
    args: Option<Seq<char>>,
    p: Platform,
) -> bool {
    exists|i: int| 0 <= i < exes.len() && executable_matches(exes[i], to_compare, args, p)
}

/// The OS filter of each platform accepts exactly the database's name for
/// that platform ("win32", "darwin", "linux") among the executables that
/// name an OS; executables naming no OS pass everywhere, and a platform
/// without a filter takes every executable.
pub proof fn law_os_filter(os: String, p: Platform)
    ensures
        os@ == "win32"@ ==> os_allows(Some(os), Platform::Windows),
        os@ == "darwin"@ ==> os_allows(Some(os), Platform::MacOs),
        os@ == "linux"@ ==> os_allows(Some(os), Platform::Linux),
        os_allows(Some(os), Platform::Windows) ==> os@ == "win32"@,
        os_allows(Some(os), Platform::MacOs) ==> os@ == "darwin"@,
        os_allows(Some(os), Platform::Linux) ==> os@ == "linux"@,
        os_allows(Some(os), Platform::Other),
        os_allows(None, p),
{
}

/// On Linux, an executable entry for "linux" that is no launcher, whose
/// name matches and whose required arguments are present, matches the
/// process.
pub proof fn law_linux_executable_matches(
    exe: Executable,
    to_compare: Seq<Seq<char>>,
    args: Option<Seq<char>>,
)
    requires
        !exe.is_launcher,
        exe.os matches Some(o) && o@ == "linux"@,
        name_matches(exe.name@, to_compare),
        args_allow(exe.arguments, args),
    ensures
        executable_matches(exe, to_compare, args, Platform::Linux),
{
}

fn os_tag_chars(p: Platform) -> (r: Option<Vec<char>>)
    ensures
        match os_tag(p) {
            Some(t) => r matches Some(v) && v@ == t,
            None => r is None,
        },
{
    match p {
        Platform::Windows => Some(chars_of("win32")),
        Platform::MacOs => Some(chars_of("darwin")),
        Platform::Linux => Some(chars_of("linux")),
        Platform::Other => None,
    }
}

fn opt_chars(o: &Option<String>) -> (r: Option<Vec<char>>)
    ensures
        match r {
            Some(v) => opt_view(*o) == Some(v@),
            None => opt_view(*o) is None,
        },
{
    match o {
        Some(s) => Some(chars_of(s.as_str())),
        None => None,
    }
}

fn lowered_matches_chars(n: &Vec<char>, to_compare: &Vec<Vec<char>>) -> (r: bool)
    ensures
        r == lowered_name_matches(n@, views_of(to_compare@)),
{
    let tc = Ghost(views_of(to_compare@));
    if n.len() > 0 && n[0] == '>' {
        let target = crate::text::slice_chars(n, 1, n.len());
        assert(target@ =~= n@.drop_first());
        to_compare.len() > 0 && chars_eq(&to_compare[0], &target)
    } else {
        let mut j: usize = 0;
        while j < to_compare.len()
            invariant
                j <= to_compare.len(),
                tc@ == views_of(to_compare@),
                !(n@.len() > 0 && n@[0] == '>'),
                forall|k: int| 0 <= k < j ==> tc@[k] != n@,
            decreases to_compare.len() - j,
        {
            if chars_eq(&to_compare[j], n) {
                assert(0 <= j < views_of(to_compare@).len() && views_of(to_compare@)[j as int]
                    == n@);
                return true;
            }
            j += 1;
        }
        false
    }
}

/// The name rule applied to an executable name that is already
/// lower-cased: a name starting with `>` must equal the first path variant
/// without its `>`; any other name must equal one of the variants.
pub fn lowered_name_matches_variants(lowered: &str, to_compare: &[String]) -> (r: bool)
    ensures
        r == lowered_name_matches(lowered@, string_views(to_compare@)),
{
    let n = chars_of(lowered);
    let tc = vec_of_strings(to_compare);
    lowered_matches_chars(&n, &tc)
}

fn name_matches_exec(name: &String, to_compare: &Vec<Vec<char>>) -> (r: bool)
    ensures
        r == name_matches(name@, views_of(to_compare@)),
{
    let lower = to_lowercase(name.as_str());
    let n = chars_of(lower.as_str());
    lowered_matches_chars(&n, to_compare)
}

fn executable_matches_exec(
    exe: &Executable,
    to_compare: &Vec<Vec<char>>,
    args: &Option<Vec<char>>,
    p: Platform,
) -> (r: bool)
    ensures
        r == executable_matches(
            *exe,
            views_of(to_compare@),
            opt_chars_view(*args),
            p,
        ),
{
    if exe.is_launcher {
        return false;
    }
    match os_tag_chars(p) {
        Some(tag) => match &exe.os {
            Some(os) => {
                let o = chars_of(os.as_str());
                if !chars_eq(&o, &tag) {
                    return false;
                }
            },
            None => {},
        },
        None => {},
    }
    if !name_matches_exec(&exe.name, to_compare) {
        return false;
    }
    match &exe.arguments {
        Some(req) => match args {
            Some(a) => {
                let r = chars_of(req.as_str());
                contains(a, &r)
            },
            None => false,
        },
        None => true,
    }
}

fn any_executable_matches(
    exes: &[Executable],
    to_compare: &Vec<Vec<char>>,
    args: &Option<Vec<char>>,
    p: Platform,
) -> (r: bool)
    ensures
        r == some_executable_matches(
            exes@,
            views_of(to_compare@),
            opt_chars_view(*args),
            p,
        ),
{
    let ghost av = opt_chars_view(*args);
    let mut i: usize = 0;
    while i < exes.len()
        invariant
            i <= exes.len(),
            av == opt_chars_view(*args),
            forall|k: int|
                0 <= k < i ==> !executable_matches(#[trigger] exes@[k], views_of(to_compare@), av, p),
        decreases exes.len() - i,
    {
        if executable_matches_exec(&exes[i], to_compare, args, p) {
            return true;
        }
        i += 1;
    }
    false
}

fn vec_of_strings(v: &[String]) -> (r: Vec<Vec<char>>)
    ensures
        views_of(r@) == string_views(v@),
{
    let mut out: Vec<Vec<char>> = Vec::new();
    let mut i: usize = 0;
    while i < v.len()
        invariant
            i <= v.len(),
            views_of(out@) == string_views(v@).take(i as int),
        decreases v.len() - i,
    {
        let c = chars_of(v[i].as_str());
        let ghost prev = out@;
        out.push(c);
        proof {
            crate::text::lemma_views_push(prev, c);
        }
        assert(views_of(out@) =~= string_views(v@).take(i + 1));
        i += 1;
    }
    assert(string_views(v@).take(v.len() as int) =~= string_views(v@));
    out
}

/// Match executables against path variants: `Some(())` when an entry that
/// is not a launcher, fits the platform, has a matching name and finds its
/// required arguments in `args` exists.
pub fn match_executables(
    executables: &[Executable],
    to_compare: &[String],
    args: &Option<String>,
    platform: Platform,
) -> (r: Option<()>)
    ensures
        r is Some <==> some_executable_matches(
            executables@,
            string_views(to_compare@),
            opt_view(*args),
            platform,
        ),
{
    let tc = vec_of_strings(to_compare);
    let a = opt_chars(args);
    if any_executable_matches(executables, &tc, &a, platform) {
        Some(())
    } else {
        None
    }
}

// ---------------------------------------------------------------------------
// Scanning
// ---------------------------------------------------------------------------

/// Detected game info.
#[derive(Debug, Clone)]
pub struct DetectedGame {
    pub id: String,
    pub name: String,
    pub pid: Pid,
    pub start_time: i64,
}

/// The model of a detected game: id, name, process and start time.
pub open spec fn detected_view(g: DetectedGame) -> (Seq<char>, Seq<char>, Pid, i64) {
    (g.id@, g.name@, g.pid, g.start_time)
}

/// The path of a process as it is matched: lower-cased, with `/` separators.
pub open spec fn normalized_path(p: ProcessInfo) -> Seq<char> {
    replaced(lowercase_of(p.path@), "\\"@, "/"@)
}

/// The game's executables match the process.
pub open spec fn game_matches(game: DetectableGame, proc: ProcessInfo, plat: Platform) -> bool {
    some_executable_matches(
        game.executables@,
        path_variants(normalized_path(proc)),
        opt_view(proc.args),
        plat,
    )
}

/// `g` is the first game of the database that matches the process.
pub open spec fn is_first_game(
    db: Seq<DetectableGame>,
    proc: ProcessInfo,
    plat: Platform,
    g: int,
) -> bool {
    &&& 0 <= g < db.len()
    &&& game_matches(db[g], proc, plat)
    &&& forall|h: int| 0 <= h < g ==> !game_matches(#[trigger] db[h], proc, plat)
}

/// The first game of the database that matches the process, if any.
pub open spec fn first_game(db: Seq<DetectableGame>, proc: ProcessInfo, plat: Platform) -> Option<
    int,
> {
    if exists|g: int| is_first_game(db, proc, plat, g) {
        Some(choose|g: int| is_first_game(db, proc, plat, g))
    } else {
        None
    }
}

/// For each process in turn that some game matches: the first such game's
/// id and name, and the process id.
pub open spec fn scan_hits(
    db: Seq<DetectableGame>,
    procs: Seq<ProcessInfo>,
    plat: Platform,
) -> Seq<(Seq<char>, Seq<char>, Pid)>
    decreases procs.len(),
{
    if procs.len() == 0 {
        Seq::empty()
    } else {
        let init = scan_hits(db, procs.drop_last(), plat);
        match first_game(db, procs.last(), plat) {
            Some(g) => init.push((db[g].id@, db[g].name@, procs.last().pid)),
            None => init,
        }
    }
}

/// The cache's model: app id to start time, name and last process id.
pub type CacheModel = Map<Seq<char>, (i64, Seq<char>, Pid)>;

/// The start time of a game: kept from the cache, or `now` for a game the
/// cache does not hold.
pub open spec fn start_of(old: CacheModel, id: Seq<char>, now: i64) -> i64 {
    if old.contains_key(id) {
        old[id].0
    } else {
        now
    }
}

/// The detected games reported for the hits of a scan.
pub open spec fn detected_model(
    old: CacheModel,
    hits: Seq<(Seq<char>, Seq<char>, Pid)>,
    now: i64,
) -> Seq<(Seq<char>, Seq<char>, Pid, i64)> {
    hits.map_values(|h: (Seq<char>, Seq<char>, Pid)| (h.0, h.1, h.2, start_of(old, h.0, now)))
}

/// The cache after a scan with these hits: exactly the games hit, each
/// with its start time, and the name and process id of its last hit.
pub open spec fn cache_after(
    old: CacheModel,
    hits: Seq<(Seq<char>, Seq<char>, Pid)>,
    now: i64,
) -> CacheModel
    decreases hits.len(),
{
    if hits.len() == 0 {
        Map::empty()
    } else {
        let h = hits.last();
        cache_after(old, hits.drop_last(), now).insert(h.0, (start_of(old, h.0, now), h.1, h.2))
    }
}

proof fn lemma_cache_after_start(
    old: CacheModel,
    hits: Seq<(Seq<char>, Seq<char>, Pid)>,
    now: i64,
    k: Seq<char>,
)
    requires
        cache_after(old, hits, now).contains_key(k),
    ensures
        cache_after(old, hits, now)[k].0 == start_of(old, k, now),
    decreases hits.len(),
{
    if hits.len() > 0 && hits.last().0 != k {
        lemma_cache_after_start(old, hits.drop_last(), now, k);
    }
}

/// A game that keeps running keeps its start time: when the cache before a
/// scan holds a game that the scan finds again, the detected game and the
/// new cache carry the old start time. A game found for the first time
/// starts at the scan's time.
pub proof fn law_running_game_keeps_start(
    old: CacheModel,
    hits: Seq<(Seq<char>, Seq<char>, Pid)>,
    now: i64,
    i: int,
)
    requires
        0 <= i < hits.len(),
    ensures
        old.contains_key(hits[i].0) ==> detected_model(old, hits, now)[i].3 == old[hits[i].0].0,
        old.contains_key(hits[i].0) ==> cache_after(old, hits, now)[hits[i].0].0
            == old[hits[i].0].0,
        !old.contains_key(hits[i].0) ==> detected_model(old, hits, now)[i].3 == now,
        cache_after(old, hits, now).contains_key(hits[i].0),
{
    lemma_cache_after_has(old, hits, now, hits[i].0);
    lemma_cache_after_start(old, hits, now, hits[i].0);
}

/// The cache after a scan holds exactly the games found: a game that is no
/// longer running is dropped.
pub proof fn law_cache_holds_found_games(
    old: CacheModel,
    hits: Seq<(Seq<char>, Seq<char>, Pid)>,
    now: i64,
    id: Seq<char>,
)
    ensures
        cache_after(old, hits, now).contains_key(id) <==> exists|i: int|
            0 <= i < hits.len() && hits[i].0 == id,
{
    if exists|i: int| 0 <= i < hits.len() && hits[i].0 == id {
        lemma_cache_after_has(old, hits, now, id);
    } else {
        lemma_cache_after_lacks(old, hits, now, id);
    }
}

proof fn lemma_cache_after_has(
    old: CacheModel,
    hits: Seq<(Seq<char>, Seq<char>, Pid)>,
    now: i64,
    id: Seq<char>,
)
    requires
        exists|i: int| 0 <= i < hits.len() && hits[i].0 == id,
    ensures
        cache_after(old, hits, now).contains_key(id),
    decreases hits.len(),
{
    if hits.last().0 != id {
        let i = choose|i: int| 0 <= i < hits.len() && hits[i].0 == id;
        assert(hits.drop_last()[i].0 == id);
        lemma_cache_after_has(old, hits.drop_last(), now, id);
    }
}

proof fn lemma_cache_after_lacks(
    old: CacheModel,
    hits: Seq<(Seq<char>, Seq<char>, Pid)>,
    now: i64,
    id: Seq<char>,
)
    requires
        forall|i: int| 0 <= i < hits.len() ==> hits[i].0 != id,
    ensures
        !cache_after(old, hits, now).contains_key(id),
    decreases hits.len(),
{
    if hits.len() > 0 {
        assert forall|i: int| 0 <= i < hits.len() - 1 implies hits.drop_last()[i].0 != id by {
            assert(hits.drop_last()[i] == hits[i]);
        }
        lemma_cache_after_lacks(old, hits.drop_last(), now, id);
    }
}

/// The record of last process ids after a scan with these hits: each game
/// hit takes the process id of its last hit; a game not hit keeps what the
/// record held, so a game that stopped keeps its last process id.
pub open spec fn pids_after(old: Map<Seq<char>, Pid>, hits: Seq<(Seq<char>, Seq<char>, Pid)>) -> Map<
    Seq<char>,
    Pid,
>
    decreases hits.len(),
{
    if hits.len() == 0 {
        old
    } else {
        pids_after(old, hits.drop_last()).insert(hits.last().0, hits.last().2)
    }
}

/// A game that a scan does not find keeps the process id recorded before
/// the scan: the record of a stopped game is not cleared.
pub proof fn law_stopped_game_keeps_pid(
    old: Map<Seq<char>, Pid>,
    hits: Seq<(Seq<char>, Seq<char>, Pid)>,
    id: Seq<char>,
)
    requires
        forall|i: int| 0 <= i < hits.len() ==> hits[i].0 != id,
    ensures
        pids_after(old, hits).contains_key(id) == old.contains_key(id),
        old.contains_key(id) ==> pids_after(old, hits)[id] == old[id],
    decreases hits.len(),
{
    if hits.len() > 0 {
        assert forall|i: int| 0 <= i < hits.len() - 1 implies hits.drop_last()[i].0 != id by {
            assert(hits.drop_last()[i] == hits[i]);
        }
        law_stopped_game_keeps_pid(old, hits.drop_last(), id);
    }
}

/// A game found by a scan is recorded with the process id of its last hit.
pub proof fn law_found_game_records_pid(
    old: Map<Seq<char>, Pid>,
    hits: Seq<(Seq<char>, Seq<char>, Pid)>,
    i: int,
)
    requires
        0 <= i < hits.len(),
        forall|j: int| i < j < hits.len() ==> hits[j].0 != hits[i].0,
    ensures
        pids_after(old, hits).contains_key(hits[i].0),
        pids_after(old, hits)[hits[i].0] == hits[i].2,
    decreases hits.len(),
{
    if i < hits.len() - 1 {
        let init = hits.drop_last();
        assert forall|j: int| i < j < init.len() implies init[j].0 != init[i].0 by {
            assert(init[j] == hits[j]);
        }
        law_found_game_records_pid(old, init, i);
        assert(init[i] == hits[i]);
    }
}

/// The shape of the path variants: a path of `n` segments has `n - 1`
/// suffixes and four variants of each, and the first variant is the file
/// name (the last segment).
pub proof fn law_path_variant_shape(path: Seq<char>)
    ensures
        path_variants(path).len() == 5 * (split_on(path, '/').len() - 1),
        split_on(path, '/').len() >= 2 ==> path_variants(path)[0] == split_on(path, '/').last(),
{
    crate::text::lemma_split_nonempty(path, '/');
    let parts = split_on(path, '/');
    let n = parts.len();
    if n >= 2 {
        assert(parts.subrange(n - 1, n as int).len() == 1);
        assert(parts.subrange(n - 1, n as int)[0] == parts.last());
    }
}

/// An entry of the cache of detected games.
#[derive(Debug)]
pub struct CachedGame {
    pub app_id: String,
    pub name: String,
    pub pid: Pid,
    pub start_time: i64,
}

/// The argument text of a process: its arguments joined with single
/// spaces, none when that text is empty.
pub open spec fn args_text(args: Seq<Seq<char>>) -> Option<Seq<char>> {
    let text = joined(args, " "@);
    if text.len() == 0 {
        None
    } else {
        Some(text)
    }
}

/// The path under which a process is matched on Unix: its first
/// command-line word when that is not empty, else its executable, if known.
pub fn unix_process_path(argv0: Option<String>, exe: Option<String>) -> (r: Option<String>)
    ensures
        r == (if argv0 is Some && argv0.unwrap()@.len() > 0 {
            argv0
        } else {
            exe
        }),
{
    match argv0 {
        Some(first) => {
            let c = chars_of(first.as_str());
            if c.len() > 0 {
                Some(first)
            } else {
                exe
            }
        },
        None => exe,
    }
}

/// Describe a running process for matching: its id, its path and its
/// arguments, joined with single spaces (none when there are none).
pub fn process_info(pid: Pid, path: String, args: &Vec<String>) -> (r: ProcessInfo)
    ensures
        r.pid == pid,
        r.path == path,
        opt_view(r.args) == args_text(string_views(args@)),
{
    let parts = vec_of_strings(args.as_slice());
    let sep = chars_of(" ");
    let text = join_from(&parts, 0, &sep);
    assert(views_of(parts@).subrange(0, parts@.len() as int) =~= views_of(parts@));
    let args = if text.len() == 0 {
        None
    } else {
        Some(string_of(&text))
    };
    ProcessInfo { pid, path, args }
}

/// The key/value pairs of cache entries.
pub open spec fn cache_pairs(es: Seq<CachedGame>) -> Seq<(Seq<char>, (i64, Seq<char>, Pid))> {
    es.map_values(|e: CachedGame| (e.app_id@, (e.start_time, e.name@, e.pid)))
}

/// The key/value pairs of the process id record.
pub open spec fn pid_pairs(es: Seq<(String, Pid)>) -> Seq<(Seq<char>, Pid)> {
    es.map_values(|e: (String, Pid)| (e.0@, e.1))
}

/// Cache for detected games: app id to start timestamp, game name and
/// process id, for the games found running by the last scan; and the last
/// process id of every game found so far, running or stopped.
#[derive(Debug)]
pub struct ProcessCache {
    games: Vec<CachedGame>,
    pids: Vec<(String, Pid)>,
}

fn find_pid(entries: &Vec<(String, Pid)>, id: &String) -> (r: Option<usize>)
    ensures
        match r {
            Some(j) => j < entries@.len() && entries@[j as int].0@ == id@,
            None => forall|m: int| 0 <= m < entries@.len() ==> entries@[m].0@ != id@,
        },
{
    let mut j: usize = 0;
    while j < entries.len()
        invariant
            j <= entries@.len(),
            forall|m: int| 0 <= m < j ==> entries@[m].0@ != id@,
        decreases entries@.len() - j,
    {
        if entries[j].0 == *id {
            return Some(j);
        }
        j += 1;
    }
    None
}

fn find_entry(entries: &Vec<CachedGame>, id: &String) -> (r: Option<usize>)
    ensures
        match r {
            Some(j) => j < entries@.len() && entries@[j as int].app_id@ == id@,
            None => forall|m: int| 0 <= m < entries@.len() ==> entries@[m].app_id@ != id@,
        },
{
    let mut j: usize = 0;
    while j < entries.len()
        invariant
            j <= entries@.len(),
            forall|m: int| 0 <= m < j ==> entries@[m].app_id@ != id@,
        decreases entries@.len() - j,
    {
        if entries[j].app_id == *id {
            return Some(j);
        }
        j += 1;
    }
    None
}

proof fn lemma_first_game_unique(db: Seq<DetectableGame>, proc: ProcessInfo, plat: Platform, g: int)
    requires
        is_first_game(db, proc, plat, g),
    ensures
        first_game(db, proc, plat) == Some(g),
{
    let c = choose|x: int| is_first_game(db, proc, plat, x);
    assert(is_first_game(db, proc, plat, c));
    if c < g {
        assert(!game_matches(db[c], proc, plat));
    } else if c > g {
        assert(!game_matches(db[g], proc, plat));
    }
}

proof fn lemma_first_game_none(db: Seq<DetectableGame>, proc: ProcessInfo, plat: Platform)
    requires
        forall|h: int| 0 <= h < db.len() ==> !game_matches(#[trigger] db[h], proc, plat),
    ensures
        first_game(db, proc, plat) is None,
{
    if exists|x: int| is_first_game(db, proc, plat, x) {
        let c = choose|x: int| is_first_game(db, proc, plat, x);
        assert(game_matches(db[c], proc, plat));
    }
}

/// The models of a sequence of detected games.
pub open spec fn detected_views(v: Seq<DetectedGame>) -> Seq<(Seq<char>, Seq<char>, Pid, i64)> {
    v.map_values(|g: DetectedGame| detected_view(g))
}

impl ProcessCache {
    #[verifier::type_invariant]
    spec fn well_formed(self) -> bool {
        &&& distinct_keys(cache_pairs(self.games@))
        &&& distinct_keys(pid_pairs(self.pids@))
    }

    /// The last process id recorded for each game found so far.
    pub closed spec fn last_pids(self) -> Map<Seq<char>, Pid> {
        keyed_map(pid_pairs(self.pids@))
    }

    /// An empty cache.
    pub fn new() -> (r: Self)
        ensures
            r@ == Map::<Seq<char>, (i64, Seq<char>, Pid)>::empty(),
            r.last_pids() == Map::<Seq<char>, Pid>::empty(),
    {
        let r = ProcessCache { games: Vec::new(), pids: Vec::new() };
        assert(cache_pairs(r.games@) =~= Seq::empty());
        assert(pid_pairs(r.pids@) =~= Seq::empty());
        r
    }

    /// Record `pid` as the last process id of game `id`.
    fn record_pid(&mut self, id: &String, pid: Pid)
        ensures
            final(self)@ == old(self)@,
            final(self).last_pids() == old(self).last_pids().insert(id@, pid),
    {
        proof {
            use_type_invariant(&*self);
        }
        let ghost ps = pid_pairs(self.pids@);
        let mut pids: Vec<(String, Pid)> = Vec::new();
        std::mem::swap(&mut pids, &mut self.pids);
        assert(pid_pairs(pids@) == ps);
        match find_pid(&pids, id) {
            Some(j) => {
                proof {
                    lemma_keyed_map_update(ps, j as int, pid);
                }
                let key = pids[j].0.clone();
                pids.set(j, (key, pid));
                assert(pid_pairs(pids@) =~= ps.update(j as int, (ps[j as int].0, pid)));
                assert forall|a: int, b: int|
                    0 <= a < b < pids@.len() implies pid_pairs(pids@)[a].0 != pid_pairs(pids@)[b].0 by {
                    assert(pid_pairs(pids@)[a].0 == ps[a].0);
                    assert(pid_pairs(pids@)[b].0 == ps[b].0);
                }
            },
            None => {
                proof {
                    lemma_keyed_map_push(ps, (id@, pid));
                }
                pids.push((id.clone(), pid));
                assert(pid_pairs(pids@) =~= ps.push((id@, pid)));
                assert forall|a: int, b: int|
                    0 <= a < b < pids@.len() implies pid_pairs(pids@)[a].0 != pid_pairs(pids@)[b].0 by {
                    if b < ps.len() {
                        assert(pid_pairs(pids@)[a].0 == ps[a].0);
                        assert(pid_pairs(pids@)[b].0 == ps[b].0);
                    } else {
                        assert(pid_pairs(pids@)[a].0 == pids@[a].0@);
                    }
                }
            },
        }
        self.pids = pids;
    }

    /// Replace the games found running, keeping the process id record.
    fn replace_games(&mut self, games: Vec<CachedGame>)
        requires
            distinct_keys(cache_pairs(games@)),
        ensures
            final(self)@ == keyed_map(cache_pairs(games@)),
            final(self).last_pids() == old(self).last_pids(),
    {
        proof {
            use_type_invariant(&*self);
        }
        self.games = games;
    }

    fn find(&self, id: &String) -> (r: Option<usize>)
        ensures
            match r {
                Some(j) => j < self.games@.len() && self.games@[j as int].app_id@ == id@
                    && self@.contains_key(id@) && self@[id@] == (
                    self.games@[j as int].start_time,
                    self.games@[j as int].name@,
                    self.games@[j as int].pid,
                ),
                None => !self@.contains_key(id@),
            },
    {
        proof {
            use_type_invariant(self);
        }
        let ghost ps = cache_pairs(self.games@);
        let r = find_entry(&self.games, id);
        proof {
            match r {
                Some(j) => lemma_keyed_map_index(ps, j as int),
                None => {
                    assert forall|m: int| 0 <= m < ps.len() implies ps[m].0 != id@ by {
                        assert(ps[m].0 == self.games@[m].app_id@);
                    }
                    lemma_keyed_map_absent(ps, id@);
                },
            }
        }
        r
    }

    /// The start time recorded for a game.
    pub fn start_time(&self, app_id: &String) -> (r: Option<i64>)
        ensures
            r == (if self@.contains_key(app_id@) {
                Some(self@[app_id@].0)
            } else {
                None
            }),
    {
        match self.find(app_id) {
            Some(j) => Some(self.games[j].start_time),
            None => None,
        }
    }

    /// The last process id recorded for a game, running or stopped.
    pub fn last_pid(&self, app_id: &String) -> (r: Option<Pid>)
        ensures
            r == (if self.last_pids().contains_key(app_id@) {
                Some(self.last_pids()[app_id@])
            } else {
                None
            }),
    {
        proof {
            use_type_invariant(self);
        }
        let ghost ps = pid_pairs(self.pids@);
        match find_pid(&self.pids, app_id) {
            Some(j) => {
                proof {
                    lemma_keyed_map_index(ps, j as int);
                }
                Some(self.pids[j].1)
            },
            None => {
                proof {
                    assert forall|m: int| 0 <= m < ps.len() implies ps[m].0 != app_id@ by {
                        assert(ps[m].0 == self.pids@[m].0@);
                    }
                    lemma_keyed_map_absent(ps, app_id@);
                }
                None
            },
        }
    }

    /// The number of games in the cache.
    pub fn len(&self) -> (r: usize)
        ensures
            r == self@.len(),
    {
        proof {
            use_type_invariant(self);
            lemma_distinct_len(cache_pairs(self.games@));
        }
        self.games.len()
    }
}

impl View for ProcessCache {
    type V = CacheModel;

    closed spec fn view(&self) -> CacheModel {
        keyed_map(cache_pairs(self.games@))
    }
}

proof fn lemma_distinct_len<V>(ps: Seq<(Seq<char>, V)>)
    requires
        distinct_keys(ps),
    ensures
        keyed_map(ps).len() == ps.len(),
        keyed_map(ps).dom().finite(),
    decreases ps.len(),
{
    if ps.len() > 0 {
        let init = ps.drop_last();
        assert(distinct_keys(init));
        lemma_distinct_len(init);
        assert forall|i: int| 0 <= i < init.len() implies init[i].0 != ps.last().0 by {
            assert(init[i] == ps[i]);
        }
        lemma_keyed_map_absent(init, ps.last().0);
    }
}

/// Process scanner for game detection: the detectable games database, the
/// cache of detected games and the time of the last database update.
#[derive(Debug)]
pub struct ProcessScanner {
    /// Detectable games database.
    pub database: Vec<DetectableGame>,
    /// Detected games.
    pub cache: ProcessCache,
    /// Monotonic time (in nanoseconds) of the last database update.
    pub last_db_update: Option<u64>,
    /// Database URL.
    pub db_url: String,
}

/// How long a database is used before it is fetched again: one hour.
pub const DB_REFRESH_NANOS: u64 = 3_600_000_000_000;

impl ProcessScanner {
    /// A scanner with an empty database and cache.
    pub fn new(db_url: String) -> (r: Self)
        ensures
            r.database@.len() == 0,
            r.cache@ == Map::<Seq<char>, (i64, Seq<char>, Pid)>::empty(),
            r.cache.last_pids() == Map::<Seq<char>, Pid>::empty(),
            r.last_db_update is None,
            r.db_url == db_url,
    {
        ProcessScanner {
            database: Vec::new(),
            cache: ProcessCache::new(),
            last_db_update: None,
            db_url,
        }
    }

    /// Install a freshly fetched database, fetched at monotonic time `now`.
    pub fn set_database(&mut self, games: Vec<DetectableGame>, now: u64)
        ensures
            final(self).database == games,
            final(self).last_db_update == Some(now),
            final(self).cache == old(self).cache,
            final(self).db_url == old(self).db_url,
    {
        self.database = games;
        self.last_db_update = Some(now);
    }

    /// Whether the database is due to be fetched again at monotonic time
    /// `now`: it was fetched once, more than an hour ago. A scanner whose
    /// database was never fetched does not fetch it while scanning.
    pub fn refresh_due(&self, now: u64) -> (r: bool)
        ensures
            r == match self.last_db_update {
                Some(t) => now >= t && now - t > DB_REFRESH_NANOS,
                None => false,
            },
    {
        match self.last_db_update {
            Some(t) => now >= t && now - t > DB_REFRESH_NANOS,
            None => false,
        }
    }

    /// Scan running processes for games. Each process is matched against the
    /// database, whose first matching game is reported with the process id
    /// and the game's start time; the start time of a game already running at
    /// the previous scan is kept, a new game starts at `now_ms`. The cache
    /// afterwards holds exactly the games found; games no longer running are
    /// dropped from it, while the record of last process ids keeps them.
    pub fn scan(&mut self, processes: &[ProcessInfo], platform: Platform, now_ms: i64) -> (detected:
        Vec<DetectedGame>)
        ensures
            final(self).database == old(self).database,
            final(self).last_db_update == old(self).last_db_update,
            final(self).db_url == old(self).db_url,
            detected_views(detected@) == detected_model(
                old(self).cache@,
                scan_hits(old(self).database@, processes@, platform),
                now_ms,
            ),
            final(self).cache@ == cache_after(
                old(self).cache@,
                scan_hits(old(self).database@, processes@, platform),
                now_ms,
            ),
            final(self).cache.last_pids() == pids_after(
                old(self).cache.last_pids(),
                scan_hits(old(self).database@, processes@, platform),
            ),
    {
        let ghost old_pids = self.cache.last_pids();
        let ghost old_cache = self.cache@;
        let ghost db = self.database@;
        let backslash = chars_of("\\");
        let slash = chars_of("/");
        proof {
            reveal_strlit("\\");
        }
        let mut fresh: Vec<CachedGame> = Vec::new();
        let mut detected: Vec<DetectedGame> = Vec::new();
        let mut i: usize = 0;
        assert(processes@.take(0) =~= Seq::<ProcessInfo>::empty());
        assert(cache_pairs(fresh@) =~= Seq::empty());
        assert(detected_views(detected@) =~= Seq::empty());
        while i < processes.len()
            invariant
                i <= processes.len(),
                db == self.database@,
                old_cache == self.cache@,
                self.database == old(self).database,
                self.last_db_update == old(self).last_db_update,
                self.db_url == old(self).db_url,
                self.cache.last_pids() == pids_after(
                    old_pids,
                    scan_hits(db, processes@.take(i as int), platform),
                ),
                backslash@ == "\\"@,
                backslash@.len() > 0,
                slash@ == "/"@,
                distinct_keys(cache_pairs(fresh@)),
                keyed_map(cache_pairs(fresh@)) == cache_after(
                    old_cache,
                    scan_hits(db, processes@.take(i as int), platform),
                    now_ms,
                ),
                detected_views(detected@) == detected_model(
                    old_cache,
                    scan_hits(db, processes@.take(i as int), platform),
                    now_ms,
                ),
            decreases processes.len() - i,
        {
            let process = &processes[i];
            let ghost pre = processes@.take(i + 1);
            let ghost hits = scan_hits(db, processes@.take(i as int), platform);
            assert(pre.drop_last() =~= processes@.take(i as int));
            assert(pre.last() == *process);
            let lower = to_lowercase(process.path.as_str());
            let lower_chars = chars_of(lower.as_str());
            let norm = replace_all(&lower_chars, &backslash, &slash);
            assert(norm@ == normalized_path(*process));
            let variants = path_variant_chars(&norm);
            let args = opt_chars(&process.args);
            let ghost av = opt_chars_view(args);
            assert(av == opt_view(process.args));
            let mut g: usize = 0;
            let mut found: Option<usize> = None;
            while g < self.database.len()
                invariant_except_break
                    found is None,
                invariant
                    g <= self.database@.len(),
                    db == self.database@,
                    views_of(variants@) == path_variants(normalized_path(*process)),
                    av == opt_view(process.args),
                    av == opt_chars_view(args),
                    forall|h: int| 0 <= h < g ==> !game_matches(#[trigger] db[h], *process, platform),
                ensures
                    match found {
                        Some(f) => is_first_game(db, *process, platform, f as int),
                        None => forall|h: int|
                            0 <= h < db.len() ==> !game_matches(#[trigger] db[h], *process, platform),
                    },
                decreases self.database@.len() - g,
            {
                if any_executable_matches(
                    self.database[g].executables.as_slice(),
                    &variants,
                    &args,
                    platform,
                ) {
                    found = Some(g);
                    break;
                }
                g += 1;
            }
            match found {
                Some(g) => {
                    proof {
                        lemma_first_game_unique(db, *process, platform, g as int);
                    }
                    let game = &self.database[g];
                    let ghost h = (game.id@, game.name@, process.pid);
                    assert(scan_hits(db, pre, platform) == hits.push(h));
                    let ghost ps = cache_pairs(fresh@);
                    let at = find_entry(&fresh, &game.id);
                    let start = match at {
                        Some(j) => {
                            proof {
                                assert(ps[j as int].0 == game.id@);
                                lemma_keyed_map_index(ps, j as int);
                                lemma_cache_after_start(old_cache, hits, now_ms, game.id@);
                            }
                            fresh[j].start_time
                        },
                        None => match self.cache.start_time(&game.id) {
                            Some(t) => t,
                            None => now_ms,
                        },
                    };
                    assert(start == start_of(old_cache, game.id@, now_ms));
                    let entry = CachedGame {
                        app_id: game.id.clone(),
                        name: game.name.clone(),
                        pid: process.pid,
                        start_time: start,
                    };
                    match at {
                        Some(j) => {
                            proof {
                                lemma_keyed_map_update(ps, j as int, (start, game.name@, process.pid));
                            }
                            fresh.set(j, entry);
                            assert(cache_pairs(fresh@) =~= ps.update(
                                j as int,
                                (ps[j as int].0, (start, game.name@, process.pid)),
                            ));
                        },
                        None => {
                            proof {
                                lemma_keyed_map_push(ps, (game.id@, (start, game.name@, process.pid)));
                            }
                            fresh.push(entry);
                            assert(cache_pairs(fresh@) =~= ps.push(
                                (game.id@, (start, game.name@, process.pid)),
                            ));
                        },
                    }
                    assert(hits.push(h).drop_last() =~= hits);
                    self.cache.record_pid(&game.id, process.pid);
                    let ghost dv = detected_views(detected@);
                    detected.push(
                        DetectedGame {
                            id: game.id.clone(),
                            name: game.name.clone(),
                            pid: process.pid,
                            start_time: start,
                        },
                    );
                    assert(detected_views(detected@) =~= dv.push(
                        (game.id@, game.name@, process.pid, start),
                    ));
                    assert(detected_model(old_cache, hits.push(h), now_ms) =~= detected_model(
                        old_cache,
                        hits,
                        now_ms,
                    ).push((game.id@, game.name@, process.pid, start)));
                },
                None => {
                    proof {
                        lemma_first_game_none(db, *process, platform);
                    }
                    assert(scan_hits(db, pre, platform) == hits);
                },
            }
            i += 1;
        }
        assert(processes@.take(processes.len() as int) =~= processes@);
        self.cache.replace_games(fresh);
        detected
    }

    /// Get PID for a stopped game: the process id of the last scan that found
    /// the game, whether or not it is still running.
    pub fn get_last_pid(&self, app_id: &String) -> (r: Option<Pid>)
        ensures
            r == (if self.cache.last_pids().contains_key(app_id@) {
                Some(self.cache.last_pids()[app_id@])
            } else {
                None
            }),
    {
        self.cache.last_pid(app_id)
    }
}

} // verus!
