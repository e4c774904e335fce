//! Self-update decisions: which release tag is newer, which asset to fetch.
//!
//! The network requests and the file replacement happen around these functions;
//! everything that decides whether and what to download stands here.
use vstd::prelude::*;

use crate::text::{
    all_digits, chars_of, digit_value, digits_value, find, find_from, find_from_exec,
    is_ascii_digit, lemma_digits_value_prefix, lemma_find_from_facts, lemma_digits_value_push, matches_at, owned, push_str,
    split_once_char, split_whitespace, str_eq, tokens, trim_start_char, spec_decimal, lemma_decimal_digits, find_char,
};

verus! {

/// A `(major, minor, patch)` version triple.
pub type Version = (u64, u64, u64);

/// `u64::from_str`: an optional `+`, then one or more ASCII digits whose value fits in a `u64`.
pub open spec fn spec_parse_u64(s: Seq<char>) -> Option<u64> {
    let d = if s.len() > 0 && s[0] == '+' { s.drop_first() } else { s };
    if d.len() > 0 && all_digits(d) && digits_value(d) <= u64::MAX {
        Some(digits_value(d) as u64)
    } else {
        None
    }
}

/// The longest prefix of `s` made of ASCII digits.
pub open spec fn digit_prefix(s: Seq<char>) -> Seq<char>
    decreases s.len(),
{
    if s.len() > 0 && is_ascii_digit(s[0]) {
        seq![s[0]] + digit_prefix(s.drop_first())
    } else {
        Seq::empty()
    }
}

/// The version that a tag such as `v1.2.3`, `1.2.3` or `v1.2.3-beta` names.
///
/// Leading `v`s are dropped; the text is cut at its first two dots; major and
/// minor must parse as `u64`; the patch is the value of the leading digits of
/// the rest, `0` when that is missing or does not fit.
pub open spec fn spec_parse_version(tag: Seq<char>) -> Option<Version> {
    let s = trim_start_char(tag, 'v');
    match split_once_char(s, '.') {
        None => None,
        Some((major_text, rest)) => {
            let (minor_text, patch_raw) = match split_once_char(rest, '.') {
                Some((m, p)) => (m, p),
                None => (rest, seq!['0']),
            };
            match (spec_parse_u64(major_text), spec_parse_u64(minor_text)) {
                (Some(major), Some(minor)) => {
                    let patch = match spec_parse_u64(digit_prefix(patch_raw)) {
                        Some(p) => p,
                        None => 0,
                    };
                    Some((major, minor, patch))
                },
                _ => None,
            }
        },
    }
}

/// Lexicographic order on version triples.
pub open spec fn version_le(a: Version, b: Version) -> bool {
    a.0 < b.0 || (a.0 == b.0 && (a.1 < b.1 || (a.1 == b.1 && a.2 <= b.2)))
}

/// The semver part of a build string such as `0.1.0 (abc1234)`: its first word,
/// or the whole string when it has none.
pub open spec fn semver_part(version: Seq<char>) -> Seq<char> {
    if tokens(version).len() > 0 {
        tokens(version)[0]
    } else {
        version
    }
}

/// The Rust target triple for a target architecture and operating system, as
/// `std::env::consts::ARCH` and `std::env::consts::OS` name them.
pub open spec fn spec_target_triple(arch: Seq<char>, os: Seq<char>) -> Seq<char> {
    if arch == "aarch64"@ && os == "linux"@ {
        "aarch64-unknown-linux-gnu"@
    } else if arch == "x86_64"@ && os == "linux"@ {
        "x86_64-unknown-linux-gnu"@
    } else if arch == "aarch64"@ && os == "macos"@ {
        "aarch64-apple-darwin"@
    } else if arch == "x86_64"@ && os == "macos"@ {
        "x86_64-apple-darwin"@
    } else if arch == "x86_64"@ && os == "windows"@ {
        "x86_64-pc-windows-msvc"@
    } else {
        "unknown"@
    }
}

/// Returns the Rust target triple for a target, used to select the asset of a release.
pub fn target_triple(arch: &str, os: &str) -> (t: &'static str)
    ensures
        t@ == spec_target_triple(arch@, os@),
{
    let aarch64 = str_eq(arch, "aarch64");
    let x86_64 = str_eq(arch, "x86_64");
    let linux = str_eq(os, "linux");
    let macos = str_eq(os, "macos");
    let windows = str_eq(os, "windows");
    if aarch64 && linux {
        "aarch64-unknown-linux-gnu"
    } else if x86_64 && linux {
        "x86_64-unknown-linux-gnu"
    } else if aarch64 && macos {
        "aarch64-apple-darwin"
    } else if x86_64 && macos {
        "x86_64-apple-darwin"
    } else if x86_64 && windows {
        "x86_64-pc-windows-msvc"
    } else {
        "unknown"
    }
}

/// `u64::from_str` on the characters `v[from..to]`.
pub fn parse_u64_range(v: &[char], from: usize, to: usize) -> (r: Option<u64>)
    requires
        from <= to <= v@.len(),
    ensures
        r == spec_parse_u64(v@.subrange(from as int, to as int)),
{
    let ghost s = v@.subrange(from as int, to as int);
    let start = if from < to && v[from] == '+' { from + 1 } else { from };
    let ghost d = v@.subrange(start as int, to as int);
    assert(d =~= (if s.len() > 0 && s[0] == '+' { s.drop_first() } else { s }));
    if start == to {
        return None;
    }
    let mut value: u64 = 0;
    let mut i = start;
    while i < to
        invariant
            start <= i <= to <= v@.len(),
            start < to,
            s == v@.subrange(from as int, to as int),
            d == (if s.len() > 0 && s[0] == '+' { s.drop_first() } else { s }),
            d == v@.subrange(start as int, to as int),
            all_digits(v@.subrange(start as int, i as int)),
            value as nat == digits_value(v@.subrange(start as int, i as int)),
        decreases to - i,
    {
        let c = v[i];
        let ghost prefix = v@.subrange(start as int, i as int);
        assert(v@.subrange(start as int, i + 1) =~= prefix.push(c));
        proof {
            lemma_digits_value_push(prefix, c);
        }
        if !('0' <= c && c <= '9') {
            assert(d[i - start] == c);
            assert(!is_ascii_digit(d[i - start]));
            assert(!all_digits(d));
            return None;
        }
        let dv = (c as u64) - ('0' as u64);
        assert(dv == digit_value(c));
        if value > (u64::MAX - dv) / 10 {
            proof {
                assert(v@.subrange(start as int, i + 1) =~= d.take(i + 1 - start));
                lemma_digits_value_prefix(d, i + 1 - start);
                assert(value * 10 + dv > u64::MAX) by (nonlinear_arith)
                    requires
                        value > (u64::MAX - dv) / 10,
                        dv <= 9,
                ;
                if !all_digits(d) {
                } else {
                    assert(digits_value(d) > u64::MAX);
                }
                assert(spec_parse_u64(s) is None);
            }
            return None;
        }
        assert(value * 10 + dv <= u64::MAX) by (nonlinear_arith)
            requires
                value <= (u64::MAX - dv) / 10,
                dv <= 9,
        ;
        value = value * 10 + dv;
        i = i + 1;
    }
    Some(value)
}

/// The number of leading `v`s of `v`.
fn leading_v_count(v: &[char]) -> (start: usize)
    ensures
        start <= v@.len(),
        trim_start_char(v@, 'v') == v@.skip(start as int),
{
    let mut start: usize = 0;
    assert(v@.skip(0) =~= v@);
    while start < v.len() && v[start] == 'v'
        invariant
            0 <= start <= v@.len(),
            trim_start_char(v@.skip(start as int), 'v') == trim_start_char(v@, 'v'),
        decreases v.len() - start,
    {
        assert(v@.skip(start as int).drop_first() =~= v@.skip(start + 1));
        start = start + 1;
    }
    start
}

/// The patch number read from `v[from..]`: the value of its leading digits, `0` when
/// there are none or they do not fit.
fn parse_patch(v: &[char], from: usize) -> (p: u64)
    requires
        from <= v@.len(),
    ensures
        p == (match spec_parse_u64(digit_prefix(v@.skip(from as int))) {
            Some(p) => p,
            None => 0,
        }),
{
    let mut e = from;
    assert(v@.subrange(from as int, from as int) + v@.skip(from as int) =~= v@.skip(from as int));
    while e < v.len() && '0' <= v[e] && v[e] <= '9'
        invariant
            from <= e <= v@.len(),
            digit_prefix(v@.skip(from as int)) == v@.subrange(from as int, e as int) + digit_prefix(
                v@.skip(e as int),
            ),
        decreases v.len() - e,
    {
        let ghost tail = v@.skip(e as int);
        assert(tail.drop_first() =~= v@.skip(e + 1));
        assert(v@.subrange(from as int, e + 1) =~= v@.subrange(from as int, e as int) + seq![v@[e as int]]);
        e = e + 1;
    }
    proof {
        assert(digit_prefix(v@.skip(e as int)) =~= Seq::<char>::empty());
        assert(v@.subrange(from as int, e as int) + Seq::<char>::empty() =~= v@.subrange(from as int, e as int));
    }
    match parse_u64_range(v, from, e) {
        Some(p) => p,
        None => 0,
    }
}

/// Parse a semver tag like `v1.2.3` or `1.2.3` into a `(major, minor, patch)` triple.
/// Returns `None` when the text cannot be parsed.
pub fn parse_version(tag: &str) -> (r: Option<Version>)
    ensures
        r == spec_parse_version(tag@),
{
    let v = chars_of(tag);
    let start = leading_v_count(&v);
    let ghost s = v@.skip(start as int);
    let dot = ['.'];
    let first = find_from_exec(&v, &dot, start);
    proof {
        assert(dot@ =~= seq!['.']);
        lemma_find_shift(v@, seq!['.'], start as int);
        lemma_find_from_facts(v@, seq!['.'], start as int);
    }
    let d1 = match first {
        None => {
            return None;
        },
        Some(d1) => d1,
    };
    let n = v.len();
    assert(d1 < n);
    let ghost major_text = s.take(d1 - start);
    let ghost rest = s.skip(d1 - start + 1);
    assert(major_text =~= v@.subrange(start as int, d1 as int));
    assert(rest =~= v@.skip(d1 + 1));
    let second = find_from_exec(&v, &dot, d1 + 1);
    proof {
        lemma_find_shift(v@, seq!['.'], d1 + 1);
        lemma_find_from_facts(v@, seq!['.'], d1 + 1);
    }
    let minor_end = match second {
        Some(d2) => {
            assert(v@.subrange(d1 + 1, d2 as int) =~= rest.take(d2 - d1 - 1));
            assert(v@.skip(d2 + 1) =~= rest.skip(d2 - d1 - 1 + 1));
            d2
        },
        None => {
            assert(v@.subrange(d1 + 1, v@.len() as int) =~= rest);
            v.len()
        },
    };
    let major = match parse_u64_range(&v, start, d1) {
        Some(m) => m,
        None => {
            return None;
        },
    };
    let minor = match parse_u64_range(&v, d1 + 1, minor_end) {
        Some(m) => m,
        None => {
            return None;
        },
    };
    let patch = match second {
        Some(d2) => parse_patch(&v, d2 + 1),
        None => {
            proof {
                lemma_zero_patch();
            }
            0
        },
    };
    Some((major, minor, patch))
}

/// The default patch text `0` reads as zero.
proof fn lemma_zero_patch()
    ensures
        spec_parse_u64(digit_prefix(seq!['0'])) == Some(0u64),
{
    reveal_with_fuel(digit_prefix, 2);
    assert(seq!['0'].drop_first() =~= Seq::<char>::empty());
    assert(digit_prefix(seq!['0']) =~= seq!['0']);
    assert(seq!['0'].drop_last() =~= Seq::<char>::empty());
    assert(all_digits(seq!['0']));
    assert(digits_value(seq!['0']) == digits_value(Seq::<char>::empty()) * 10 + digit_value('0'));
}

/// `find_from` on a text equals `find` on the part of it that starts at `i`, shifted by `i`.
pub proof fn lemma_find_shift(s: Seq<char>, p: Seq<char>, i: int)
    requires
        0 <= i <= s.len(),
    ensures
        match find_from(s, p, i) {
            Some(k) => find(s.skip(i), p) == Some(k - i),
            None => find(s.skip(i), p) is None,
        },
    decreases s.len() + 1 - i,
{
    lemma_find_shift_aux(s, p, i, 0);
}

proof fn lemma_find_shift_aux(s: Seq<char>, p: Seq<char>, i: int, j: int)
    requires
        0 <= i <= s.len(),
        0 <= j,
    ensures
        match find_from(s, p, i + j) {
            Some(k) => find_from(s.skip(i), p, j) == Some(k - i),
            None => find_from(s.skip(i), p, j) is None,
        },
    decreases s.len() + 1 - i - j,
{
    let t = s.skip(i);
    if i + j + p.len() > s.len() {
    } else {
        assert(t.subrange(j, j + p.len()) =~= s.subrange(i + j, i + j + p.len()));
        if matches_at(s, p, i + j) {
        } else {
            lemma_find_shift_aux(s, p, i, j + 1);
        }
    }
}

/// Whether the version `remote` is newer than `current`.
pub fn is_newer(remote: Version, current: Version) -> (b: bool)
    ensures
        b == !version_le(remote, current),
{
    if remote.0 != current.0 {
        remote.0 > current.0
    } else if remote.1 != current.1 {
        remote.1 > current.1
    } else {
        remote.2 > current.2
    }
}

/// The semver part of a build string such as `0.1.0 (abc1234)`.
pub fn semver_of(version: &str) -> (r: String)
    ensures
        r@ == semver_part(version@),
{
    let v = chars_of(version);
    let mut words = split_whitespace(&v);
    if words.len() > 0 {
        words.swap_remove(0)
    } else {
        owned(version)
    }
}

/// One downloadable file of a release.
pub struct ReleaseAsset {
    pub name: String,
    pub browser_download_url: String,
}

/// The latest release as the releases API describes it.
pub struct LatestRelease {
    pub tag_name: String,
    pub assets: Vec<ReleaseAsset>,
}

/// Why a release check could not decide.
pub enum UpdateError {
    /// The running version (its semver part is given) does not parse.
    CurrentVersion(String),
    /// The release tag (given) does not parse.
    RemoteTag(String),
    /// The release (tag given second) has no asset of the name given first.
    MissingAsset(String, String),
}

/// What a release check decided.
pub enum UpdatePlan {
    /// The release is not newer than the running version.
    UpToDate,
    /// The release is newer: download the binary at `url`.
    Download { url: String },
}

/// The asset name that a binary has in a release: `{bin_name}-{triple}`.
pub open spec fn asset_name_for(bin_name: Seq<char>, triple: Seq<char>) -> Seq<char> {
    bin_name + "-"@ + triple
}

/// The first position at or after `i` of the given name.
pub open spec fn first_index_from(names: Seq<Seq<char>>, name: Seq<char>, i: int) -> Option<int>
    decreases names.len() - i,
{
    if i < 0 || i >= names.len() {
        None
    } else if names[i] == name {
        Some(i)
    } else {
        first_index_from(names, name, i + 1)
    }
}

/// The first position of the given name.
pub open spec fn first_asset_index(names: Seq<Seq<char>>, name: Seq<char>) -> Option<int> {
    first_index_from(names, name, 0)
}

/// The URL of the latest release of this project under a releases API base.
pub open spec fn spec_release_url(api_base: Seq<char>) -> Seq<char> {
    api_base + "/repos/joeblew999/opcua-howick/releases/latest"@
}

/// The URL of the latest-release document under `api_base`.
pub fn release_url(api_base: &str) -> (u: String)
    ensures
        u@ == spec_release_url(api_base@),
{
    let mut u = owned(api_base);
    push_str(&mut u, "/repos/joeblew999/opcua-howick/releases/latest");
    u
}

/// The asset name of `bin_name` for a target triple.
pub fn asset_name(bin_name: &str, triple: &str) -> (n: String)
    ensures
        n@ == asset_name_for(bin_name@, triple@),
{
    let mut n = owned(bin_name);
    push_str(&mut n, "-");
    push_str(&mut n, triple);
    n
}

/// The names of the assets of a release.
pub open spec fn asset_names(assets: Seq<ReleaseAsset>) -> Seq<Seq<char>> {
    assets.map_values(|a: ReleaseAsset| a.name@)
}

/// The decision of a release check, from the running version, the release and the target triple.
pub open spec fn spec_plan_update(
    bin_name: Seq<char>,
    current_version: Seq<char>,
    tag: Seq<char>,
    assets: Seq<ReleaseAsset>,
    triple: Seq<char>,
) -> Result<Option<Seq<char>>, UpdateErrorView> {
    let current = semver_part(current_version);
    match (spec_parse_version(current), spec_parse_version(tag)) {
        (None, _) => Err(UpdateErrorView::CurrentVersion(current)),
        (Some(_), None) => Err(UpdateErrorView::RemoteTag(tag)),
        (Some(c), Some(r)) => if version_le(r, c) {
            Ok(None)
        } else {
            let name = asset_name_for(bin_name, triple);
            match first_asset_index(asset_names(assets), name) {
                Some(i) => Ok(Some(assets[i].browser_download_url@)),
                None => Err(UpdateErrorView::MissingAsset(name, tag)),
            }
        },
    }
}

/// The view of an [`UpdateError`].
pub enum UpdateErrorView {
    CurrentVersion(Seq<char>),
    RemoteTag(Seq<char>),
    MissingAsset(Seq<char>, Seq<char>),
}

impl View for UpdateError {
    type V = UpdateErrorView;

    open spec fn view(&self) -> UpdateErrorView {
        match self {
            UpdateError::CurrentVersion(s) => UpdateErrorView::CurrentVersion(s@),
            UpdateError::RemoteTag(s) => UpdateErrorView::RemoteTag(s@),
            UpdateError::MissingAsset(a, t) => UpdateErrorView::MissingAsset(a@, t@),
        }
    }
}

/// The view of an [`UpdatePlan`]: the URL to download, if any.
pub open spec fn plan_view(p: UpdatePlan) -> Option<Seq<char>> {
    match p {
        UpdatePlan::UpToDate => None,
        UpdatePlan::Download { url } => Some(url@),
    }
}

/// Decide a release check: compare the release tag with the running version and,
/// when the release is newer, pick the asset `{bin_name}-{triple}`.
///
/// Returns `Ok(UpToDate)` when the release is not newer, `Ok(Download)` with the
/// asset's URL when it is, and an error when a version does not parse or the
/// asset is missing.
pub fn plan_update(bin_name: &str, current_version: &str, release: &LatestRelease, triple: &str) -> (r: Result<
    UpdatePlan,
    UpdateError,
>)
    ensures
        match r {
            Ok(p) => spec_plan_update(bin_name@, current_version@, release.tag_name@, release.assets@, triple@)
                == Ok::<Option<Seq<char>>, UpdateErrorView>(plan_view(p)),
            Err(e) => spec_plan_update(bin_name@, current_version@, release.tag_name@, release.assets@, triple@)
                == Err::<Option<Seq<char>>, UpdateErrorView>(e@),
        },
        r matches Ok(UpdatePlan::Download { url }) ==> exists|i: int|
            0 <= i < release.assets@.len() && #[trigger] release.assets@[i].name@ == bin_name@ + "-"@
                + triple@ && release.assets@[i].browser_download_url@ == url@,
{
    let current = semver_of(current_version);
    let current_tuple = match parse_version(current.as_str()) {
        Some(v) => v,
        None => {
            return Err(UpdateError::CurrentVersion(current));
        },
    };
    let remote_tuple = match parse_version(release.tag_name.as_str()) {
        Some(v) => v,
        None => {
            return Err(UpdateError::RemoteTag(owned(release.tag_name.as_str())));
        },
    };
    if !is_newer(remote_tuple, current_tuple) {
        return Ok(UpdatePlan::UpToDate);
    }
    let name = asset_name(bin_name, triple);
    let ghost names = asset_names(release.assets@);
    let mut i: usize = 0;
    while i < release.assets.len()
        invariant
            0 <= i <= release.assets@.len(),
            names == asset_names(release.assets@),
            first_asset_index(names, name@) == first_index_from(names, name@, i as int),
            spec_parse_version(semver_part(current_version@)) == Some(current_tuple),
            spec_parse_version(release.tag_name@) == Some(remote_tuple),
            !version_le(remote_tuple, current_tuple),
            name@ == asset_name_for(bin_name@, triple@),
        decreases release.assets.len() - i,
    {
        assert(names[i as int] == release.assets@[i as int].name@);
        if release.assets[i].name == name {
            let url = owned(release.assets[i].browser_download_url.as_str());
            assert(release.assets@[i as int].name@ == bin_name@ + "-"@ + triple@);
            return Ok(UpdatePlan::Download { url });
        }
        i = i + 1;
    }
    Err(UpdateError::MissingAsset(name, owned(release.tag_name.as_str())))
}

// ───────────────────────────── laws ─────────────────────────────

/// The text of a version triple: `{a}.{b}.{c}`.
pub open spec fn version_text(a: u64, b: u64, c: u64) -> Seq<char> {
    spec_decimal(a as nat) + seq!['.'] + spec_decimal(b as nat) + seq!['.'] + spec_decimal(c as nat)
}

/// A leading `v` does not change the version a tag names.
pub proof fn lemma_parse_version_v_prefix(tag: Seq<char>)
    ensures
        spec_parse_version(seq!['v'] + tag) == spec_parse_version(tag),
{
    assert((seq!['v'] + tag).drop_first() =~= tag);
    assert(trim_start_char(seq!['v'] + tag, 'v') == trim_start_char(tag, 'v'));
}

/// A version triple written as `{a}.{b}.{c}`, with or without a leading `v`, parses back to itself.
pub proof fn lemma_parse_version_roundtrip(a: u64, b: u64, c: u64)
    ensures
        spec_parse_version(version_text(a, b, c)) == Some((a, b, c)),
        spec_parse_version(seq!['v'] + version_text(a, b, c)) == Some((a, b, c)),
{
    let da = spec_decimal(a as nat);
    let db = spec_decimal(b as nat);
    let dc = spec_decimal(c as nat);
    lemma_decimal_digits(a as nat);
    lemma_decimal_digits(b as nat);
    lemma_decimal_digits(c as nat);
    let s = version_text(a, b, c);
    assert(s[0] == da[0]);
    assert(trim_start_char(s, 'v') == s);
    let rest = db + seq!['.'] + dc;
    assert(s =~= da + seq!['.'] + rest);
    lemma_find_after_digits(da, rest);
    assert(s.take(da.len() as int) =~= da);
    assert(s.skip(da.len() as int + 1) =~= rest);
    lemma_find_after_digits(db, dc);
    assert(rest.take(db.len() as int) =~= db);
    assert(rest.skip(db.len() as int + 1) =~= dc);
    lemma_parse_u64_of_digits(da);
    lemma_parse_u64_of_digits(db);
    lemma_digit_prefix_of_digits(dc);
    lemma_parse_u64_of_digits(dc);
    lemma_parse_version_v_prefix(s);
}

/// Versions are totally ordered: the order is reflexive, antisymmetric, transitive and
/// total, so of two different versions exactly one is newer.
pub proof fn lemma_version_order(a: Version, b: Version, c: Version)
    ensures
        version_le(a, a),
        version_le(a, b) && version_le(b, a) ==> a == b,
        version_le(a, b) && version_le(b, c) ==> version_le(a, c),
        version_le(a, b) || version_le(b, a),
{
}

/// A release check downloads only a release that is newer than the running version:
/// when both versions parse, the check answers "up to date" exactly when the release's
/// version is not above the running one (in particular, for the running version itself).
pub proof fn lemma_update_only_when_newer(
    bin_name: Seq<char>,
    current_version: Seq<char>,
    tag: Seq<char>,
    assets: Seq<ReleaseAsset>,
    triple: Seq<char>,
)
    requires
        spec_parse_version(semver_part(current_version)) is Some,
        spec_parse_version(tag) is Some,
    ensures
        (spec_plan_update(bin_name, current_version, tag, assets, triple) == Ok::<
            Option<Seq<char>>,
            UpdateErrorView,
        >(None)) <==> version_le(
            spec_parse_version(tag)->0,
            spec_parse_version(semver_part(current_version))->0,
        ),
        spec_parse_version(tag) == spec_parse_version(semver_part(current_version))
            ==> spec_plan_update(bin_name, current_version, tag, assets, triple) == Ok::<
            Option<Seq<char>>,
            UpdateErrorView,
        >(None),
{
}

proof fn lemma_first_index_from_facts(names: Seq<Seq<char>>, name: Seq<char>, i: int)
    requires
        0 <= i,
    ensures
        first_index_from(names, name, i) matches Some(k) ==> i <= k < names.len() && names[k] == name
            && forall|j: int| i <= j < k ==> names[j] != name,
        first_index_from(names, name, i) is None ==> forall|j: int| i <= j < names.len() ==> names[j]
            != name,
    decreases names.len() - i,
{
    if i < names.len() && names[i] != name {
        lemma_first_index_from_facts(names, name, i + 1);
    }
}

/// A release check picks the binary by its exact asset name: when it downloads, the URL
/// is that of the first asset named exactly `{bin_name}-{triple}`, so an asset of
/// another binary built for the same target is never taken.  When the release is newer
/// than the running version, it downloads exactly when some asset has that name, and
/// otherwise reports that name as missing.
pub proof fn lemma_update_picks_exact_asset(
    bin_name: Seq<char>,
    current_version: Seq<char>,
    tag: Seq<char>,
    assets: Seq<ReleaseAsset>,
    triple: Seq<char>,
)
    ensures
        spec_plan_update(bin_name, current_version, tag, assets, triple) matches Ok(Some(url)) ==> exists|i: int|
            0 <= i < assets.len() && #[trigger] assets[i].name@ == bin_name + "-"@ + triple
                && assets[i].browser_download_url@ == url && forall|j: int|
                0 <= j < i ==> assets[j].name@ != bin_name + "-"@ + triple,
        ({
            let c = spec_parse_version(semver_part(current_version));
            let r = spec_parse_version(tag);
            c is Some && r is Some && !version_le(r->0, c->0) ==> {
                &&& (exists|i: int| 0 <= i < assets.len() && #[trigger] assets[i].name@ == bin_name + "-"@ + triple)
                    ==> spec_plan_update(bin_name, current_version, tag, assets, triple) is Ok
                &&& (forall|i: int| 0 <= i < assets.len() ==> #[trigger] assets[i].name@ != bin_name + "-"@ + triple)
                    ==> spec_plan_update(bin_name, current_version, tag, assets, triple) == Err::<
                    Option<Seq<char>>,
                    UpdateErrorView,
                >(UpdateErrorView::MissingAsset(bin_name + "-"@ + triple, tag))
            }
        }),
{
    let names = asset_names(assets);
    let name = asset_name_for(bin_name, triple);
    lemma_first_index_from_facts(names, name, 0);
    assert forall|i: int| 0 <= i < assets.len() implies names[i] == #[trigger] assets[i].name@ by {}
    if spec_plan_update(bin_name, current_version, tag, assets, triple) matches Ok(Some(url)) {
        let k = first_asset_index(names, name)->0;
        assert(names[k] == assets[k].name@);
        assert forall|j: int| 0 <= j < k implies assets[j].name@ != bin_name + "-"@ + triple by {
            assert(names[j] == assets[j].name@);
        }
    }
}

/// In `d + "." + r` with `d` all digits, the first dot is right after `d`.
proof fn lemma_find_after_digits(d: Seq<char>, r: Seq<char>)
    requires
        all_digits(d),
    ensures
        find_char(d + seq!['.'] + r, '.') == Some(d.len() as int),
{
    let s = d + seq!['.'] + r;
    let k = d.len() as int;
    assert(s.subrange(k, k + 1) =~= seq!['.']);
    assert forall|j: int| 0 <= j < k implies !matches_at(s, seq!['.'], j) by {
        assert(s.subrange(j, j + 1)[0] == d[j]);
        assert(is_ascii_digit(d[j]));
    }
    lemma_find_first(s, seq!['.'], k);
}

/// The first match of `p` in `s` is at `k` when it occurs there and nowhere before.
pub proof fn lemma_find_first(s: Seq<char>, p: Seq<char>, k: int)
    requires
        matches_at(s, p, k),
        forall|j: int| 0 <= j < k ==> !matches_at(s, p, j),
    ensures
        find(s, p) == Some(k),
{
    lemma_find_first_from(s, p, k, 0);
}

proof fn lemma_find_first_from(s: Seq<char>, p: Seq<char>, k: int, i: int)
    requires
        0 <= i <= k,
        matches_at(s, p, k),
        forall|j: int| 0 <= j < k ==> !matches_at(s, p, j),
    ensures
        find_from(s, p, i) == Some(k),
    decreases k - i,
{
    if i < k {
        lemma_find_first_from(s, p, k, i + 1);
    }
}

/// A non-empty digit string that fits in a `u64` parses to its value.
proof fn lemma_parse_u64_of_digits(d: Seq<char>)
    requires
        d.len() > 0,
        all_digits(d),
        digits_value(d) <= u64::MAX,
    ensures
        spec_parse_u64(d) == Some(digits_value(d) as u64),
{
    assert(is_ascii_digit(d[0]));
}

/// The digit prefix of a digit string is the string itself.
proof fn lemma_digit_prefix_of_digits(d: Seq<char>)
    requires
        all_digits(d),
    ensures
        digit_prefix(d) == d,
    decreases d.len(),
{
    if d.len() > 0 {
        assert(is_ascii_digit(d[0]));
        let t = d.drop_first();
        assert forall|i: int| 0 <= i < t.len() implies is_ascii_digit(#[trigger] t[i]) by {
            assert(t[i] == d[i + 1]);
        }
        lemma_digit_prefix_of_digits(t);
        assert(seq![d[0]] + t =~= d);
    }
}

} // verus!
