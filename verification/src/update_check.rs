//! Release and asset selection for the updater: version normalization and
//! comparison, the proxy URL of a release asset, and the per-platform asset
//! matchers, each pinned to an exact specification over the text.
use vstd::prelude::*;
use crate::numtext::dec_chars;
use crate::textscan::ascii_lowercase;
use crate::textscan::has_substring;
use crate::textscan::lower_ascii_chars;
use crate::textscan::str_contains;
use crate::textscan::str_ends_with;
use crate::textscan::str_starts_with;

verus! {

/// An ASCII whitespace character, as version strings may carry around them.
pub open spec fn is_ascii_ws(c: char) -> bool {
    c == ' ' || c == '\t' || c == '\n' || c == '\r'
}

/// The text with leading ASCII whitespace removed.
pub open spec fn trim_front(s: Seq<char>) -> Seq<char>
    decreases s.len(),
{
    if s.len() > 0 && is_ascii_ws(s[0]) {
        trim_front(s.drop_first())
    } else {
        s
    }
}

/// The text with trailing ASCII whitespace removed.
pub open spec fn trim_back(s: Seq<char>) -> Seq<char>
    decreases s.len(),
{
    if s.len() > 0 && is_ascii_ws(s[s.len() - 1]) {
        trim_back(s.drop_last())
    } else {
        s
    }
}

/// The text with every leading `c` removed.
pub open spec fn drop_leading(s: Seq<char>, c: char) -> Seq<char>
    decreases s.len(),
{
    if s.len() > 0 && s[0] == c {
        drop_leading(s.drop_first(), c)
    } else {
        s
    }
}

/// The offset of the first `c` in `s`, or `s.len()` when there is none.
pub open spec fn find_char(s: Seq<char>, c: char) -> int
    decreases s.len(),
{
    if s.len() == 0 {
        0
    } else if s[0] == c {
        0
    } else {
        1 + find_char(s.drop_first(), c)
    }
}

proof fn lemma_find_char_at(s: Seq<char>, c: char, i: int)
    requires
        0 <= i <= s.len(),
        forall|j: int| 0 <= j < i ==> s[j] != c,
        i < s.len() ==> s[i] == c,
    ensures
        find_char(s, c) == i,
    decreases s.len(),
{
    if s.len() > 0 && i > 0 {
        let rest = s.drop_first();
        assert(forall|j: int| 0 <= j < rest.len() ==> rest[j] == s[j + 1]);
        lemma_find_char_at(rest, c, i - 1);
    }
}

/// Returns the offset of the first `c`, or the length when there is none.
fn find_char_at(s: &str, c: char) -> (r: usize)
    ensures
        r == find_char(s@, c),
        r <= s@.len(),
{
    let n = s.unicode_len();
    let mut i: usize = 0;
    while i < n
        invariant
            i <= n,
            n == s@.len(),
            forall|j: int| 0 <= j < i ==> s@[j] != c,
        decreases n - i,
    {
        if s.get_char(i) == c {
            proof {
                lemma_find_char_at(s@, c, i as int);
            }
            return i;
        }
        i = i + 1;
    }
    proof {
        lemma_find_char_at(s@, c, n as int);
    }
    n
}

/// Executable mirror of [`is_ascii_ws`].
fn char_is_ascii_ws(c: char) -> (r: bool)
    ensures
        r == is_ascii_ws(c),
{
    c == ' ' || c == '\t' || c == '\n' || c == '\r'
}

/// Trims ASCII whitespace from both ends.
fn trim_ascii(s: &str) -> (r: String)
    ensures
        r@ == trim_back(trim_front(s@)),
{
    let n = s.unicode_len();
    let mut start: usize = 0;
    proof {
        assert(s@.skip(0) =~= s@);
    }
    while start < n && char_is_ascii_ws(s.get_char(start))
        invariant
            start <= n,
            n == s@.len(),
            trim_front(s@) == trim_front(s@.skip(start as int)),
        decreases n - start,
    {
        proof {
            assert(s@.skip(start as int)[0] == s@[start as int]);
            assert(s@.skip(start as int).drop_first() =~= s@.skip(start + 1));
        }
        start = start + 1;
    }
    proof {
        if start < n {
            assert(s@.skip(start as int)[0] == s@[start as int]);
        } else {
            assert(s@.skip(start as int) =~= Seq::<char>::empty());
        }
        assert(trim_front(s@) == s@.skip(start as int));
    }
    let ghost m = s@.skip(start as int);
    let mut end: usize = n;
    proof {
        assert(m.take(n - start) =~= m);
    }
    while end > start && char_is_ascii_ws(s.get_char(end - 1))
        invariant
            start <= end <= n,
            n == s@.len(),
            m == s@.skip(start as int),
            trim_back(m) == trim_back(m.take(end - start)),
        decreases end,
    {
        proof {
            let k = end - start;
            assert(m.take(k)[k - 1] == s@[end - 1]);
            assert(m.take(k).drop_last() =~= m.take(k - 1));
        }
        end = end - 1;
    }
    proof {
        let k = end - start;
        if end > start {
            assert(m.take(k)[k - 1] == s@[end - 1]);
        }
        assert(trim_back(m.take(k)) == m.take(k));
    }
    let r = s.substring_char(start, end);
    proof {
        assert(r@ =~= m.take(end - start));
    }
    r.to_owned()
}

/// Removes every leading `v`.
fn drop_leading_vs(s: &str) -> (r: String)
    ensures
        r@ == drop_leading(s@, 'v'),
{
    let n = s.unicode_len();
    let mut start: usize = 0;
    proof {
        assert(s@.skip(0) =~= s@);
    }
    while start < n && s.get_char(start) == 'v'
        invariant
            start <= n,
            n == s@.len(),
            drop_leading(s@, 'v') == drop_leading(s@.skip(start as int), 'v'),
        decreases n - start,
    {
        proof {
            assert(s@.skip(start as int)[0] == s@[start as int]);
            assert(s@.skip(start as int).drop_first() =~= s@.skip(start + 1));
        }
        start = start + 1;
    }
    proof {
        if start < n {
            assert(s@.skip(start as int)[0] == s@[start as int]);
        } else {
            assert(s@.skip(start as int) =~= Seq::<char>::empty());
        }
        assert(drop_leading(s@, 'v') == s@.skip(start as int));
    }
    let r = s.substring_char(start, n);
    proof {
        assert(r@ =~= s@.skip(start as int));
    }
    r.to_owned()
}

/// A nonempty run of decimal digits.
pub open spec fn all_digits(s: Seq<char>) -> bool {
    s.len() > 0 && forall|i: int| 0 <= i < s.len() ==> 48 <= (#[trigger] s[i]) as u32 <= 57
}

/// The value of a digit run.
pub open spec fn dec_val(s: Seq<char>) -> int
    decreases s.len(),
{
    if s.len() == 0 {
        0
    } else {
        dec_val(s.drop_last()) * 10 + (s[s.len() - 1] as u32 - 48)
    }
}

/// Powers of ten.
pub open spec fn pow10(n: nat) -> int
    decreases n,
{
    if n == 0 {
        1
    } else {
        10 * pow10((n - 1) as nat)
    }
}

proof fn lemma_pow10_le(a: nat, b: nat)
    requires
        a <= b,
    ensures
        pow10(a) <= pow10(b),
        pow10(a) >= 1,
    decreases b,
{
    if b > 0 {
        if a == b {
            lemma_pow10_le((a - 1) as nat, (b - 1) as nat);
        } else {
            lemma_pow10_le(a, (b - 1) as nat);
        }
    }
}

/// The version-component reading: the value of a run of at most 18 decimal
/// digits; anything else (empty, signed, non-digit, longer) counts as 0.
pub open spec fn component_val(s: Seq<char>) -> int {
    if all_digits(s) && s.len() <= 18 {
        dec_val(s)
    } else {
        0
    }
}

/// Reads a version component.
fn parse_component(s: &str) -> (r: i64)
    ensures
        0 <= r <= 999999999999999999,
        r as int == component_val(s@),
{
    let n = s.unicode_len();
    if n == 0 || n > 18 {
        return 0;
    }
    let mut acc: u64 = 0;
    let mut i: usize = 0;
    proof {
        assert(dec_val(s@.take(0)) == 0);
        lemma_pow10_le(0, 0);
    }
    while i < n
        invariant
            i <= n,
            n == s@.len(),
            1 <= n <= 18,
            forall|j: int| 0 <= j < i ==> 48 <= (#[trigger] s@[j]) as u32 <= 57,
            acc as int == dec_val(s@.take(i as int)),
            (acc as int) < pow10(i as nat),
        decreases n - i,
    {
        let c = s.get_char(i);
        let u = c as u32;
        if u < 48 || u > 57 {
            proof {
                assert(!all_digits(s@));
            }
            return 0;
        }
        proof {
            lemma_pow10_le(i as nat, 17);
            reveal_with_fuel(pow10, 20);
            assert(pow10(17) == 100000000000000000);
        }
        acc = acc * 10 + (u - 48) as u64;
        proof {
            assert(s@.take(i + 1).drop_last() =~= s@.take(i as int));
            assert(s@.take(i + 1)[i as int] == s@[i as int]);
            assert(pow10((i + 1) as nat) == 10 * pow10(i as nat));
        }
        i = i + 1;
    }
    proof {
        assert(s@.take(n as int) =~= s@);
        assert(all_digits(s@));
        lemma_pow10_le(n as nat, 18);
        reveal_with_fuel(pow10, 20);
        assert(pow10(18) == 1000000000000000000);
    }
    acc as i64
}

/// The suffix weight of a version: a `fix` suffix outranks no suffix,
/// which outranks any other (pre-release) suffix.
pub open spec fn suffix_weight(suffix: Seq<char>) -> int {
    if suffix.len() >= 3 && suffix.subrange(0, 3) == "fix"@ {
        2
    } else if suffix.len() == 0 {
        1
    } else {
        0
    }
}

/// The normal form of a version text: trim ASCII whitespace, drop leading
/// `v`s, split the core from the suffix at the first `-`, read up to three
/// dot-separated components, and weigh the lowercased suffix.
pub open spec fn norm_ver_spec(v: Seq<char>) -> (int, int, int, int) {
    let t = drop_leading(trim_back(trim_front(v)), 'v');
    let d = find_char(t, '-');
    let core = t.take(d);
    let suffix = lower_ascii_chars(
        if d < t.len() {
            t.skip(d + 1)
        } else {
            Seq::empty()
        },
    );
    let d1 = find_char(core, '.');
    let p1 = core.take(d1);
    let rest1 = if d1 < core.len() {
        core.skip(d1 + 1)
    } else {
        Seq::empty()
    };
    let d2 = find_char(rest1, '.');
    let p2 = rest1.take(d2);
    let rest2 = if d2 < rest1.len() {
        rest1.skip(d2 + 1)
    } else {
        Seq::empty()
    };
    let p3 = rest2.take(find_char(rest2, '.'));
    (component_val(p1), component_val(p2), component_val(p3), suffix_weight(suffix))
}

/// Splits `s` at the first `c`: the part before it, and what follows it
/// (empty when `c` does not occur).
fn split_first(s: &str, c: char) -> (r: (String, String))
    ensures
        r.0@ == s@.take(find_char(s@, c)),
        r.1@ == (if find_char(s@, c) < s@.len() {
            s@.skip(find_char(s@, c) + 1)
        } else {
            Seq::<char>::empty()
        }),
{
    let n = s.unicode_len();
    let d = find_char_at(s, c);
    let head = s.substring_char(0, d);
    let tail = if d < n {
        s.substring_char(d + 1, n)
    } else {
        s.substring_char(n, n)
    };
    proof {
        assert(head@ =~= s@.take(find_char(s@, c)));
        if d < n {
            assert(tail@ =~= s@.skip(find_char(s@, c) + 1));
        } else {
            assert(tail@ =~= Seq::<char>::empty());
        }
    }
    (head.to_owned(), tail.to_owned())
}

/// The normal form of a version text: three numeric components and the
/// suffix weight, as [`norm_ver_spec`] reads them.
pub fn norm_ver(v: &str) -> (r: (i64, i64, i64, i64))
    ensures
        (r.0 as int, r.1 as int, r.2 as int, r.3 as int) == norm_ver_spec(v@),
{
    let t0 = trim_ascii(v);
    let t = drop_leading_vs(t0.as_str());
    let (core, suffix_raw) = split_first(t.as_str(), '-');
    let suffix = ascii_lowercase(suffix_raw.as_str());
    let (p1, rest1) = split_first(core.as_str(), '.');
    let (p2, rest2) = split_first(rest1.as_str(), '.');
    let (p3, _rest3) = split_first(rest2.as_str(), '.');
    let n1 = parse_component(p1.as_str());
    let n2 = parse_component(p2.as_str());
    let n3 = parse_component(p3.as_str());
    proof {
        reveal_strlit("fix");
    }
    let weight: i64 = if str_starts_with(suffix.as_str(), "fix") {
        2
    } else if suffix.as_str().is_empty() {
        1
    } else {
        0
    };
    (n1, n2, n3, weight)
}

/// Whether version tuple `a` outranks `b`: later component wins, the
/// suffix weight last.
pub fn is_better(a: &(i64, i64, i64, i64), b: &(i64, i64, i64, i64)) -> (r: bool)
    ensures
        r == (a.0 > b.0 || (a.0 == b.0 && (a.1 > b.1 || (a.1 == b.1 && (a.2 > b.2 || (a.2 == b.2
            && a.3 > b.3)))))),
{
    a.0 > b.0 || (a.0 == b.0 && (a.1 > b.1 || (a.1 == b.1 && (a.2 > b.2 || (a.2 == b.2 && a.3
        > b.3)))))
}

/// The proxied form of a download URL: the proxy prefix before the raw
/// URL, unless it already carries it.
pub open spec fn proxied_url_chars(raw: Seq<char>) -> Seq<char> {
    if "https://gh-proxy.com/"@.len() <= raw.len() && raw.subrange(
        0,
        "https://gh-proxy.com/"@.len() as int,
    ) == "https://gh-proxy.com/"@ {
        raw
    } else {
        "https://gh-proxy.com/"@ + raw
    }
}

/// The proxied download URL of a release asset.
pub fn gh_proxy_url(raw: &str) -> (r: String)
    ensures
        r@ == proxied_url_chars(raw@),
{
    if str_starts_with(raw, "https://gh-proxy.com/") {
        raw.to_owned()
    } else {
        let mut r = String::from_str("https://gh-proxy.com/");
        r.append(raw);
        r
    }
}

} // verus!

verus! {

/// A release asset as the release feed lists it.
#[derive(Debug)]
pub struct GhAsset {
    pub name: String,
    pub browser_download_url: String,
    pub size: Option<u64>,
    pub content_type: Option<String>,
}

/// A release as the release feed lists it.
#[derive(Debug)]
pub struct GhRelease {
    pub tag_name: String,
    pub name: Option<String>,
    pub body: Option<String>,
    pub draft: bool,
    pub prerelease: bool,
    pub html_url: String,
    pub assets: Vec<GhAsset>,
}

/// An asset offered to the user: its name, size, and the direct and
/// proxied download URLs.
#[derive(Debug)]
pub struct UpdateAssetInfo {
    pub name: String,
    pub size: u64,
    pub direct_url: String,
    pub proxy_url: String,
}

/// `suf` ends `n`.
pub open spec fn chars_end_with(n: Seq<char>, suf: Seq<char>) -> bool {
    suf.len() <= n.len() && n.subrange(n.len() - suf.len(), n.len() as int) == suf
}

/// The lowercased name carries an ARM architecture tag.
pub open spec fn arm_name(n: Seq<char>) -> bool {
    has_substring(n, "arm64"@) || has_substring(n, "aarch64"@) || has_substring(n, "armv7"@)
}

/// The lowercased name carries a 64-bit x86 tag (the two spellings Linux
/// packages use).
pub open spec fn linux_x64_name(n: Seq<char>) -> bool {
    has_substring(n, "x86_64"@) || has_substring(n, "amd64"@)
}

/// The asset is the Linux AppImage build for x86-64.
pub open spec fn linux_appimage_match(a: GhAsset) -> bool {
    let n = lower_ascii_chars(a.name@);
    !arm_name(n) && chars_end_with(n, ".appimage"@) && linux_x64_name(n)
}

/// The asset is the Linux Debian package for x86-64.
pub open spec fn linux_deb_match(a: GhAsset) -> bool {
    let n = lower_ascii_chars(a.name@);
    !arm_name(n) && chars_end_with(n, ".deb"@) && linux_x64_name(n)
}

/// The asset is the Windows installer for x86-64.
pub open spec fn windows_asset_match(a: GhAsset) -> bool {
    let n = lower_ascii_chars(a.name@);
    !arm_name(n) && (chars_end_with(n, ".exe"@) || chars_end_with(n, ".msi"@)) && (has_substring(
        n,
        "x64"@,
    ) || has_substring(n, "x86_64"@) || has_substring(n, "amd64"@))
}

/// The asset is a macOS package (the common suffixes).
pub open spec fn macos_pkg_name(n: Seq<char>) -> bool {
    chars_end_with(n, ".dmg"@) || chars_end_with(n, ".pkg"@) || chars_end_with(n, ".zip"@)
}

/// The asset is the macOS package for Apple Silicon.
pub open spec fn macos_arm_match(a: GhAsset) -> bool {
    let n = lower_ascii_chars(a.name@);
    macos_pkg_name(n) && (has_substring(n, "arm64"@) || has_substring(n, "aarch64"@))
}

/// The asset is the macOS package for Intel.
pub open spec fn macos_x64_match(a: GhAsset) -> bool {
    let n = lower_ascii_chars(a.name@);
    macos_pkg_name(n) && !(has_substring(n, "arm64"@) || has_substring(n, "aarch64"@)) && (
    has_substring(n, "x86_64"@) || has_substring(n, "x64"@) || has_substring(n, "amd64"@))
}

/// Executable mirror of [`linux_appimage_match`].
fn asset_is_linux_appimage(a: &GhAsset) -> (r: bool)
    ensures
        r == linux_appimage_match(*a),
{
    let n = ascii_lowercase(a.name.as_str());
    let arm = str_contains(n.as_str(), "arm64") || str_contains(n.as_str(), "aarch64")
        || str_contains(n.as_str(), "armv7");
    !arm && str_ends_with(n.as_str(), ".appimage") && (str_contains(n.as_str(), "x86_64")
        || str_contains(n.as_str(), "amd64"))
}

/// Executable mirror of [`linux_deb_match`].
fn asset_is_linux_deb(a: &GhAsset) -> (r: bool)
    ensures
        r == linux_deb_match(*a),
{
    let n = ascii_lowercase(a.name.as_str());
    let arm = str_contains(n.as_str(), "arm64") || str_contains(n.as_str(), "aarch64")
        || str_contains(n.as_str(), "armv7");
    !arm && str_ends_with(n.as_str(), ".deb") && (str_contains(n.as_str(), "x86_64")
        || str_contains(n.as_str(), "amd64"))
}

/// Executable mirror of [`windows_asset_match`].
fn asset_is_windows(a: &GhAsset) -> (r: bool)
    ensures
        r == windows_asset_match(*a),
{
    let n = ascii_lowercase(a.name.as_str());
    let arm = str_contains(n.as_str(), "arm64") || str_contains(n.as_str(), "aarch64")
        || str_contains(n.as_str(), "armv7");
    !arm && (str_ends_with(n.as_str(), ".exe") || str_ends_with(n.as_str(), ".msi")) && (
    str_contains(n.as_str(), "x64") || str_contains(n.as_str(), "x86_64") || str_contains(
        n.as_str(),
        "amd64",
    ))
}

/// Executable mirror of [`macos_arm_match`].
fn asset_is_macos_arm(a: &GhAsset) -> (r: bool)
    ensures
        r == macos_arm_match(*a),
{
    let n = ascii_lowercase(a.name.as_str());
    let pkg = str_ends_with(n.as_str(), ".dmg") || str_ends_with(n.as_str(), ".pkg")
        || str_ends_with(n.as_str(), ".zip");
    pkg && (str_contains(n.as_str(), "arm64") || str_contains(n.as_str(), "aarch64"))
}

/// Executable mirror of [`macos_x64_match`].
fn asset_is_macos_x64(a: &GhAsset) -> (r: bool)
    ensures
        r == macos_x64_match(*a),
{
    let n = ascii_lowercase(a.name.as_str());
    let pkg = str_ends_with(n.as_str(), ".dmg") || str_ends_with(n.as_str(), ".pkg")
        || str_ends_with(n.as_str(), ".zip");
    let arm = str_contains(n.as_str(), "arm64") || str_contains(n.as_str(), "aarch64");
    pkg && !arm && (str_contains(n.as_str(), "x86_64") || str_contains(n.as_str(), "x64")
        || str_contains(n.as_str(), "amd64"))
}

/// The Linux assets worth offering: the first matching AppImage and the
/// first matching Debian package, by index.
pub fn match_linux_assets(assets: &Vec<GhAsset>) -> (r: (Option<usize>, Option<usize>))
    ensures
        (r.0 matches Some(i) ==> i < assets@.len() && linux_appimage_match(assets@[i as int])
            && forall|j: int| 0 <= j < i ==> !linux_appimage_match(#[trigger] assets@[j])),
        (r.0 is None <==> forall|j: int|
            0 <= j < assets@.len() ==> !linux_appimage_match(#[trigger] assets@[j])),
        (r.1 matches Some(i) ==> i < assets@.len() && linux_deb_match(assets@[i as int]) && forall|
            j: int,
        | 0 <= j < i ==> !linux_deb_match(#[trigger] assets@[j])),
        (r.1 is None <==> forall|j: int|
            0 <= j < assets@.len() ==> !linux_deb_match(#[trigger] assets@[j])),
{
    let n = assets.len();
    let mut appimage: Option<usize> = None;
    let mut deb: Option<usize> = None;
    let mut i: usize = 0;
    while i < n
        invariant
            i <= n,
            n == assets@.len(),
            (appimage matches Some(x) ==> x < i && linux_appimage_match(assets@[x as int])
                && forall|j: int| 0 <= j < x ==> !linux_appimage_match(#[trigger] assets@[j])),
            (appimage is None ==> forall|j: int|
                0 <= j < i ==> !linux_appimage_match(#[trigger] assets@[j])),
            (deb matches Some(x) ==> x < i && linux_deb_match(assets@[x as int]) && forall|j: int|
                0 <= j < x ==> !linux_deb_match(#[trigger] assets@[j])),
            (deb is None ==> forall|j: int|
                0 <= j < i ==> !linux_deb_match(#[trigger] assets@[j])),
        decreases n - i,
    {
        if appimage.is_none() && asset_is_linux_appimage(&assets[i]) {
            appimage = Some(i);
        }
        if deb.is_none() && asset_is_linux_deb(&assets[i]) {
            deb = Some(i);
        }
        i = i + 1;
    }
    (appimage, deb)
}

/// The Windows asset worth offering: the first matching installer, by
/// index.
pub fn match_windows_asset(assets: &Vec<GhAsset>) -> (r: Option<usize>)
    ensures
        (r matches Some(i) ==> i < assets@.len() && windows_asset_match(assets@[i as int])
            && forall|j: int| 0 <= j < i ==> !windows_asset_match(#[trigger] assets@[j])),
        (r is None <==> forall|j: int|
            0 <= j < assets@.len() ==> !windows_asset_match(#[trigger] assets@[j])),
{
    let n = assets.len();
    let mut i: usize = 0;
    while i < n
        invariant
            i <= n,
            n == assets@.len(),
            forall|j: int| 0 <= j < i ==> !windows_asset_match(#[trigger] assets@[j]),
        decreases n - i,
    {
        if asset_is_windows(&assets[i]) {
            return Some(i);
        }
        i = i + 1;
    }
    None
}

/// The macOS assets worth offering: the first Intel and the first Apple
/// Silicon package, by index.
pub fn match_macos_assets(assets: &Vec<GhAsset>) -> (r: (Option<usize>, Option<usize>))
    ensures
        (r.0 matches Some(i) ==> i < assets@.len() && macos_x64_match(assets@[i as int]) && forall|
            j: int,
        | 0 <= j < i ==> !macos_x64_match(#[trigger] assets@[j])),
        (r.0 is None <==> forall|j: int|
            0 <= j < assets@.len() ==> !macos_x64_match(#[trigger] assets@[j])),
        (r.1 matches Some(i) ==> i < assets@.len() && macos_arm_match(assets@[i as int]) && forall|
            j: int,
        | 0 <= j < i ==> !macos_arm_match(#[trigger] assets@[j])),
        (r.1 is None <==> forall|j: int|
            0 <= j < assets@.len() ==> !macos_arm_match(#[trigger] assets@[j])),
{
    let n = assets.len();
    let mut x64: Option<usize> = None;
    let mut arm: Option<usize> = None;
    let mut i: usize = 0;
    while i < n
        invariant
            i <= n,
            n == assets@.len(),
            (x64 matches Some(x) ==> x < i && macos_x64_match(assets@[x as int]) && forall|j: int|
                0 <= j < x ==> !macos_x64_match(#[trigger] assets@[j])),
            (x64 is None ==> forall|j: int|
                0 <= j < i ==> !macos_x64_match(#[trigger] assets@[j])),
            (arm matches Some(x) ==> x < i && macos_arm_match(assets@[x as int]) && forall|j: int|
                0 <= j < x ==> !macos_arm_match(#[trigger] assets@[j])),
            (arm is None ==> forall|j: int|
                0 <= j < i ==> !macos_arm_match(#[trigger] assets@[j])),
        decreases n - i,
    {
        if x64.is_none() && asset_is_macos_x64(&assets[i]) {
            x64 = Some(i);
        }
        if arm.is_none() && asset_is_macos_arm(&assets[i]) {
            arm = Some(i);
        }
        i = i + 1;
    }
    (x64, arm)
}

/// The release to offer: the first that is not a draft and, unless
/// pre-releases were asked for, not a pre-release.
pub fn pick_release(releases: &Vec<GhRelease>, include_prerelease: bool) -> (r: Option<usize>)
    ensures
        (r matches Some(i) ==> i < releases@.len() && !releases@[i as int].draft && (
        include_prerelease || !releases@[i as int].prerelease) && forall|j: int|
            0 <= j < i ==> ((#[trigger] releases@[j]).draft || (!include_prerelease
                && releases@[j].prerelease))),
        (r is None <==> forall|j: int|
            0 <= j < releases@.len() ==> ((#[trigger] releases@[j]).draft || (!include_prerelease
                && releases@[j].prerelease))),
{
    let n = releases.len();
    let mut i: usize = 0;
    while i < n
        invariant
            i <= n,
            n == releases@.len(),
            forall|j: int|
                0 <= j < i ==> ((#[trigger] releases@[j]).draft || (!include_prerelease
                    && releases@[j].prerelease)),
        decreases n - i,
    {
        let ok = !releases[i].draft && (include_prerelease || !releases[i].prerelease);
        if ok {
            return Some(i);
        }
        i = i + 1;
    }
    None
}

/// Shapes an asset for the user: its name and size, the direct URL, and
/// the proxied URL beside it.
pub fn asset_info(a: &GhAsset) -> (r: UpdateAssetInfo)
    ensures
        r.name@ == a.name@,
        r.size == (match a.size {
            Some(s) => s,
            None => 0u64,
        }),
        r.direct_url@ == a.browser_download_url@,
        r.proxy_url@ == proxied_url_chars(a.browser_download_url@),
{
    let size = match a.size {
        Some(s) => s,
        None => 0,
    };
    UpdateAssetInfo {
        name: a.name.clone(),
        size,
        direct_url: a.browser_download_url.clone(),
        proxy_url: gh_proxy_url(a.browser_download_url.as_str()),
    }
}

} // verus!

verus! {

/// Where the updater runs, as the asset choice needs it.
#[derive(Clone, Copy, Debug, PartialEq, Eq, Structural)]
pub enum OsTag {
    Windows,
    Linux,
    MacOs,
    Other,
}

/// What a check for updates answers: the version comparison and the assets
/// worth offering on this platform.
#[derive(Debug)]
pub struct CheckUpdateResp {
    pub has_update: bool,
    pub current: String,
    pub latest: String,
    pub release_name: String,
    pub notes: String,
    pub html_url: String,
    pub asset_win: Option<UpdateAssetInfo>,
    pub asset_linux_appimage: Option<UpdateAssetInfo>,
    pub asset_linux_deb: Option<UpdateAssetInfo>,
    pub asset_macos_x64: Option<UpdateAssetInfo>,
    pub asset_macos_arm: Option<UpdateAssetInfo>,
}

/// A release the updater may offer.
pub open spec fn eligible_release(r: GhRelease, include_prerelease: bool) -> bool {
    !r.draft && (include_prerelease || !r.prerelease)
}

/// Version tuple `a` outranks `b`.
pub open spec fn better_spec(a: (int, int, int, int), b: (int, int, int, int)) -> bool {
    a.0 > b.0 || (a.0 == b.0 && (a.1 > b.1 || (a.1 == b.1 && (a.2 > b.2 || (a.2 == b.2 && a.3
        > b.3)))))
}

/// The normalized tag of a release: trimmed, leading `v`s dropped.
pub open spec fn latest_tag_chars(r: GhRelease) -> Seq<char> {
    drop_leading(trim_back(trim_front(r.tag_name@)), 'v')
}

/// A populated asset slot mirrors one release asset: its name and size,
/// the direct download URL, and the proxied URL beside it.
pub open spec fn info_of_asset(info: UpdateAssetInfo, a: GhAsset) -> bool {
    info.name@ == a.name@ && info.size == (match a.size {
        Some(s) => s,
        None => 0u64,
    }) && info.direct_url@ == a.browser_download_url@ && info.proxy_url@ == proxied_url_chars(
        a.browser_download_url@,
    )
}

/// Reads the release feed: picks the first eligible release, compares its
/// tag against the current version, and selects this platform's assets:
/// each populated slot carries the first matching asset of its kind.
/// Fails exactly when no release is eligible.
pub fn check_update_from_releases(
    current: &str,
    os_tag: OsTag,
    include_prerelease: bool,
    releases: &Vec<GhRelease>,
) -> (r: Result<CheckUpdateResp, String>)
    ensures
        r.is_ok() <==> exists|j: int|
            0 <= j < releases@.len() && eligible_release(#[trigger] releases@[j],
            include_prerelease),
        (r matches Err(e) ==> e@ == "no release found"@),
        (r matches Ok(resp) ==> exists|i: int|
            {
                &&& 0 <= i < releases@.len()
                &&& eligible_release(#[trigger] releases@[i], include_prerelease)
                &&& (forall|j: int|
                    0 <= j < i ==> !eligible_release(#[trigger] releases@[j], include_prerelease))
                &&& resp.current@ == current@
                &&& resp.latest@ == latest_tag_chars(releases@[i])
                &&& resp.has_update == better_spec(
                    norm_ver_spec(latest_tag_chars(releases@[i])),
                    norm_ver_spec(current@),
                )
                &&& resp.html_url@ == releases@[i].html_url@
                &&& resp.notes@ == (match releases@[i].body {
                    Some(b) => b@,
                    None => Seq::<char>::empty(),
                })
                &&& resp.release_name@ == (match releases@[i].name {
                    Some(n) => n@,
                    None => latest_tag_chars(releases@[i]),
                })
                &&& (os_tag == OsTag::Windows ==> (match resp.asset_win {
                    Some(info) => exists|j: int|
                        0 <= j < releases@[i].assets@.len() && windows_asset_match(
                            #[trigger] releases@[i].assets@[j],
                        ) && (forall|k: int|
                            0 <= k < j ==> !windows_asset_match(
                                #[trigger] releases@[i].assets@[k],
                            )) && info_of_asset(info, releases@[i].assets@[j]),
                    None => forall|j: int|
                        0 <= j < releases@[i].assets@.len() ==> !windows_asset_match(
                            #[trigger] releases@[i].assets@[j],
                        ),
                }))
                &&& (os_tag == OsTag::Linux ==> (match resp.asset_linux_appimage {
                    Some(info) => exists|j: int|
                        0 <= j < releases@[i].assets@.len() && linux_appimage_match(
                            #[trigger] releases@[i].assets@[j],
                        ) && (forall|k: int|
                            0 <= k < j ==> !linux_appimage_match(
                                #[trigger] releases@[i].assets@[k],
                            )) && info_of_asset(info, releases@[i].assets@[j]),
                    None => forall|j: int|
                        0 <= j < releases@[i].assets@.len() ==> !linux_appimage_match(
                            #[trigger] releases@[i].assets@[j],
                        ),
                }))
                &&& (os_tag == OsTag::Linux ==> (match resp.asset_linux_deb {
                    Some(info) => exists|j: int|
                        0 <= j < releases@[i].assets@.len() && linux_deb_match(
                            #[trigger] releases@[i].assets@[j],
                        ) && (forall|k: int|
                            0 <= k < j ==> !linux_deb_match(#[trigger] releases@[i].assets@[k]))
                            && info_of_asset(info, releases@[i].assets@[j]),
                    None => forall|j: int|
                        0 <= j < releases@[i].assets@.len() ==> !linux_deb_match(
                            #[trigger] releases@[i].assets@[j],
                        ),
                }))
                &&& (os_tag == OsTag::MacOs ==> (match resp.asset_macos_x64 {
                    Some(info) => exists|j: int|
                        0 <= j < releases@[i].assets@.len() && macos_x64_match(
                            #[trigger] releases@[i].assets@[j],
                        ) && (forall|k: int|
                            0 <= k < j ==> !macos_x64_match(#[trigger] releases@[i].assets@[k]))
                            && info_of_asset(info, releases@[i].assets@[j]),
                    None => forall|j: int|
                        0 <= j < releases@[i].assets@.len() ==> !macos_x64_match(
                            #[trigger] releases@[i].assets@[j],
                        ),
                }))
                &&& (os_tag == OsTag::MacOs ==> (match resp.asset_macos_arm {
                    Some(info) => exists|j: int|
                        0 <= j < releases@[i].assets@.len() && macos_arm_match(
                            #[trigger] releases@[i].assets@[j],
                        ) && (forall|k: int|
                            0 <= k < j ==> !macos_arm_match(#[trigger] releases@[i].assets@[k]))
                            && info_of_asset(info, releases@[i].assets@[j]),
                    None => forall|j: int|
                        0 <= j < releases@[i].assets@.len() ==> !macos_arm_match(
                            #[trigger] releases@[i].assets@[j],
                        ),
                }))
                &&& (os_tag != OsTag::Windows ==> resp.asset_win is None)
                &&& (os_tag != OsTag::Linux ==> resp.asset_linux_appimage is None
                    && resp.asset_linux_deb is None)
                &&& (os_tag != OsTag::MacOs ==> resp.asset_macos_x64 is None
                    && resp.asset_macos_arm is None)
            }),
{
    let picked = match pick_release(releases, include_prerelease) {
        Some(i) => i,
        None => {
            return Err(String::from_str("no release found"));
        },
    };
    let release = &releases[picked];

    let trimmed = trim_ascii(release.tag_name.as_str());
    let latest_tag = drop_leading_vs(trimmed.as_str());
    let n_cur = norm_ver(current);
    let n_new = norm_ver(latest_tag.as_str());
    let has_update = is_better(&n_new, &n_cur);

    let mut asset_win: Option<UpdateAssetInfo> = None;
    let mut asset_linux_appimage: Option<UpdateAssetInfo> = None;
    let mut asset_linux_deb: Option<UpdateAssetInfo> = None;
    let mut asset_macos_x64: Option<UpdateAssetInfo> = None;
    let mut asset_macos_arm: Option<UpdateAssetInfo> = None;
    match os_tag {
        OsTag::Windows => {
            match match_windows_asset(&release.assets) {
                Some(j) => {
                    asset_win = Some(asset_info(&release.assets[j]));
                },
                None => {},
            }
        },
        OsTag::Linux => {
            let (ai, deb) = match_linux_assets(&release.assets);
            match ai {
                Some(j) => {
                    asset_linux_appimage = Some(asset_info(&release.assets[j]));
                },
                None => {},
            }
            match deb {
                Some(j) => {
                    asset_linux_deb = Some(asset_info(&release.assets[j]));
                },
                None => {},
            }
        },
        OsTag::MacOs => {
            let (x64, arm) = match_macos_assets(&release.assets);
            match x64 {
                Some(j) => {
                    asset_macos_x64 = Some(asset_info(&release.assets[j]));
                },
                None => {},
            }
            match arm {
                Some(j) => {
                    asset_macos_arm = Some(asset_info(&release.assets[j]));
                },
                None => {},
            }
        },
        OsTag::Other => {},
    }

    let notes = match &release.body {
        Some(b) => b.clone(),
        None => String::new(),
    };
    let name = match &release.name {
        Some(n) => n.clone(),
        None => latest_tag.clone(),
    };

    Ok(
        CheckUpdateResp {
            has_update,
            current: current.to_owned(),
            latest: latest_tag,
            release_name: name,
            notes,
            html_url: release.html_url.clone(),
            asset_win,
            asset_linux_appimage,
            asset_linux_deb,
            asset_macos_x64,
            asset_macos_arm,
        },
    )
}

} // verus!
