//! Probing the channel manifests of recent days: which dates to probe,
//! where each manifest lives, how the `[pkg.rust]` version is read from
//! it, and how the findings are put in order.

use vstd::prelude::*;
use vstd::string::StrSliceExecFns;
use crate::constants::STATIC_DIST_BASE_URL;
use crate::release::{release_texts, sort_by_date, sort_releases_by_date_desc, RustRelease};
use crate::text::{
    chars_of, decimal, digit_char, find_chars, find_from, lemma_find_from, string_texts, u32_to_decimal,
};

verus! {

broadcast use vstd::string::group_string_axioms;

/// Marker of the Rust package section of a channel manifest.
pub const PKG_RUST_MARKER: &'static str = "[pkg.rust]";

/// The key that precedes the quoted version in that section.
pub const VERSION_KEY: &'static str = "version = \"";

/// The closing quote of the version.
pub const QUOTE: &'static str = "\"";

/// An ASCII decimal digit.
pub open spec fn is_digit(c: char) -> bool {
    48 <= (c as u32) <= 57
}

/// A date `dddd-dd-dd` of ASCII digits starts at index `i` of `s`.
pub open spec fn date_at(s: Seq<char>, i: int) -> bool {
    &&& 0 <= i
    &&& i + 10 <= s.len()
    &&& is_digit(s[i]) && is_digit(s[i + 1]) && is_digit(s[i + 2]) && is_digit(s[i + 3])
    &&& s[i + 4] == '-'
    &&& is_digit(s[i + 5]) && is_digit(s[i + 6])
    &&& s[i + 7] == '-'
    &&& is_digit(s[i + 8]) && is_digit(s[i + 9])
}

/// Index of the leftmost date in `s` at or after `i`.
pub open spec fn first_date_from(s: Seq<char>, i: int) -> Option<int>
    decreases s.len() + 1 - i,
{
    if i < 0 || i + 10 > s.len() {
        None
    } else if date_at(s, i) {
        Some(i)
    } else {
        first_date_from(s, i + 1)
    }
}

/// The leftmost date in `s`, if there is one.
pub open spec fn first_date(s: Seq<char>) -> Option<Seq<char>> {
    match first_date_from(s, 0) {
        Some(i) => Some(s.subrange(i, i + 10)),
        None => None,
    }
}

/// The pattern of a date in a version text: `(\d{4}-\d{2}-\d{2})`.
pub const DATE_PATTERN: &'static str = "(\\d{4}-\\d{2}-\\d{2})";

/// Calls `regex_lite::Regex::captures` with `pattern`, which is
/// `DATE_PATTERN`, and returns capture group 1. Claimed: it is the leftmost
/// match, and `\d` is `[0-9]` (the crate documents its Perl classes as ASCII
/// only and its search as returning the first match), so the result is the
/// leftmost ten characters shaped `dddd-dd-dd`.
#[verifier::external_body]
fn find_date(pattern: &str, text: &str) -> (r: Option<String>)
    requires
        pattern@ == DATE_PATTERN@,
    ensures
        match first_date(text@) {
            Some(d) => r matches Some(x) && x@ == d,
            None => r is None,
        },
{
    let re = regex_lite::Regex::new(pattern).unwrap();
    match re.captures(text) {
        Some(caps) => Some(caps[1].to_string()),
        None => None,
    }
}

/// The version text of the `[pkg.rust]` section: between the first
/// `version = "` after the first `[pkg.rust]` and the next quote.
pub open spec fn manifest_version(text: Seq<char>) -> Option<Seq<char>> {
    match find_from(text, PKG_RUST_MARKER@, 0) {
        None => None,
        Some(p) => match find_from(text, VERSION_KEY@, p + PKG_RUST_MARKER@.len()) {
            None => None,
            Some(v) => match find_from(text, QUOTE@, v + VERSION_KEY@.len()) {
                None => None,
                Some(q) => Some(text.subrange(v + VERSION_KEY@.len(), q)),
            },
        },
    }
}

/// The release a channel manifest describes: its version text, the date
/// found in that version (or the probed date), and the channel.
pub open spec fn manifest_release(
    text: Seq<char>,
    channel: Seq<char>,
    fallback_date: Seq<char>,
) -> Option<(Seq<char>, Seq<char>, Seq<char>)> {
    match manifest_version(text) {
        None => None,
        Some(v) => Some(
            (
                v,
                match first_date(v) {
                    Some(d) => d,
                    None => fallback_date,
                },
                channel,
            ),
        ),
    }
}

/// Law: the version text of a manifest is the value quoted after the first
/// `version = "` that follows the first `[pkg.rust]`, up to the next quote,
/// so it holds no quote itself; without such a marker, key and closing
/// quote there is no version.
pub proof fn law_manifest_version_is_quoted_value(text: Seq<char>)
    ensures
        manifest_version(text) matches Some(v) ==> ((forall|i: int| 0 <= i < v.len() ==> v[i] != '"')
            && exists|p: int, k: int|
            #[trigger] crate::text::occurs_at(text, PKG_RUST_MARKER@, p) && (forall|j: int|
                0 <= j < p ==> !crate::text::occurs_at(text, PKG_RUST_MARKER@, j)) && p
                + PKG_RUST_MARKER@.len() <= k && #[trigger] crate::text::occurs_at(
                text,
                VERSION_KEY@,
                k,
            ) && (forall|j: int|
                p + PKG_RUST_MARKER@.len() <= j < k ==> !crate::text::occurs_at(text, VERSION_KEY@, j))
                && text.subrange(k + VERSION_KEY@.len(), k + VERSION_KEY@.len() + v.len()) == v
                && k + VERSION_KEY@.len() + v.len() < text.len() && text[k + VERSION_KEY@.len()
                + v.len()] == '"'),
        manifest_version(text) is None <==> !(exists|p: int, k: int, q: int|
            #[trigger] crate::text::occurs_at(text, PKG_RUST_MARKER@, p) && p + PKG_RUST_MARKER@.len() <= k
                && #[trigger] crate::text::occurs_at(text, VERSION_KEY@, k) && k + VERSION_KEY@.len()
                <= q && q < text.len() && #[trigger] text[q] == '"'),
{
    reveal_strlit("\"");
    let m = PKG_RUST_MARKER@;
    let key = VERSION_KEY@;
    let quote = QUOTE@;
    assert(quote.len() == 1 && quote[0] == '"');
    lemma_find_from(text, m, 0);
    let exists_all = exists|p: int, k: int, q: int|
        #[trigger] crate::text::occurs_at(text, m, p) && p + m.len() <= k && #[trigger] crate::text::occurs_at(
            text,
            key,
            k,
        ) && k + key.len() <= q && q < text.len() && #[trigger] text[q] == '"';
    match find_from(text, m, 0) {
        None => {
            assert(!exists_all);
        },
        Some(p) => {
            lemma_find_from(text, key, p + m.len());
            match find_from(text, key, p + m.len()) {
                None => {
                    assert(!exists_all) by {
                        if exists_all {
                            let (p2, k2, q2) = choose|p2: int, k2: int, q2: int|
                                #[trigger] crate::text::occurs_at(text, m, p2) && p2 + m.len() <= k2
                                    && #[trigger] crate::text::occurs_at(text, key, k2) && k2
                                    + key.len() <= q2 && q2 < text.len() && #[trigger] text[q2]
                                    == '"';
                            assert(p <= p2);
                            assert(!crate::text::occurs_at(text, key, k2));
                        }
                    }
                },
                Some(k) => {
                    let start = k + key.len();
                    lemma_find_from(text, quote, start);
                    match find_from(text, quote, start) {
                        None => {
                            assert(!exists_all) by {
                                if exists_all {
                                    let (p2, k2, q2) = choose|p2: int, k2: int, q2: int|
                                        #[trigger] crate::text::occurs_at(text, m, p2) && p2 + m.len() <= k2
                                            && #[trigger] crate::text::occurs_at(text, key, k2)
                                            && k2 + key.len() <= q2 && q2 < text.len()
                                            && #[trigger] text[q2] == '"';
                                    assert(p <= p2);
                                    assert(k <= k2);
                                    assert(text.subrange(q2, q2 + 1) =~= quote);
                                    assert(crate::text::occurs_at(text, quote, q2));
                                }
                            }
                        },
                        Some(q) => {
                            let v = text.subrange(start, q);
                            assert(text.subrange(q, q + 1) == quote);
                            assert(text[q] == text.subrange(q, q + 1)[0]);
                            assert(v.len() == q - start);
                            assert(text.subrange(start, start + v.len()) == v);
                            assert forall|i: int| 0 <= i < v.len() implies v[i] != '"' by {
                                assert(v[i] == text[start + i]);
                                if text[start + i] == '"' {
                                    assert(text.subrange(start + i, start + i + 1) =~= quote);
                                    assert(crate::text::occurs_at(text, quote, start + i));
                                }
                            }
                            assert(crate::text::occurs_at(text, key, k));
                            assert(text[q] == '"');
                        },
                    }
                },
            }
        },
    }
}

/// What `first_date_from` finds is the leftmost date at or after `k`.
proof fn lemma_first_date_from(s: Seq<char>, k: int)
    requires
        0 <= k,
    ensures
        match first_date_from(s, k) {
            Some(i) => k <= i && date_at(s, i) && forall|j: int| k <= j < i ==> !date_at(s, j),
            None => forall|j: int| k <= j ==> !date_at(s, j),
        },
    decreases s.len() + 1 - k,
{
    if k + 10 > s.len() {
    } else if date_at(s, k) {
    } else {
        lemma_first_date_from(s, k + 1);
    }
}

/// Law: whatever the channel, the release read from a channel manifest has
/// the `[pkg.rust]` version text as its version and the channel asked for;
/// its date is the leftmost `dddd-dd-dd` in that version text, and the
/// probed date only when the text holds no such date.
pub proof fn law_manifest_date_from_version(
    text: Seq<char>,
    channel: Seq<char>,
    fallback_date: Seq<char>,
)
    ensures
        manifest_release(text, channel, fallback_date) is Some <==> manifest_version(text) is Some,
        manifest_release(text, channel, fallback_date) matches Some((v, d, c)) ==> (manifest_version(
            text,
        ) == Some(v) && c == channel && ((forall|i: int| !#[trigger] date_at(v, i)) ==> d
            == fallback_date) && ((exists|i: int| #[trigger] date_at(v, i)) ==> exists|i: int|
            #[trigger] date_at(v, i) && d == v.subrange(i, i + 10) && (forall|j: int|
                0 <= j < i ==> !date_at(v, j)))),
{
    if let Some(v) = manifest_version(text) {
        lemma_first_date_from(v, 0);
        if let Some(i) = first_date_from(v, 0) {
            assert(date_at(v, i));
        } else {
            assert forall|i: int| !#[trigger] date_at(v, i) by {
                if i >= 0 {
                    assert(!date_at(v, i));
                }
            }
        }
    }
}

/// Law: the channel asked for changes nothing but the channel of the
/// release read from a manifest: version and date are those of the text.
pub proof fn law_manifest_release_channel_blind(
    text: Seq<char>,
    c1: Seq<char>,
    c2: Seq<char>,
    fallback_date: Seq<char>,
)
    ensures
        manifest_release(text, c1, fallback_date) matches Some((v1, d1, ch1)) ==> (manifest_release(
            text,
            c2,
            fallback_date,
        ) matches Some((v2, d2, ch2)) && v1 == v2 && d1 == d2 && ch1 == c1 && ch2 == c2),
{
}

/// Parse the version field of the `[pkg.rust]` section of a channel TOML.
pub fn parse_channel_toml_version(text: &str, channel: &str, fallback_date: &str) -> (r: Option<
    RustRelease,
>)
    ensures
        match manifest_release(text@, channel@, fallback_date@) {
            None => r is None,
            Some(t) => r matches Some(rel) && release_texts(rel) == t,
        },
        r matches Some(rel) ==> (rel.channel@ == channel@ && ((forall|i: int|
            !#[trigger] date_at(rel.version@, i)) ==> rel.date@ == fallback_date@) && ((exists|i: int|
            #[trigger] date_at(rel.version@, i)) ==> exists|i: int|
            #[trigger] date_at(rel.version@, i) && rel.date@ == rel.version@.subrange(i, i + 10)
                && (forall|j: int| 0 <= j < i ==> !date_at(rel.version@, j)))),
{
    proof {
        law_manifest_date_from_version(text@, channel@, fallback_date@);
    }
    let t = chars_of(text);
    let marker = chars_of(PKG_RUST_MARKER);
    let key = chars_of(VERSION_KEY);
    let quote = chars_of(QUOTE);
    let text_len: usize = t.len();
    let p = match find_chars(&t, &marker, 0) {
        Some(p) => p,
        None => return None,
    };
    proof {
        lemma_find_from(t@, marker@, 0);
        assert(p + marker@.len() <= text_len);
    }
    let v = match find_chars(&t, &key, p + marker.len()) {
        Some(v) => v,
        None => return None,
    };
    proof {
        lemma_find_from(t@, key@, (p + marker.len()) as int);
        assert(v + key@.len() <= text_len);
    }
    let start = v + key.len();
    let q = match find_chars(&t, &quote, start) {
        Some(q) => q,
        None => return None,
    };
    proof {
        lemma_find_from(t@, quote@, start as int);
        assert(start <= q && q <= t@.len());
    }
    let version = text.substring_char(start, q);
    let date = match find_date(DATE_PATTERN, version) {
        Some(d) => d,
        None => String::from_str(fallback_date),
    };
    let rel = RustRelease {
        version: String::from_str(version),
        date,
        channel: String::from_str(channel),
    };
    proof {
        let (mv, md, mc) = manifest_release(text@, channel@, fallback_date@).unwrap();
        assert(release_texts(rel) == (mv, md, mc));
        assert(rel.version@ == mv && rel.date@ == md && rel.channel@ == mc);
    }
    Some(rel)
}

/// The address of a channel manifest:
/// `https://static.rust-lang.org/dist/{date}/channel-rust-{channel}.toml`.
pub open spec fn spec_channel_toml_url(date: Seq<char>, channel: Seq<char>) -> Seq<char> {
    STATIC_DIST_BASE_URL@ + "/"@ + date + "/channel-rust-"@ + channel + ".toml"@
}

/// Law: the manifest address of a date and a channel is
/// `https://static.rust-lang.org/dist/{date}/channel-rust-{channel}.toml`,
/// so the channel asked for stands in it: two channels give two addresses
/// for one date, and two dates give two addresses for one channel.
pub proof fn law_channel_toml_url_names_channel(date: Seq<char>, c1: Seq<char>, c2: Seq<char>)
    ensures
        spec_channel_toml_url(date, c1) == "https://static.rust-lang.org/dist/"@ + date
            + "/channel-rust-"@ + c1 + ".toml"@,
        c1 != c2 ==> spec_channel_toml_url(date, c1) != spec_channel_toml_url(date, c2),
        forall|d2: Seq<char>|
            date != d2 ==> spec_channel_toml_url(date, c1) != #[trigger] spec_channel_toml_url(d2, c1),
{
    reveal_strlit("https://static.rust-lang.org/dist");
    reveal_strlit("/");
    reveal_strlit("https://static.rust-lang.org/dist/");
    reveal_strlit("/channel-rust-");
    reveal_strlit(".toml");
    let base = "https://static.rust-lang.org/dist/"@;
    let mid = "/channel-rust-"@;
    let tail = ".toml"@;
    assert(STATIC_DIST_BASE_URL@ + "/"@ =~= base);
    assert forall|d: Seq<char>, c: Seq<char>|
        #[trigger] spec_channel_toml_url(d, c) == base + d + mid + c + tail by {
        assert(STATIC_DIST_BASE_URL@ + "/"@ + d + mid + c + tail =~= base + d + mid + c + tail);
    }
    let u1 = spec_channel_toml_url(date, c1);
    if c1 != c2 {
        let u2 = spec_channel_toml_url(date, c2);
        let p: int = (base.len() + date.len() + mid.len()) as int;
        assert(u1 == base + date + mid + c1 + tail);
        assert(u2 == base + date + mid + c2 + tail);
        assert(u1.len() == base.len() + date.len() + mid.len() + c1.len() + tail.len());
        assert(u2.len() == base.len() + date.len() + mid.len() + c2.len() + tail.len());
        if u1 == u2 {
            assert(c1.len() == c2.len());
            assert(u1.subrange(p, p + c1.len() as int) =~= c1);
            assert(u2.subrange(p, p + c2.len() as int) =~= c2);
        }
    }
    assert forall|d2: Seq<char>| date != d2 implies spec_channel_toml_url(date, c1)
        != #[trigger] spec_channel_toml_url(d2, c1) by {
        let u2 = spec_channel_toml_url(d2, c1);
        assert(u1 == base + date + mid + c1 + tail);
        assert(u2 == base + d2 + mid + c1 + tail);
        assert(u1.len() == base.len() + date.len() + mid.len() + c1.len() + tail.len());
        assert(u2.len() == base.len() + d2.len() + mid.len() + c1.len() + tail.len());
        if u1 == u2 {
            assert(date.len() == d2.len());
            let b: int = base.len() as int;
            assert(u1.subrange(b, b + date.len() as int) =~= date);
            assert(u2.subrange(b, b + d2.len() as int) =~= d2);
        }
    }
}

/// The address of the channel manifest of `channel` on `date`.
pub fn channel_toml_url(date: &str, channel: &str) -> (url: String)
    ensures
        url@ == spec_channel_toml_url(date@, channel@),
        url@ == "https://static.rust-lang.org/dist/"@ + date@ + "/channel-rust-"@ + channel@ + ".toml"@,
{
    proof {
        law_channel_toml_url_names_channel(date@, channel@, channel@);
    }
    String::from_str(STATIC_DIST_BASE_URL).concat("/").concat(date).concat("/channel-rust-").concat(
        channel,
    ).concat(".toml")
}

/// The (year, month, day) that is `back` days before the given date, as
/// chrono computes it; `None` when the date is invalid or the result is out
/// of chrono's range.
pub uninterp spec fn days_before_date(year: i32, month: u32, day: u32, back: u32) -> Option<
    (i32, u32, u32),
>;

/// Calls `chrono::NaiveDate::checked_sub_days` on the date that
/// `NaiveDate::from_ymd_opt` builds, and reads the result's year, month and
/// day. Claimed: the result is the named date, with a month in 1..=12 and a
/// day in 1..=31 (as `Datelike::month` and `Datelike::day` document).
#[verifier::external_body]
fn date_days_before(year: i32, month: u32, day: u32, back: u32) -> (r: Option<(i32, u32, u32)>)
    ensures
        r == days_before_date(year, month, day, back),
        r matches Some((y, m, d)) ==> 1 <= m <= 12 && 1 <= d <= 31,
{
    match chrono::NaiveDate::from_ymd_opt(year, month, day) {
        Some(date) => match date.checked_sub_days(chrono::Days::new(u64::from(back))) {
            Some(p) => Some((chrono::Datelike::year(&p), chrono::Datelike::month(&p), chrono::Datelike::day(&p))),
            None => None,
        },
        None => None,
    }
}

/// `s` preceded by as many `0` as it takes to reach `w` characters.
pub open spec fn zero_pad(s: Seq<char>, w: nat) -> Seq<char> {
    if s.len() >= w {
        s
    } else {
        Seq::new((w - s.len()) as nat, |i: int| '0') + s
    }
}

/// The year as `%Y` writes it: four digits for 0..=9999, otherwise with a
/// sign and at least four digits.
pub open spec fn year_text(y: i32) -> Seq<char> {
    if 0 <= y <= 9999 {
        zero_pad(decimal(y as nat), 4)
    } else if y > 9999 {
        "+"@ + decimal(y as nat)
    } else {
        "-"@ + zero_pad(decimal((-y) as nat), 4)
    }
}

/// A date as `%Y-%m-%d`: the year, then month and day with two digits each.
pub open spec fn date_text(y: i32, m: u32, d: u32) -> Seq<char> {
    year_text(y) + "-"@ + zero_pad(decimal(m as nat), 2) + "-"@ + zero_pad(decimal(d as nat), 2)
}

/// `n` in decimal, padded with leading zeros to `w` characters.
fn zero_padded(n: u32, w: usize) -> (s: String)
    ensures
        s@ == zero_pad(decimal(n as nat), w as nat),
{
    let digits = u32_to_decimal(n);
    let len = digits.as_str().unicode_len();
    let mut out = String::new();
    let mut k = len;
    while k < w
        invariant
            len == digits@.len(),
            len <= k <= w || (w < len && k == len),
            out@ == Seq::new((k - len) as nat, |i: int| '0'),
        decreases w - k,
    {
        proof {
            reveal_strlit("0");
        }
        out = out.concat("0");
        assert(out@ =~= Seq::new((k + 1 - len) as nat, |i: int| '0'));
        k = k + 1;
    }
    let r = out.concat(digits.as_str());
    assert(r@ =~= zero_pad(decimal(n as nat), w as nat));
    r
}

/// The year as `%Y` writes it.
fn year_of(y: i32) -> (s: String)
    ensures
        s@ == year_text(y),
{
    if 0 <= y && y <= 9999 {
        zero_padded(y as u32, 4)
    } else if y > 9999 {
        String::from_str("+").concat(u32_to_decimal(y as u32).as_str())
    } else {
        let n: u32 = (-(y as i64)) as u32;
        assert(n as nat == (-y) as nat);
        String::from_str("-").concat(zero_padded(n, 4).as_str())
    }
}

/// The decimal digits of `n` are ASCII digits, at least one of them.
proof fn lemma_decimal_digits(n: nat)
    ensures
        decimal(n).len() >= 1,
        forall|i: int| 0 <= i < decimal(n).len() ==> is_digit(#[trigger] decimal(n)[i]),
    decreases n,
{
    if n >= 10 {
        lemma_decimal_digits(n / 10);
        let d = digit_char(n % 10);
        assert((d as u32) == n % 10 + 48);
    } else {
        assert((digit_char(n) as u32) == n + 48);
    }
}

/// Numbers below 10, 100, 1000 and 10000 have at most 1, 2, 3 and 4 digits.
proof fn lemma_decimal_short(n: nat)
    ensures
        n < 10 ==> decimal(n).len() == 1,
        n < 100 ==> decimal(n).len() <= 2,
        n < 1000 ==> decimal(n).len() <= 3,
        n < 10000 ==> decimal(n).len() <= 4,
    decreases n,
{
    if n >= 10 {
        lemma_decimal_short(n / 10);
    }
}

/// Padding digits keeps them digits and gives the width asked for.
proof fn lemma_zero_pad_digits(s: Seq<char>, w: nat)
    requires
        s.len() <= w,
        forall|i: int| 0 <= i < s.len() ==> is_digit(#[trigger] s[i]),
    ensures
        zero_pad(s, w).len() == w,
        forall|i: int| 0 <= i < w ==> is_digit(#[trigger] zero_pad(s, w)[i]),
{
    if s.len() < w {
        let z = Seq::new((w - s.len()) as nat, |i: int| '0');
        assert forall|i: int| 0 <= i < w implies is_digit(#[trigger] zero_pad(s, w)[i]) by {
            if i < z.len() {
                assert(zero_pad(s, w)[i] == '0');
            } else {
                assert(zero_pad(s, w)[i] == s[i - z.len()]);
            }
        }
    }
}

/// Law: a date of a year from 0 to 9999, written as `%Y-%m-%d`, is ten
/// characters shaped `dddd-dd-dd`, the shape the manifest parser reads.
pub proof fn law_date_text_shape(y: i32, m: u32, d: u32)
    requires
        0 <= y <= 9999,
        1 <= m <= 12,
        1 <= d <= 31,
    ensures
        date_text(y, m, d).len() == 10,
        date_at(date_text(y, m, d), 0),
{
    reveal_strlit("-");
    lemma_decimal_digits(y as nat);
    lemma_decimal_digits(m as nat);
    lemma_decimal_digits(d as nat);
    lemma_decimal_short(y as nat);
    lemma_decimal_short(m as nat);
    lemma_decimal_short(d as nat);
    lemma_zero_pad_digits(decimal(y as nat), 4);
    lemma_zero_pad_digits(decimal(m as nat), 2);
    lemma_zero_pad_digits(decimal(d as nat), 2);
    let ys = zero_pad(decimal(y as nat), 4);
    let ms = zero_pad(decimal(m as nat), 2);
    let ds = zero_pad(decimal(d as nat), 2);
    let t = date_text(y, m, d);
    assert(t =~= ys + "-"@ + ms + "-"@ + ds);
    assert(t[0] == ys[0] && t[1] == ys[1] && t[2] == ys[2] && t[3] == ys[3]);
    assert(t[5] == ms[0] && t[6] == ms[1] && t[8] == ds[0] && t[9] == ds[1]);
}

/// The date as `%Y-%m-%d`.
pub fn format_date(y: i32, m: u32, d: u32) -> (s: String)
    ensures
        s@ == date_text(y, m, d),
{
    year_of(y).concat("-").concat(zero_padded(m, 2).as_str()).concat("-").concat(
        zero_padded(d, 2).as_str(),
    )
}

/// The dates probed for `days` days ending with the given day, newest first.
pub open spec fn spec_probe_dates(year: i32, month: u32, day: u32, days: nat) -> Seq<Seq<char>>
    decreases days,
{
    if days == 0 {
        Seq::empty()
    } else {
        let back = (days - 1) as nat;
        spec_probe_dates(year, month, day, back) + match days_before_date(
            year,
            month,
            day,
            back as u32,
        ) {
            Some((y, m, d)) => seq![date_text(y, m, d)],
            None => Seq::empty(),
        }
    }
}

/// The dates to probe: the given day and the `days - 1` days before it,
/// newest first, as `YYYY-MM-DD`.
pub fn probe_dates(year: i32, month: u32, day: u32, days: u32) -> (dates: Vec<String>)
    ensures
        string_texts(dates@) == spec_probe_dates(year, month, day, days as nat),
{
    let mut dates: Vec<String> = Vec::new();
    let mut i: u32 = 0;
    while i < days
        invariant
            i <= days,
            string_texts(dates@) == spec_probe_dates(year, month, day, i as nat),
        decreases days - i,
    {
        match date_days_before(year, month, day, i) {
            Some((y, m, d)) => {
                dates.push(format_date(y, m, d));
            },
            None => {},
        }
        assert(string_texts(dates@) =~= spec_probe_dates(year, month, day, (i + 1) as nat));
        i = i + 1;
    }
    dates
}

/// The records found, in probe order, skipping the dates that gave none.
pub open spec fn found_records(found: Seq<Option<RustRelease>>) -> Seq<RustRelease>
    decreases found.len(),
{
    if found.len() == 0 {
        Seq::empty()
    } else {
        found_records(found.drop_last()) + match found.last() {
            Some(r) => seq![r],
            None => Seq::empty(),
        }
    }
}

/// Gather the records that the probes found, newest first.
pub fn collect_probe_results(found: Vec<Option<RustRelease>>) -> (releases: Vec<RustRelease>)
    ensures
        releases@ == sort_by_date(found_records(found@)),
{
    let ghost input = found@;
    let mut all: Vec<RustRelease> = Vec::new();
    for item in it: found.into_iter()
        invariant
            it.seq() == input,
            all@ == found_records(input.take(it.index())),
    {
        assert(input.take(it.index() + 1).drop_last() =~= input.take(it.index()));
        match item {
            Some(r) => {
                all.push(r);
            },
            None => {},
        }
        assert(all@ =~= found_records(input.take(it.index() + 1)));
    }
    assert(input.take(input.len() as int) =~= input);
    sort_releases_by_date_desc(all)
}

} // verus!
