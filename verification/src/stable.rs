//! The stable channel's sources: pages of the GitHub Releases API and the
//! `RELEASES.md` history, turned into release records.

use vstd::prelude::*;
use vstd::string::StrSliceExecFns;
use vstd::utf8::{decode_utf8, encode_utf8, is_char_boundary};
use crate::constants::{CHANNEL_STABLE, GITHUB_MAX_PAGES, GITHUB_RELEASES_API};
use crate::release::{pair_texts, records_texts, release_texts, RustRelease};
use crate::probe::{date_at, is_digit};
use crate::text::{decimal, u32_to_decimal};

verus! {

broadcast use vstd::string::group_string_axioms;

/// One entry of a GitHub Releases API page, as far as it is read.
#[derive(Debug)]
pub struct GhRelease {
    pub tag_name: String,
    pub published_at: String,
    pub prerelease: bool,
    pub draft: bool,
}

/// The version of a tag: the tag without one leading `v`.
pub open spec fn tag_version(tag: Seq<char>) -> Seq<char> {
    if tag.len() > 0 && tag[0] == 'v' {
        tag.drop_first()
    } else {
        tag
    }
}

/// The date of a publication time: its first ten bytes when they end on a
/// character boundary, else the whole text.
pub open spec fn published_date(published: Seq<char>) -> Seq<char> {
    let b = encode_utf8(published);
    if is_char_boundary(b, 10) {
        decode_utf8(b.subrange(0, 10))
    } else {
        published
    }
}

/// The record an API entry stands for, unless it is a draft or a prerelease.
pub open spec fn github_entry(r: GhRelease) -> Option<(Seq<char>, Seq<char>, Seq<char>)> {
    if r.draft || r.prerelease {
        None
    } else {
        Some((tag_version(r.tag_name@), published_date(r.published_at@), CHANNEL_STABLE@))
    }
}

/// The records of a page of API entries, in page order.
pub open spec fn github_page_records(page: Seq<GhRelease>) -> Seq<(Seq<char>, Seq<char>, Seq<char>)>
    decreases page.len(),
{
    if page.len() == 0 {
        Seq::empty()
    } else {
        github_page_records(page.drop_last()) + match github_entry(page.last()) {
            Some(t) => seq![t],
            None => Seq::empty(),
        }
    }
}

/// The version of a release tag: without a leading `v`.
fn version_of_tag(tag: &str) -> (v: String)
    ensures
        v@ == tag_version(tag@),
{
    let n = tag.unicode_len();
    if n > 0 && tag.get_char(0) == 'v' {
        String::from_str(tag.substring_char(1, n))
    } else {
        String::from_str(tag)
    }
}

/// The date part of a publication time such as `2024-01-02T03:04:05Z`.
fn date_of_published(published: &str) -> (d: String)
    ensures
        d@ == published_date(published@),
{
    if published.is_char_boundary(10) {
        let (head, _rest) = published.split_at(10);
        proof {
            vstd::utf8::encode_utf8_decode_utf8(head@);
        }
        String::from_str(head)
    } else {
        String::from_str(published)
    }
}

/// The records of one page of the GitHub Releases API: drafts and
/// prereleases left out, a leading `v` dropped from each tag, the date cut
/// from the publication time, all on the stable channel.
pub fn releases_from_github_page(page: &Vec<GhRelease>) -> (releases: Vec<RustRelease>)
    ensures
        records_texts(releases@) == github_page_records(page@),
{
    let mut out: Vec<RustRelease> = Vec::new();
    let mut i: usize = 0;
    while i < page.len()
        invariant
            i <= page.len(),
            records_texts(out@) == github_page_records(page@.take(i as int)),
        decreases page.len() - i,
    {
        let r = &page[i];
        assert(page@.take(i + 1).drop_last() =~= page@.take(i as int));
        if !r.draft && !r.prerelease {
            let rel = RustRelease {
                version: version_of_tag(r.tag_name.as_str()),
                date: date_of_published(r.published_at.as_str()),
                channel: String::from_str(CHANNEL_STABLE),
            };
            out.push(rel);
        }
        assert(records_texts(out@) =~= github_page_records(page@.take(i + 1)));
        i = i + 1;
    }
    assert(page@.take(page@.len() as int) =~= page@);
    out
}

/// The page the listing starts with.
pub const GITHUB_FIRST_PAGE: u32 = 1;

/// The address of a page of the GitHub Releases API, 100 entries per page.
pub open spec fn spec_github_page_url(page: u32) -> Seq<char> {
    GITHUB_RELEASES_API@ + "?per_page=100&page="@ + decimal(page as nat)
}

/// The address of page `page` of the GitHub Releases API.
pub fn github_page_url(page: u32) -> (url: String)
    ensures
        url@ == spec_github_page_url(page),
{
    let p = u32_to_decimal(page);
    String::from_str(GITHUB_RELEASES_API).concat("?per_page=100&page=").concat(p.as_str())
}

/// The page to fetch after `page`: none once a page came back empty or the
/// last page (15) was fetched.
pub open spec fn spec_next_github_page(page: u32, entries: nat) -> Option<u32> {
    if entries == 0 || page >= GITHUB_MAX_PAGES {
        None
    } else {
        Some((page + 1) as u32)
    }
}

/// Decide whether to fetch another page after page `page` returned
/// `entries` entries.
pub fn next_github_page(page: u32, entries: usize) -> (next: Option<u32>)
    ensures
        next == spec_next_github_page(page, entries as nat),
{
    if entries == 0 || page >= GITHUB_MAX_PAGES {
        None
    } else {
        Some(page + 1)
    }
}

/// Law: the listing never goes past page 15, and each page follows the one
/// before.
pub proof fn law_github_pages_bounded(page: u32, entries: nat)
    ensures
        spec_next_github_page(page, entries) matches Some(n) ==> n == page + 1 && n
            <= GITHUB_MAX_PAGES,
{
}

/// The pattern of a release heading in `RELEASES.md`:
/// `Version\s+(\d+\.\d+\.\d+)\s+\((\d{4}-\d{2}-\d{2})\)`.
pub const RELEASES_MD_PATTERN: &'static str = "Version\\s+(\\d+\\.\\d+\\.\\d+)\\s+\\((\\d{4}-\\d{2}-\\d{2})\\)";

/// A whitespace character of `\s` in regex-lite: tab, line feed, vertical
/// tab, form feed, carriage return or space.
pub open spec fn is_space(c: char) -> bool {
    let u = c as u32;
    u == 9 || u == 10 || u == 11 || u == 12 || u == 13 || u == 32
}

/// The number of ASCII digits in a row starting at `i`.
pub open spec fn digit_run(s: Seq<char>, i: int) -> nat
    decreases s.len() - i,
{
    if 0 <= i < s.len() && is_digit(s[i]) {
        1 + digit_run(s, i + 1)
    } else {
        0
    }
}

/// The number of whitespace characters in a row starting at `i`.
pub open spec fn space_run(s: Seq<char>, i: int) -> nat
    decreases s.len() - i,
{
    if 0 <= i < s.len() && is_space(s[i]) {
        1 + space_run(s, i + 1)
    } else {
        0
    }
}

/// A heading `Version X.Y.Z (YYYY-MM-DD)` starting at `i`: `Version`,
/// whitespace, three dot-separated digit runs, whitespace, and a date in
/// parentheses. Gives where it ends, the version and the date. Each run is
/// taken whole: what follows a run can never continue it.
pub open spec fn md_heading_at(s: Seq<char>, i: int) -> Option<(int, Seq<char>, Seq<char>)> {
    let a = i + 7;
    if !(0 <= i && a <= s.len() && s.subrange(i, a) == "Version"@) {
        None
    } else {
        let v = a + space_run(s, a);
        let p1 = v + digit_run(s, v);
        let p2 = p1 + 1 + digit_run(s, p1 + 1);
        let ve = p2 + 1 + digit_run(s, p2 + 1);
        let o = ve + space_run(s, ve);
        if space_run(s, a) >= 1 && digit_run(s, v) >= 1 && p1 < s.len() && s[p1] == '.'
            && digit_run(s, p1 + 1) >= 1 && p2 < s.len() && s[p2] == '.' && digit_run(s, p2 + 1)
            >= 1 && space_run(s, ve) >= 1 && o < s.len() && s[o] == '(' && date_at(s, o + 1) && o
            + 11 < s.len() && s[o + 11] == ')' {
            Some((o + 12, s.subrange(v, ve), s.subrange(o + 1, o + 11)))
        } else {
            None
        }
    }
}

/// A heading ends after it starts, within the text.
pub proof fn lemma_md_heading_end(s: Seq<char>, i: int)
    ensures
        md_heading_at(s, i) matches Some((e, v, d)) ==> i < e <= s.len(),
{
}

/// The (version, date) of each heading, found leftmost first from `i` on
/// and searching again after the end of each one, as successive
/// non-overlapping matches are found.
pub open spec fn md_captures_from(s: Seq<char>, i: int) -> Seq<(Seq<char>, Seq<char>)>
    decreases s.len() - i,
{
    if i < 0 || i >= s.len() {
        Seq::empty()
    } else {
        match md_heading_at(s, i) {
            Some((e, v, d)) => {
                proof {
                    lemma_md_heading_end(s, i);
                }
                seq![(v, d)] + md_captures_from(s, e)
            },
            None => md_captures_from(s, i + 1),
        }
    }
}

/// The (version, date) of every heading of a `RELEASES.md` text, in order.
pub open spec fn md_line_captures(text: Seq<char>) -> Seq<(Seq<char>, Seq<char>)> {
    md_captures_from(text, 0)
}

/// Calls `regex_lite::Regex::captures_iter` with `pattern`, which is
/// `RELEASES_MD_PATTERN`, and collects capture groups 1 and 2 of each match.
/// Claimed: the matches are the headings of `md_line_captures`. The crate
/// documents `\s` as `[\t\n\v\f\r ]` and `\d` as `[0-9]`, leftmost-first
/// search, and successive non-overlapping matches; each run in the pattern is
/// followed by a character that cannot continue it, so a match at a position
/// is unique.
#[verifier::external_body]
fn releases_md_captures(pattern: &str, text: &str) -> (caps: Vec<(String, String)>)
    requires
        pattern@ == RELEASES_MD_PATTERN@,
    ensures
        pair_texts(caps@) == md_line_captures(text@),
{
    let re = regex_lite::Regex::new(pattern).unwrap();
    re.captures_iter(text).map(|c| (c[1].to_string(), c[2].to_string())).collect()
}

/// The records for a sequence of (version, date) captures: stable releases.
pub open spec fn md_records(caps: Seq<(Seq<char>, Seq<char>)>) -> Seq<(Seq<char>, Seq<char>, Seq<char>)> {
    caps.map_values(|c: (Seq<char>, Seq<char>)| (c.0, c.1, CHANNEL_STABLE@))
}

/// Stable release records for captured (version, date) pairs, in order.
pub fn releases_from_md_captures(caps: Vec<(String, String)>) -> (releases: Vec<RustRelease>)
    ensures
        records_texts(releases@) == md_records(pair_texts(caps@)),
{
    let ghost input = caps@;
    let mut out: Vec<RustRelease> = Vec::new();
    for c in it: caps.into_iter()
        invariant
            it.seq() == input,
            records_texts(out@) == md_records(pair_texts(input.take(it.index()))),
    {
        assert(input.take(it.index() + 1) =~= input.take(it.index()).push(c));
        let ghost before = out@;
        let ghost cv = (c.0@, c.1@);
        out.push(RustRelease { version: c.0, date: c.1, channel: String::from_str(CHANNEL_STABLE) });
        assert(pair_texts(input.take(it.index() + 1)) =~= pair_texts(input.take(it.index())).push(cv));
        assert(release_texts(out@.last()) == (cv.0, cv.1, CHANNEL_STABLE@));
        assert(out@ =~= before.push(out@.last()));
        assert(records_texts(out@) =~= records_texts(before).push((cv.0, cv.1, CHANNEL_STABLE@)));
        assert(md_records(pair_texts(input.take(it.index())).push(cv)) =~= md_records(
            pair_texts(input.take(it.index())),
        ).push((cv.0, cv.1, CHANNEL_STABLE@)));
        assert(records_texts(out@) =~= md_records(pair_texts(input.take(it.index() + 1))));
    }
    assert(input.take(input.len() as int) =~= input);
    out
}

/// Every stable release listed in a `RELEASES.md` text, in file order.
pub fn parse_releases_md(text: &str) -> (releases: Vec<RustRelease>)
    ensures
        records_texts(releases@) == md_records(md_line_captures(text@)),
{
    let caps = releases_md_captures(RELEASES_MD_PATTERN, text);
    releases_from_md_captures(caps)
}

} // verus!
