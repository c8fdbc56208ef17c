//! The command line's data: the subcommand, its options, and the release
//! channel with its case-insensitive parsing.

use vstd::prelude::*;
use crate::constants::{CHANNEL_BETA, CHANNEL_NIGHTLY, CHANNEL_STABLE};
use crate::text::{ascii_lower, lowercase, str_eq, to_lowercase};

verus! {

broadcast use vstd::string::group_string_axioms;

/// Command-line entry: the subcommand to run.
#[derive(Debug)]
pub struct Cli {
    pub command: Commands,
}

/// Available subcommands.
#[derive(Debug)]
pub enum Commands {
    /// Fetch release data from the remote source (stable by default).
    Fetch {
        /// Release channel: stable, beta, or nightly.
        channel: Channel,
        /// Use RELEASES.md full history data source (stable only).
        full: bool,
        /// Probe recent N days of history (beta/nightly).
        days: u32,
        /// HTTP request timeout in seconds.
        timeout: u64,
    },
}

/// Valid release channels.
#[derive(Debug, Clone, Copy, PartialEq, Eq, Structural)]
pub enum Channel {
    Stable,
    Beta,
    Nightly,
}

/// The name of a channel.
pub open spec fn channel_name(c: Channel) -> Seq<char> {
    match c {
        Channel::Stable => CHANNEL_STABLE@,
        Channel::Beta => CHANNEL_BETA@,
        Channel::Nightly => CHANNEL_NIGHTLY@,
    }
}

/// The message for a text that names no channel.
pub open spec fn unknown_channel_message(s: Seq<char>) -> Seq<char> {
    "unknown channel '"@ + s + "'. Valid values: stable, beta, nightly"@
}

/// What parsing `s` gives when its lowercase form is `l`: the channel named
/// `l`, or the error message quoting `s`.
pub open spec fn parse_lowered(l: Seq<char>, s: Seq<char>) -> Result<Channel, Seq<char>> {
    if l == CHANNEL_STABLE@ {
        Ok(Channel::Stable)
    } else if l == CHANNEL_BETA@ {
        Ok(Channel::Beta)
    } else if l == CHANNEL_NIGHTLY@ {
        Ok(Channel::Nightly)
    } else {
        Err(unknown_channel_message(s))
    }
}

/// What parsing `s` gives: it goes by the lowercase of `s`.
pub open spec fn spec_parse_channel(s: Seq<char>) -> Result<Channel, Seq<char>> {
    parse_lowered(lowercase(s), s)
}

/// A parse result and its specification agree (the message by its text).
pub open spec fn parse_agrees(r: Result<Channel, String>, e: Result<Channel, Seq<char>>) -> bool {
    match (r, e) {
        (Ok(c), Ok(d)) => c == d,
        (Err(m), Err(t)) => m@ == t,
        _ => false,
    }
}

impl Channel {
    /// The channel's name: "stable", "beta" or "nightly".
    pub fn as_str(&self) -> (s: &'static str)
        ensures
            s@ == channel_name(*self),
    {
        match self {
            Channel::Stable => CHANNEL_STABLE,
            Channel::Beta => CHANNEL_BETA,
            Channel::Nightly => CHANNEL_NIGHTLY,
        }
    }

    /// Parse a channel name, ignoring case.
    pub fn parse(s: &str) -> (r: Result<Channel, String>)
        ensures
            parse_agrees(r, spec_parse_channel(s@)),
            vstd::utf8::is_ascii_chars(s@) ==> parse_agrees(r, parse_lowered(ascii_lower(s@), s@)),
    {
        let l = to_lowercase(s);
        if str_eq(l.as_str(), CHANNEL_STABLE) {
            Ok(Channel::Stable)
        } else if str_eq(l.as_str(), CHANNEL_BETA) {
            Ok(Channel::Beta)
        } else if str_eq(l.as_str(), CHANNEL_NIGHTLY) {
            Ok(Channel::Nightly)
        } else {
            let m = String::from_str("unknown channel '").concat(s).concat(
                "'. Valid values: stable, beta, nightly",
            );
            Err(m)
        }
    }
}

impl std::str::FromStr for Channel {
    type Err = String;

    fn from_str(s: &str) -> (r: Result<Channel, String>)
        ensures
            parse_agrees(r, spec_parse_channel(s@)),
            vstd::utf8::is_ascii_chars(s@) ==> parse_agrees(r, parse_lowered(ascii_lower(s@), s@)),
    {
        Channel::parse(s)
    }
}

/// Law: a channel's own name parses back to the channel (names are ASCII,
/// so parsing goes by their ASCII lowercase form).
pub proof fn law_channel_name_round_trip(c: Channel)
    ensures
        vstd::utf8::is_ascii_chars(channel_name(c)),
        parse_lowered(ascii_lower(channel_name(c)), channel_name(c)) == Ok::<Channel, Seq<char>>(c),
{
    reveal_strlit("stable");
    reveal_strlit("beta");
    reveal_strlit("nightly");
    let n = channel_name(c);
    assert(ascii_lower(n) =~= n);
}

/// Law: parsing ignores ASCII case; an ASCII text and its lowercase form
/// name the same channel, or both name none.
pub proof fn law_channel_parse_ignores_case(s: Seq<char>)
    requires
        vstd::utf8::is_ascii_chars(s),
    ensures
        vstd::utf8::is_ascii_chars(ascii_lower(s)),
        parse_lowered(ascii_lower(s), s) is Ok <==> parse_lowered(ascii_lower(ascii_lower(s)), ascii_lower(s)) is Ok,
        parse_lowered(ascii_lower(s), s) is Ok ==> parse_lowered(ascii_lower(s), s) == parse_lowered(ascii_lower(ascii_lower(s)), ascii_lower(s)),
{
    assert(ascii_lower(ascii_lower(s)) =~= ascii_lower(s));
}

} // verus!
