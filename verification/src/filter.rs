//! Which visits count: the blacklist of addresses and the blocked user agents.
//!
//! Both checks read their arguments and nothing else. A visit counts only
//! where both let it pass.

use crate::address::Address;
use crate::text::{find_header, header_value, to_chars};
use regex::Regex;
use vstd::prelude::*;
use vstd::string::*;

verus! {

/// A compiled pattern of the `regex` crate. Nothing of its inside is known
/// here: a pattern is only handed on to the crate's own functions.
#[verifier::external_type_specification]
#[verifier::external_body]
pub struct ExRegex(regex::Regex);

/// Why the `regex` crate refused a pattern.
#[verifier::external_type_specification]
#[verifier::external_body]
pub struct ExRegexError(regex::Error);

/// Whether the pattern `re` matches anywhere in `haystack`, as
/// `regex::Regex::is_match` finds it.
pub uninterp spec fn regex_is_match(re: Regex, haystack: Seq<char>) -> bool;

/// `regex::Regex::is_match` searches `haystack` for a match of the pattern and
/// returns whether there is one. The answer depends on the pattern and the
/// haystack alone, so it is given the name `regex_is_match`; what the answer
/// is for a given pattern is not stated.
pub assume_specification[ Regex::is_match ](re: &Regex, haystack: &str) -> (found: bool)
    ensures
        found == regex_is_match(*re, haystack@),
;

/// Whether the pattern that the text `pattern` writes matches anywhere in
/// `haystack`, for a text that `regex::Regex::new` accepts.
pub uninterp spec fn pattern_matches(pattern: Seq<char>, haystack: Seq<char>) -> bool;

/// Whether `re` is the pattern that `text` writes: it matches in a haystack
/// exactly where the text's pattern does.
pub open spec fn compiled_from(re: Regex, text: Seq<char>) -> bool {
    forall|haystack: Seq<char>| #[trigger]
        regex_is_match(re, haystack) == pattern_matches(text, haystack)
}

/// `regex::Regex::new` compiles a pattern, or refuses it where its syntax is
/// wrong or the compiled program would exceed the crate's size limit. A
/// pattern that it hands out is the one that the text writes, with the
/// crate's default options: where it matches depends on the text and the
/// haystack alone, which is given the name `pattern_matches`. Whether a text
/// is accepted is not stated and has no name, because the size limit is held
/// against a program whose size depends on the target's pointer width.
pub assume_specification[ Regex::new ](re: &str) -> (r: Result<Regex, regex::Error>)
    ensures
        r is Ok ==> forall|haystack: Seq<char>| #[trigger]
            regex_is_match(r->Ok_0, haystack) == pattern_matches(re@, haystack),
;

/// What a header line that names the user agent starts with.
pub open spec fn user_agent_prefix() -> Seq<char> {
    "User-Agent: "@
}

/// The user agent that `request` names: what follows the prefix in the first
/// line that starts with it.
pub open spec fn user_agent(request: Seq<char>) -> Option<Seq<char>> {
    header_value(request, user_agent_prefix())
}

/// Whether any of `patterns` matches in `agent`.
pub open spec fn matches_any(patterns: Seq<Regex>, agent: Seq<char>) -> bool {
    exists|i: int| 0 <= i < patterns.len() && regex_is_match(#[trigger] patterns[i], agent)
}

/// Whether a user agent lets a visit pass: a named agent passes unless a
/// block pattern matches it; where none is named, `allow_empty` decides.
pub open spec fn agent_allowed(
    agent: Option<Seq<char>>,
    patterns: Seq<Regex>,
    allow_empty: bool,
) -> bool {
    match agent {
        Some(name) => !matches_any(patterns, name),
        None => allow_empty,
    }
}

/// Whether a visit counts: its address is not blacklisted, and its user agent
/// is allowed.
pub open spec fn visit_allowed(
    blacklist: Seq<Address>,
    patterns: Seq<Regex>,
    allow_empty: bool,
    addr: Address,
    agent: Option<Seq<char>>,
) -> bool {
    !blacklist.contains(addr) && agent_allowed(agent, patterns, allow_empty)
}

/// Whether `addr` is on the blacklist.
pub fn is_blacklisted(blacklist: &[Address], addr: Address) -> (listed: bool)
    ensures
        listed == blacklist@.contains(addr),
{
    let mut i: usize = 0;
    while i < blacklist.len()
        invariant
            i <= blacklist@.len(),
            forall|j: int| 0 <= j < i ==> blacklist@[j] != addr,
        decreases blacklist@.len() - i,
    {
        if blacklist[i] == addr {
            return true;
        }
        i = i + 1;
    }
    false
}

/// Whether any of the block patterns matches in `agent`.
pub fn matches_any_pattern(re_list: &[Regex], agent: &str) -> (found: bool)
    ensures
        found == matches_any(re_list@, agent@),
{
    let mut i: usize = 0;
    while i < re_list.len()
        invariant
            i <= re_list@.len(),
            forall|j: int| 0 <= j < i ==> !regex_is_match(#[trigger] re_list@[j], agent@),
        decreases re_list@.len() - i,
    {
        if re_list[i].is_match(agent) {
            return true;
        }
        i = i + 1;
    }
    false
}

/// The user agent that the request names, if it names one.
pub fn user_agent_of<'a>(http_request: &'a str) -> (agent: Option<&'a str>)
    ensures
        match agent {
            Some(name) => user_agent(http_request@) == Some(name@),
            None => user_agent(http_request@) is None,
        },
{
    let chars = to_chars(http_request);
    let prefix = to_chars("User-Agent: ");
    match find_header(chars.as_slice(), prefix.as_slice()) {
        Some((from, to)) => Some(http_request.substring_char(from, to)),
        None => None,
    }
}

/// Whether the user agent of a request lets the visit pass. A request that
/// names none passes exactly where `allow_empty` is set; one that names an
/// agent passes unless a pattern of `re_list` matches in it.
pub fn allow_useragent(http_request: &str, re_list: &[Regex], allow_empty: bool) -> (allowed: bool)
    ensures
        allowed == agent_allowed(user_agent(http_request@), re_list@, allow_empty),
{
    match user_agent_of(http_request) {
        Some(name) => !matches_any_pattern(re_list, name),
        None => allow_empty,
    }
}

/// The two checks together, on an address and a user agent that the caller
/// has taken from the request.
pub fn allow_visit(
    blacklist: &[Address],
    re_list: &[Regex],
    allow_empty: bool,
    addr: Address,
    agent: Option<&str>,
) -> (allowed: bool)
    ensures
        allowed == visit_allowed(
            blacklist@,
            re_list@,
            allow_empty,
            addr,
            match agent {
                Some(name) => Some(name@),
                None => None,
            },
        ),
{
    if is_blacklisted(blacklist, addr) {
        return false;
    }
    match agent {
        Some(name) => !matches_any_pattern(re_list, name),
        None => allow_empty,
    }
}

} // verus!
