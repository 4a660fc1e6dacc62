//! What a request asks for, read from its first line.
//!
//! Only the first line is consulted here. It is trimmed; unless `GET ` opens
//! it, the request is ignored. Its second word is the target, which a `?`
//! parts into a route and one argument.

use crate::decimal::{parse_unsigned, unsigned_value};
use crate::text::{
    find_char, find_header, first_line, header_value, is_whitespace,
    lemma_next_non_whitespace_bounds, lemma_next_whitespace_bounds, lemma_trim_is_tight,
    next_non_whitespace, next_whitespace, same_text, scan_char, second_word, second_word_bounds,
    starts_with, to_chars, trim, trim_bounds,
};
use vstd::prelude::*;
use vstd::slice::slice_subrange;
use vstd::string::*;

verus! {

/// What a request asks for.
#[derive(Clone, Copy, Debug, PartialEq, Eq, Structural)]
pub enum Request {
    /// No `GET` request: it gets no answer at all.
    Ignored,
    /// A visit to count.
    Increment,
    /// A digit of the count, with the position asked for where the argument
    /// is well formed.
    Get(Option<u8>),
    /// A `GET` request for any other target.
    Unknown,
}

/// The largest position that an argument can name.
pub const MAX_POSITION: u64 = 255;

/// The position that an argument names: the argument is `n=` and an unsigned
/// numeral of at most 255. The first `=` parts name and value.
pub open spec fn arg_value(arg: Seq<char>) -> Option<u8> {
    let eq = find_char(arg, '=', 0);
    if eq < arg.len() && arg.take(eq) == "n"@ {
        match unsigned_value(arg.skip(eq + 1), MAX_POSITION as nat) {
            Some(v) => Some(v as u8),
            None => None,
        }
    } else {
        None
    }
}

/// What a target asks for. The first `?` ends the route; what follows it is
/// the argument, which only `/get` reads.
pub open spec fn target_request(target: Seq<char>) -> Request {
    let mark = find_char(target, '?', 0);
    let route = target.take(mark);
    if route == "/increment"@ {
        Request::Increment
    } else if route == "/get"@ {
        if mark < target.len() {
            Request::Get(arg_value(target.skip(mark + 1)))
        } else {
            Request::Get(None)
        }
    } else {
        Request::Unknown
    }
}

/// What the request line `line` asks for, once trimmed.
pub open spec fn line_request(line: Seq<char>) -> Request {
    if !"GET "@.is_prefix_of(line) {
        Request::Ignored
    } else {
        match second_word(line) {
            Some(target) => target_request(target),
            None => Request::Unknown,
        }
    }
}

/// What the request with the head `request` asks for.
pub open spec fn request_of(request: Seq<char>) -> Request {
    line_request(trim(first_line(request)))
}

/// The text of the address that a trusted proxy forwards: the trimmed value
/// of the first header line that starts with `X-Real-IP: `. Whether the text
/// is a well-formed address is for the caller to find out; where it is not,
/// the request counts as coming from the peer.
pub open spec fn forwarded_text(request: Seq<char>) -> Option<Seq<char>> {
    match header_value(request, "X-Real-IP: "@) {
        Some(value) => Some(trim(value)),
        None => None,
    }
}

/// A trimmed line that `GET ` opens always has a target.
pub proof fn lemma_get_line_has_target(line: Seq<char>)
    requires
        "GET "@.is_prefix_of(trim(line)),
    ensures
        second_word(trim(line)) is Some,
{
    let t = trim(line);
    reveal_strlit("GET ");
    lemma_trim_is_tight(line);
    let get = "GET "@;
    assert(get.len() == 4);
    assert(t.subrange(0, 4) == get);
    assert(t[0] == get[0] && t[1] == get[1] && t[2] == get[2] && t[3] == get[3]);
    assert(t[0] == 'G' && t[1] == 'E' && t[2] == 'T' && t[3] == ' ');
    assert(!is_whitespace(t.last()));
    assert(t.len() >= 5);
    lemma_next_non_whitespace_bounds(t, 0);
    let first = next_non_whitespace(t, 0);
    assert(first == 0);
    lemma_next_whitespace_bounds(t, 0);
    let gap = next_whitespace(t, 0);
    assert(gap == 3) by {
        if gap < 3 {
            assert(is_whitespace(t[gap]));
        }
    }
    lemma_next_non_whitespace_bounds(t, 3);
    let second = next_non_whitespace(t, 3);
    if second >= t.len() {
        assert(is_whitespace(t[t.len() - 1]));
    }
}

/// Reads an argument that is already split into characters.
fn parse_arg_chars(arg: &[char]) -> (r: Option<u8>)
    ensures
        r == arg_value(arg@),
{
    let eq = scan_char(arg, '=', 0);
    if eq == arg.len() {
        return None;
    }
    let name = slice_subrange(arg, 0, eq);
    let n = to_chars("n");
    if !same_text(name, n.as_slice()) {
        return None;
    }
    let value = slice_subrange(arg, eq + 1, arg.len());
    proof {
        assert(arg@.skip(eq as int + 1) =~= value@);
    }
    match parse_unsigned(value, MAX_POSITION) {
        Some(v) => Some(v as u8),
        None => None,
    }
}

/// Reads the argument of a target, the part after its `?`: `Some` position
/// where the argument is `n=` and an unsigned numeral of at most 255, `None`
/// for any other name, a missing `=` or a value that is no such numeral.
pub fn parse_arg(arg: &str) -> (r: Option<u8>)
    ensures
        r == arg_value(arg@),
{
    let chars = to_chars(arg);
    parse_arg_chars(chars.as_slice())
}

/// Reads a target that is already split into characters.
fn parse_target(target: &[char]) -> (r: Request)
    ensures
        r == target_request(target@),
{
    let mark = scan_char(target, '?', 0);
    let route = slice_subrange(target, 0, mark);
    let increment = to_chars("/increment");
    let get = to_chars("/get");
    if same_text(route, increment.as_slice()) {
        Request::Increment
    } else if same_text(route, get.as_slice()) {
        if mark < target.len() {
            let arg = slice_subrange(target, mark + 1, target.len());
            proof {
                assert(target@.skip(mark as int + 1) =~= arg@);
            }
            Request::Get(parse_arg_chars(arg))
        } else {
            Request::Get(None)
        }
    } else {
        Request::Unknown
    }
}

/// Finds the address that a trusted proxy forwards in the head of a request,
/// as the text that the header holds.
pub fn check_x_real_ip<'a>(http_request: &'a str) -> (r: Option<&'a str>)
    ensures
        match r {
            Some(text) => forwarded_text(http_request@) == Some(text@),
            None => forwarded_text(http_request@) is None,
        },
{
    let chars = to_chars(http_request);
    let prefix = to_chars("X-Real-IP: ");
    match find_header(chars.as_slice(), prefix.as_slice()) {
        Some((a, b)) => {
            let value = slice_subrange(chars.as_slice(), a, b);
            let (from, to) = trim_bounds(value);
            proof {
                assert(value@.subrange(from as int, to as int) =~= http_request@.subrange(
                    a + from,
                    a + to,
                ));
            }
            Some(http_request.substring_char(a + from, a + to))
        },
        None => None,
    }
}

/// Reads what a request asks for from its head, the text up to the first
/// empty line.
pub fn parse_request(http_request: &str) -> (r: Request)
    ensures
        r == request_of(http_request@),
{
    let chars = to_chars(http_request);
    let all = chars.as_slice();
    let brk = scan_char(all, '\n', 0);
    let end = if brk < all.len() && 0 < brk && all[brk - 1] == '\r' {
        brk - 1
    } else {
        brk
    };
    let first = slice_subrange(all, 0, end);
    let (from, to) = trim_bounds(first);
    let line = slice_subrange(first, from, to);
    let method = to_chars("GET ");
    if !starts_with(line, method.as_slice()) {
        return Request::Ignored;
    }
    match second_word_bounds(line) {
        Some((a, b)) => parse_target(slice_subrange(line, a, b)),
        None => Request::Unknown,
    }
}

} // verus!
