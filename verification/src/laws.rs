//! What holds of the counter whatever the requests are.

use crate::address::Address;
use crate::clock::Timestamp;
use crate::config::{accepted, compiled_each, lemma_accepted_holds_each};
use crate::counter::{CounterModel, Reply};
use crate::decimal::unsigned_value;
use crate::filter::{matches_any, pattern_matches, regex_is_match, user_agent};
use crate::request::{arg_value, request_of, target_request, Request, MAX_POSITION};
use crate::response::image_answer;
use crate::text::{find_char, lemma_find_char_bounds};
use crate::tracker::after_purge;
use vstd::prelude::*;

verus! {

/// Asking for a digit changes nothing, so the same question gets the same
/// answer until a visit is counted: the reply to a second request for a
/// position is the reply to the first, wherever the two come from. The
/// response then follows from the reply and the image file alone.
pub proof fn law_get_is_idempotent(
    counter: CounterModel,
    position: Option<u8>,
    first_source: Option<Address>,
    first_allowed: bool,
    first_time: Timestamp,
    second_source: Option<Address>,
    second_allowed: bool,
    file: Option<Seq<u8>>,
)
    ensures
        counter.after_request(Request::Get(position), first_source, first_allowed, first_time)
            == counter,
        counter.after_request(
            Request::Get(position),
            first_source,
            first_allowed,
            first_time,
        ).reply_to(Request::Get(position), second_source, second_allowed) == counter.reply_to(
            Request::Get(position),
            first_source,
            first_allowed,
        ),
        image_answer(
            counter.after_request(
                Request::Get(position),
                first_source,
                first_allowed,
                first_time,
            ).content_type,
            file,
        ) == image_answer(counter.content_type, file),
{
}

/// Only a visit changes the counter, and it never lowers the count.
pub proof fn law_count_never_falls(
    counter: CounterModel,
    request: Request,
    source: Option<Address>,
    allowed: bool,
    now: Timestamp,
)
    ensures
        request != Request::Increment ==> counter.after_request(request, source, allowed, now)
            == counter,
        counter.after_request(request, source, allowed, now).count >= counter.count,
        counter.after_request(request, source, allowed, now).count <= counter.count + 1,
        counter.after_purge(now).count == counter.count,
{
}

/// Where only unique visits count, an address counts once per timeout. Of
/// two visits from one address less than the timeout apart, the first is
/// counted and the second is not; a third visit, made when the timeout has
/// passed since the first and after a purge, is counted again. A purge comes
/// before each visit, as it does before every request.
pub proof fn law_unique_visits_count_once(
    counter: CounterModel,
    addr: Address,
    first: Timestamp,
    second: Timestamp,
    third: Timestamp,
)
    requires
        counter.count_unique,
        !counter.blacklist.contains(addr),
        !counter.uniques.dom().contains(addr),
        second.seconds_since(first) is Some,
        second.seconds_since(first)->0 < counter.timeout,
        third.seconds_since(first) is Some,
        third.seconds_since(first)->0 >= counter.timeout,
    ensures
        ({
            let one = counter.after_purge(first).after_visit(Some(addr), true, first);
            let two = one.after_purge(second).after_visit(Some(addr), true, second);
            let three = two.after_purge(third).after_visit(Some(addr), true, third);
            &&& one.count == counter.count + 1
            &&& two.count == counter.count + 1
            &&& three.count == counter.count + 2
            &&& one.after_purge(second).reply_to(Request::Increment, Some(addr), true) == (
            Reply::Acknowledged { counted: false })
            &&& two.after_purge(third).reply_to(Request::Increment, Some(addr), true) == (
            Reply::Acknowledged { counted: true })
        }),
{
    let one = counter.after_purge(first).after_visit(Some(addr), true, first);
    assert(one.uniques.dom().contains(addr));
    assert(one.uniques[addr] == first);
    let purged = one.after_purge(second);
    assert(!first.expired_at(second, counter.timeout));
    assert(purged.uniques.dom().contains(addr));
    assert(purged.uniques[addr] == first);
    let two = purged.after_visit(Some(addr), true, second);
    assert(two == purged);
    let later = two.after_purge(third);
    assert(first.expired_at(third, counter.timeout));
    assert(!later.uniques.dom().contains(addr));
}

/// A purge keeps exactly the addresses that have not timed out, each with
/// the time it had: after it, no active address was seen the timeout or
/// longer ago. Purging again at the same time changes nothing more.
pub proof fn law_purge_keeps_the_fresh(
    active: Map<Address, Timestamp>,
    now: Timestamp,
    timeout: nat,
    addr: Address,
)
    ensures
        after_purge(active, now, timeout).dom().contains(addr) <==> active.dom().contains(addr)
            && !active[addr].expired_at(now, timeout),
        after_purge(active, now, timeout).dom().contains(addr) ==> after_purge(
            active,
            now,
            timeout,
        )[addr] == active[addr],
        after_purge(after_purge(active, now, timeout), now, timeout) == after_purge(
            active,
            now,
            timeout,
        ),
{
    assert(after_purge(after_purge(active, now, timeout), now, timeout) =~= after_purge(
        active,
        now,
        timeout,
    ));
}

/// A visit from a blacklisted address changes nothing, whatever its user
/// agent and whether or not only unique visits count. It is acknowledged
/// like any other.
pub proof fn law_blacklisted_never_counts(
    counter: CounterModel,
    request: Request,
    addr: Address,
    allowed: bool,
    now: Timestamp,
)
    requires
        counter.blacklist.contains(addr),
    ensures
        counter.after_request(request, Some(addr), allowed, now) == counter,
        counter.reply_to(Request::Increment, Some(addr), allowed) == (Reply::Acknowledged {
            counted: false,
        }),
{
}

/// A request whose user agent a block pattern matches changes nothing,
/// wherever it comes from.
pub proof fn law_blocked_agent_never_counts(
    counter: CounterModel,
    http_request: Seq<char>,
    agent: Seq<char>,
    pattern: int,
    source: Option<Address>,
    now: Timestamp,
)
    requires
        user_agent(http_request) == Some(agent),
        0 <= pattern < counter.ua_list.len(),
        regex_is_match(counter.ua_list[pattern], agent),
    ensures
        !counter.agent_allowed(http_request),
        counter.after_request(
            request_of(http_request),
            source,
            counter.agent_allowed(http_request),
            now,
        ) == counter,
{
    assert(matches_any(counter.ua_list, agent));
}

/// A request whose user agent matches a pattern that the settings write and
/// the `regex` crate accepted changes nothing: every accepted text blocks
/// what it matches, at whatever place it stands in the settings.
pub proof fn law_configured_pattern_blocks(
    counter: CounterModel,
    texts: Seq<Seq<char>>,
    outcomes: Seq<Result<regex::Regex, regex::Error>>,
    place: int,
    http_request: Seq<char>,
    agent: Seq<char>,
    source: Option<Address>,
    now: Timestamp,
)
    requires
        compiled_each(outcomes, texts),
        counter.ua_list == accepted(outcomes),
        0 <= place < texts.len(),
        outcomes[place] is Ok,
        user_agent(http_request) == Some(agent),
        pattern_matches(texts[place], agent),
    ensures
        !counter.agent_allowed(http_request),
        counter.after_request(
            request_of(http_request),
            source,
            counter.agent_allowed(http_request),
            now,
        ) == counter,
{
    let re = outcomes[place]->Ok_0;
    assert(regex_is_match(re, agent));
    lemma_accepted_holds_each(outcomes, place);
    let k = choose|k: int| 0 <= k < counter.ua_list.len() && counter.ua_list[k] == re;
    assert(regex_is_match(counter.ua_list[k], agent));
    assert(matches_any(counter.ua_list, agent));
}

/// A request that names no user agent passes exactly where an empty user
/// agent is allowed.
pub proof fn law_missing_agent_defers_to_flag(counter: CounterModel, http_request: Seq<char>)
    requires
        user_agent(http_request) is None,
    ensures
        counter.agent_allowed(http_request) == counter.allow_empty_ua,
{
}

/// An argument names no position unless it is `n=` and a numeral of at most
/// 255: not without `=`, not under another name, not with a value that is no
/// such numeral.
pub proof fn law_argument_needs_name_and_numeral(arg: Seq<char>)
    ensures
        !arg.contains('=') ==> arg_value(arg) is None,
        arg.contains('=') && arg.take(find_char(arg, '=', 0)) != "n"@ ==> arg_value(arg) is None,
        arg.contains('=') && unsigned_value(
            arg.skip(find_char(arg, '=', 0) + 1),
            MAX_POSITION as nat,
        ) is None ==> arg_value(arg) is None,
{
    lemma_find_char_bounds(arg, '=', 0);
    if !arg.contains('=') {
        let eq = find_char(arg, '=', 0);
        if eq < arg.len() {
            assert(arg[eq] == '=');
        }
    }
}

/// A request for a digit whose argument names no position, or names position
/// 0, is a bad request and leaves the counter as it is.
pub proof fn law_malformed_position_is_rejected(
    counter: CounterModel,
    target: Seq<char>,
    source: Option<Address>,
    allowed: bool,
    now: Timestamp,
)
    requires
        target_request(target) == Request::Get(None) || target_request(target) == Request::Get(
            Some(0u8),
        ),
    ensures
        counter.reply_to(target_request(target), source, allowed) == Reply::BadRequest,
        counter.after_request(target_request(target), source, allowed, now) == counter,
{
}

} // verus!
