//! The counter: the count, the active visitors and the settings, and how a
//! request changes them.
//!
//! The counter decides; it performs no input or output. A caller reads the
//! request, hands its head over, writes the reply that comes back, and writes
//! the count through to its file whenever a visit was counted.

use crate::address::Address;
use crate::clock::Timestamp;
use crate::decimal::{decimal, decimal_text};
use crate::digits::{select_digit, shown_digit};
use crate::filter::{agent_allowed, allow_useragent, is_blacklisted, user_agent};
use crate::request::{parse_request, request_of, Request};
use crate::response::{head_text, image_answer, image_response, respond, Response, Status};
use crate::tracker::{after_purge, UniqueVisitTracker};
use regex::Regex;
use vstd::prelude::*;
use vstd::string::*;

verus! {

/// What the caller owes a request.
#[derive(Clone, Copy, Debug, PartialEq, Eq, Structural)]
pub enum Reply {
    /// Nothing: the connection is closed without a response.
    Ignore,
    /// The answer to a visit. `counted` says whether the visit raised the
    /// count, which then has to be written through. The answer is status 200
    /// either way, unless writing a raised count through fails.
    Acknowledged { counted: bool },
    /// The image of a digit, or of the blank marker for `None`.
    Digit(Option<u8>),
    /// Status 400.
    BadRequest,
}

/// The counter as contracts speak of it.
#[verifier::ext_equal]
pub struct CounterModel {
    pub count: nat,
    pub uniques: Map<Address, Timestamp>,
    pub count_unique: bool,
    pub timeout: nat,
    pub blacklist: Seq<Address>,
    pub ua_list: Seq<Regex>,
    pub allow_empty_ua: bool,
    pub filepath: Seq<char>,
    pub image_dir: Seq<char>,
    pub img_format: Seq<char>,
    pub content_type: Seq<char>,
}

/// The address that a request is taken to come from: the one that a trusted
/// proxy forwarded, where the request carries a well-formed one, else the
/// peer of the connection.
pub open spec fn source_address(peer: Option<Address>, forwarded: Option<Address>) -> Option<
    Address,
> {
    match forwarded {
        Some(addr) => Some(addr),
        None => peer,
    }
}

/// What a position of the count shows, as a reply carries it.
pub open spec fn digit_reply(count: nat, position: u8) -> Option<u8> {
    match shown_digit(count, position as nat) {
        Some(d) => Some(d as u8),
        None => None,
    }
}

/// The name of the image that shows `digit`, without directory and
/// extension.
pub open spec fn image_name(digit: Option<u8>) -> Seq<char> {
    match digit {
        Some(d) => decimal(d as nat),
        None => "empty"@,
    }
}

/// The content type of the answer to a visit.
pub open spec fn script_type() -> Seq<char> {
    "text/javascript"@
}

/// The status that answers a visit: 200 whether or not the visit was
/// counted, but 500 where it was counted and the count could not be written
/// through to its file.
pub open spec fn visit_status_of(counted: bool, written: bool) -> Status {
    if counted && !written {
        Status::InternalError
    } else {
        Status::Success
    }
}

/// The head that a reply sends by itself, where it sends one: an image's
/// head depends on the image file, and an ignored request gets none.
/// `written` says whether the count was written through; it plays a part
/// for a counted visit only.
pub open spec fn reply_head(reply: Reply, written: bool) -> Option<Seq<char>> {
    match reply {
        Reply::Acknowledged { counted } => Some(
            head_text(visit_status_of(counted, written), Some(script_type()), None),
        ),
        Reply::BadRequest => Some(head_text(Status::BadRequest, None, None)),
        Reply::Ignore => None,
        Reply::Digit(_) => None,
    }
}

impl CounterModel {
    /// Whether the user agent of the request with head `request` lets a
    /// visit pass.
    pub open spec fn agent_allowed(self, request: Seq<char>) -> bool {
        agent_allowed(user_agent(request), self.ua_list, self.allow_empty_ua)
    }

    /// Whether a visit from `source` raises the count: its address is known
    /// and not blacklisted, its user agent is allowed, and, where only unique
    /// visits count, the address is not active.
    pub open spec fn counts(self, source: Option<Address>, agent_allowed: bool) -> bool {
        match source {
            Some(addr) => {
                &&& !self.blacklist.contains(addr)
                &&& agent_allowed
                &&& self.count_unique ==> !self.uniques.dom().contains(addr)
            },
            None => false,
        }
    }

    /// Whether a request raises the count: it is a visit, and the visit
    /// counts.
    pub open spec fn raised_by(
        self,
        request: Request,
        source: Option<Address>,
        agent_allowed: bool,
    ) -> bool {
        request == Request::Increment && self.counts(source, agent_allowed)
    }

    /// The counter after a visit: where the visit counts, the count is one
    /// higher and, where only unique visits count, the address is active
    /// from `now`. Nothing changes otherwise.
    pub open spec fn after_visit(
        self,
        source: Option<Address>,
        agent_allowed: bool,
        now: Timestamp,
    ) -> CounterModel {
        if self.counts(source, agent_allowed) {
            CounterModel {
                count: self.count + 1,
                uniques: if self.count_unique {
                    self.uniques.insert(source->0, now)
                } else {
                    self.uniques
                },
                ..self
            }
        } else {
            self
        }
    }

    /// The counter after a request: only a visit changes it.
    pub open spec fn after_request(
        self,
        request: Request,
        source: Option<Address>,
        agent_allowed: bool,
        now: Timestamp,
    ) -> CounterModel {
        match request {
            Request::Increment => self.after_visit(source, agent_allowed, now),
            _ => self,
        }
    }

    /// The reply to a request. A visit is acknowledged whether it counts or
    /// not. A digit needs a position of at least 1; without one the request
    /// is a bad one, as is a request for an unknown target.
    pub open spec fn reply_to(
        self,
        request: Request,
        source: Option<Address>,
        agent_allowed: bool,
    ) -> Reply {
        match request {
            Request::Ignored => Reply::Ignore,
            Request::Increment => Reply::Acknowledged {
                counted: self.counts(source, agent_allowed),
            },
            Request::Get(Some(position)) => if position == 0 {
                Reply::BadRequest
            } else {
                Reply::Digit(digit_reply(self.count, position))
            },
            Request::Get(None) => Reply::BadRequest,
            Request::Unknown => Reply::BadRequest,
        }
    }

    /// The counter after a purge at `now`.
    pub open spec fn after_purge(self, now: Timestamp) -> CounterModel {
        CounterModel { uniques: after_purge(self.uniques, now, self.timeout), ..self }
    }

    /// The path of the image that shows `digit`.
    pub open spec fn image_file(self, digit: Option<u8>) -> Seq<char> {
        self.image_dir + "/"@ + image_name(digit) + "."@ + self.img_format
    }
}

/// The count, the active visitors, and the settings that decide which visits
/// count and which images are served.
pub struct Counter {
    count: usize,
    filepath: String,
    image_dir: String,
    img_format: String,
    content_type: String,
    uniques: UniqueVisitTracker,
    count_unique: bool,
    timeout: u64,
    blacklist: Vec<Address>,
    ua_list: Vec<Regex>,
    allow_empty_ua: bool,
}

impl View for Counter {
    type V = CounterModel;

    closed spec fn view(&self) -> CounterModel {
        CounterModel {
            count: self.count as nat,
            uniques: self.uniques@,
            count_unique: self.count_unique,
            timeout: self.timeout as nat,
            blacklist: self.blacklist@,
            ua_list: self.ua_list@,
            allow_empty_ua: self.allow_empty_ua,
            filepath: self.filepath@,
            image_dir: self.image_dir@,
            img_format: self.img_format@,
            content_type: self.content_type@,
        }
    }
}

impl Counter {
    /// A counter that starts at `count` with no active visitor.
    pub fn new(
        count: usize,
        filepath: String,
        image_dir: String,
        img_format: String,
        content_type: String,
        count_unique: bool,
        timeout: u64,
        blacklist: Vec<Address>,
        ua_list: Vec<Regex>,
        allow_empty_ua: bool,
    ) -> (counter: Counter)
        ensures
            counter@ == (CounterModel {
                count: count as nat,
                uniques: Map::empty(),
                count_unique,
                timeout: timeout as nat,
                blacklist: blacklist@,
                ua_list: ua_list@,
                allow_empty_ua,
                filepath: filepath@,
                image_dir: image_dir@,
                img_format: img_format@,
                content_type: content_type@,
            }),
    {
        Counter {
            count,
            filepath,
            image_dir,
            img_format,
            content_type,
            uniques: UniqueVisitTracker::new(),
            count_unique,
            timeout,
            blacklist,
            ua_list,
            allow_empty_ua,
        }
    }

    /// Forgets every visitor whose last recorded visit lies at least the
    /// timeout before `now`. Count and settings stay.
    pub fn clear_timedout(&mut self, now: Timestamp)
        ensures
            final(self)@ == old(self)@.after_purge(now),
    {
        self.uniques.purge_expired(now, self.timeout);
        proof {
            assert(self@ =~= old(self)@.after_purge(now));
        }
    }

    /// Raises the count by one.
    fn increment_counter(&mut self)
        requires
            old(self)@.count < usize::MAX,
        ensures
            final(self)@ == (CounterModel { count: old(self)@.count + 1, ..old(self)@ }),
    {
        self.count = self.count + 1;
    }

    /// Handles a request that is already read: `request` is what it asks
    /// for, `source` the address it is taken to come from, and
    /// `agent_allowed` the verdict on its user agent. Every request is
    /// served at every count, but for a visit that would raise the largest
    /// count there is.
    pub fn route(
        &mut self,
        request: Request,
        source: Option<Address>,
        agent_allowed: bool,
        now: Timestamp,
    ) -> (reply: Reply)
        requires
            old(self)@.raised_by(request, source, agent_allowed) ==> old(self)@.count
                < usize::MAX,
        ensures
            reply == old(self)@.reply_to(request, source, agent_allowed),
            final(self)@ == old(self)@.after_request(request, source, agent_allowed, now),
    {
        match request {
            Request::Ignored => Reply::Ignore,
            Request::Increment => {
                let mut counted = false;
                if let Some(addr) = source {
                    if !is_blacklisted(self.blacklist.as_slice(), addr) && agent_allowed {
                        if self.count_unique {
                            if self.uniques.is_new_and_record(addr, now) {
                                self.increment_counter();
                                counted = true;
                            }
                        } else {
                            self.increment_counter();
                            counted = true;
                        }
                    }
                }
                proof {
                    assert(self@ =~= old(self)@.after_request(request, source, agent_allowed, now));
                }
                Reply::Acknowledged { counted }
            },
            Request::Get(Some(position)) => {
                if position == 0 {
                    Reply::BadRequest
                } else {
                    Reply::Digit(select_digit(self.count, position))
                }
            },
            Request::Get(None) => Reply::BadRequest,
            Request::Unknown => Reply::BadRequest,
        }
    }

    /// Handles one request. `http_request` is its head, the text up to the
    /// first empty line; `peer` is the address of the connection's other end
    /// and `forwarded` the address that the request's proxy header names,
    /// where it names a well-formed one. Every request is served at every
    /// count, but for a visit that would raise the largest count there is:
    /// `will_count` tells beforehand.
    pub fn handle_connection(
        &mut self,
        http_request: &str,
        peer: Option<Address>,
        forwarded: Option<Address>,
        now: Timestamp,
    ) -> (reply: Reply)
        requires
            old(self)@.raised_by(
                request_of(http_request@),
                source_address(peer, forwarded),
                old(self)@.agent_allowed(http_request@),
            ) ==> old(self)@.count < usize::MAX,
        ensures
            reply == old(self)@.reply_to(
                request_of(http_request@),
                source_address(peer, forwarded),
                old(self)@.agent_allowed(http_request@),
            ),
            final(self)@ == old(self)@.after_request(
                request_of(http_request@),
                source_address(peer, forwarded),
                old(self)@.agent_allowed(http_request@),
                now,
            ),
    {
        let source = match forwarded {
            Some(addr) => Some(addr),
            None => peer,
        };
        let allowed_useragent = allow_useragent(
            http_request,
            self.ua_list.as_slice(),
            self.allow_empty_ua,
        );
        let request = parse_request(http_request);
        self.route(request, source, allowed_useragent, now)
    }

    /// Whether handling this request would raise the count. A counter at
    /// the largest count cannot take such a request; it serves every other.
    pub fn will_count(
        &self,
        http_request: &str,
        peer: Option<Address>,
        forwarded: Option<Address>,
    ) -> (raised: bool)
        ensures
            raised == self@.raised_by(
                request_of(http_request@),
                source_address(peer, forwarded),
                self@.agent_allowed(http_request@),
            ),
    {
        let source = match forwarded {
            Some(addr) => Some(addr),
            None => peer,
        };
        match parse_request(http_request) {
            Request::Increment => match source {
                Some(addr) => {
                    !is_blacklisted(self.blacklist.as_slice(), addr) && self.allows_agent(
                        http_request,
                    ) && (!self.count_unique || !self.uniques.contains(addr))
                },
                None => false,
            },
            _ => false,
        }
    }

    /// Whether the user agent of this request lets a visit pass.
    pub fn allows_agent(&self, http_request: &str) -> (allowed: bool)
        ensures
            allowed == self@.agent_allowed(http_request@),
    {
        allow_useragent(http_request, self.ua_list.as_slice(), self.allow_empty_ua)
    }

    /// The count.
    pub fn count(&self) -> (n: usize)
        ensures
            n == self@.count,
    {
        self.count
    }

    /// The path of the file that mirrors the count.
    pub fn filepath(&self) -> (path: &str)
        ensures
            path@ == self@.filepath,
    {
        self.filepath.as_str()
    }

    /// The count as the counter file holds it: its decimal numeral.
    pub fn count_text(&self) -> (text: String)
        ensures
            text@ == decimal(self@.count),
    {
        decimal_text(self.count)
    }

    /// The path of the image that shows `digit`, or the blank marker for
    /// `None`.
    pub fn image_path(&self, digit: Option<u8>) -> (path: String)
        ensures
            path@ == self@.image_file(digit),
    {
        let mut path = String::new();
        path.append(self.image_dir.as_str());
        path.append("/");
        match digit {
            Some(d) => {
                let name = decimal_text(d as usize);
                path.append(name.as_str());
            },
            None => {
                path.append("empty");
            },
        }
        path.append(".");
        path.append(self.img_format.as_str());
        proof {
            assert(path@ =~= self@.image_file(digit));
        }
        path
    }

    /// The response to a request for an image, given what reading the image
    /// file gave.
    pub fn image_response(&self, file: Option<Vec<u8>>) -> (r: Response)
        ensures
            (r.head@, r.body@) == image_answer(
                self@.content_type,
                match file {
                    Some(bytes) => Some(bytes@),
                    None => None,
                },
            ),
    {
        image_response(self.content_type.as_str(), file)
    }
}

/// The status that answers a visit, given whether it was counted and, if
/// so, whether the count was written through to its file.
pub fn visit_status(counted: bool, written: bool) -> (status: Status)
    ensures
        status == visit_status_of(counted, written),
{
    if counted && !written {
        Status::InternalError
    } else {
        Status::Success
    }
}

impl Reply {
    /// The head that answers the request by itself. A visit gets the script
    /// content type under status 200, or under status 500 where it was
    /// counted and `written` says that the count could not be written
    /// through. A bad request gets status 400. An ignored request gets no
    /// head, and an image's head needs the image.
    pub fn head(&self, written: bool) -> (head: Option<String>)
        ensures
            match head {
                Some(text) => reply_head(*self, written) == Some(text@),
                None => reply_head(*self, written) is None,
            },
    {
        match self {
            Reply::Acknowledged { counted } => Some(
                respond(visit_status(*counted, written), Some("text/javascript")),
            ),
            Reply::BadRequest => Some(respond(Status::BadRequest, None)),
            Reply::Ignore => None,
            Reply::Digit(_) => None,
        }
    }
}

} // verus!
