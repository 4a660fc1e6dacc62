use hitcounter::address::Address;
use hitcounter::clock::Timestamp;
use hitcounter::counter::{visit_status, Counter, Reply};
use hitcounter::request::Request;
use hitcounter::response::Status;
use regex::Regex;

fn counter(count: usize, unique: bool, timeout: u64, blacklist: Vec<Address>, patterns: &[&str], allow_empty: bool) -> Counter {
    Counter::new(
        count,
        "count.bin".to_string(),
        "img".to_string(),
        "jpg".to_string(),
        "image/jpeg".to_string(),
        unique,
        timeout,
        blacklist,
        patterns.iter().map(|t| Regex::new(t).unwrap()).collect(),
        allow_empty,
    )
}

const VISIT: &str = "GET /increment HTTP/1.1\nHost: example.org\nUser-Agent: Mozilla/5.0";

#[test]
fn get_selects_digits_of_42() {
    let mut c = counter(42, false, 3600, vec![], &[], true);
    let t = Timestamp::from_secs(0);
    assert_eq!(c.handle_connection("GET /get?n=1 HTTP/1.1", None, None, t), Reply::Digit(Some(2)));
    assert_eq!(c.handle_connection("GET /get?n=2 HTTP/1.1", None, None, t), Reply::Digit(Some(4)));
    assert_eq!(c.handle_connection("GET /get?n=3 HTTP/1.1", None, None, t), Reply::Digit(None));
    assert_eq!(c.count(), 42);
}

#[test]
fn get_on_count_zero() {
    let mut c = counter(0, false, 3600, vec![], &[], true);
    let t = Timestamp::from_secs(0);
    assert_eq!(c.handle_connection("GET /get?n=1 HTTP/1.1", None, None, t), Reply::Digit(Some(0)));
    assert_eq!(c.handle_connection("GET /get?n=2 HTTP/1.1", None, None, t), Reply::Digit(None));
}

#[test]
fn repeated_get_gives_the_same_reply_and_response() {
    let mut c = counter(907, true, 3600, vec![], &["bot"], false);
    let first = c.handle_connection("GET /get?n=2 HTTP/1.1", Some(Address::V4(1)), None, Timestamp::from_secs(1));
    let second = c.handle_connection("GET /get?n=2 HTTP/1.1\nUser-Agent: bot", Some(Address::V6(9)), None, Timestamp::from_secs(99));
    assert_eq!(first, Reply::Digit(Some(0)));
    assert_eq!(first, second);
    assert_eq!(c.count(), 907);
    let image = vec![0xffu8, 0xd8, 0xff, 0xe0];
    let one = c.image_response(Some(image.clone()));
    let two = c.image_response(Some(image.clone()));
    assert_eq!(one.head, two.head);
    assert_eq!(one.body, two.body);
    assert_eq!(c.image_path(Some(0)), c.image_path(Some(0)));
}

#[test]
fn malformed_get_is_a_bad_request_and_counts_nothing() {
    let mut c = counter(5, false, 3600, vec![], &[], true);
    let t = Timestamp::from_secs(0);
    let peer = Some(Address::V4(1));
    for head in [
        "GET /get?n=0 HTTP/1.1",
        "GET /get?n=abc HTTP/1.1",
        "GET /get HTTP/1.1",
        "GET /get?5 HTTP/1.1",
        "GET /get?m=5 HTTP/1.1",
        "GET /get?n=256 HTTP/1.1",
        "GET /nothing HTTP/1.1",
        "GET / HTTP/1.1",
    ] {
        assert_eq!(c.handle_connection(head, peer, None, t), Reply::BadRequest);
        assert_eq!(c.count(), 5);
    }
}

#[test]
fn non_get_is_ignored() {
    let mut c = counter(5, false, 3600, vec![], &[], true);
    let t = Timestamp::from_secs(0);
    assert_eq!(c.handle_connection("POST /increment HTTP/1.1", Some(Address::V4(1)), None, t), Reply::Ignore);
    assert_eq!(c.handle_connection("", Some(Address::V4(1)), None, t), Reply::Ignore);
    assert_eq!(c.count(), 5);
}

#[test]
fn every_allowed_visit_counts_without_uniqueness() {
    let mut c = counter(9, false, 3600, vec![], &[], false);
    let peer = Some(Address::V4(1));
    assert_eq!(c.handle_connection(VISIT, peer, None, Timestamp::from_secs(0)), Reply::Acknowledged { counted: true });
    assert_eq!(c.handle_connection(VISIT, peer, None, Timestamp::from_secs(0)), Reply::Acknowledged { counted: true });
    assert_eq!(c.count(), 11);
    assert_eq!(c.count_text(), "11");
    assert_eq!(c.handle_connection("GET /get?n=2", None, None, Timestamp::from_secs(0)), Reply::Digit(Some(1)));
    assert_eq!(c.handle_connection("GET /get?n=3", None, None, Timestamp::from_secs(0)), Reply::Digit(None));
}

#[test]
fn unique_visits_count_once_per_timeout() {
    let mut c = counter(0, true, 60, vec![], &[], false);
    let peer = Some(Address::V4(0xc0a8_0001));
    c.clear_timedout(Timestamp::from_secs(100));
    assert_eq!(c.handle_connection(VISIT, peer, None, Timestamp::from_secs(100)), Reply::Acknowledged { counted: true });
    c.clear_timedout(Timestamp::from_secs(159));
    assert_eq!(c.handle_connection(VISIT, peer, None, Timestamp::from_secs(159)), Reply::Acknowledged { counted: false });
    assert_eq!(c.count(), 1);
    c.clear_timedout(Timestamp::from_secs(160));
    assert_eq!(c.handle_connection(VISIT, peer, None, Timestamp::from_secs(160)), Reply::Acknowledged { counted: true });
    assert_eq!(c.count(), 2);
}

#[test]
fn the_window_runs_from_the_counted_visit() {
    let mut c = counter(0, true, 60, vec![], &[], false);
    let peer = Some(Address::V4(1));
    c.clear_timedout(Timestamp::from_secs(0));
    assert_eq!(c.handle_connection(VISIT, peer, None, Timestamp::from_secs(0)), Reply::Acknowledged { counted: true });
    c.clear_timedout(Timestamp::from_secs(59));
    assert_eq!(c.handle_connection(VISIT, peer, None, Timestamp::from_secs(59)), Reply::Acknowledged { counted: false });
    c.clear_timedout(Timestamp::from_secs(61));
    assert_eq!(c.handle_connection(VISIT, peer, None, Timestamp::from_secs(61)), Reply::Acknowledged { counted: true });
    assert_eq!(c.count(), 2);
}

#[test]
fn without_a_purge_a_stale_visitor_stays_seen() {
    let mut c = counter(0, true, 60, vec![], &[], false);
    let peer = Some(Address::V4(1));
    assert_eq!(c.handle_connection(VISIT, peer, None, Timestamp::from_secs(0)), Reply::Acknowledged { counted: true });
    assert_eq!(c.handle_connection(VISIT, peer, None, Timestamp::from_secs(5000)), Reply::Acknowledged { counted: false });
    assert_eq!(c.count(), 1);
    let other = Some(Address::V4(2));
    assert_eq!(c.handle_connection(VISIT, other, None, Timestamp::from_secs(5000)), Reply::Acknowledged { counted: true });
    assert_eq!(c.count(), 2);
}

#[test]
fn blacklisted_address_is_acknowledged_and_not_counted() {
    let listed = Address::V4(0x0a00_0005);
    for unique in [false, true] {
        let mut c = counter(3, unique, 60, vec![listed], &[], true);
        let reply = c.handle_connection("GET /increment HTTP/1.1", Some(listed), None, Timestamp::from_secs(0));
        assert_eq!(reply, Reply::Acknowledged { counted: false });
        assert_eq!(reply.head(true).unwrap(), "HTTP/1.1 200 OK\r\nContent-Type: text/javascript\r\n\r\n");
        assert_eq!(reply.head(false).unwrap(), "HTTP/1.1 200 OK\r\nContent-Type: text/javascript\r\n\r\n");
        assert_eq!(c.count(), 3);
        let reply = c.handle_connection(VISIT, Some(listed), None, Timestamp::from_secs(0));
        assert_eq!(reply, Reply::Acknowledged { counted: false });
        assert_eq!(c.count(), 3);
        let reply = c.handle_connection(VISIT, Some(Address::V4(0x0a00_0006)), None, Timestamp::from_secs(0));
        assert_eq!(reply, Reply::Acknowledged { counted: true });
        assert_eq!(c.count(), 4);
    }
}

#[test]
fn forwarded_address_supersedes_the_peer() {
    let listed = Address::V4(0x0a00_0005);
    let proxy = Address::V4(0x7f00_0001);
    let mut c = counter(0, true, 60, vec![listed], &[], true);
    let t = Timestamp::from_secs(0);
    assert_eq!(c.handle_connection(VISIT, Some(proxy), Some(listed), t), Reply::Acknowledged { counted: false });
    assert_eq!(c.handle_connection(VISIT, Some(listed), Some(Address::V4(1)), t), Reply::Acknowledged { counted: true });
    assert_eq!(c.handle_connection(VISIT, Some(proxy), Some(Address::V4(1)), t), Reply::Acknowledged { counted: false });
    assert_eq!(c.handle_connection(VISIT, Some(proxy), Some(Address::V4(2)), t), Reply::Acknowledged { counted: true });
    assert_eq!(c.handle_connection(VISIT, Some(proxy), None, t), Reply::Acknowledged { counted: true });
    assert_eq!(c.handle_connection(VISIT, None, Some(Address::V4(3)), t), Reply::Acknowledged { counted: true });
    assert_eq!(c.count(), 4);
}

#[test]
fn a_visit_without_any_address_is_not_counted() {
    let mut c = counter(0, false, 60, vec![], &[], true);
    assert_eq!(c.handle_connection(VISIT, None, None, Timestamp::from_secs(0)), Reply::Acknowledged { counted: false });
    assert_eq!(c.count(), 0);
}

#[test]
fn blocked_user_agent_is_not_counted() {
    let mut c = counter(0, false, 60, vec![], &["(?i)bot", "^curl"], true);
    let peer = Some(Address::V4(1));
    let t = Timestamp::from_secs(0);
    let bot = "GET /increment HTTP/1.1\nUser-Agent: Googlebot/2.1";
    assert_eq!(c.handle_connection(bot, peer, None, t), Reply::Acknowledged { counted: false });
    let curl = "GET /increment HTTP/1.1\r\nHost: h\r\nUser-Agent: curl/8.1\r\nAccept: */*";
    assert_eq!(c.handle_connection(curl, peer, None, t), Reply::Acknowledged { counted: false });
    assert_eq!(c.count(), 0);
    assert_eq!(c.handle_connection(VISIT, peer, None, t), Reply::Acknowledged { counted: true });
    assert_eq!(c.count(), 1);
}

#[test]
fn a_blocked_agent_is_not_recorded_as_seen() {
    let mut c = counter(0, true, 60, vec![], &["bot"], true);
    let peer = Some(Address::V4(1));
    let t = Timestamp::from_secs(0);
    let bot = "GET /increment HTTP/1.1\nUser-Agent: bot";
    assert_eq!(c.handle_connection(bot, peer, None, t), Reply::Acknowledged { counted: false });
    assert_eq!(c.handle_connection(VISIT, peer, None, t), Reply::Acknowledged { counted: true });
    assert_eq!(c.count(), 1);
}

#[test]
fn missing_user_agent_defers_to_the_flag() {
    let bare = "GET /increment HTTP/1.1\nHost: h";
    let peer = Some(Address::V4(1));
    let t = Timestamp::from_secs(0);
    let mut strict = counter(0, false, 60, vec![], &[], false);
    assert_eq!(strict.handle_connection(bare, peer, None, t), Reply::Acknowledged { counted: false });
    assert_eq!(strict.count(), 0);
    let mut lenient = counter(0, false, 60, vec![], &[], true);
    assert_eq!(lenient.handle_connection(bare, peer, None, t), Reply::Acknowledged { counted: true });
    assert_eq!(lenient.count(), 1);
}

#[test]
fn route_follows_the_verdict_it_is_given() {
    let mut c = counter(7, true, 60, vec![Address::V4(9)], &[], false);
    let t = Timestamp::from_secs(0);
    assert_eq!(c.route(Request::Increment, Some(Address::V4(1)), false, t), Reply::Acknowledged { counted: false });
    assert_eq!(c.route(Request::Increment, Some(Address::V4(1)), true, t), Reply::Acknowledged { counted: true });
    assert_eq!(c.route(Request::Increment, Some(Address::V4(1)), true, t), Reply::Acknowledged { counted: false });
    assert_eq!(c.route(Request::Increment, Some(Address::V4(9)), true, t), Reply::Acknowledged { counted: false });
    assert_eq!(c.route(Request::Increment, None, true, t), Reply::Acknowledged { counted: false });
    assert_eq!(c.count(), 8);
    assert_eq!(c.route(Request::Get(Some(1)), None, false, t), Reply::Digit(Some(8)));
    assert_eq!(c.route(Request::Get(Some(0)), None, true, t), Reply::BadRequest);
    assert_eq!(c.route(Request::Get(None), None, true, t), Reply::BadRequest);
    assert_eq!(c.route(Request::Unknown, None, true, t), Reply::BadRequest);
    assert_eq!(c.route(Request::Ignored, None, true, t), Reply::Ignore);
    assert_eq!(c.count(), 8);
}

#[test]
fn replies_carry_their_heads() {
    assert_eq!(
        Reply::Acknowledged { counted: true }.head(true).unwrap(),
        "HTTP/1.1 200 OK\r\nContent-Type: text/javascript\r\n\r\n"
    );
    assert_eq!(
        Reply::Acknowledged { counted: false }.head(true).unwrap(),
        "HTTP/1.1 200 OK\r\nContent-Type: text/javascript\r\n\r\n"
    );
    assert_eq!(Reply::BadRequest.head(true).unwrap(), "HTTP/1.1 400 Bad Request\r\n\r\n");
    assert_eq!(Reply::BadRequest.head(false).unwrap(), "HTTP/1.1 400 Bad Request\r\n\r\n");
    assert_eq!(Reply::Ignore.head(true), None);
    assert_eq!(Reply::Ignore.head(false), None);
    assert_eq!(Reply::Digit(Some(3)).head(true), None);
    assert_eq!(Reply::Digit(None).head(false), None);
}

#[test]
fn a_count_that_could_not_be_written_is_answered_500() {
    assert_eq!(
        Reply::Acknowledged { counted: true }.head(false).unwrap(),
        "HTTP/1.1 500 Internal Server Error\r\nContent-Type: text/javascript\r\n\r\n"
    );
    assert_eq!(
        Reply::Acknowledged { counted: false }.head(false).unwrap(),
        "HTTP/1.1 200 OK\r\nContent-Type: text/javascript\r\n\r\n"
    );
    assert_eq!(visit_status(true, true), Status::Success);
    assert_eq!(visit_status(true, false), Status::InternalError);
    assert_eq!(visit_status(false, true), Status::Success);
    assert_eq!(visit_status(false, false), Status::Success);
    let mut c = counter(0, false, 60, vec![], &[], true);
    let reply = c.handle_connection(VISIT, Some(Address::V4(1)), None, Timestamp::from_secs(0));
    assert_eq!(reply, Reply::Acknowledged { counted: true });
    assert_eq!(
        reply.head(false).unwrap(),
        "HTTP/1.1 500 Internal Server Error\r\nContent-Type: text/javascript\r\n\r\n"
    );
    assert_eq!(c.count(), 1);
}

#[test]
fn the_largest_count_is_still_served() {
    let listed = Address::V4(9);
    let peer = Some(Address::V4(1));
    let t = Timestamp::from_secs(0);
    let text = usize::MAX.to_string();
    let last = text.as_bytes()[text.len() - 1] - b'0';
    let first = text.as_bytes()[0] - b'0';
    let mut c = counter(usize::MAX, true, 60, vec![listed], &["bot"], false);
    assert_eq!(c.handle_connection("GET /get?n=1 HTTP/1.1", peer, None, t), Reply::Digit(Some(last)));
    assert_eq!(
        c.handle_connection(format!("GET /get?n={}", text.len()).as_str(), peer, None, t),
        Reply::Digit(Some(first))
    );
    assert_eq!(
        c.handle_connection(format!("GET /get?n={}", text.len() + 1).as_str(), peer, None, t),
        Reply::Digit(None)
    );
    assert_eq!(c.handle_connection("GET /get?n=0 HTTP/1.1", peer, None, t), Reply::BadRequest);
    assert_eq!(c.handle_connection("GET /get HTTP/1.1", peer, None, t), Reply::BadRequest);
    assert_eq!(c.handle_connection("GET /elsewhere HTTP/1.1", peer, None, t), Reply::BadRequest);
    assert_eq!(c.handle_connection("POST /increment HTTP/1.1", peer, None, t), Reply::Ignore);
    assert_eq!(c.handle_connection(VISIT, Some(listed), None, t), Reply::Acknowledged { counted: false });
    assert_eq!(c.handle_connection(VISIT, None, None, t), Reply::Acknowledged { counted: false });
    let bot = "GET /increment HTTP/1.1\nUser-Agent: bot";
    assert_eq!(c.handle_connection(bot, peer, None, t), Reply::Acknowledged { counted: false });
    let bare = "GET /increment HTTP/1.1";
    assert_eq!(c.handle_connection(bare, peer, None, t), Reply::Acknowledged { counted: false });
    assert_eq!(c.count(), usize::MAX);
    assert_eq!(c.count_text(), text);
}

#[test]
fn a_repeated_visit_is_served_at_the_largest_count() {
    let peer = Some(Address::V4(1));
    let mut c = counter(usize::MAX - 1, true, 60, vec![], &[], false);
    assert!(c.will_count(VISIT, peer, None));
    assert_eq!(c.handle_connection(VISIT, peer, None, Timestamp::from_secs(0)), Reply::Acknowledged { counted: true });
    assert_eq!(c.count(), usize::MAX);
    assert!(!c.will_count(VISIT, peer, None));
    c.clear_timedout(Timestamp::from_secs(59));
    assert_eq!(c.handle_connection(VISIT, peer, None, Timestamp::from_secs(59)), Reply::Acknowledged { counted: false });
    assert_eq!(c.count(), usize::MAX);
    assert!(c.will_count(VISIT, Some(Address::V4(2)), None));
    c.clear_timedout(Timestamp::from_secs(60));
    assert!(c.will_count(VISIT, peer, None));
}

#[test]
fn will_count_tells_what_handling_would_do() {
    let listed = Address::V4(9);
    let peer = Some(Address::V4(1));
    let mut c = counter(0, true, 60, vec![listed], &["bot"], false);
    let heads = [
        VISIT,
        "GET /increment HTTP/1.1",
        "GET /increment HTTP/1.1\nUser-Agent: robot",
        "GET /get?n=1 HTTP/1.1\nUser-Agent: Mozilla",
        "GET / HTTP/1.1\nUser-Agent: Mozilla",
        "POST /increment HTTP/1.1\nUser-Agent: Mozilla",
        "",
    ];
    let sources = [(peer, None), (None, None), (Some(listed), None), (peer, Some(listed)), (Some(listed), peer)];
    for round in 0..2 {
        for head in heads {
            for (from, forwarded) in sources {
                let told = c.will_count(head, from, forwarded);
                let before = c.count();
                let reply = c.handle_connection(head, from, forwarded, Timestamp::from_secs(round));
                assert_eq!(c.count() - before, usize::from(told), "{head:?}");
                assert_eq!(reply == Reply::Acknowledged { counted: true }, told, "{head:?}");
            }
        }
    }
    assert_eq!(c.count(), 1);
}

#[test]
fn allows_agent_is_the_verdict_on_the_user_agent() {
    let strict = counter(0, false, 60, vec![], &["bot"], false);
    assert!(strict.allows_agent(VISIT));
    assert!(strict.allows_agent("GET /get?n=1\nUser-Agent: Mozilla"));
    assert!(!strict.allows_agent("GET /increment HTTP/1.1\nUser-Agent: robot"));
    assert!(!strict.allows_agent("GET /increment HTTP/1.1"));
    let lenient = counter(0, false, 60, vec![], &["bot"], true);
    assert!(lenient.allows_agent("GET /increment HTTP/1.1"));
    assert!(!lenient.allows_agent("GET /increment HTTP/1.1\nUser-Agent: robot"));
}

#[test]
fn image_paths_name_digit_or_blank() {
    let c = counter(0, false, 60, vec![], &[], true);
    assert_eq!(c.image_path(Some(0)), "img/0.jpg");
    assert_eq!(c.image_path(Some(7)), "img/7.jpg");
    assert_eq!(c.image_path(None), "img/empty.jpg");
    let other = Counter::new(0, "c".to_string(), "/srv/digits/".to_string(), "png".to_string(), "image/png".to_string(), false, 1, vec![], vec![], false);
    assert_eq!(other.image_path(Some(9)), "/srv/digits//9.png");
    assert_eq!(other.filepath(), "c");
}

#[test]
fn image_response_announces_the_exact_length() {
    let c = counter(0, false, 60, vec![], &[], true);
    let found = c.image_response(Some(vec![1, 2, 3]));
    assert_eq!(found.head, "HTTP/1.1 200 OK\r\nContent-Type: image/jpeg\r\nContent-Length: 3\r\n\r\n");
    assert_eq!(found.body, vec![1, 2, 3]);
    let empty = c.image_response(Some(vec![]));
    assert_eq!(empty.head, "HTTP/1.1 200 OK\r\nContent-Type: image/jpeg\r\nContent-Length: 0\r\n\r\n");
    assert!(empty.body.is_empty());
    let missing = c.image_response(None);
    assert_eq!(
        missing.head,
        "HTTP/1.1 500 Internal Server Error\r\nContent-Type: image/jpeg\r\nContent-Length: 0\r\n\r\n"
    );
    assert!(missing.body.is_empty());
    let large = c.image_response(Some(vec![0u8; 12_345]));
    assert_eq!(large.head, "HTTP/1.1 200 OK\r\nContent-Type: image/jpeg\r\nContent-Length: 12345\r\n\r\n");
    assert_eq!(large.body.len(), 12_345);
}
