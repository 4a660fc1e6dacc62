use hitcounter::request::{check_x_real_ip, parse_arg, parse_request, Request};

#[test]
fn get_with_position_is_read() {
    assert_eq!(parse_request("GET /get?n=1 HTTP/1.1"), Request::Get(Some(1)));
    assert_eq!(parse_request("GET /get?n=255 HTTP/1.1"), Request::Get(Some(255)));
    assert_eq!(parse_request("GET /get?n=0 HTTP/1.1"), Request::Get(Some(0)));
    assert_eq!(parse_request("GET /get?n=007 HTTP/1.1"), Request::Get(Some(7)));
    assert_eq!(parse_request("GET /get?n=+5 HTTP/1.1"), Request::Get(Some(5)));
}

#[test]
fn malformed_arguments_give_no_position() {
    assert_eq!(parse_request("GET /get?n=abc HTTP/1.1"), Request::Get(None));
    assert_eq!(parse_request("GET /get HTTP/1.1"), Request::Get(None));
    assert_eq!(parse_request("GET /get? HTTP/1.1"), Request::Get(None));
    assert_eq!(parse_request("GET /get?n HTTP/1.1"), Request::Get(None));
    assert_eq!(parse_request("GET /get?m=3 HTTP/1.1"), Request::Get(None));
    assert_eq!(parse_request("GET /get?N=3 HTTP/1.1"), Request::Get(None));
    assert_eq!(parse_request("GET /get?n=256 HTTP/1.1"), Request::Get(None));
    assert_eq!(parse_request("GET /get?n=-1 HTTP/1.1"), Request::Get(None));
    assert_eq!(parse_request("GET /get?n= HTTP/1.1"), Request::Get(None));
    assert_eq!(parse_request("GET /get?n=3&x=1 HTTP/1.1"), Request::Get(None));
    assert_eq!(parse_request("GET /get?n=1=2 HTTP/1.1"), Request::Get(None));
}

#[test]
fn increment_is_read_with_or_without_argument() {
    assert_eq!(parse_request("GET /increment HTTP/1.1"), Request::Increment);
    assert_eq!(parse_request("GET /increment"), Request::Increment);
    assert_eq!(parse_request("GET /increment?n=3 HTTP/1.1"), Request::Increment);
    assert_eq!(parse_request("GET /increment?whatever HTTP/1.1"), Request::Increment);
}

#[test]
fn other_targets_are_unknown() {
    assert_eq!(parse_request("GET / HTTP/1.1"), Request::Unknown);
    assert_eq!(parse_request("GET /increment/ HTTP/1.1"), Request::Unknown);
    assert_eq!(parse_request("GET /Get?n=1 HTTP/1.1"), Request::Unknown);
    assert_eq!(parse_request("GET ?n=1 HTTP/1.1"), Request::Unknown);
    assert_eq!(parse_request("GET /get/?n=1 HTTP/1.1"), Request::Unknown);
}

#[test]
fn anything_but_get_is_ignored() {
    assert_eq!(parse_request(""), Request::Ignored);
    assert_eq!(parse_request("POST /increment HTTP/1.1"), Request::Ignored);
    assert_eq!(parse_request("get /increment HTTP/1.1"), Request::Ignored);
    assert_eq!(parse_request("GET"), Request::Ignored);
    assert_eq!(parse_request("GET "), Request::Ignored);
    assert_eq!(parse_request("GET\t/increment HTTP/1.1"), Request::Ignored);
    assert_eq!(parse_request("GETX /increment HTTP/1.1"), Request::Ignored);
    assert_eq!(parse_request("\nGET /increment HTTP/1.1"), Request::Ignored);
}

#[test]
fn only_the_trimmed_first_line_counts() {
    assert_eq!(parse_request("  GET /increment HTTP/1.1  "), Request::Increment);
    assert_eq!(parse_request("GET /increment HTTP/1.1\r\nHost: x"), Request::Increment);
    assert_eq!(parse_request("GET /get?n=2 HTTP/1.1\nGET /increment HTTP/1.1"), Request::Get(Some(2)));
    assert_eq!(parse_request("GET    /get?n=9"), Request::Get(Some(9)));
    assert_eq!(parse_request("GET \t /get?n=9\tHTTP/1.1"), Request::Get(Some(9)));
    assert_eq!(parse_request("GET /get?n=9\u{2003}HTTP/1.1"), Request::Get(Some(9)));
    assert_eq!(parse_request("\u{a0}GET /get?n=4\u{3000}"), Request::Get(Some(4)));
    assert_eq!(parse_request("GET /get?n=9\r"), Request::Get(Some(9)));
}

#[test]
fn multibyte_text_is_cut_at_characters() {
    assert_eq!(parse_request("GET /gét?n=1 HTTP/1.1"), Request::Unknown);
    assert_eq!(parse_request("GET /get?n=1é HTTP/1.1"), Request::Get(None));
    assert_eq!(parse_request("GET /get?ñ=1 HTTP/1.1"), Request::Get(None));
}

#[test]
fn parse_arg_reads_n_and_nothing_else() {
    assert_eq!(parse_arg("n=0"), Some(0));
    assert_eq!(parse_arg("n=1"), Some(1));
    assert_eq!(parse_arg("n=42"), Some(42));
    assert_eq!(parse_arg("n=255"), Some(255));
    assert_eq!(parse_arg("n=+17"), Some(17));
    assert_eq!(parse_arg("n=0000000000000000000000012"), Some(12));
    assert_eq!(parse_arg("n=256"), None);
    assert_eq!(parse_arg("n=99999999999999999999999999"), None);
    assert_eq!(parse_arg("n=abc"), None);
    assert_eq!(parse_arg("n=1a"), None);
    assert_eq!(parse_arg("n= 1"), None);
    assert_eq!(parse_arg("n=1 "), None);
    assert_eq!(parse_arg("n=-0"), None);
    assert_eq!(parse_arg("n=++1"), None);
    assert_eq!(parse_arg("n=+"), None);
    assert_eq!(parse_arg("n="), None);
    assert_eq!(parse_arg("n"), None);
    assert_eq!(parse_arg(""), None);
    assert_eq!(parse_arg("=5"), None);
    assert_eq!(parse_arg("m=5"), None);
    assert_eq!(parse_arg(" n=5"), None);
    assert_eq!(parse_arg("nn=5"), None);
    assert_eq!(parse_arg("5"), None);
}

#[test]
fn forwarded_address_is_the_trimmed_header_value() {
    let head = "GET /increment HTTP/1.1\nHost: example.org\nX-Real-IP:   10.0.0.5  \nUser-Agent: x";
    assert_eq!(check_x_real_ip(head), Some("10.0.0.5"));
    assert_eq!(check_x_real_ip("X-Real-IP: 1.2.3.4"), Some("1.2.3.4"));
    assert_eq!(check_x_real_ip("X-Real-IP: "), Some(""));
    assert_eq!(check_x_real_ip("GET / HTTP/1.1\r\nX-Real-IP: ::1\r\nHost: h"), Some("::1"));
    assert_eq!(check_x_real_ip("GET / HTTP/1.1\nX-Real-IP: not an address\n"), Some("not an address"));
}

#[test]
fn forwarded_address_needs_the_exact_header_at_line_start() {
    assert_eq!(check_x_real_ip(""), None);
    assert_eq!(check_x_real_ip("GET / HTTP/1.1\nHost: example.org"), None);
    assert_eq!(check_x_real_ip("GET / HTTP/1.1\n X-Real-IP: 1.2.3.4"), None);
    assert_eq!(check_x_real_ip("GET / HTTP/1.1\nx-real-ip: 1.2.3.4"), None);
    assert_eq!(check_x_real_ip("GET / HTTP/1.1\nX-Real-IP:1.2.3.4"), None);
    assert_eq!(check_x_real_ip("GET / HTTP/1.1 X-Real-IP: 1.2.3.4"), None);
}

#[test]
fn first_forwarded_header_wins() {
    let head = "GET / HTTP/1.1\nX-Real-IP: bogus\nX-Real-IP: 10.0.0.5";
    assert_eq!(check_x_real_ip(head), Some("bogus"));
}
