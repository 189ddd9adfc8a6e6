use edge_proxy::header::{collect_headers, copy_headers, is_set_cookie, unfold_header, Header};

fn header(name: &str, value: &str) -> Header {
    Header { name: name.to_string(), value: value.to_string() }
}

#[test]
fn only_the_lowercase_name_sets_cookies() {
    assert!(is_set_cookie(&"set-cookie".to_string()));
    assert!(!is_set_cookie(&"Set-Cookie".to_string()));
    assert!(!is_set_cookie(&"set-cookie2".to_string()));
    assert!(!is_set_cookie(&"cookie".to_string()));
    assert!(!is_set_cookie(&String::new()));
}

#[test]
fn a_header_that_sets_cookies_is_unfolded_under_its_own_name() {
    let folded = header("Set-Cookie", "a=1, b=2; Expires=Thu, 04-Jun-2020 12:00:00 GMT");
    assert_eq!(
        unfold_header(folded, true),
        vec![
            header("Set-Cookie", "a=1"),
            header("Set-Cookie", "b=2; Expires=Thu, 04-Jun-2020 12:00:00 GMT"),
        ]
    );
}

#[test]
fn any_other_header_is_left_as_it_is() {
    let accept = header("Accept", "text/html, application/json;q=0.9");
    assert_eq!(unfold_header(accept.clone(), false), vec![accept]);
}

#[test]
fn headers_are_collected_in_order() {
    let response = vec![
        header("content-type", "text/html"),
        header("set-cookie", "a=1, b=2"),
        header("vary", "Accept, Origin"),
        header("set-cookie", "c=3; Expires=Thu, 04-Jun-2020 12:00:00 GMT"),
    ];
    assert_eq!(
        collect_headers(response),
        vec![
            header("content-type", "text/html"),
            header("set-cookie", "a=1"),
            header("set-cookie", "b=2"),
            header("vary", "Accept, Origin"),
            header("set-cookie", "c=3; Expires=Thu, 04-Jun-2020 12:00:00 GMT"),
        ]
    );
}

#[test]
fn the_name_is_matched_in_any_case_and_kept_as_written() {
    let response = vec![header("Set-Cookie", "a=1, b=2"), header("SET-COOKIE", "c=3,d=4")];
    assert_eq!(
        collect_headers(response),
        vec![
            header("Set-Cookie", "a=1"),
            header("Set-Cookie", "b=2"),
            header("SET-COOKIE", "c=3"),
            header("SET-COOKIE", "d=4"),
        ]
    );
}

#[test]
fn a_name_that_only_starts_alike_is_not_unfolded() {
    let response = vec![header("set-cookie2", "a=1, b=2"), header("x-set-cookie", "a=1, b=2")];
    assert_eq!(collect_headers(response.clone()), response);
}

#[test]
fn no_headers_give_no_headers() {
    assert_eq!(collect_headers(Vec::new()), Vec::<Header>::new());
}

#[test]
fn collecting_what_was_collected_changes_nothing() {
    let response = vec![
        header("set-cookie", " a=1 , b=2; Expires=Thu, 04-Jun-2020 12:00:00 GMT, Secure"),
        header("server", "edge"),
    ];
    let once = collect_headers(response);
    assert_eq!(collect_headers(once.clone()), once);
}

#[test]
fn a_copy_holds_the_same_headers() {
    let headers = vec![header("a", "1"), header("b", "2"), header("a", "3")];
    assert_eq!(copy_headers(&headers), headers);
}

#[test]
fn the_name_is_lowercased_as_unicode_says() {
    let response = vec![header("set-coo\u{212a}ie", "a=1,b=2")];
    assert_eq!(
        collect_headers(response),
        vec![header("set-coo\u{212a}ie", "a=1"), header("set-coo\u{212a}ie", "b=2")]
    );
}
