use microservice::form::{parse_form, parse_query, FormError, QueryError};
use microservice::messages::{filter_messages, Message, TimeRange};
use microservice::response::{
    make_error_response, make_get_response, make_not_found_response, make_post_response,
    make_unavailable_response, render_page, Status,
};
use microservice::{Method, Microservice, Route};

fn msg(username: &str, message: &str, timestamp: i64) -> Message {
    Message {
        username: String::from(username),
        message: String::from(message),
        timestamp,
    }
}

#[test]
fn routing_dispatches_by_method_and_path() {
    assert_eq!(Microservice::route(&Method::Post, "/"), Route::PostMessage);
    assert_eq!(Microservice::route(&Method::Get, "/"), Route::GetMessages);
    assert_eq!(Microservice::route(&Method::Get, "/other"), Route::NotFound);
    assert_eq!(Microservice::route(&Method::Post, ""), Route::NotFound);
    assert_eq!(Microservice::route(&Method::Other, "/"), Route::NotFound);
}

#[test]
fn unknown_route_gets_bare_not_found() {
    let r = make_not_found_response();
    assert_eq!(r.status, Status::NotFound);
    assert_eq!(r.content_length, None);
    assert!(!r.content_type_json);
    assert!(r.body.is_none());
}

#[test]
fn posting_a_valid_message_returns_timestamp_json() {
    let parsed = parse_form(b"message=hi&username=bob").unwrap();
    assert_eq!(parsed.username, "bob");
    assert_eq!(parsed.message, "hi");

    let r = make_post_response(Ok(42));
    assert_eq!(r.status, Status::Okay);
    assert!(r.content_type_json);
    let body = r.body.unwrap();
    assert_eq!(body, "{\"timestamp\":42}");
    assert_eq!(r.content_length, Some(body.len() as u64));
}

#[test]
fn posting_without_message_field_is_rejected() {
    let err = parse_form(b"username=bob").unwrap_err();
    assert_eq!(err, FormError::MissingMessage);

    let r = make_post_response(Err(err.message()));
    assert_eq!(r.status, Status::InternalServerError);
    assert!(r.content_type_json);
    assert_eq!(
        r.body.unwrap(),
        "{\"error\":\"Missing field 'message'\"}"
    );
}

#[test]
fn username_defaults_to_anonymous() {
    let parsed = parse_form(b"message=hello").unwrap();
    assert_eq!(parsed.username, "anonymous");
    assert_eq!(parsed.message, "hello");
}

#[test]
fn form_decoding_unescapes_names_and_values() {
    let parsed = parse_form(b"message=hello+world%21&username=J%C3%BCrgen").unwrap();
    assert_eq!(parsed.message, "hello world!");
    assert_eq!(parsed.username, "J\u{fc}rgen");
}

#[test]
fn later_form_fields_override_earlier_ones() {
    let parsed = parse_form(b"message=a&message=b").unwrap();
    assert_eq!(parsed.message, "b");
}

#[test]
fn a_field_without_equals_sign_has_empty_value() {
    let parsed = parse_form(b"message").unwrap();
    assert_eq!(parsed.message, "");
    assert_eq!(parsed.username, "anonymous");
}

#[test]
fn an_empty_body_is_missing_its_message() {
    assert_eq!(parse_form(b"").unwrap_err(), FormError::MissingMessage);
}

#[test]
fn later_query_bounds_override_earlier_ones() {
    let tr = parse_query("before=1&before=2").unwrap();
    assert_eq!(tr.before, Some(2));
}

#[test]
fn query_with_both_bounds_parses() {
    let tr = parse_query("before=100&after=5").unwrap();
    assert_eq!(tr.before, Some(100));
    assert_eq!(tr.after, Some(5));
}

#[test]
fn empty_query_means_no_bounds() {
    let tr = parse_query("").unwrap();
    assert_eq!(tr.before, None);
    assert_eq!(tr.after, None);

    let tr = Microservice::get_time_range(None).unwrap();
    assert_eq!(tr.before, None);
    assert_eq!(tr.after, None);
}

#[test]
fn non_numeric_bounds_are_rejected() {
    assert_eq!(parse_query("before=abc").unwrap_err(), QueryError::BadBefore);
    assert_eq!(parse_query("after=xyz").unwrap_err(), QueryError::BadAfter);
    assert_eq!(
        parse_query("before=abc&after=xyz").unwrap_err(),
        QueryError::BadBefore
    );

    let r = make_error_response(QueryError::BadAfter.message().as_str());
    assert_eq!(r.status, Status::InternalServerError);
    assert_eq!(r.body.unwrap(), "{\"error\":\"Error parsing 'after'\"}");
}

#[test]
fn bounds_at_the_ends_of_the_i64_range_parse() {
    let tr = parse_query("before=9223372036854775807&after=-9223372036854775808").unwrap();
    assert_eq!(tr.before, Some(i64::MAX));
    assert_eq!(tr.after, Some(i64::MIN));

    assert_eq!(
        parse_query("before=9223372036854775808").unwrap_err(),
        QueryError::BadBefore
    );
    assert_eq!(
        parse_query("after=-9223372036854775809").unwrap_err(),
        QueryError::BadAfter
    );
}

#[test]
fn a_plus_sign_is_accepted_and_junk_is_not() {
    let tr = parse_query("before=%2B5").unwrap();
    assert_eq!(tr.before, Some(5));
    assert_eq!(parse_query("before=5x").unwrap_err(), QueryError::BadBefore);
    assert_eq!(parse_query("before=").unwrap_err(), QueryError::BadBefore);
    assert_eq!(parse_query("before=-").unwrap_err(), QueryError::BadBefore);
}

#[test]
fn filtering_keeps_strictly_inside_the_range() {
    let msgs = vec![
        msg("a", "first", 1),
        msg("b", "second", 5),
        msg("c", "third", 10),
    ];
    let tr = TimeRange {
        before: Some(10),
        after: Some(1),
    };
    let kept = filter_messages(&msgs, &tr);
    assert_eq!(kept.len(), 1);
    assert_eq!(kept[0].timestamp, 5);
    assert_eq!(kept[0].username, "b");

    let all = filter_messages(
        &msgs,
        &TimeRange {
            before: None,
            after: None,
        },
    );
    assert_eq!(all.len(), 3);

    let none = filter_messages(
        &msgs,
        &TimeRange {
            before: Some(1),
            after: None,
        },
    );
    assert_eq!(none.len(), 0);
}

#[test]
fn listing_renders_one_line_per_message() {
    let msgs = vec![msg("alice", "hi", 12), msg("bob", "yo", -3)];
    let page = render_page(msgs);
    assert_eq!(page, "12 alice: hi\n-3 bob: yo\n");
}

#[test]
fn get_response_carries_the_listing() {
    let msgs = vec![msg("alice", "hi", 7)];
    let r = make_get_response(Some(msgs));
    assert_eq!(r.status, Status::Okay);
    assert!(!r.content_type_json);
    let body = r.body.unwrap();
    assert_eq!(body, "7 alice: hi\n");
    assert_eq!(r.content_length, Some(body.len() as u64));
}

#[test]
fn get_response_without_store_answer_is_error_envelope() {
    let r = make_get_response(None);
    assert_eq!(r.status, Status::InternalServerError);
    assert!(r.content_type_json);
    let body = r.body.unwrap();
    assert_eq!(body, "{\"error\":\"service error\"}");
    assert_eq!(r.content_length, Some(body.len() as u64));
}

#[test]
fn failed_store_connection_gets_bare_500() {
    let r = make_unavailable_response();
    assert_eq!(r.status, Status::InternalServerError);
    assert_eq!(r.content_length, None);
    assert!(!r.content_type_json);
    assert!(r.body.is_none());
}

#[test]
fn error_bodies_escape_special_characters() {
    let r = make_error_response("a\"b\\c\nd\u{1}");
    assert_eq!(
        r.body.unwrap(),
        "{\"error\":\"a\\\"b\\\\c\\nd\\u0001\"}"
    );
}

#[test]
fn content_length_counts_bytes_not_characters() {
    let r = make_error_response("\u{fc}");
    let body = r.body.unwrap();
    assert_eq!(body, "{\"error\":\"\u{fc}\"}");
    assert_eq!(r.content_length, Some(body.len() as u64));
    assert_eq!(body.len() as u64, body.chars().count() as u64 + 1);
}
