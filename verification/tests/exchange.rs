use query_stream::exchange::{status_is_success, AwaitingReply, Reply, Step};
use query_stream::model::{request, ErrorInfo, Product, QueryResult, Response};

/// A decoder for the tests: reads the reply schema out of a JSON document.
fn decode(body: &[u8]) -> Result<Response, String> {
    let document: serde_json::Value = serde_json::from_slice(body).map_err(|e| e.to_string())?;
    let number = |value: &serde_json::Value, name: &str| -> Result<usize, String> {
        value
            .get(name)
            .and_then(|field| field.as_u64())
            .map(|n| n as usize)
            .ok_or(format!("missing field `{}`", name))
    };
    let text = |value: &serde_json::Value, name: &str| -> Result<String, String> {
        value
            .get(name)
            .and_then(|field| field.as_str())
            .map(|s| s.to_string())
            .ok_or(format!("missing field `{}`", name))
    };
    let listed = document
        .get("products")
        .and_then(|field| field.as_array())
        .ok_or(format!("missing field `products`"))?;
    let mut products = Vec::new();
    for item in listed {
        products.push(Product {
            id: number(item, "id")?,
            title: text(item, "title")?,
            category: text(item, "category")?,
        });
    }
    Ok(Response {
        total: number(&document, "total")?,
        skip: number(&document, "skip")?,
        limit: number(&document, "limit")?,
        products,
    })
}

/// Takes one query through its exchange with a transport that gives `reply`,
/// and counts the calls of the decoder.
fn settle<'a>(query: &'a str, reply: Reply, decoder_calls: &mut usize) -> QueryResult<'a> {
    match request(query).on_reply(reply) {
        Step::Done(result) => result,
        Step::Decode(next) => {
            *decoder_calls += 1;
            let decoded = decode(next.body());
            next.on_decoded(decoded)
        }
    }
}

#[test]
fn request_asks_for_a_get_with_the_query_as_q() {
    let call = request("laptop");
    assert_eq!(call.query(), "laptop");
    let get = call.get();
    assert_eq!(get.url, "https://dummyjson.com/products/search");
    assert_eq!(get.parameter, "q");
    assert_eq!(get.value, "laptop");
}

#[test]
fn new_call_is_the_same_as_request() {
    let call = AwaitingReply::new("food");
    assert_eq!(call.query(), "food");
    assert_eq!(call.get().value, request("food").get().value);
}

#[test]
fn transport_failure_is_carried_in_the_result() {
    let mut decoder_calls = 0;
    let reply = Reply::Failed("connection refused".to_string());
    let result = settle("laptop", reply, &mut decoder_calls);
    assert_eq!(result.query, "laptop");
    match result.response {
        Err(ErrorInfo::Transport(message)) => assert_eq!(message, "connection refused"),
        _ => panic!("expected a transport failure"),
    }
    assert_eq!(decoder_calls, 0);
}

#[test]
fn failing_status_is_carried_and_body_is_not_decoded() {
    let body = br#"{"total":1,"skip":0,"limit":1,"products":[]}"#;
    for status in [100u16, 199, 300, 301, 304, 400, 404, 429, 500, 503, 999] {
        let mut decoder_calls = 0;
        let reply = Reply::Received { status, body: body.to_vec() };
        let result = settle("food", reply, &mut decoder_calls);
        assert_eq!(result.query, "food");
        match result.response {
            Err(failure) => {
                assert!(matches!(failure, ErrorInfo::HttpStatus(code) if code == status));
                assert_eq!(failure.status(), Some(status));
            }
            Ok(_) => panic!("status {} must not succeed", status),
        }
        assert_eq!(decoder_calls, 0);
    }
}

#[test]
fn successful_reply_hands_its_body_to_the_decoder() {
    for status in [200u16, 201, 204, 299] {
        let reply = Reply::Received { status, body: vec![1, 2, 3, 250] };
        match request("hd").on_reply(reply) {
            Step::Decode(next) => {
                assert_eq!(next.query(), "hd");
                assert_eq!(next.body(), &vec![1u8, 2, 3, 250]);
            }
            Step::Done(_) => panic!("status {} must be decoded", status),
        }
    }
}

#[test]
fn decoded_reply_is_the_response_of_the_query() {
    let body =
        br#"{"total":1,"skip":0,"limit":1,"products":[{"id":11,"title":"perfume Oil","category":"fragrances"}]}"#;
    let mut decoder_calls = 0;
    let reply = Reply::Received { status: 200, body: body.to_vec() };
    let result = settle("perfume", reply, &mut decoder_calls);
    assert_eq!(decoder_calls, 1);
    assert_eq!(result.query, "perfume");
    match result.response {
        Ok(response) => {
            assert_eq!(response.total, 1);
            assert_eq!(response.skip, 0);
            assert_eq!(response.limit, 1);
            assert_eq!(response.products.len(), 1);
            assert_eq!(response.products[0].id, 11);
            assert_eq!(response.products[0].title, "perfume Oil");
            assert_eq!(response.products[0].category, "fragrances");
        }
        Err(_) => panic!("expected a response"),
    }
}

#[test]
fn decode_failure_is_carried_in_the_result() {
    let mut decoder_calls = 0;
    let reply = Reply::Received { status: 200, body: b"<html>".to_vec() };
    let result = settle("laptop", reply, &mut decoder_calls);
    assert_eq!(decoder_calls, 1);
    assert_eq!(result.query, "laptop");
    match result.response {
        Err(failure) => {
            assert!(matches!(failure, ErrorInfo::Decode(_)));
            assert_eq!(failure.status(), None);
        }
        Ok(_) => panic!("expected a decode failure"),
    }
}

#[test]
fn decoder_message_is_kept_word_for_word() {
    let reply = Reply::Received { status: 200, body: Vec::new() };
    match request("x").on_reply(reply) {
        Step::Decode(next) => {
            let result = next.on_decoded(Err("unexpected end of input".to_string()));
            match result.response {
                Err(ErrorInfo::Decode(message)) => assert_eq!(message, "unexpected end of input"),
                _ => panic!("expected a decode failure"),
            }
        }
        Step::Done(_) => panic!("status 200 must be decoded"),
    }
}

#[test]
fn success_range_is_200_to_299() {
    assert!(!status_is_success(0));
    assert!(!status_is_success(199));
    assert!(status_is_success(200));
    assert!(status_is_success(250));
    assert!(status_is_success(299));
    assert!(!status_is_success(300));
    assert!(!status_is_success(404));
    assert!(!status_is_success(u16::MAX));
}

#[test]
fn only_a_status_failure_has_a_status() {
    assert_eq!(ErrorInfo::Transport("timed out".to_string()).status(), None);
    assert_eq!(ErrorInfo::HttpStatus(404).status(), Some(404));
    assert_eq!(ErrorInfo::HttpStatus(500).status(), Some(500));
    assert_eq!(ErrorInfo::Decode("bad shape".to_string()).status(), None);
}

#[test]
fn result_is_made_from_a_response_and_its_query() {
    let response = Response { total: 2, skip: 0, limit: 2, products: Vec::new() };
    let result = QueryResult::from((Ok(response), "laptop"));
    assert_eq!(result.query, "laptop");
    assert!(matches!(result.response, Ok(ref r) if r.total == 2 && r.limit == 2));

    let failed = QueryResult::from((Err(ErrorInfo::HttpStatus(503)), "food"));
    assert_eq!(failed.query, "food");
    assert!(matches!(failed.response, Err(ErrorInfo::HttpStatus(503))));
}

#[test]
fn failures_compare_by_kind_and_content() {
    assert_eq!(ErrorInfo::HttpStatus(404), ErrorInfo::HttpStatus(404));
    assert_ne!(ErrorInfo::HttpStatus(404), ErrorInfo::HttpStatus(500));
    assert_eq!(ErrorInfo::Transport("reset".to_string()), ErrorInfo::Transport("reset".to_string()));
    assert_ne!(ErrorInfo::Transport("reset".to_string()), ErrorInfo::Decode("reset".to_string()));
    let reply = Reply::Received { status: 503, body: Vec::new() };
    match request("laptop").on_reply(reply) {
        Step::Done(result) => assert_eq!(result.response.err(), Some(ErrorInfo::HttpStatus(503))),
        Step::Decode(_) => panic!("status 503 must not be decoded"),
    }
}
