use query_stream::exchange::{AwaitingReply, Reply, Step};
use query_stream::model::{ErrorInfo, Product, QueryResult, Response};
use query_stream::using_stream_ext::{run_queries, Action};

/// A transport for the tests. It records the address and the parameter of
/// every request it is given, and answers from a fixed table.
fn transport(call: &AwaitingReply, sent: &mut Vec<String>) -> Reply {
    let get = call.get();
    sent.push(format!("{}?{}={}", get.url, get.parameter, get.value));
    match get.value {
        "laptop" => Reply::Received {
            status: 200,
            body: br#"{"products":[{"id":1,"title":"a","category":"laptops"},{"id":5,"title":"b","category":"laptops"},{"id":8,"title":"c","category":"laptops"}],"total":3,"skip":0,"limit":3}"#.to_vec(),
        },
        "food" => Reply::Received { status: 404, body: br#"{"message":"not found"}"#.to_vec() },
        "hd" => Reply::Failed("error sending request".to_string()),
        "perfume" => Reply::Received {
            status: 200,
            body: br#"{"total":1,"skip":0,"limit":1,"products":[{"id":11,"title":"perfume Oil","category":"fragrances"}]}"#.to_vec(),
        },
        _ => Reply::Received { status: 200, body: b"not json".to_vec() },
    }
}

/// A decoder for the tests: reads the reply schema out of a JSON document.
fn decode(body: &[u8]) -> Result<Response, String> {
    let document: serde_json::Value = serde_json::from_slice(body).map_err(|e| e.to_string())?;
    let number = |value: &serde_json::Value, name: &str| -> Result<usize, String> {
        value
            .get(name)
            .and_then(|field| field.as_u64())
            .map(|n| n as usize)
            .ok_or(format!("missing field `{}`", name))
    };
    let text = |value: &serde_json::Value, name: &str| -> Result<String, String> {
        value
            .get(name)
            .and_then(|field| field.as_str())
            .map(|s| s.to_string())
            .ok_or(format!("missing field `{}`", name))
    };
    let listed = document
        .get("products")
        .and_then(|field| field.as_array())
        .ok_or(format!("missing field `products`"))?;
    let mut products = Vec::new();
    for item in listed {
        products.push(Product {
            id: number(item, "id")?,
            title: text(item, "title")?,
            category: text(item, "category")?,
        });
    }
    Ok(Response {
        total: number(&document, "total")?,
        skip: number(&document, "skip")?,
        limit: number(&document, "limit")?,
        products,
    })
}

/// A result as a caller would print it.
struct Shown<'a>(QueryResult<'a>);

impl<'a> std::fmt::Debug for Shown<'a> {
    fn fmt(&self, f: &mut std::fmt::Formatter<'_>) -> std::fmt::Result {
        f.write_str(&self.0.to_text())
    }
}

fn search<'a>(call: AwaitingReply<'a>, sent: &mut Vec<String>) -> QueryResult<'a> {
    let reply = transport(&call, sent);
    match call.on_reply(reply) {
        Step::Done(result) => result,
        Step::Decode(next) => {
            let decoded = decode(next.body());
            next.on_decoded(decoded)
        }
    }
}

/// Runs the batch with the test transport; of the searches under way the
/// one started last is reported first.
fn run<'a>(queries: Vec<&'a str>, sent: &mut Vec<String>) -> Vec<QueryResult<'a>> {
    let mut runner = run_queries(queries);
    let mut under_way = Vec::new();
    let mut results = Vec::new();
    loop {
        match runner.poll_next() {
            Action::Start { index, call } => under_way.push((index, search(call, sent))),
            Action::Yield(result) => results.push(result),
            Action::Wait => {
                let (index, result) = under_way.pop().unwrap();
                assert!(runner.complete(index, result.response));
            }
            Action::Finished => break,
        }
    }
    results
}

#[test]
fn lib_it_works() {
    let queries = &["laptop", "food", "hd", "perfume"];
    let mut sent = Vec::new();

    {
        for result in run(queries.to_vec(), &mut sent) {
            println!("{:?}", Shown(result));
        }
    }

    println!("");
    println!("--------------------------------");
    println!("");

    {
        let mut results = run(queries.to_vec(), &mut sent).into_iter();
        let mut lines = Vec::new();
        while let Some(result) = results.next() {
            let result = Shown(result);
            println!("{:?}", result);
            lines.push(format!("{:?}", result));
        }
        assert_eq!(
            lines,
            [
                "[  laptop  ] => [1, 5, 8]",
                "[   food   ] => Error: Some(404)",
                "[    hd    ] => Error: None",
                "[ perfume  ] => [11]",
            ]
        );
    }
    assert_eq!(sent.len(), 8);
    assert_eq!(sent[0], "https://dummyjson.com/products/search?q=laptop");
    assert_eq!(sent[3], "https://dummyjson.com/products/search?q=perfume");
}

#[test]
fn every_kind_of_ending_reaches_the_consumer_in_its_place() {
    let mut sent = Vec::new();
    let results = run(vec!["hd", "perfume", "garbled", "food", "laptop"], &mut sent);
    assert_eq!(results.len(), 5);
    assert_eq!(sent.len(), 5);

    assert_eq!(results[0].query, "hd");
    assert!(matches!(
        results[0].response,
        Err(ErrorInfo::Transport(ref message)) if message == "error sending request"
    ));

    assert_eq!(results[1].query, "perfume");
    match &results[1].response {
        Ok(response) => {
            assert_eq!(response.products.len(), 1);
            assert_eq!(response.products[0].id, 11);
            assert_eq!(response.products[0].title, "perfume Oil");
            assert_eq!(response.products[0].category, "fragrances");
        }
        Err(_) => panic!("expected a response"),
    }

    assert_eq!(results[2].query, "garbled");
    assert!(matches!(results[2].response, Err(ErrorInfo::Decode(_))));

    assert_eq!(results[3].query, "food");
    assert!(matches!(results[3].response, Err(ErrorInfo::HttpStatus(404))));

    assert_eq!(results[4].query, "laptop");
    assert!(matches!(results[4].response, Ok(ref response) if response.total == 3));
}
