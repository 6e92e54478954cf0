use query_stream::model::{ErrorInfo, Product, QueryResult, Response};
use query_stream::render::QUERY_WIDTH;

fn product(id: usize) -> Product {
    Product { id, title: format!("title {}", id), category: "things".to_string() }
}

fn found<'a>(query: &'a str, ids: &[usize]) -> QueryResult<'a> {
    let products: Vec<Product> = ids.iter().map(|id| product(*id)).collect();
    let response = Response { total: ids.len(), skip: 0, limit: ids.len(), products };
    QueryResult { response: Ok(response), query }
}

#[test]
fn product_is_shown_by_its_id() {
    assert_eq!(product(0).to_text(), "0");
    assert_eq!(product(7).to_text(), "7");
    assert_eq!(product(10).to_text(), "10");
    assert_eq!(product(11).to_text(), "11");
    assert_eq!(product(1234567890).to_text(), "1234567890");
    assert_eq!(product(usize::MAX).to_text(), format!("{}", usize::MAX));
}

#[test]
fn found_products_are_listed_by_id() {
    assert_eq!(found("laptop", &[1, 5, 8]).to_text(), "[  laptop  ] => [1, 5, 8]");
    assert_eq!(found("perfume", &[11]).to_text(), "[ perfume  ] => [11]");
    assert_eq!(found("hd", &[]).to_text(), "[    hd    ] => []");
    assert_eq!(found("food", &[100, 20, 3]).to_text(), "[   food   ] => [100, 20, 3]");
}

#[test]
fn failures_are_shown_by_their_status() {
    let missing = QueryResult { response: Err(ErrorInfo::HttpStatus(404)), query: "food" };
    assert_eq!(missing.to_text(), "[   food   ] => Error: Some(404)");
    let down = QueryResult { response: Err(ErrorInfo::HttpStatus(503)), query: "laptop" };
    assert_eq!(down.to_text(), "[  laptop  ] => Error: Some(503)");
    let refused =
        QueryResult { response: Err(ErrorInfo::Transport("refused".to_string())), query: "hd" };
    assert_eq!(refused.to_text(), "[    hd    ] => Error: None");
    let garbled =
        QueryResult { response: Err(ErrorInfo::Decode("eof".to_string())), query: "perfume" };
    assert_eq!(garbled.to_text(), "[ perfume  ] => Error: None");
}

#[test]
fn query_is_centred_as_the_formatter_centres_it() {
    assert_eq!(QUERY_WIDTH, 10);
    let queries = [
        "",
        "a",
        "ab",
        "abc",
        "laptop",
        "perfume",
        "12345678",
        "123456789",
        "1234567890",
        "12345678901",
        "a much longer query than the field",
        "été",
        "日本語",
        "naïve café",
    ];
    for query in queries {
        let line = found(query, &[1, 2]).to_text();
        assert_eq!(line, format!("[{:^10}] => [1, 2]", query));
    }
}

#[test]
fn status_is_written_as_the_formatter_writes_it() {
    for status in [0u16, 9, 10, 99, 100, 404, 500, 999, 1000, 40404, u16::MAX] {
        let failed = QueryResult { response: Err(ErrorInfo::HttpStatus(status)), query: "q" };
        assert_eq!(failed.to_text(), format!("[{:^10}] => Error: {:?}", "q", Some(status)));
    }
    let none: Option<u16> = None;
    let failed = QueryResult { response: Err(ErrorInfo::Transport(String::new())), query: "q" };
    assert_eq!(failed.to_text(), format!("[{:^10}] => Error: {:?}", "q", none));
}

#[test]
fn ids_are_listed_as_the_formatter_lists_them() {
    let lists: [&[usize]; 5] = [&[], &[0], &[1, 2], &[10, 200, 3000, 40000], &[usize::MAX, 0, 9]];
    for ids in lists {
        let line = found("list", ids).to_text();
        assert_eq!(line, format!("[{:^10}] => {:?}", "list", ids));
    }
}
