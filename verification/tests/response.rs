use scraper_engine::response::{
    fetch_failure_message, http_status_message, is_success_status, response_status, scrape,
    u16_to_decimal, ScrapeRequest,
};

fn request(url: &str, entries: &[(&str, &str)]) -> ScrapeRequest {
    ScrapeRequest {
        url: url.to_string(),
        selectors: entries.iter().map(|(k, v)| (k.to_string(), v.to_string())).collect(),
    }
}

#[test]
fn success_range_is_exactly_2xx() {
    assert!(!is_success_status(199));
    assert!(is_success_status(200));
    assert!(is_success_status(204));
    assert!(is_success_status(299));
    assert!(!is_success_status(300));
    assert!(!is_success_status(404));
    assert!(!is_success_status(500));
}

#[test]
fn decimal_rendering_is_exact() {
    assert_eq!(u16_to_decimal(0), "0");
    assert_eq!(u16_to_decimal(7), "7");
    assert_eq!(u16_to_decimal(404), "404");
    assert_eq!(u16_to_decimal(65535), "65535");
}

#[test]
fn http_status_detail_names_the_code() {
    assert_eq!(http_status_message(404), "HTTP Status 404");
    assert_eq!(http_status_message(503), "HTTP Status 503");
}

#[test]
fn fetch_failure_wraps_the_cause() {
    assert_eq!(
        fetch_failure_message("connection refused"),
        "Failed to fetch URL: connection refused"
    );
}

#[test]
fn failed_fetch_yields_failure_result_with_no_data() {
    let req = request("http://unreachable.test/", &[("title", "h1")]);
    let result = scrape(&req, Err("connection refused".to_string()));
    assert!(!result.success);
    assert!(result.data.is_empty());
    assert_eq!(result.error, Some("Failed to fetch URL: connection refused".to_string()));
    assert_eq!(response_status(&result), 400);
}

#[test]
fn non_2xx_status_detail_reaches_the_error_field() {
    let req = request("http://example.test/", &[("title", "h1")]);
    let result = scrape(&req, Err(http_status_message(404)));
    assert!(!result.success);
    assert!(result.data.is_empty());
    assert_eq!(result.error, Some("Failed to fetch URL: HTTP Status 404".to_string()));
}

#[test]
fn successful_fetch_yields_data_for_every_field() {
    let page = "<html><body><h1>A</h1><p>B</p></body></html>".to_string();
    let req = request("http://example.test/", &[("head", "h1"), ("body", "p"), ("gone", "#x")]);
    let result = scrape(&req, Ok(page));
    assert!(result.success);
    assert_eq!(result.error, None);
    let keys: Vec<&String> = result.data.iter().map(|(k, _)| k).collect();
    assert_eq!(keys, ["head", "body", "gone"]);
    assert_eq!(response_status(&result), 200);
}

#[test]
fn scraping_an_unchanged_page_twice_yields_identical_data() {
    let page = "<html><body><h1> Title </h1><p class=\"x\">body text</p></body></html>";
    let req = request(
        "http://example.test/",
        &[("title", "h1"), ("text", "p.x"), ("none", "#absent"), ("bad", "[[[")],
    );
    let first = scrape(&req, Ok(page.to_string()));
    let second = scrape(&req, Ok(page.to_string()));
    assert_eq!(first.data, second.data);
    assert_eq!(first.success, second.success);
    assert_eq!(first.error, second.error);
}

#[test]
fn product_page_end_to_end() {
    let page = "<html><body><h1 class=\"product-title\">  Wireless Mouse </h1></body></html>";
    let req = request("http://example.test/product", &[("title", "h1.product-title")]);
    let result = scrape(&req, Ok(page.to_string()));
    assert!(result.success);
    assert_eq!(result.error, None);
    assert_eq!(result.data, vec![("title".to_string(), "Wireless Mouse".to_string())]);
    assert_eq!(response_status(&result), 200);
}
