use vstd::prelude::*;

use crate::extract::{extract, extraction_of};

verus! {

/// The decimal digit character for a value below ten.
pub open spec fn dec_digit(d: nat) -> char {
    if d == 0 {
        '0'
    } else if d == 1 {
        '1'
    } else if d == 2 {
        '2'
    } else if d == 3 {
        '3'
    } else if d == 4 {
        '4'
    } else if d == 5 {
        '5'
    } else if d == 6 {
        '6'
    } else if d == 7 {
        '7'
    } else if d == 8 {
        '8'
    } else {
        '9'
    }
}

/// The decimal rendering of a number, without sign or leading zeros.
pub open spec fn dec_of(n: nat) -> Seq<char>
    decreases n,
{
    if n < 10 {
        seq![dec_digit(n)]
    } else {
        dec_of(n / 10).push(dec_digit(n % 10))
    }
}

fn dec_digit_str(d: u16) -> (r: &'static str)
    requires
        d < 10,
    ensures
        r@ =~= seq![dec_digit(d as nat)],
{
    proof {
        reveal_strlit("0");
        reveal_strlit("1");
        reveal_strlit("2");
        reveal_strlit("3");
        reveal_strlit("4");
        reveal_strlit("5");
        reveal_strlit("6");
        reveal_strlit("7");
        reveal_strlit("8");
        reveal_strlit("9");
    }
    if d == 0 {
        "0"
    } else if d == 1 {
        "1"
    } else if d == 2 {
        "2"
    } else if d == 3 {
        "3"
    } else if d == 4 {
        "4"
    } else if d == 5 {
        "5"
    } else if d == 6 {
        "6"
    } else if d == 7 {
        "7"
    } else if d == 8 {
        "8"
    } else {
        "9"
    }
}

/// Render a status code in decimal.
pub fn u16_to_decimal(n: u16) -> (r: String)
    ensures
        r@ == dec_of(n as nat),
    decreases n,
{
    if n < 10 {
        String::from_str(dec_digit_str(n))
    } else {
        let mut r = u16_to_decimal(n / 10);
        r.append(dec_digit_str(n % 10));
        proof {
            assert(dec_of((n / 10) as nat) + seq![dec_digit((n % 10) as nat)] =~= dec_of(
                (n / 10) as nat,
            ).push(dec_digit((n % 10) as nat)));
        }
        r
    }
}

/// An HTTP status code counts as success exactly when it lies in the 2xx range.
pub fn is_success_status(status: u16) -> (r: bool)
    ensures
        r == (200 <= status <= 299),
{
    status >= 200 && status <= 299
}

/// The error detail reported for a response outside the success range.
pub open spec fn http_status_text(status: u16) -> Seq<char> {
    "HTTP Status "@ + dec_of(status as nat)
}

/// Build the error detail for a response whose status is not in the 2xx range.
pub fn http_status_message(status: u16) -> (r: String)
    ensures
        r@ == http_status_text(status),
{
    let mut r = String::from_str("HTTP Status ");
    let digits = u16_to_decimal(status);
    r.append(digits.as_str());
    r
}

/// The error reported when the fetch failed, wrapping the underlying cause.
pub open spec fn fetch_failure_text(detail: Seq<char>) -> Seq<char> {
    "Failed to fetch URL: "@ + detail
}

/// Build the error string for a failed fetch from the underlying cause.
pub fn fetch_failure_message(detail: &str) -> (r: String)
    ensures
        r@ == fetch_failure_text(detail@),
{
    let mut r = String::from_str("Failed to fetch URL: ");
    r.append(detail);
    r
}

/// A scrape request: the page to fetch and, per caller-chosen field name, the
/// CSS selector whose first match supplies that field's value.
pub struct ScrapeRequest {
    pub url: String,
    pub selectors: Vec<(String, String)>,
}

/// A scrape result. When the fetch failed, `success` is false, `data` is
/// empty and `error` carries the cause; when it succeeded, `success` is true,
/// `error` is absent and `data` holds one entry per requested field.
pub struct ScrapeResult {
    pub success: bool,
    pub data: Vec<(String, String)>,
    pub error: Option<String>,
}

/// The structural invariant of a scrape result.
pub open spec fn result_wf(r: ScrapeResult) -> bool {
    if r.success {
        r.error is None
    } else {
        r.data@.len() == 0 && r.error is Some
    }
}

/// Turn the outcome of fetching the requested page into the response: a
/// failed fetch yields a failure result carrying the cause and no data, and a
/// fetched page yields a success result with one extracted entry per selector.
pub fn scrape(request: &ScrapeRequest, fetched: Result<String, String>) -> (r: ScrapeResult)
    ensures
        result_wf(r),
        match fetched {
            Result::Ok(page_text) => r.success && r.error is None && r.data.deep_view()
                == extraction_of(page_text@, request.selectors.deep_view()),
            Result::Err(detail) => !r.success && r.data@.len() == 0 && (r.error matches Some(m)
                && m@ == fetch_failure_text(detail@)),
        },
{
    match fetched {
        Result::Ok(page_text) => ScrapeResult {
            success: true,
            data: extract(page_text.as_str(), &request.selectors),
            error: None,
        },
        Result::Err(detail) => ScrapeResult {
            success: false,
            data: Vec::new(),
            error: Some(fetch_failure_message(detail.as_str())),
        },
    }
}

/// The HTTP status the service answers with: success maps to 200 OK, a failed
/// fetch to 400 Bad Request.
pub fn response_status(r: &ScrapeResult) -> (status: u16)
    ensures
        status == (if r.success {
            200u16
        } else {
            400u16
        }),
{
    if r.success {
        200
    } else {
        400
    }
}

} // verus!
