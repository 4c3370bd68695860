use vstd::prelude::*;

verus! {

/// A character that may stand in an HTTP method token.
pub open spec fn method_char(c: char) -> bool {
    ||| ('0' <= c && c <= '9')
    ||| ('A' <= c && c <= 'Z')
    ||| ('a' <= c && c <= 'z')
    ||| c == '!' || c == '*' || c == '+' || c == '-' || c == '.'
    ||| c == '^' || c == '_' || c == '`' || c == '|' || c == '~'
}

/// A method name that the HTTP client accepts: non-empty, token characters only.
pub open spec fn method_accepted(m: Seq<char>) -> bool {
    m.len() > 0 && forall|i: int| 0 <= i < m.len() ==> #[trigger] method_char(m[i])
}

/// The method a request is sent with: the configured one where the client
/// accepts it, `GET` otherwise.
pub open spec fn effective_method_spec(m: Seq<char>) -> Seq<char> {
    if method_accepted(m) {
        m
    } else {
        "GET"@
    }
}

/// The upper-case form of a string, as std's `str::to_uppercase` gives it.
pub uninterp spec fn upper_of(s: Seq<char>) -> Seq<char>;

/// Relies on `str::to_uppercase`: the result depends on the characters alone.
#[verifier::external_body]
pub(crate) fn uppercase(s: &str) -> (r: String)
    ensures
        r@ == upper_of(s@),
{
    s.to_uppercase()
}

/// Relies on `reqwest::Method::from_bytes` (http 0.2): it accepts a non-empty
/// name made of token characters and refuses any other.
#[verifier::external_body]
fn client_accepts_method(m: &str) -> (r: bool)
    ensures
        r == method_accepted(m@),
{
    reqwest::Method::from_bytes(m.as_bytes()).is_ok()
}

/// The method a webhook request is sent with: `configured` where the HTTP
/// client accepts it, `GET` otherwise.
pub fn effective_method(configured: &String) -> (r: String)
    ensures
        r@ == effective_method_spec(configured@),
{
    if client_accepts_method(configured.as_str()) {
        configured.clone()
    } else {
        String::from_str("GET")
    }
}

} // verus!
