use vstd::prelude::*;
use vstd::string::StringExecFns;

verus! {

/// What `urlencoding::encode` makes of a text.
pub uninterp spec fn url_encoded(text: Seq<char>) -> Seq<char>;

/// Relies on urlencoding::encode: percent-encodes each UTF-8 byte of the text
/// except ASCII letters, digits and `-`, `_`, `.`, `~`; the result depends on
/// the text alone.
#[verifier::external_body]
fn percent_encode(text: &str) -> (r: String)
    ensures
        r@ == url_encoded(text@),
{
    urlencoding::encode(text).into_owned()
}

/// Address of the speech service, to which the encoded text is appended.
pub open spec fn speech_base() -> Seq<char> {
    "https://text.pollinations.ai/"@
}

/// The request address for an already encoded text.
pub fn speech_url_from_encoded(encoded: &str) -> (r: String)
    ensures
        r@ == speech_base() + encoded@,
{
    let base = String::from_str("https://text.pollinations.ai/");
    base.concat(encoded)
}

/// The request address that asks the speech service to read `text` aloud.
pub fn speech_url(text: &str) -> (r: String)
    ensures
        r@ == speech_base() + url_encoded(text@),
{
    let encoded = percent_encode(text);
    speech_url_from_encoded(encoded.as_str())
}

/// Value of the `Authorization` header for `token`.
pub fn bearer_header(token: &str) -> (r: String)
    ensures
        r@ == "Bearer "@ + token@,
{
    let head = String::from_str("Bearer ");
    head.concat(token)
}

/// The token given with the request wins over the configured one.
pub fn pick_token(given: Option<String>, configured: String) -> (r: String)
    ensures
        r@ == (match given {
            Some(t) => t@,
            None => configured@,
        }),
{
    match given {
        Some(t) => t,
        None => configured,
    }
}

/// The API token read back from the settings: `stored` is `None` when no
/// token is stored, `Some(Some(t))` when the stored value is the text `t`, and
/// `Some(None)` when it is a value of another kind, which is an error.
pub fn stored_token(stored: Option<Option<String>>) -> (r: Result<Option<String>, String>)
    ensures
        stored is None ==> r matches Ok(None),
        stored matches Some(Some(t)) ==> r matches Ok(Some(u)) && u@ == t@,
        stored matches Some(None) ==> r matches Err(e) && e@ == "Invalid token format in store"@,
{
    match stored {
        None => Ok(None),
        Some(Some(t)) => Ok(Some(t)),
        Some(None) => Err(String::from_str("Invalid token format in store")),
    }
}

/// A response is accepted when it declares no content type or declares
/// `audio/mpeg`.
pub fn accepts_content_type(content_type: Option<&str>) -> (r: bool)
    ensures
        r == (match content_type {
            Some(t) => t@ == "audio/mpeg"@,
            None => true,
        }),
{
    match content_type {
        Some(t) => {
            let got = String::from_str(t);
            let want = String::from_str("audio/mpeg");
            got == want
        },
        None => true,
    }
}

} // verus!
