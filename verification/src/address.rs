//! URLs: their parts, their origins, and what is written into them.
use vstd::prelude::*;
use crate::collect;
use crate::text;

verus! {

/// The parts of a URL that the library looks at.
#[derive(Debug)]
pub struct UrlParts {
    pub scheme: String,
    pub host: Option<String>,
    /// The origin, written in ASCII.
    pub origin: String,
}

/// What [`UrlParts`] hold.
pub struct UrlPartsView {
    pub scheme: Seq<char>,
    pub host: Option<Seq<char>>,
    pub origin: Seq<char>,
}

impl View for UrlParts {
    type V = UrlPartsView;

    open spec fn view(&self) -> UrlPartsView {
        UrlPartsView { scheme: self.scheme@, host: text::opt_view(self.host), origin: self.origin@ }
    }
}

/// The parts of the URL that a text stands for, as the crate `url` reads it.
pub uninterp spec fn url_parts(text: Seq<char>) -> Option<UrlPartsView>;

/// The URL that a reference stands for, seen from a base URL, as the crate `url` resolves it.
pub uninterp spec fn url_resolved(base: Seq<char>, reference: Seq<char>) -> Option<Seq<char>>;

/// A host without a label in the encoding of internationalized names.
pub open spec fn is_plain_host(host: Seq<char>) -> bool {
    forall|i: int|
        0 <= i <= host.len() - 4 && (i == 0 || host[i - 1] == '.') ==> #[trigger] host.subrange(
            i,
            i + 4,
        ) != "xn--"@
}

/// A URL of the web with a plain host.
pub open spec fn is_plain(parts: UrlPartsView) -> bool {
    &&& parts.scheme == "https"@ || parts.scheme == "http"@
    &&& parts.host is Some
    &&& is_plain_host(parts.host->0)
}

/// `url::Url::parse`, with the scheme, the host and the origin of the URL that it gives: they
/// depend on the text alone; none where the text is no absolute URL. The origin of a web URL with a
/// plain host is written with that scheme and host, and is read as a URL with that origin; it has no
/// whitespace at its ends. Nothing is said of this for internationalized hosts, whose labels are
/// decoded and checked again when the origin is read.
#[verifier::external_body]
pub(crate) fn parse_url(text: &str) -> (r: Option<UrlParts>)
    ensures
        match r {
            Some(parts) => {
                &&& url_parts(text@) == Some(parts@)
                &&& is_plain(parts@) ==> url_parts(parts@.origin) == Some(parts@) && text::is_tight(
                    parts@.origin,
                )
            },
            None => url_parts(text@) is None,
        },
{
    match url::Url::parse(text) {
        Ok(url) => Some(
            UrlParts {
                scheme: url.scheme().to_owned(),
                host: url.host_str().map(|host| host.to_owned()),
                origin: url.origin().ascii_serialization(),
            },
        ),
        Err(_) => None,
    }
}

/// `url::Url::join` on the URL that `base` stands for: the resulting URL as a text, which depends
/// on the two texts alone; none where either of them cannot be read.
#[verifier::external_body]
pub(crate) fn join_url(base: &str, reference: &str) -> (r: Option<String>)
    ensures
        text::opt_view(r) == url_resolved(base@, reference@),
{
    match url::Url::parse(base) {
        Ok(url) => match url.join(reference) {
            Ok(joined) => Some(joined.to_string()),
            Err(_) => None,
        },
        Err(_) => None,
    }
}

/// A byte that stays as it is in an encoded form: a letter, a digit, or one of four marks.
pub open spec fn stays_plain(byte: u8) -> bool {
    ||| 0x30 <= byte <= 0x39
    ||| 0x41 <= byte <= 0x5a
    ||| 0x61 <= byte <= 0x7a
    ||| byte == 0x2a
    ||| byte == 0x2d
    ||| byte == 0x2e
    ||| byte == 0x5f
}

/// An upper-case hexadecimal digit.
pub open spec fn upper_hex(n: u8) -> char {
    if n < 10 {
        (n + 0x30) as char
    } else {
        (n + 0x37) as char
    }
}

/// One byte of an encoded form.
pub open spec fn encoded_byte(byte: u8) -> Seq<char> {
    if stays_plain(byte) {
        seq![byte as char]
    } else if byte == 0x20 {
        seq!['+']
    } else {
        seq!['%', upper_hex(byte / 16), upper_hex(byte % 16)]
    }
}

/// Bytes in an encoded form.
pub open spec fn encoded(bytes: Seq<u8>) -> Seq<char>
    decreases bytes.len(),
{
    if bytes.len() == 0 {
        Seq::empty()
    } else {
        encoded(bytes.drop_last()) + encoded_byte(bytes.last())
    }
}

/// `url::form_urlencoded::byte_serialize`, its pieces put together: letters, digits and four marks
/// stay, a space becomes a plus sign, and every other byte is written as a percent sign and two
/// upper-case hexadecimal digits.
#[verifier::external_body]
pub(crate) fn encode_bytes(bytes: &[u8]) -> (r: String)
    ensures
        r@ == encoded(bytes@),
{
    url::form_urlencoded::byte_serialize(bytes).collect::<String>()
}

/// A text in an encoded form.
pub open spec fn encoded_text(text: Seq<char>) -> Seq<char> {
    encoded(vstd::utf8::encode_utf8(text))
}

/// Encodes a text so that it can stand in a URL.
pub fn encode_text(text: &str) -> (r: String)
    ensures
        r@ == encoded_text(text@),
{
    encode_bytes(text.as_bytes())
}

} // verus!
