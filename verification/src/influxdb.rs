//! The delivery sink: where a batch goes and with which headers, and what
//! counts as delivered.
//!
//! The sink says what to send and judges what came back. The request itself
//! is the caller's to perform.

use vstd::prelude::*;
use vstd::utf8::encode_utf8;
use url::{ParseError, Url};
use crate::text::{decimal, push_decimal};

verus! {

/// The content type of a batch.
pub open spec fn content_type() -> Seq<char> {
    "text/plain; charset=utf-8"@
}

/// The content type that the sink accepts in answer.
pub open spec fn accepted() -> Seq<char> {
    "application/json"@
}

/// The seconds after which a request is given up.
pub const TIMEOUT_SECONDS: u64 = 60;

/// Trusted: `url::Url`, a parsed URL, as a value that cannot be looked into.
#[verifier::external_type_specification]
#[verifier::external_body]
pub struct ExUrl(Url);

/// Trusted: `url::ParseError`, the reason why a text is no URL, as a value
/// that cannot be looked into.
#[verifier::external_type_specification]
#[verifier::external_body]
pub struct ExParseError(ParseError);

/// The text of a URL: what it holds and writes out.
pub uninterp spec fn url_text(url: Url) -> Seq<char>;

/// The text of the URL that `input` is parsed to; `None` where `input` is no
/// absolute URL.
pub uninterp spec fn url_parsed(input: Seq<char>) -> Option<Seq<char>>;

/// The text of a URL after the pair `key=value` is added to the end of its
/// query, both encoded as in a form.
pub uninterp spec fn url_with_pair(url: Seq<char>, key: Seq<char>, value: Seq<char>) -> Seq<char>;

/// Parses an absolute URL.
///
/// Trusted: wraps `Url::parse`, whose result depends on `input` alone.
#[verifier::external_body]
fn parse_url(input: &str) -> (r: Result<Url, ParseError>)
    ensures
        match r {
            Ok(url) => url_parsed(input@) == Some(url_text(url)),
            Err(_) => url_parsed(input@) is None,
        },
{
    Url::parse(input)
}

/// The text of a URL.
///
/// Trusted: wraps the `to_string` of `Url`, whose `Display` writes out the
/// text that the URL holds.
#[verifier::external_body]
fn write_url(url: &Url) -> (text: String)
    ensures
        text@ == url_text(*url),
{
    url.to_string()
}

/// Whether a pair can be added to a URL of the text `url`: text, key and
/// value, the latter two at three bytes for each of theirs, stay within the
/// four gigabytes that a URL may have.
pub open spec fn pair_fits(url: Seq<char>, key: Seq<char>, value: Seq<char>) -> bool {
    encode_utf8(url).len() + 3 * (encode_utf8(key).len() + encode_utf8(value).len()) + 3
        <= u32::MAX
}

/// Adds the pair `key=value` to the end of a URL's query.
///
/// Trusted: wraps `Url::query_pairs_mut` and `Serializer::append_pair` on
/// what it returns. The new text depends on the old text, the key and the
/// value alone. Both panic where a position in the text does not fit in 32
/// bits, which the bound on the lengths leaves out: a byte of key or value
/// becomes three bytes at most, and three bytes more may separate.
#[verifier::external_body]
fn append_pair(url: &mut Url, key: &str, value: &str)
    requires
        pair_fits(url_text(*old(url)), key@, value@),
    ensures
        url_text(*final(url)) == url_with_pair(url_text(*old(url)), key@, value@),
{
    url.query_pairs_mut().append_pair(key, value);
}

/// The text of a URL after a pair is added, where it fits.
pub open spec fn with_pair(url: Option<Seq<char>>, key: Seq<char>, value: Seq<char>) -> Option<
    Seq<char>,
> {
    match url {
        Some(text) => if pair_fits(text, key, value) {
            Some(url_with_pair(text, key, value))
        } else {
            None
        },
        None => None,
    }
}

/// The endpoint for a base URI: the URI with `bucket`, `org` and
/// `precision=ms` added to its query, in this order.
pub open spec fn endpoint(uri: Seq<char>, bucket: Seq<char>, org: Seq<char>) -> Option<
    Seq<char>,
> {
    with_pair(
        with_pair(with_pair(url_parsed(uri), "bucket"@, bucket), "org"@, org),
        "precision"@,
        "ms"@,
    )
}

/// Why no endpoint could be made.
#[derive(Clone, Copy, Debug, PartialEq, Eq, Structural)]
pub enum BuildError {
    /// The base URI is no absolute URL.
    InvalidUri,
    /// The endpoint would be longer than a URL may be.
    TooLong,
}

/// The number of bytes of a text.
fn byte_len(text: &str) -> (n: usize)
    ensures
        n == encode_utf8(text@).len(),
{
    text.as_bytes().len()
}

/// Adds a pair to `url` where it fits, and says whether it did.
fn add_pair(url: &mut Url, key: &str, value: &str) -> (added: bool)
    ensures
        added == pair_fits(url_text(*old(url)), key@, value@),
        added ==> url_text(*final(url)) == url_with_pair(url_text(*old(url)), key@, value@),
        !added ==> *final(url) == *old(url),
{
    let text = write_url(url);
    let grown: u128 = 3 * (byte_len(key) as u128 + byte_len(value) as u128) + 3;
    if byte_len(text.as_str()) as u128 + grown <= 0xffff_ffff {
        append_pair(url, key, value);
        true
    } else {
        false
    }
}

/// Makes the endpoint for a base URI, a bucket and an organisation.
pub fn endpoint_uri(uri: &str, bucket: &str, org: &str) -> (r: Result<String, BuildError>)
    ensures
        match r {
            Ok(text) => endpoint(uri@, bucket@, org@) == Some(text@),
            Err(BuildError::InvalidUri) => url_parsed(uri@) is None,
            Err(BuildError::TooLong) => url_parsed(uri@) is Some && endpoint(uri@, bucket@, org@)
                is None,
        },
{
    let mut url = match parse_url(uri) {
        Ok(url) => url,
        Err(_) => {
            return Err(BuildError::InvalidUri);
        },
    };
    if !add_pair(&mut url, "bucket", bucket) {
        return Err(BuildError::TooLong);
    }
    if !add_pair(&mut url, "org", org) {
        return Err(BuildError::TooLong);
    }
    if !add_pair(&mut url, "precision", "ms") {
        return Err(BuildError::TooLong);
    }
    Ok(write_url(&url))
}

/// One header of a request.
#[derive(Debug)]
pub struct Header {
    pub name: String,
    pub value: String,
}

impl View for Header {
    type V = (Seq<char>, Seq<char>);

    open spec fn view(&self) -> (Seq<char>, Seq<char>) {
        (self.name@, self.value@)
    }
}

impl DeepView for Header {
    type V = (Seq<char>, Seq<char>);

    open spec fn deep_view(&self) -> (Seq<char>, Seq<char>) {
        self@
    }
}

impl Header {
    /// A header of the given name and value.
    pub fn new(name: &str, value: String) -> (header: Self)
        ensures
            header@ == (name@, value@),
    {
        Header { name: String::from_str(name), value }
    }
}

/// The headers of every request, for a token: the content type of the
/// batch, the content type accepted in answer, and the token as
/// authorization.
pub open spec fn standard_headers(token: Seq<char>) -> Seq<(Seq<char>, Seq<char>)> {
    seq![
        ("Content-Type"@, content_type()),
        ("Accept"@, accepted()),
        ("Authorization"@, "Token "@ + token),
    ]
}

/// One request: a POST of `body` to `uri` with `headers`, given up after
/// `timeout_seconds`.
#[derive(Debug)]
pub struct Request {
    pub uri: String,
    pub headers: Vec<Header>,
    pub body: String,
    pub timeout_seconds: u64,
}

/// What became of a request.
#[derive(Debug)]
pub enum Delivery {
    /// An answer came back, whatever its status.
    Answered { status: String, url: String },
    /// No answer came back: the connection was refused, timed out, or failed
    /// otherwise on the way.
    Failed { reason: String },
}

/// A request that was not answered.
#[derive(Debug)]
pub struct SendError {
    pub reason: String,
}

/// The line that records an answer.
pub open spec fn answer_line(status: Seq<char>, url: Seq<char>) -> Seq<char> {
    "[InfluxDB] <"@ + status + " "@ + url + ">"@
}

/// Judges a delivery: any answer is a success, recorded by its line; only a
/// request that was not answered is a failure.
pub fn settle(outcome: Delivery) -> (r: Result<String, SendError>)
    ensures
        match outcome {
            Delivery::Answered { status, url } => r matches Ok(line) && line@ == answer_line(
                status@,
                url@,
            ),
            Delivery::Failed { reason } => r matches Err(e) && e.reason == reason,
        },
{
    match outcome {
        Delivery::Answered { status, url } => {
            let mut line = String::from_str("[InfluxDB] <");
            line.append(status.as_str());
            line.append(" ");
            line.append(url.as_str());
            line.append(">");
            Ok(line)
        },
        Delivery::Failed { reason } => Err(SendError { reason }),
    }
}

/// The line that the collector writes when it starts: where it sends, and
/// how often.
pub open spec fn startup_text(uri: Seq<char>, dump_interval_seconds: nat) -> Seq<char> {
    "Initialized InfluxDB client for "@ + uri + " - dumping data in db each "@ + decimal(
        dump_interval_seconds,
    ) + " seconds"@
}

/// The sink: the endpoint, the token, and the headers, which are made at the
/// first request and kept for all that follow.
#[derive(Debug)]
pub struct InfluxDB {
    headers: Vec<Header>,
    influxdb_token: String,
    influxdb_uri: String,
}

impl Default for InfluxDB {
    fn default() -> (client: Self)
        ensures
            client.headers().len() == 0,
            client.token() == Seq::<char>::empty(),
            client.uri() == Seq::<char>::empty(),
    {
        InfluxDB { headers: Vec::new(), influxdb_token: String::new(), influxdb_uri: String::new() }
    }
}

impl InfluxDB {
    /// The headers that the sink holds: none before its first request.
    pub closed spec fn headers(&self) -> Seq<(Seq<char>, Seq<char>)> {
        self.headers.deep_view()
    }

    /// The token that the sink authorizes with.
    pub closed spec fn token(&self) -> Seq<char> {
        self.influxdb_token@
    }

    /// The endpoint that the sink sends to.
    pub closed spec fn uri(&self) -> Seq<char> {
        self.influxdb_uri@
    }

    /// The sink holds no headers, or those of its token.
    #[verifier::type_invariant]
    spec fn headers_fit_token(self) -> bool {
        self.headers.deep_view().len() == 0 || self.headers.deep_view() == standard_headers(
            self.influxdb_token@,
        )
    }

    /// The endpoint that the sink sends to.
    pub fn influxdb_uri(&self) -> (uri: &str)
        ensures
            uri@ == self.uri(),
    {
        self.influxdb_uri.as_str()
    }

    /// Sets the endpoint and the token. The headers are made anew at the
    /// next request.
    ///
    /// The base URI is an absolute URL, and short enough for the endpoint to
    /// be one.
    pub fn build(self, bucket: &str, org: &str, token: &str, uri: &str) -> (client: Self)
        requires
            endpoint(uri@, bucket@, org@) is Some,
        ensures
            client.headers().len() == 0,
            client.token() == token@,
            Some(client.uri()) == endpoint(uri@, bucket@, org@),
    {
        let influxdb_uri = endpoint_uri(uri, bucket, org).unwrap();
        InfluxDB { headers: Vec::new(), influxdb_token: String::from_str(token), influxdb_uri }
    }

    /// Sets the endpoint and the token where the base URI allows it: sees
    /// first whether the endpoint can be made, and builds only then.
    pub fn try_build(self, bucket: &str, org: &str, token: &str, uri: &str) -> (r: Result<
        Self,
        BuildError,
    >)
        ensures
            match r {
                Ok(client) => {
                    &&& client.headers().len() == 0
                    &&& client.token() == token@
                    &&& Some(client.uri()) == endpoint(uri@, bucket@, org@)
                },
                Err(BuildError::InvalidUri) => url_parsed(uri@) is None,
                Err(BuildError::TooLong) => url_parsed(uri@) is Some && endpoint(
                    uri@,
                    bucket@,
                    org@,
                ) is None,
            },
    {
        match endpoint_uri(uri, bucket, org) {
            Ok(_) => Ok(self.build(bucket, org, token, uri)),
            Err(e) => Err(e),
        }
    }

    /// The line that the collector writes when it starts.
    pub fn startup_line(&self, dump_interval_seconds: u64) -> (line: String)
        ensures
            line@ == startup_text(self.uri(), dump_interval_seconds as nat),
    {
        let mut line = String::from_str("Initialized InfluxDB client for ");
        line.append(self.influxdb_uri.as_str());
        line.append(" - dumping data in db each ");
        push_decimal(&mut line, dump_interval_seconds as u128);
        line.append(" seconds");
        line
    }

    fn build_headers(&mut self)
        ensures
            final(self).headers() == standard_headers(old(self).token()),
            final(self).token() == old(self).token(),
            final(self).uri() == old(self).uri(),
    {
        let mut authorization = String::from_str("Token ");
        authorization.append(self.influxdb_token.as_str());
        let mut headers = Vec::new();
        headers.push(Header::new("Content-Type", String::from_str("text/plain; charset=utf-8")));
        headers.push(Header::new("Accept", String::from_str("application/json")));
        headers.push(Header::new("Authorization", authorization));
        assert(headers.deep_view() =~= standard_headers(self.influxdb_token@));
        self.headers = headers;
    }

    /// A copy of the headers that the sink holds.
    fn copy_headers(&self) -> (copy: Vec<Header>)
        ensures
            copy.deep_view() == self.headers(),
    {
        let mut copy: Vec<Header> = Vec::new();
        let mut i: usize = 0;
        while i < self.headers.len()
            invariant
                i <= self.headers.len(),
                copy.deep_view() == self.headers.deep_view().take(i as int),
            decreases self.headers.len() - i,
        {
            let header = &self.headers[i];
            let ghost before = copy.deep_view();
            copy.push(Header { name: header.name.clone(), value: header.value.clone() });
            assert(copy.deep_view() =~= before.push(header@));
            assert(self.headers.deep_view().take(i + 1) =~= before.push(header@));
            i = i + 1;
        }
        assert(self.headers.deep_view().take(self.headers.len() as int) =~= self.headers());
        copy
    }

    /// The request that delivers `payload`: one POST to the endpoint, with
    /// the batch as its body. The headers are made where the sink holds none
    /// yet, and kept.
    pub fn request(&mut self, payload: String) -> (request: Request)
        ensures
            final(self).headers() == standard_headers(old(self).token()),
            final(self).token() == old(self).token(),
            final(self).uri() == old(self).uri(),
            request.uri@ == old(self).uri(),
            request.headers.deep_view() == standard_headers(old(self).token()),
            request.body == payload,
            request.timeout_seconds == TIMEOUT_SECONDS,
    {
        proof {
            use_type_invariant(&*self);
        }
        if self.headers.len() == 0 {
            self.build_headers();
        }
        Request {
            uri: self.influxdb_uri.clone(),
            headers: self.copy_headers(),
            body: payload,
            timeout_seconds: TIMEOUT_SECONDS,
        }
    }
}

} // verus!
