//! The upstream source as the operator names it: an `rtsp://` URL, optional
//! credentials, and how to talk to the server.

use vstd::prelude::*;
use crate::text::same_text;

verus! {

/// `url::Url`, a parsed URL. Verus sees nothing inside it.
#[verifier::external_type_specification]
#[verifier::external_body]
pub struct ExUrl(url::Url);

/// `url::ParseError`, why a text is no URL. Verus sees nothing inside it.
#[verifier::external_type_specification]
#[verifier::external_body]
pub struct ExParseError(url::ParseError);

/// The scheme of the URL that `Url::parse` makes of `input`, as
/// `Url::scheme` gives it; `None` where `input` is no URL.
pub uninterp spec fn parsed_scheme(input: Seq<char>) -> Option<Seq<char>>;

/// The scheme of a URL, as `Url::scheme` returns it.
pub uninterp spec fn url_scheme(url: url::Url) -> Seq<char>;

/// The serialization of a URL, as `Url::as_str` returns it.
pub uninterp spec fn url_serialization(url: url::Url) -> Seq<char>;

/// The description of a parse error, as its `to_string` returns it.
pub uninterp spec fn parse_error_description(error: url::ParseError) -> Seq<char>;

/// A URL as parsed, with its scheme read out.
pub struct ParsedUrl {
    pub url: url::Url,
    pub scheme: String,
}

/// Calls `Url::parse`, and `Url::scheme` on the URL it yields. Claims that
/// whether the text parses, and the scheme it then has, depend on the text
/// alone, and that the scheme read out is that of the URL handed back.
#[verifier::external_body]
fn parse_url(input: &str) -> (parsed: Result<ParsedUrl, url::ParseError>)
    ensures
        match parsed {
            Ok(p) => parsed_scheme(input@) == Some(p.scheme@) && url_scheme(p.url) == p.scheme@,
            Err(_) => parsed_scheme(input@) is None,
        },
{
    match url::Url::parse(input) {
        Ok(url) => Ok(ParsedUrl { scheme: url.scheme().to_owned(), url }),
        Err(e) => Err(e),
    }
}

/// Calls `to_string` on a `url::ParseError`, which gives its description.
/// Claims only that the text depends on the error alone.
#[verifier::external_body]
fn parse_error_text(error: &url::ParseError) -> (text: String)
    ensures
        text@ == parse_error_description(*error),
{
    error.to_string()
}

/// Calls `Url::as_str`, which gives the serialization of the URL. Claims
/// only that the text depends on the URL alone.
#[verifier::external_body]
fn url_text(url: &url::Url) -> (text: String)
    ensures
        text@ == url_serialization(*url),
{
    url.as_str().to_owned()
}

/// A URL whose scheme is `rtsp`.
#[derive(Debug, PartialEq, Eq)]
pub struct RTSPUrl(pub url::Url);

/// Why a text is no `RTSPUrl`.
#[derive(Debug, PartialEq, Eq)]
pub enum RTSPUrlParseError {
    /// The text is a URL of another scheme than `rtsp`.
    InvalidScheme,
    /// The text is no URL.
    UrlParseError(url::ParseError),
}

impl RTSPUrlParseError {
    /// The error in words: a fixed sentence for a wrong scheme, the parse
    /// error's own description for a text that is no URL.
    pub open spec fn in_words(self) -> Seq<char> {
        match self {
            RTSPUrlParseError::InvalidScheme => "invalid scheme, expected 'rtsp'"@,
            RTSPUrlParseError::UrlParseError(error) => parse_error_description(error),
        }
    }

    /// The error in words.
    pub fn message(&self) -> (r: String)
        ensures
            r@ == self.in_words(),
    {
        match self {
            RTSPUrlParseError::InvalidScheme => "invalid scheme, expected 'rtsp'".to_owned(),
            RTSPUrlParseError::UrlParseError(error) => parse_error_text(error),
        }
    }
}

impl RTSPUrl {
    /// Parses `s` as a URL and takes it where its scheme is `rtsp`.
    pub fn parse(s: &str) -> (r: Result<RTSPUrl, RTSPUrlParseError>)
        ensures
            match parsed_scheme(s@) {
                Some(scheme) => if scheme == "rtsp"@ {
                    r is Ok
                } else {
                    r matches Err(e) && e == RTSPUrlParseError::InvalidScheme
                },
                None => r matches Err(RTSPUrlParseError::UrlParseError(_)),
            },
            r matches Ok(accepted) ==> url_scheme(accepted.0) == "rtsp"@,
    {
        RTSPUrl::from_parsed(parse_url(s))
    }

    /// Takes a parsed URL where its scheme is `rtsp`, and passes on the
    /// error of a failed parse.
    pub fn from_parsed(parsed: Result<ParsedUrl, url::ParseError>) -> (r: Result<
        RTSPUrl,
        RTSPUrlParseError,
    >)
        ensures
            match parsed {
                Ok(p) => if p.scheme@ == "rtsp"@ {
                    r matches Ok(accepted) && accepted.0 == p.url
                } else {
                    r matches Err(e) && e == RTSPUrlParseError::InvalidScheme
                },
                Err(error) => r matches Err(e) && e == RTSPUrlParseError::UrlParseError(error),
            },
    {
        match parsed {
            Ok(p) => {
                if same_text(p.scheme.as_str(), "rtsp") {
                    Ok(RTSPUrl(p.url))
                } else {
                    Err(RTSPUrlParseError::InvalidScheme)
                }
            },
            Err(error) => Err(RTSPUrlParseError::UrlParseError(error)),
        }
    }

    /// The URL.
    pub fn as_url(&self) -> (r: &url::Url)
        ensures
            *r == self.0,
    {
        &self.0
    }

    /// The URL, given up by the wrapper.
    pub fn into_url(self) -> (r: url::Url)
        ensures
            r == self.0,
    {
        self.0
    }

    /// The URL as text: its serialization.
    pub fn text(&self) -> (r: String)
        ensures
            r@ == url_serialization(self.0),
    {
        url_text(&self.0)
    }
}

impl std::str::FromStr for RTSPUrl {
    type Err = RTSPUrlParseError;

    /// Parses `s` as a URL and takes it where its scheme is `rtsp`, as
    /// `RTSPUrl::parse` does.
    fn from_str(s: &str) -> (r: Result<RTSPUrl, RTSPUrlParseError>)
        ensures
            match parsed_scheme(s@) {
                Some(scheme) => if scheme == "rtsp"@ {
                    r is Ok
                } else {
                    r matches Err(e) && e == RTSPUrlParseError::InvalidScheme
                },
                None => r matches Err(RTSPUrlParseError::UrlParseError(_)),
            },
            r matches Ok(accepted) ==> url_scheme(accepted.0) == "rtsp"@,
    {
        RTSPUrl::parse(s)
    }
}

/// When to send the server a `TEARDOWN` request.
#[derive(Clone, Copy, Debug, PartialEq, Eq, Structural)]
pub enum TeardownPolicy {
    Auto,
    Always,
    Never,
}

/// How packets travel from the server.
#[derive(Clone, Copy, Debug, PartialEq, Eq, Structural)]
pub enum Transport {
    Tcp,
    Udp,
}

/// A user name and a password.
#[derive(Clone, Debug)]
pub struct Credentials {
    pub username: String,
    pub password: String,
}

/// The upstream source, as given on the command line.
pub struct Source {
    /// `rtsp://` URL to connect to.
    pub url: RTSPUrl,
    /// Username to send if the server requires authentication.
    pub username: Option<String>,
    /// Password; requires username.
    pub password: Option<String>,
    /// When to issue a `TEARDOWN` request.
    pub teardown: TeardownPolicy,
    /// The transport to use.
    pub transport: Transport,
}

impl Source {
    /// The credentials to present to the server: the user name with the
    /// password, or with an empty one where none is given; none at all
    /// without a user name.
    pub fn credentials(&self) -> (r: Option<Credentials>)
        ensures
            r is Some <==> self.username is Some,
            r matches Some(c) ==> c.username@ == self.username->0@ && c.password@ == (
            match self.password {
                Some(p) => p@,
                None => Seq::<char>::empty(),
            }),
    {
        match &self.username {
            Some(user) => {
                let password = match &self.password {
                    Some(p) => p.clone(),
                    None => String::new(),
                };
                Some(Credentials { username: user.clone(), password })
            },
            None => None,
        }
    }
}

} // verus!
