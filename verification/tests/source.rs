use std::str::FromStr;

use whep_relay::cli::{RTSPUrl, RTSPUrlParseError, Source, TeardownPolicy, Transport};

#[test]
fn rtsp_url_is_accepted() {
    let url = RTSPUrl::parse("rtsp://camera.local:554/stream1").unwrap();
    assert_eq!(url.as_url().scheme(), "rtsp");
    assert_eq!(url.as_url().host_str(), Some("camera.local"));
    assert_eq!(url.text(), "rtsp://camera.local:554/stream1");
    assert_eq!(url.0.path(), "/stream1");
    assert_eq!(url, RTSPUrl(url::Url::parse("rtsp://camera.local:554/stream1").unwrap()));
    assert_eq!(url.into_url().as_str(), "rtsp://camera.local:554/stream1");
}

#[test]
fn scheme_is_compared_after_lower_casing() {
    let url = RTSPUrl::parse("RTSP://Camera.local/a").unwrap();
    assert_eq!(url.as_url().scheme(), "rtsp");
}

#[test]
fn other_schemes_are_invalid() {
    assert_eq!(
        RTSPUrl::parse("http://camera.local/stream1"),
        Err(RTSPUrlParseError::InvalidScheme)
    );
    assert_eq!(
        RTSPUrl::parse("rtsps://camera.local/stream1"),
        Err(RTSPUrlParseError::InvalidScheme)
    );
    assert_eq!(
        RTSPUrl::parse("rtsp2:x"),
        Err(RTSPUrlParseError::InvalidScheme)
    );
    assert_eq!(
        RTSPUrlParseError::InvalidScheme.message(),
        "invalid scheme, expected 'rtsp'"
    );
}

#[test]
fn text_that_is_no_url_passes_the_parse_error_on() {
    assert_eq!(
        RTSPUrl::parse("camera.local/stream1"),
        Err(RTSPUrlParseError::UrlParseError(url::ParseError::RelativeUrlWithoutBase))
    );
    assert_eq!(
        RTSPUrl::parse(""),
        Err(RTSPUrlParseError::UrlParseError(url::ParseError::RelativeUrlWithoutBase))
    );
    assert_eq!(
        RTSPUrl::parse("rtsp://[::1"),
        Err(RTSPUrlParseError::UrlParseError(url::ParseError::InvalidIpv6Address))
    );
    assert_eq!(
        RTSPUrlParseError::UrlParseError(url::ParseError::RelativeUrlWithoutBase).message(),
        "relative URL without a base"
    );
}

#[test]
fn from_str_agrees_with_parse() {
    assert!(RTSPUrl::from_str("rtsp://h/").is_ok());
    assert_eq!("ftp://h/".parse::<RTSPUrl>(), Err(RTSPUrlParseError::InvalidScheme));
}

#[test]
fn from_parsed_goes_by_the_scheme_it_is_given() {
    let parsed = whep_relay::cli::ParsedUrl {
        url: url::Url::parse("rtsp://h/").unwrap(),
        scheme: "rtsp".to_string(),
    };
    assert!(RTSPUrl::from_parsed(Ok(parsed)).is_ok());
    let other = whep_relay::cli::ParsedUrl {
        url: url::Url::parse("rtsp://h/").unwrap(),
        scheme: "rtspu".to_string(),
    };
    assert_eq!(RTSPUrl::from_parsed(Ok(other)), Err(RTSPUrlParseError::InvalidScheme));
    assert_eq!(
        RTSPUrl::from_parsed(Err(url::ParseError::EmptyHost)),
        Err(RTSPUrlParseError::UrlParseError(url::ParseError::EmptyHost))
    );
}

fn source(username: Option<&str>, password: Option<&str>) -> Source {
    Source {
        url: RTSPUrl::parse("rtsp://h/").unwrap(),
        username: username.map(|s| s.to_string()),
        password: password.map(|s| s.to_string()),
        teardown: TeardownPolicy::Auto,
        transport: Transport::Tcp,
    }
}

#[test]
fn credentials_need_a_user_name() {
    let both = source(Some("admin"), Some("secret")).credentials().unwrap();
    assert_eq!(both.username, "admin");
    assert_eq!(both.password, "secret");
    let user_only = source(Some("admin"), None).credentials().unwrap();
    assert_eq!(user_only.username, "admin");
    assert_eq!(user_only.password, "");
    assert!(source(None, Some("secret")).credentials().is_none());
    assert!(source(None, None).credentials().is_none());
}
