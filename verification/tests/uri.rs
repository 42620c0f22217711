use spotify::decompose::UrlParts;
use spotify::uri::ParseError;
use spotify::uri::Uri;

#[test]
fn test_uri_parse_and_format() {
    let uris = [
        "spotify:track:1xQE0QHrmJUQweLoMB0ZWC",
        "spotify:artist:7hnluippQE81PD2tkmYrIq",
        "spotify:album:78SiXvC9GU2Z5vy848iaP4",
        "http://open.spotify.com/track/1xQE0QHrmJUQweLoMB0ZWC",
        "http://open.spotify.com/artist/7hnluippQE81PD2tkmYrIq",
        "http://open.spotify.com/album/78SiXvC9GU2Z5vy848iaP4",
    ];
    for &uri in uris.iter() {
        let u = Uri::parse(uri).unwrap();
        assert_eq!(u.format().as_str(), uri);
    }
}

#[test]
fn test_invalid_uri() {
    assert!(Uri::parse("http://rust-lang.org").is_err());
    assert!(Uri::parse("mailto:test@email.com").is_err());
    assert!(Uri::parse("spotify://open.spotify.com/album/78SiXvC9GU2Z5vy848iaP4").is_err());
}

#[test]
fn test_to_url() {
    let uri = Uri::parse("spotify:track:1xQE0QHrmJUQweLoMB0ZWC").unwrap();
    let url = uri.to_url();
    assert_eq!(url.format(), "http://open.spotify.com/track/1xQE0QHrmJUQweLoMB0ZWC".to_string());
    let url = uri.to_url();
    assert_eq!(url.format(), "http://open.spotify.com/track/1xQE0QHrmJUQweLoMB0ZWC".to_string());
    assert_eq!(uri.format(), "spotify:track:1xQE0QHrmJUQweLoMB0ZWC".to_string());
}

#[test]
fn test_url_to_uri() {
    let url = Uri::parse("http://open.spotify.com/track/1xQE0QHrmJUQweLoMB0ZWC").unwrap();
    let uri = url.to_uri();
    assert_eq!(uri.format(), "spotify:track:1xQE0QHrmJUQweLoMB0ZWC".to_string());
    let uri = uri.to_uri();
    assert_eq!(uri.format(), "spotify:track:1xQE0QHrmJUQweLoMB0ZWC".to_string());
    assert_eq!(url.format(), "http://open.spotify.com/track/1xQE0QHrmJUQweLoMB0ZWC".to_string());
}

#[test]
fn test_uri_components() {
    let uri = Uri::parse("spotify:track:1xQE0QHrmJUQweLoMB0ZWC").unwrap();
    let c = uri.components();
    assert!(c.len() == 2);
    assert_eq!(c[0], "track");
    assert_eq!(c[1], "1xQE0QHrmJUQweLoMB0ZWC");
}

#[test]
fn test_url_components() {
    let uri = Uri::parse("http://open.spotify.com/track/1xQE0QHrmJUQweLoMB0ZWC").unwrap();
    let c = uri.components();
    assert!(c.len() == 2);
    assert_eq!(c[0], "track");
    assert_eq!(c[1], "1xQE0QHrmJUQweLoMB0ZWC");
}

#[test]
fn test_rejection_errors() {
    assert_eq!(Uri::parse("http://example.org/anything"), Err(ParseError::UnrecognizedForm));
    let mailto = Uri::parse("mailto:user@example.org");
    assert!(matches!(
        mailto,
        Err(ParseError::UnrecognizedForm) | Err(ParseError::MalformedSyntax)
    ));
    assert_eq!(
        Uri::parse("compact://open.example.org/album/ID"),
        Err(ParseError::UnrecognizedForm)
    );
    assert_eq!(
        Uri::parse("spotify://open.spotify.com/album/78SiXvC9GU2Z5vy848iaP4"),
        Err(ParseError::UnrecognizedForm)
    );
}

#[test]
fn test_unexpected_userinfo() {
    assert_eq!(
        Uri::parse("http://someone@open.spotify.com/track/1xQE0QHrmJUQweLoMB0ZWC"),
        Err(ParseError::UnexpectedUserInfo)
    );
}

#[test]
fn test_unexpected_port() {
    assert_eq!(
        Uri::parse("http://open.spotify.com:8080/track/1xQE0QHrmJUQweLoMB0ZWC"),
        Err(ParseError::UnexpectedPort)
    );
}

#[test]
fn test_malformed_syntax() {
    assert_eq!(Uri::parse("http://"), Err(ParseError::MalformedSyntax));
    assert_eq!(Uri::parse("no scheme at all"), Err(ParseError::MalformedSyntax));
}

#[test]
fn test_canonicalization_idempotent() {
    let u = Uri::parse("http://open.spotify.com/album/78SiXvC9GU2Z5vy848iaP4").unwrap();
    let once = u.to_uri();
    let twice = u.to_uri().to_uri();
    assert_eq!(once.format(), twice.format());
    assert_eq!(once.format(), "spotify:album:78SiXvC9GU2Z5vy848iaP4".to_string());
    let v = Uri::parse("spotify:album:78SiXvC9GU2Z5vy848iaP4").unwrap();
    let once = v.to_url();
    let twice = v.to_url().to_url();
    assert_eq!(once.format(), twice.format());
    assert_eq!(once.format(), "http://open.spotify.com/album/78SiXvC9GU2Z5vy848iaP4".to_string());
}

#[test]
fn test_cross_form_segments_equal() {
    let u = Uri::parse("spotify:artist:7hnluippQE81PD2tkmYrIq").unwrap();
    assert_eq!(u.to_uri().components(), u.to_url().components());
    let w = Uri::parse("http://open.spotify.com/artist/7hnluippQE81PD2tkmYrIq").unwrap();
    assert_eq!(w.to_uri().components(), w.to_url().components());
    assert_eq!(u.components(), w.components());
}

#[test]
fn test_canonicalizations_inverse() {
    let u = Uri::parse("spotify:track:1xQE0QHrmJUQweLoMB0ZWC").unwrap();
    assert_eq!(u.to_url().to_uri().format(), u.to_uri().format());
    assert_eq!(u.to_uri().to_url().format(), u.to_url().format());
}

#[test]
fn test_from_parts_validation_order() {
    let good = UrlParts {
        scheme: "spotify".to_string(),
        host: String::new(),
        user: String::new(),
        port: None,
        path: "track:abc".to_string(),
    };
    let u = Uri::from_parts(&good).unwrap();
    assert_eq!(u.components(), vec!["track", "abc"]);
    assert_eq!(u.format(), "spotify:track:abc".to_string());

    let bad_pair = UrlParts {
        scheme: "ftp".to_string(),
        host: "open.spotify.com".to_string(),
        user: "someone".to_string(),
        port: Some(21),
        path: "/track/abc".to_string(),
    };
    assert_eq!(Uri::from_parts(&bad_pair), Err(ParseError::UnrecognizedForm));

    let with_user = UrlParts {
        scheme: "http".to_string(),
        host: "open.spotify.com".to_string(),
        user: "someone".to_string(),
        port: Some(80),
        path: "/track/abc".to_string(),
    };
    assert_eq!(Uri::from_parts(&with_user), Err(ParseError::UnexpectedUserInfo));

    let with_port = UrlParts {
        scheme: "http".to_string(),
        host: "open.spotify.com".to_string(),
        user: String::new(),
        port: Some(8080),
        path: "/track/abc".to_string(),
    };
    assert_eq!(Uri::from_parts(&with_port), Err(ParseError::UnexpectedPort));
}

#[test]
fn test_empty_path_rejected() {
    assert_eq!(Uri::parse("spotify:"), Err(ParseError::UnrecognizedForm));
    let empty_path = UrlParts {
        scheme: "spotify".to_string(),
        host: String::new(),
        user: String::new(),
        port: None,
        path: String::new(),
    };
    assert_eq!(Uri::from_parts(&empty_path), Err(ParseError::UnrecognizedForm));
    let empty_web_path = UrlParts {
        scheme: "http".to_string(),
        host: "open.spotify.com".to_string(),
        user: String::new(),
        port: None,
        path: String::new(),
    };
    assert_eq!(Uri::from_parts(&empty_web_path), Err(ParseError::UnrecognizedForm));
}

#[test]
fn test_single_segment_path() {
    let u = Uri::parse("spotify:track").unwrap();
    let c = u.components();
    assert_eq!(c, vec!["track"]);
    assert_eq!(u.format(), "spotify:track".to_string());
}
