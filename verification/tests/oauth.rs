use fedistream::api::oauth::{authorization_url, App, Scope, Scopes, OOB_REDIRECT_URI};

#[test]
fn scopes_constructor() {
    let scopes1 = Scopes::new(&[Scope::Read, Scope::Write, Scope::Follow]);
    assert_eq!(scopes1.0, "read write follow");

    let scopes2 = Scopes::from_str("whatever");
    assert_eq!(scopes2.0, "whatever");
}

#[test]
fn app_as_form_urlencoded() {
    let app = App {
        client_name: "Example".to_string(),
        redirect_uris: "https://example.com/hello".to_string(),
        scopes: Scopes::from_str("read write whatever"),
        website: "https://example.com".to_string(),
    };

    assert_eq!(
        app.as_form_urlencoded(),
        "client_name=Example\
        &redirect_uris=https%3A%2F%2Fexample.com%2Fhello\
        &scopes=read+write+whatever\
        &website=https%3A%2F%2Fexample.com"
    );
}

#[test]
fn scope_params() {
    assert_eq!(Scope::Read.as_param(), "read");
    assert_eq!(Scope::Write.as_param(), "write");
    assert_eq!(Scope::Follow.as_param(), "follow");
}

#[test]
fn scopes_empty_and_single() {
    assert_eq!(Scopes::new(&[]).0, "");
    assert_eq!(Scopes::new(&[Scope::Follow]).0, "follow");
}

#[test]
fn authorization_url_passes_values_verbatim() {
    let url = authorization_url("https://example.com", "abcdef", OOB_REDIRECT_URI);
    assert_eq!(
        url,
        "https://example.com/oauth/authorize\
        ?client_id=abcdef\
        &response_type=code\
        &redirect_uri=urn:ietf:wg:oauth:2.0:oob"
    );
}

#[test]
fn form_encoding_matches_url_crate() {
    // The form encoding of the registration body must agree with what the
    // url crate's own form serializer produces for the same pairs.
    let app = App {
        client_name: "My App (test)".to_string(),
        redirect_uris: "https://example.com/a?b=c&d=e".to_string(),
        scopes: Scopes::from_str("read write"),
        website: "https://example.com/こんにちは".to_string(),
    };
    let expected = url::form_urlencoded::Serializer::new(String::new())
        .append_pair("client_name", "My App (test)")
        .append_pair("redirect_uris", "https://example.com/a?b=c&d=e")
        .append_pair("scopes", "read write")
        .append_pair("website", "https://example.com/こんにちは")
        .finish();
    assert_eq!(app.as_form_urlencoded(), expected);
}
