use symposium::error::Error;
use symposium::tracker::oauth::{
    authorization_url, cache_file_name, encode_bytes, exchange_params, generate_pkce_challenge,
    generate_pkce_verifier, generate_random_string, is_invalid_grant, keep_tokens, metadata_url,
    normalize_url, oauth_base_url, plan_client, plan_forced_refresh, plan_token, read_callback,
    refresh_params, registration_request, settle_forced_refresh, settle_refresh, urldecoded,
    urlencoded,
    ClientRegistration, ClientSource, ForcedRefresh, OAuthCache, TokenPlan, TokenSet,
};

fn tokens(access: &str, refresh: Option<&str>, expires_at: u64) -> TokenSet {
    TokenSet {
        access_token: access.to_string(),
        refresh_token: refresh.map(str::to_string),
        expires_at,
    }
}

fn client(secret: Option<&str>) -> ClientRegistration {
    ClientRegistration {
        client_id: "id 1".to_string(),
        client_secret: secret.map(str::to_string),
    }
}

fn cache(tokens: Option<TokenSet>) -> OAuthCache {
    OAuthCache { server_url: "https://s".to_string(), client: client(None), tokens }
}

#[test]
fn tokens_expire_a_minute_early() {
    let t = tokens("a", None, 1000);
    assert!(!t.is_expired(939));
    assert!(t.is_expired(940));
    assert!(t.is_expired(2000));
}

#[test]
fn tokens_last_an_hour_unless_stated() {
    assert_eq!(TokenSet::granted("a".to_string(), None, None, 10).expires_at, 3610);
    assert_eq!(TokenSet::granted("a".to_string(), None, Some(5), 10).expires_at, 15);
}

#[test]
fn base64_is_url_safe_without_padding() {
    assert_eq!(encode_bytes(&vec![]), "");
    assert_eq!(encode_bytes(&vec![0xff, 0xef]), "_-8");
    assert_eq!(encode_bytes(&b"hello".to_vec()), "aGVsbG8");
    assert_eq!(encode_bytes(&vec![0]), "AA");
}

#[test]
fn challenge_is_the_digest_of_the_verifier() {
    // The example of RFC 7636, appendix B
    assert_eq!(
        generate_pkce_challenge("dBjftJeZ4CVP-mB92K27uhbUJU1p1r_wW1gFWFOEjXk"),
        "E9Melhoa2OwvFrEMTJguCHaoeK1t8URWbuGJSstw-cM"
    );
    assert_eq!(
        generate_pkce_challenge(""),
        "47DEQpj8HBSa-_TImW-5JCeuQeRkm5NMpJWZG3hSuFU"
    );
}

#[test]
fn verifiers_are_random_and_url_safe() {
    let a = generate_pkce_verifier();
    let b = generate_pkce_verifier();
    assert_eq!(a.len(), 43);
    assert_ne!(a, b);
    assert_eq!(urlencoded(&a), a);
    assert_eq!(generate_random_string(16).len(), 22);
    assert_eq!(generate_random_string(0), "");
}

#[test]
fn caches_are_named_by_the_server() {
    assert_eq!(cache_file_name(""), "47DEQpj8HBSa-_TI.json");
    assert_ne!(cache_file_name("https://a"), cache_file_name("https://b"));
}

#[test]
fn texts_are_encoded_for_urls() {
    assert_eq!(urlencoded("aZ09-_.~"), "aZ09-_.~");
    assert_eq!(urlencoded("a b/c:é"), "a%20b%2Fc%3A%E9");
    assert_eq!(urlencoded("\n"), "%0A");
}

#[test]
fn texts_from_urls_are_decoded() {
    assert_eq!(urldecoded("a%20b+c"), "a b c");
    assert_eq!(urldecoded("%zz%4"), "%zz\u{4}");
    assert_eq!(urldecoded("%e9%+5%"), "é\u{5}%");
    for text in ["plain", "a b+c%/é", "\u{ff}\u{0}%%"] {
        assert_eq!(urldecoded(&urlencoded(text)), text);
    }
    // Only the lowest byte of a character is kept
    assert_eq!(urldecoded(&urlencoded("Ł")), "A");
}

#[test]
fn urls_come_down_to_their_host() {
    assert_eq!(oauth_base_url("https://mcp.example.com/mcp/x"), "https://mcp.example.com");
    assert_eq!(oauth_base_url("http://h:80/"), "http://h:80");
    assert_eq!(oauth_base_url("https://h"), "https://h");
    assert_eq!(oauth_base_url("ftp://h/x"), "ftp://h/x");
    assert_eq!(
        metadata_url("https://h/mcp"),
        "https://h/.well-known/oauth-authorization-server"
    );
    assert_eq!(normalize_url("https://h/mcp//"), "https://h/mcp");
}

#[test]
fn authorization_is_asked_for_by_url() {
    assert_eq!(
        authorization_url("https://h/auth", "id 1", "st", "ch"),
        "https://h/auth?response_type=code&client_id=id%201&redirect_uri=http%3A%2F%2F127.0.0.1%3A19823%2Fcallback&state=st&code_challenge=ch&code_challenge_method=S256"
    );
}

#[test]
fn forms_carry_the_secret_where_there_is_one() {
    let names = |v: Vec<(String, String)>| v.into_iter().map(|p| p.0).collect::<Vec<_>>();
    let exchange = exchange_params(&client(None), "c", "v");
    assert!(exchange.contains(&("code_verifier".to_string(), "v".to_string())));
    assert_eq!(
        names(exchange),
        vec!["grant_type", "code", "redirect_uri", "client_id", "code_verifier"]
    );
    let refresh = refresh_params(&client(Some("s")), "r");
    assert_eq!(refresh[3], ("client_secret".to_string(), "s".to_string()));
    assert_eq!(names(refresh), vec!["grant_type", "refresh_token", "client_id", "client_secret"]);
}

#[test]
fn callbacks_give_the_code() {
    let (page, code) =
        read_callback("GET /callback?code=a%2Bb&state=s1 HTTP/1.1\r\nHost: x\r\n\r\n", "s1");
    assert!(page.unwrap().contains("Symposium authorized!"));
    assert_eq!(code.unwrap(), "a+b");
}

#[test]
fn bad_callbacks_are_refused() {
    let reason = |request: &str| {
        let (page, code) = read_callback(request, "s1");
        (page.is_some(), code.unwrap_err().message())
    };
    assert!(reason("").1.contains("malformed callback request"));
    assert!(reason("GET").1.contains("malformed callback request"));
    assert!(reason("GET /callback HTTP/1.1").1.contains("no query params in callback"));
    assert!(reason("GET /callback?state=s1 HTTP/1.1").1.contains("no code in callback"));
    assert!(reason("GET /callback?code=c HTTP/1.1").1.contains("no state in callback"));
    let mismatch = reason("GET /callback?code=c&state=s2 HTTP/1.1");
    assert!(mismatch.1.contains("OAuth state mismatch"));
    assert!(!mismatch.0);
    let denied = reason("GET /callback?error=access+denied&code=c&state=s1 HTTP/1.1");
    assert!(denied.1.contains("OAuth authorization denied: access denied"));
    assert!(denied.0);
}

#[test]
fn last_parameter_of_a_name_counts() {
    let (_, code) = read_callback("GET /c?code=a&code=b&state=s1&flag HTTP/1.1", "s1");
    assert_eq!(code.unwrap(), "b");
}

#[test]
fn cached_tokens_are_used_while_they_last() {
    let held = |t| Some(cache(t));
    assert!(matches!(plan_token(&None, 0), TokenPlan::Authorize));
    assert!(matches!(plan_token(&held(None), 0), TokenPlan::Authorize));
    match plan_token(&held(Some(tokens("a", Some("r"), 1000))), 0) {
        TokenPlan::Use { token } => assert_eq!(token, "a"),
        other => panic!("{other:?}"),
    }
    match plan_token(&held(Some(tokens("a", Some("r"), 1000))), 1000) {
        TokenPlan::Refresh { client, refresh_token } => {
            assert_eq!(client.client_id, "id 1");
            assert_eq!(refresh_token, "r");
        }
        other => panic!("{other:?}"),
    }
    assert!(matches!(
        plan_token(&held(Some(tokens("a", None, 1000))), 1000),
        TokenPlan::Authorize
    ));
}

#[test]
fn new_tokens_are_kept() {
    let mut held = cache(None);
    assert_eq!(keep_tokens(&mut held, tokens("new", None, 5)), "new");
    assert_eq!(held.tokens.unwrap().access_token, "new");
    assert_eq!(held.server_url, "https://s");
}

#[test]
fn forced_refresh_needs_a_refresh_token() {
    let message = |c: Option<OAuthCache>| plan_forced_refresh(&c).unwrap_err().message();
    assert!(message(None).contains("no OAuth cache on disk"));
    assert!(message(Some(cache(None))).contains("no cached tokens"));
    assert!(message(Some(cache(Some(tokens("a", None, 0))))).contains("no refresh token"));
    let plan = plan_forced_refresh(&Some(cache(Some(tokens("a", Some("r"), 0)))));
    assert_eq!(plan.unwrap().1, "r");
}

#[test]
fn failed_forced_refreshes_are_reported() {
    let revoked = || Error::Mcp("token refresh rejected: {\"error\":\"invalid_grant\"}".to_string());
    assert!(is_invalid_grant(&revoked()));
    assert!(!is_invalid_grant(&Error::Mcp("timeout".to_string())));

    let mut held = Some(cache(Some(tokens("a", Some("r"), 0))));
    for error in [revoked(), Error::Mcp("timeout".to_string())] {
        let message = error.message();
        match settle_forced_refresh(&mut held, Err(error)) {
            ForcedRefresh::Fail { error } => assert_eq!(error.message(), message),
            other => panic!("{other:?}"),
        }
        assert_eq!(held.as_ref().unwrap().tokens.as_ref().unwrap().access_token, "a");
    }

    match settle_forced_refresh(&mut held, Ok(tokens("b", None, 9))) {
        ForcedRefresh::Token { token } => assert_eq!(token, "b"),
        other => panic!("{other:?}"),
    }
    assert_eq!(held.as_ref().unwrap().tokens.as_ref().unwrap().expires_at, 9);
}

#[test]
fn refreshes_of_expired_tokens_are_settled() {
    let mut held = cache(Some(tokens("a", Some("r"), 0)));
    assert_eq!(settle_refresh(&mut held, Err(Error::Mcp("no".to_string()))), None);
    assert_eq!(held.tokens.as_ref().unwrap().access_token, "a");
    assert_eq!(settle_refresh(&mut held, Ok(tokens("b", None, 7))).as_deref(), Some("b"));
    assert_eq!(held.tokens.as_ref().unwrap().expires_at, 7);
}

#[test]
fn clients_are_registered_once_per_server() {
    let held = Some(cache(None));
    assert!(matches!(
        plan_client(&held, "https://s", &None),
        Ok(ClientSource::Cached { .. })
    ));
    match plan_client(&held, "https://t", &Some("https://t/register".to_string())) {
        Ok(ClientSource::Register { url }) => assert_eq!(url, "https://t/register"),
        other => panic!("{other:?}"),
    }
    assert!(plan_client(&None, "https://s", &None).is_err());
    let request = registration_request();
    assert_eq!(request.str_at("client_name"), Some("symposium"));
    assert_eq!(request.array_at("grant_types").unwrap().len(), 2);
}
