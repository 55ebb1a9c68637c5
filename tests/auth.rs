use gvk::auth::{AccessTokenProvider, AuthResponse, AuthResponseParseError};

#[test]
fn auth_response_from_str() {
    // correct
    let atr = "https://oauth.vk.com/blank.html#access_token=7de238693ce753e240abd1e1845480667bed442daf94e86df12d6c376322137fd2649661fbfd1352741fa&expires_in=86400&user_id=184946538"
        .parse::<AuthResponse>();
    assert!(atr.is_ok());
    let atr = atr.unwrap();
    assert_eq!(
        atr.get_access_token(),
        "7de238693ce753e240abd1e1845480667bed442daf94e86df12d6c376322137fd2649661fbfd1352741fa"
    );
    assert!(atr.get_expires_on().is_some());
    assert_eq!(atr.get_user_id(), "184946538");

    // another correct variant
    let atr2 = "abc#access_token=1234&expires_in=1&user_id=1".parse::<AuthResponse>();
    assert!(atr2.is_ok());
    let atr2 = atr2.unwrap();
    assert_eq!(atr2.get_access_token(), "1234");
    assert!(atr2.get_expires_on().is_some());
    assert_eq!(atr2.get_user_id(), "1");

    // incorrect variants
    assert!("abc#access_token=1234&expires_in=&user_id=1"
        .parse::<AuthResponse>()
        .unwrap()
        .get_expires_on()
        .is_none());
    assert!("abc#access_token=1234&expires_in_=1&user_id=1"
        .parse::<AuthResponse>()
        .unwrap()
        .get_expires_on()
        .is_none());
    assert!("abc#access_token=1234&expires_in=_1&user_id=1"
        .parse::<AuthResponse>()
        .unwrap()
        .get_expires_on()
        .is_none());

    assert!("abc#access_token=&expires_in=1&user_id=1"
        .parse::<AuthResponse>()
        .is_err());
    assert!("abc#access_token_=1234&expires_in=1&user_id=1"
        .parse::<AuthResponse>()
        .is_err());

    assert!("abc#access_token=1234&expires_in=1&user_id="
        .parse::<AuthResponse>()
        .is_err());
    assert!("abc#access_token=1234&expires_in=1&user_id_=1"
        .parse::<AuthResponse>()
        .is_err());
}

#[test]
fn expiry_counts_from_now() {
    let a = AuthResponse::parse_at("x#access_token=t&expires_in=86400&user_id=7", 1_000).unwrap();
    assert_eq!(a.get_expires_on(), Some(87_400));
    let b = AuthResponse::parse_at("x#access_token=t&expires_in=0&user_id=7", 1_000).unwrap();
    assert_eq!(b.get_expires_on(), None);
    let c = AuthResponse::parse_at("x#access_token=t&expires_in=+5&user_id=7", 1_000).unwrap();
    assert_eq!(c.get_expires_on(), Some(1_005));
    let d = AuthResponse::parse_at(
        "x#access_token=t&expires_in=9223372036854775807&user_id=7",
        1_000,
    )
    .unwrap();
    assert_eq!(d.get_expires_on(), None);
}

#[test]
fn later_values_replace_earlier_ones() {
    let a = AuthResponse::parse_at("x#access_token=a&user_id=1&access_token=b&junk&=v", 0).unwrap();
    assert_eq!(a.get_access_token(), "b");
    assert_eq!(a.get_user_id(), "1");
}

#[test]
fn refusals() {
    assert!(matches!(
        AuthResponse::parse_at("no fragment", 0),
        Err(AuthResponseParseError::Malformed)
    ));
    assert!(matches!(AuthResponse::parse_at("abc#", 0), Err(AuthResponseParseError::Malformed)));
    assert!(matches!(
        AuthResponse::parse_at("abc#user_id=1", 0),
        Err(AuthResponseParseError::NoAccessToken)
    ));
    assert!(matches!(
        AuthResponse::parse_at("abc#access_token=1", 0),
        Err(AuthResponseParseError::NoUserId)
    ));
    assert_eq!(
        AuthResponseParseError::NoUserId.message(),
        "user_id is not set in URI fragment"
    );
}

#[test]
fn auth_uri() {
    assert_eq!(
        AccessTokenProvider::get_auth_uri(),
        "https://oauth.vk.com/authorize?client_id=7720259&display=page&redirect_uri=https://oauth.vk.com/blank.html&scope=offline,friends,groups,photos,audio,video,stories,status,notes,wall&response_type=token&v=5.131"
    );
}

#[test]
fn success_is_the_redirect_with_a_fragment() {
    assert!(AccessTokenProvider::is_auth_succeeded_uri(
        "https://oauth.vk.com/blank.html#access_token=1&user_id=2"
    ));
    assert!(!AccessTokenProvider::is_auth_succeeded_uri("https://oauth.vk.com/blank.html"));
    assert!(!AccessTokenProvider::is_auth_succeeded_uri(
        "https://oauth.vk.com/authorize#access_token=1"
    ));
    assert!(!AccessTokenProvider::is_auth_succeeded_uri("https://oauth.vk.com/blank#x"));
}

#[test]
fn descriptions_and_defaults() {
    let a = AuthResponse::parse_at("x#access_token=abcdefghij&user_id=42", 0).unwrap();
    assert_eq!(a.describe("x"), "user 42 with token abcdef... valid forever");
    let b = AuthResponse::new("abc".to_string(), None, "7".to_string());
    assert_eq!(b.describe(""), "user 7 with token abc... valid forever");
    let c = AuthResponse::new("abc".to_string(), Some(86_400), "7".to_string());
    assert_eq!(c.describe("tomorrow"), "user 7 with token abc... valid until tomorrow");
    let d = AuthResponse::default();
    assert_eq!(d.get_access_token(), "");
    assert_eq!(d.get_user_id(), "");
    assert!(d.get_expires_on().is_none());
}

#[test]
fn stored_expiry_encoding() {
    let a = AuthResponse::from_stored("t".to_string(), 0, "1".to_string());
    assert_eq!(a.get_expires_on(), None);
    assert_eq!(a.stored_expiry(), 0);
    let b = AuthResponse::from_stored("t".to_string(), 12_345_678, "1".to_string());
    assert_eq!(b.get_expires_on(), Some(12_345_678));
    assert_eq!(b.stored_expiry(), 12_345_678);
}
