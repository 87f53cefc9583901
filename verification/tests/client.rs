use spotify_duplicates::playlist::{Playlist, PlaylistResponse};
use spotify_duplicates::spotify::client::playlists_of;
use spotify_duplicates::spotify::transport::status_is_success;
use spotify_duplicates::spotify::{
    classify, ApiError, Instant, Method, Outcome, Request, Spotify, Step, Token, TokenData,
};

fn at(secs: i128, nanos: u32) -> Instant {
    Instant { secs, nanos }
}

fn token(text: &str, expiration: Instant) -> Token {
    Token { access_token: text.to_string(), expiration }
}

fn grant(text: &str, expires_in: u64) -> Outcome<TokenData> {
    Outcome::Response {
        status: 200,
        text: String::new(),
        parsed: Ok(TokenData { access_token: text.to_string(), expires_in }),
    }
}

fn token_request() -> Request {
    Request {
        method: Method::Post,
        url: "https://accounts.spotify.com/api/token".to_string(),
        header_name: "Content-Type".to_string(),
        header_value: "application/x-www-form-urlencoded".to_string(),
        body: "grant_type=client_credentials&client_id=me&client_secret=hush".to_string(),
    }
}

fn authenticate(url: &str) -> Step {
    Step::Authenticate { request: token_request(), url: url.to_string() }
}

fn get(url: &str, token: &str) -> Request {
    Request {
        method: Method::Get,
        url: url.to_string(),
        header_name: "Authorization".to_string(),
        header_value: format!("Bearer {}", token),
        body: String::new(),
    }
}

#[test]
fn a_new_client_holds_no_token() {
    let client = Spotify::new("me", "hush");
    assert_eq!(client.client_id, "me");
    assert_eq!(client.client_secret, "hush");
    assert!(client.access_token.is_none());
    assert!(client.token().is_none());
    assert!(!client.has_valid_token(&at(0, 0)));
}

#[test]
fn a_valid_token_is_used_again() {
    let mut client = Spotify::new("me", "hush");
    client.access_token = Some(token("tok", at(1000, 0)));
    assert!(client.access_token_step(&at(999, 999_999_999)).is_none());
    assert!(client.access_token_step(&at(-5, 0)).is_none());
    assert_eq!(client.token(), Some(&token("tok", at(1000, 0))));
}

#[test]
fn a_missing_or_expired_token_is_asked_for() {
    let mut client = Spotify::new("me", "hush");
    assert_eq!(client.access_token_step(&at(0, 0)), Some(token_request()));
    client.access_token = Some(token("tok", at(1000, 500)));
    // At the instant of expiry the token is no longer used.
    assert_eq!(client.access_token_step(&at(1000, 500)), Some(token_request()));
    assert_eq!(client.access_token_step(&at(1000, 501)), Some(token_request()));
    assert_eq!(client.access_token_step(&at(1001, 0)), Some(token_request()));
    assert!(client.access_token_step(&at(1000, 499)).is_none());
    assert_eq!(client.authentication(), token_request());
}

#[test]
fn a_grant_expires_one_second_early() {
    let mut client = Spotify::new("me", "hush");
    let stored = client.store_access_token(grant("tok", 3600), &at(100, 5));
    assert_eq!(stored, Ok(()));
    assert_eq!(client.access_token, Some(token("tok", at(3699, 5))));
    assert_eq!(Token::granted(TokenData { access_token: "t".to_string(), expires_in: 0 }, &at(7, 1)),
        token("t", at(6, 1)));
}

#[test]
fn the_longest_lifetime_fits() {
    let issued = at(i64::MAX as i128, 999_999_999);
    let data = TokenData { access_token: "t".to_string(), expires_in: u64::MAX };
    let granted = Token::granted(data, &issued);
    assert_eq!(granted.expiration.secs, i64::MAX as i128 + u64::MAX as i128 - 1);
    assert_eq!(granted.expiration.nanos, 999_999_999);
}

#[test]
fn a_failed_refresh_keeps_the_old_token() {
    let mut client = Spotify::new("me", "hush");
    client.access_token = Some(token("old", at(10, 0)));
    let stored = client.store_access_token(
        Outcome::Response { status: 401, text: "denied".to_string(), parsed: Err("x".to_string()) },
        &at(100, 0),
    );
    assert_eq!(stored, Err(ApiError::Api("denied".to_string())));
    assert_eq!(client.access_token, Some(token("old", at(10, 0))));
    let stored =
        client.store_access_token(Outcome::NoResponse { reason: "dns".to_string() }, &at(100, 0));
    assert_eq!(stored, Err(ApiError::Transport("dns".to_string())));
    assert_eq!(client.access_token, Some(token("old", at(10, 0))));
    let stored = client.store_access_token(
        Outcome::Response { status: 200, text: "{}".to_string(), parsed: Err("shape".to_string()) },
        &at(100, 0),
    );
    assert_eq!(stored, Err(ApiError::Decode("shape".to_string())));
    assert_eq!(client.access_token, Some(token("old", at(10, 0))));
}

#[test]
fn the_clock_decides_whether_a_token_is_asked_for() {
    let mut client = Spotify::new("me", "hush");
    assert_eq!(client.request_access_token(), Some(token_request()));
    client.access_token = Some(token("tok", at(i64::MAX as i128, 0)));
    assert!(client.request_access_token().is_none());
    client.access_token = Some(token("tok", at(1_000_000_000, 0)));
    assert_eq!(client.request_access_token(), Some(token_request()));
}

#[test]
fn the_clock_shows_a_time_of_this_century() {
    let first = Instant::now();
    let second = Instant::now();
    assert!(first.secs > 1_600_000_000);
    assert!(first.secs < 4_102_444_800);
    assert!(first.nanos < 1_000_000_000);
    assert!(!second.is_before(&first));
}

#[test]
fn a_grant_received_now_is_valid_for_its_lifetime() {
    let mut client = Spotify::new("me", "hush");
    let before = Instant::now();
    assert_eq!(client.receive_access_token(grant("tok", 3600)), Ok(()));
    let after = Instant::now();
    let held = client.token().unwrap();
    assert_eq!(held.access_token, "tok");
    assert!(held.expiration.secs >= before.secs + 3599);
    assert!(held.expiration.secs <= after.secs + 3599);
    assert!(client.request_access_token().is_none());
    assert_eq!(
        client.receive_access_token(Outcome::NoResponse { reason: "down".to_string() }),
        Err(ApiError::Transport("down".to_string()))
    );
    assert_eq!(client.token().unwrap().access_token, "tok");
}

#[test]
fn instants_are_ordered_by_seconds_then_nanoseconds() {
    assert!(at(1, 0).is_before(&at(2, 0)));
    assert!(at(1, 999).is_before(&at(2, 0)));
    assert!(at(1, 1).is_before(&at(1, 2)));
    assert!(!at(1, 1).is_before(&at(1, 1)));
    assert!(!at(2, 0).is_before(&at(1, 999)));
    assert!(at(-1, 0).is_before(&at(0, 0)));
}

#[test]
fn playlists_are_listed_with_the_token() {
    let mut client = Spotify::new("me", "hush");
    assert_eq!(
        client.user_playlists_step("ann", &at(5, 0)),
        authenticate("https://api.spotify.com/v1/users/ann/playlists")
    );
    assert_eq!(
        client.get_user_playlists("ann"),
        authenticate("https://api.spotify.com/v1/users/ann/playlists")
    );
    client.access_token = Some(token("tok", at(10, 0)));
    assert_eq!(
        client.user_playlists_step("ann", &at(5, 0)),
        Step::Fetch(get("https://api.spotify.com/v1/users/ann/playlists", "tok"))
    );
    assert_eq!(
        client.user_playlists_step("ann", &at(10, 0)),
        authenticate("https://api.spotify.com/v1/users/ann/playlists")
    );
    client.access_token = Some(token("tok", at(i64::MAX as i128, 0)));
    assert_eq!(
        client.get_user_playlists("ann"),
        Step::Fetch(get("https://api.spotify.com/v1/users/ann/playlists", "tok"))
    );
}

#[test]
fn tracks_are_read_from_the_first_page_or_the_given_one() {
    let mut client = Spotify::new("me", "hush");
    assert_eq!(
        client.tracks_step("p1", None, &at(5, 0)),
        authenticate("https://api.spotify.com/v1/playlists/p1/tracks")
    );
    assert_eq!(
        client.get_tracks("p1", Some("https://next/page".to_string())),
        authenticate("https://next/page")
    );
    client.access_token = Some(token("tok", at(i64::MAX as i128, 0)));
    assert_eq!(
        client.tracks_step("p1", None, &at(5, 0)),
        Step::Fetch(get("https://api.spotify.com/v1/playlists/p1/tracks", "tok"))
    );
    assert_eq!(
        client.tracks_step("p1", Some("https://next/page?offset=100".to_string()), &at(5, 0)),
        Step::Fetch(get("https://next/page?offset=100", "tok"))
    );
    assert_eq!(
        client.get_tracks("p1", Some("https://next/page?offset=100".to_string())),
        Step::Fetch(get("https://next/page?offset=100", "tok"))
    );
    assert_eq!(
        client.get_tracks("p1", None),
        Step::Fetch(get("https://api.spotify.com/v1/playlists/p1/tracks", "tok"))
    );
}

#[test]
fn a_grant_is_followed_by_the_request_that_was_due() {
    let mut client = Spotify::new("me", "hush");
    client.access_token = Some(token("old", at(10, 0)));
    let fetch = client.resume_at(grant("new", 60), "https://somewhere".to_string(), &at(100, 7));
    assert_eq!(fetch, Ok(get("https://somewhere", "new")));
    assert_eq!(client.access_token, Some(token("new", at(159, 7))));
    // A token that lives no longer than a second is used for this one request all the same.
    let fetch = client.resume_at(grant("brief", 1), "https://somewhere".to_string(), &at(200, 0));
    assert_eq!(fetch, Ok(get("https://somewhere", "brief")));
    assert_eq!(client.access_token, Some(token("brief", at(200, 0))));
    assert!(!client.has_valid_token(&at(200, 0)));
}

#[test]
fn a_refusal_is_followed_by_nothing() {
    let mut client = Spotify::new("me", "hush");
    client.access_token = Some(token("old", at(10, 0)));
    let refused = Outcome::Response {
        status: 400,
        text: "invalid_client".to_string(),
        parsed: Err("missing field".to_string()),
    };
    let fetch = client.resume_at(refused, "https://somewhere".to_string(), &at(100, 7));
    assert_eq!(fetch, Err(ApiError::Api("invalid_client".to_string())));
    assert_eq!(client.access_token, Some(token("old", at(10, 0))));
    let fetch = client.resume(Outcome::NoResponse { reason: "off".to_string() }, "u".to_string());
    assert_eq!(fetch, Err(ApiError::Transport("off".to_string())));
    assert_eq!(client.access_token, Some(token("old", at(10, 0))));
}

#[test]
fn a_grant_received_now_is_used_at_once() {
    let mut client = Spotify::new("me", "hush");
    let before = Instant::now();
    let fetch = client.resume(grant("new", 3600), "https://somewhere".to_string());
    let after = Instant::now();
    assert_eq!(fetch, Ok(get("https://somewhere", "new")));
    let held = client.token().unwrap();
    assert!(held.expiration.secs >= before.secs + 3599);
    assert!(held.expiration.secs <= after.secs + 3599);
    assert_eq!(client.get_tracks("p", None), Step::Fetch(
        get("https://api.spotify.com/v1/playlists/p/tracks", "new"),
    ));
}

#[test]
fn outcomes_are_sorted_three_ways() {
    let none: Outcome<u8> = Outcome::NoResponse { reason: "refused".to_string() };
    assert_eq!(classify(none), Err(ApiError::Transport("refused".to_string())));
    let bad: Outcome<u8> =
        Outcome::Response { status: 404, text: "not found".to_string(), parsed: Ok(1) };
    assert_eq!(classify(bad), Err(ApiError::Api("not found".to_string())));
    let odd: Outcome<u8> = Outcome::Response {
        status: 200,
        text: "[]".to_string(),
        parsed: Err("expected a map".to_string()),
    };
    assert_eq!(classify(odd), Err(ApiError::Decode("expected a map".to_string())));
    let good: Outcome<u8> = Outcome::Response { status: 204, text: "7".to_string(), parsed: Ok(7) };
    assert_eq!(classify(good), Ok(7));
}

#[test]
fn the_success_range_is_200_to_299() {
    assert!(!status_is_success(0));
    assert!(!status_is_success(199));
    assert!(status_is_success(200));
    assert!(status_is_success(299));
    assert!(!status_is_success(300));
    assert!(!status_is_success(u16::MAX));
}

#[test]
fn an_error_shows_its_text() {
    assert_eq!(ApiError::Transport("a".to_string()).message(), "a");
    assert_eq!(ApiError::Api("b".to_string()).message(), "b");
    assert_eq!(ApiError::Decode("c".to_string()).message(), "c");
}

#[test]
fn no_playlists_is_no_error() {
    let outcome = Outcome::Response {
        status: 200,
        text: "{\"items\":[]}".to_string(),
        parsed: Ok(PlaylistResponse { items: Vec::new() }),
    };
    assert_eq!(playlists_of(outcome), Ok(Vec::new()));
}

#[test]
fn playlists_come_as_listed() {
    let items = vec![
        Playlist { id: "1".to_string(), name: "one".to_string() },
        Playlist { id: "2".to_string(), name: "two".to_string() },
    ];
    let outcome = Outcome::Response {
        status: 200,
        text: String::new(),
        parsed: Ok(PlaylistResponse { items: items.clone() }),
    };
    assert_eq!(playlists_of(outcome), Ok(items));
    let failed: Outcome<PlaylistResponse> =
        Outcome::Response { status: 500, text: "oops".to_string(), parsed: Err(String::new()) };
    assert_eq!(playlists_of(failed), Err(ApiError::Api("oops".to_string())));
}
