use crate::playlist::{Playlist, PlaylistResponse};
use crate::spotify::token::{expiry, Instant, Token, TokenData};
use crate::spotify::track::text_of;
use crate::spotify::transport::{classified, classify, ApiError, Method, Outcome, Request, RequestView};
use vstd::prelude::*;
use vstd::string::*;

verus! {

/// A client of the service: the application's credentials and the access
/// token it holds, if any. It sends nothing itself: it says which request is
/// due, and takes the outcome of each.
#[derive(Debug, Clone, PartialEq, Eq)]
pub struct Spotify<'a> {
    pub client_id: &'a str,
    pub client_secret: &'a str,
    pub access_token: Option<Token>,
}

/// What the caller is to do next.
#[derive(Debug, Clone, PartialEq, Eq)]
pub enum Step {
    /// No valid token is held: send `request` for one, and hand its outcome
    /// to the client together with `url`, the address that is to be read.
    Authenticate { request: Request, url: String },
    /// A valid token is held: send this request, which bears it.
    Fetch(Request),
}

/// The request for a token with the application's credentials.
pub open spec fn token_request(client_id: Seq<char>, client_secret: Seq<char>) -> RequestView {
    RequestView {
        method: Method::Post,
        url: "https://accounts.spotify.com/api/token"@,
        header_name: "Content-Type"@,
        header_value: "application/x-www-form-urlencoded"@,
        body: "grant_type=client_credentials&client_id="@ + client_id + "&client_secret="@
            + client_secret,
    }
}

/// A request that reads `url` on behalf of the bearer of `token`.
pub open spec fn bearer_get(url: Seq<char>, token: Seq<char>) -> RequestView {
    RequestView {
        method: Method::Get,
        url,
        header_name: "Authorization"@,
        header_value: "Bearer "@ + token,
        body: Seq::empty(),
    }
}

/// The address of a user's playlists.
pub open spec fn playlists_url(user_id: Seq<char>) -> Seq<char> {
    "https://api.spotify.com/v1/users/"@ + user_id + "/playlists"@
}

/// The address of a page of a playlist's tracks: the one that the service
/// gave, unchanged, or else that of the playlist's first page.
pub open spec fn tracks_url(playlist_id: Seq<char>, url: Option<Seq<char>>) -> Seq<char> {
    match url {
        Some(url) => url,
        None => "https://api.spotify.com/v1/playlists/"@ + playlist_id + "/tracks"@,
    }
}

/// A request that reads `url` on behalf of the bearer of `token`.
fn bearer_request(url: String, token: &Token) -> (request: Request)
    ensures
        request@ == bearer_get(url@, token.access_token@),
{
    Request {
        method: Method::Get,
        url,
        header_name: String::from_str("Authorization"),
        header_value: String::from_str("Bearer ").concat(token.access_token.as_str()),
        body: String::new(),
    }
}

impl<'a> Spotify<'a> {
    /// A client that holds no token yet.
    pub fn new(client_id: &'a str, client_secret: &'a str) -> (client: Self)
        ensures
            client.client_id@ == client_id@,
            client.client_secret@ == client_secret@,
            client.access_token is None,
    {
        Self { client_id, client_secret, access_token: None }
    }

    /// Whether a token is held that can be used at `now`.
    pub open spec fn holds_valid_token(&self, now: Instant) -> bool {
        match self.access_token {
            Some(token) => now.before(token.expiration),
            None => false,
        }
    }

    /// The request that asks for a token with this client's credentials.
    pub open spec fn token_request(&self) -> RequestView {
        token_request(self.client_id@, self.client_secret@)
    }

    /// Whether `request` is what is due at `now` to hold a valid token:
    /// nothing where the token held is valid, and else the request for a new one.
    pub open spec fn token_due(&self, now: Instant, request: Option<Request>) -> bool {
        if self.holds_valid_token(now) {
            request is None
        } else {
            request matches Some(sent) && sent@ == self.token_request()
        }
    }

    /// Whether `step` is what is due at `now` on the way to reading `url`:
    /// the request itself, bearing the token held, where that token is
    /// valid, and else the request for a new token.
    pub open spec fn due(&self, now: Instant, url: Seq<char>, step: Step) -> bool {
        if self.holds_valid_token(now) {
            step matches Step::Fetch(sent) && sent@ == bearer_get(
                url,
                self.access_token.unwrap().access_token@,
            )
        } else {
            step matches Step::Authenticate { request, url: target } && request@
                == self.token_request() && target@ == url
        }
    }

    /// The token that is held, if any.
    pub fn token(&self) -> (token: Option<&Token>)
        ensures
            token == match self.access_token {
                Some(held) => Some(&held),
                None => None,
            },
    {
        self.access_token.as_ref()
    }

    /// Whether a token is held that can be used at `now`.
    pub fn has_valid_token(&self, now: &Instant) -> (valid: bool)
        ensures
            valid == self.holds_valid_token(*now),
    {
        match &self.access_token {
            Some(token) => token.is_valid_at(now),
            None => false,
        }
    }

    /// The request for a new token.
    pub fn authentication(&self) -> (request: Request)
        ensures
            request@ == self.token_request(),
    {
        let body = String::from_str("grant_type=client_credentials&client_id=").concat(
            self.client_id,
        ).concat("&client_secret=").concat(self.client_secret);
        Request {
            method: Method::Post,
            url: String::from_str("https://accounts.spotify.com/api/token"),
            header_name: String::from_str("Content-Type"),
            header_value: String::from_str("application/x-www-form-urlencoded"),
            body,
        }
    }

    /// Whether a token must be asked for at `now`: nothing where the token
    /// held is still valid, so that it is used again, and else the request
    /// to send.
    pub fn access_token_step(&self, now: &Instant) -> (request: Option<Request>)
        ensures
            self.token_due(*now, request),
    {
        if self.has_valid_token(now) {
            None
        } else {
            Some(self.authentication())
        }
    }

    /// Whether a token must be asked for now. Where a request comes back,
    /// the caller sends it and hands the outcome to `receive_access_token`.
    pub fn request_access_token(&self) -> (request: Option<Request>)
        ensures
            exists|now: Instant| now.is_reading() && #[trigger] self.token_due(now, request),
    {
        let now = Instant::now();
        self.access_token_step(&now)
    }

    /// Takes the outcome of a request for a token that was received at
    /// `issued`. A grant replaces the token held; a failure leaves it as it is.
    pub fn store_access_token(&mut self, outcome: Outcome<TokenData>, issued: &Instant) -> (stored:
        Result<(), ApiError>)
        requires
            issued.is_reading(),
        ensures
            final(self).client_id == old(self).client_id,
            final(self).client_secret == old(self).client_secret,
            match classified(outcome) {
                Ok(data) => {
                    &&& stored is Ok
                    &&& final(self).access_token == Some(
                        Token {
                            access_token: data.access_token,
                            expiration: expiry(*issued, data.expires_in),
                        },
                    )
                    &&& final(self).access_token.unwrap().expiration.secs == issued.secs
                        + data.expires_in - 1
                    &&& final(self).access_token.unwrap().expiration.nanos == issued.nanos
                },
                Err(error) => stored == Err::<(), ApiError>(error) && final(self).access_token
                    == old(self).access_token,
            },
    {
        match classify(outcome) {
            Ok(data) => {
                self.access_token = Some(Token::granted(data, issued));
                Ok(())
            },
            Err(error) => Err(error),
        }
    }

    /// Takes the outcome of a request for a token, received now. A grant
    /// replaces the token held; a failure leaves it as it is.
    pub fn receive_access_token(&mut self, outcome: Outcome<TokenData>) -> (stored: Result<
        (),
        ApiError,
    >)
        ensures
            final(self).client_id == old(self).client_id,
            final(self).client_secret == old(self).client_secret,
            match classified(outcome) {
                Ok(data) => {
                    &&& stored is Ok
                    &&& final(self).access_token is Some
                    &&& final(self).access_token.unwrap().access_token == data.access_token
                    &&& exists|issued: Instant|
                        issued.is_reading() && final(self).access_token.unwrap().expiration
                            == #[trigger] expiry(issued, data.expires_in)
                },
                Err(error) => stored == Err::<(), ApiError>(error) && final(self).access_token
                    == old(self).access_token,
            },
    {
        let issued = Instant::now();
        self.store_access_token(outcome, &issued)
    }

    /// Takes the outcome of a request for a token that was received at
    /// `issued`, on the way to reading `url`. A grant replaces the token
    /// held, and the request that reads `url` with the new token comes back.
    /// A failure leaves the token held as it is.
    pub fn resume_at(&mut self, outcome: Outcome<TokenData>, url: String, issued: &Instant) -> (fetch:
        Result<Request, ApiError>)
        requires
            issued.is_reading(),
        ensures
            final(self).client_id == old(self).client_id,
            final(self).client_secret == old(self).client_secret,
            match classified(outcome) {
                Ok(data) => {
                    &&& fetch is Ok
                    &&& fetch.unwrap()@ == bearer_get(url@, data.access_token@)
                    &&& final(self).access_token == Some(
                        Token {
                            access_token: data.access_token,
                            expiration: expiry(*issued, data.expires_in),
                        },
                    )
                },
                Err(error) => fetch == Err::<Request, ApiError>(error) && final(self).access_token
                    == old(self).access_token,
            },
    {
        match classify(outcome) {
            Ok(data) => {
                let token = Token::granted(data, issued);
                let request = bearer_request(url, &token);
                self.access_token = Some(token);
                Ok(request)
            },
            Err(error) => Err(error),
        }
    }

    /// Takes the outcome of a request for a token, received now, on the way
    /// to reading `url`. A grant replaces the token held, and the request
    /// that reads `url` with the new token comes back. A failure leaves the
    /// token held as it is.
    pub fn resume(&mut self, outcome: Outcome<TokenData>, url: String) -> (fetch: Result<
        Request,
        ApiError,
    >)
        ensures
            final(self).client_id == old(self).client_id,
            final(self).client_secret == old(self).client_secret,
            match classified(outcome) {
                Ok(data) => {
                    &&& fetch is Ok
                    &&& fetch.unwrap()@ == bearer_get(url@, data.access_token@)
                    &&& final(self).access_token is Some
                    &&& final(self).access_token.unwrap().access_token == data.access_token
                    &&& exists|issued: Instant|
                        issued.is_reading() && final(self).access_token.unwrap().expiration
                            == #[trigger] expiry(issued, data.expires_in)
                },
                Err(error) => fetch == Err::<Request, ApiError>(error) && final(self).access_token
                    == old(self).access_token,
            },
    {
        let issued = Instant::now();
        self.resume_at(outcome, url, &issued)
    }

    /// What is due at `now` to read `url`.
    pub fn step_at(&self, url: String, now: &Instant) -> (step: Step)
        ensures
            self.due(*now, url@, step),
    {
        match &self.access_token {
            Some(token) => {
                if token.is_valid_at(now) {
                    Step::Fetch(bearer_request(url, token))
                } else {
                    Step::Authenticate { request: self.authentication(), url }
                }
            },
            None => Step::Authenticate { request: self.authentication(), url },
        }
    }

    /// What is due at `now` to list the playlists of `user_id`.
    pub fn user_playlists_step(&self, user_id: &str, now: &Instant) -> (step: Step)
        ensures
            self.due(*now, playlists_url(user_id@), step),
    {
        let url = String::from_str("https://api.spotify.com/v1/users/").concat(user_id).concat(
            "/playlists",
        );
        self.step_at(url, now)
    }

    /// What is due now to list the playlists of `user_id`.
    pub fn get_user_playlists(&self, user_id: &str) -> (step: Step)
        ensures
            exists|now: Instant|
                now.is_reading() && #[trigger] self.due(now, playlists_url(user_id@), step),
    {
        let now = Instant::now();
        self.user_playlists_step(user_id, &now)
    }

    /// What is due at `now` to read a page of the tracks of `playlist_id`:
    /// the page at `url`, or the first one where there is none.
    pub fn tracks_step(&self, playlist_id: &str, url: Option<String>, now: &Instant) -> (step: Step)
        ensures
            self.due(*now, tracks_url(playlist_id@, text_of(url)), step),
    {
        let url = match url {
            Some(url) => url,
            None => String::from_str("https://api.spotify.com/v1/playlists/").concat(
                playlist_id,
            ).concat("/tracks"),
        };
        self.step_at(url, now)
    }

    /// What is due now to read a page of the tracks of `playlist_id`: the
    /// page at `url`, or the first one where there is none.
    pub fn get_tracks(&self, playlist_id: &str, url: Option<String>) -> (step: Step)
        ensures
            exists|now: Instant|
                now.is_reading() && #[trigger] self.due(
                    now,
                    tracks_url(playlist_id@, text_of(url)),
                    step,
                ),
    {
        let now = Instant::now();
        self.tracks_step(playlist_id, url, &now)
    }
}

/// The playlists that the outcome of a listing holds, or the error that it
/// amounts to. A reply without playlists is an empty list, not an error.
pub fn playlists_of(outcome: Outcome<PlaylistResponse>) -> (playlists: Result<
    Vec<Playlist>,
    ApiError,
>)
    ensures
        playlists == match classified(outcome) {
            Ok(response) => Ok::<Vec<Playlist>, ApiError>(response.items),
            Err(error) => Err(error),
        },
{
    match classify(outcome) {
        Ok(response) => Ok(response.items),
        Err(error) => Err(error),
    }
}

} // verus!
