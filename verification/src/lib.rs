//! A client library for the MyAnimeList v2 API: typed request building,
//! form parameters for list updates, and the OAuth (PKCE) login steps.
//!
//! The library decides what is sent and how replies are read; sending and
//! receiving is left to the caller, which hands the library plain values.
pub mod challenge;
pub mod model;
pub mod text;

use vstd::prelude::*;

use crate::challenge::{is_verifier_byte, pkce_challenge, pkce_code_challenge, pkce_code_verifier};
use crate::model::fields::{field_names, law_all_lists_every_field, single_fields, AnimeField};
use crate::model::options::{law_rankingtype_names_distinct, Params, RankingType, Season};
use crate::text::{
    chars_of, decimal, find_char, find_char_from, first_index, has_substring, is_first_index, join,
    join_strings, law_decimal_injective, lemma_first_index_unique, str_contains, u64_to_decimal,
};

verus! {

/// The HTTP method of a request.
#[derive(Debug, Clone, Copy, PartialEq, Eq, Structural)]
pub enum HttpMethod {
    Get,
    Post,
    Put,
    Delete,
}

/// A request to send: method, URL, bearer token (if any) and
/// form-encoded parameters (empty when there is no form).
#[derive(Debug)]
pub struct ApiRequest {
    pub method: HttpMethod,
    pub url: String,
    pub bearer: Option<String>,
    pub form: Vec<(String, String)>,
}

/// The text view of a list of (key, value) strings.
pub open spec fn pairs_view(pairs: Seq<(String, String)>) -> Seq<(Seq<char>, Seq<char>)> {
    pairs.map_values(|p: (String, String)| (p.0@, p.1@))
}

/// The text view of an optional string.
pub open spec fn option_view(s: Option<String>) -> Option<Seq<char>> {
    match s {
        Some(t) => Some(t@),
        None => None,
    }
}

impl View for ApiRequest {
    type V = (HttpMethod, Seq<char>, Option<Seq<char>>, Seq<(Seq<char>, Seq<char>)>);

    open spec fn view(&self) -> (HttpMethod, Seq<char>, Option<Seq<char>>, Seq<(Seq<char>, Seq<char>)>) {
        (self.method, self.url@, option_view(self.bearer), pairs_view(self.form@))
    }
}

/// An error body returned by the API.
#[derive(Debug)]
pub struct APIError {
    pub error: String,
    pub message: String,
}

/// The reply of the token endpoint.
#[derive(Debug)]
pub struct TokenResponse {
    pub token_type: String,
    pub expires_in: u32,
    pub access_token: String,
    pub refresh_token: String,
}

/// The tokens kept in the cache file, with the time (seconds since the
/// epoch) they were obtained.
#[derive(Debug)]
pub struct Tokens {
    pub access_token: String,
    pub refresh_token: String,
    pub expires_in: u32,
    pub today: u64,
}

/// What the token cache held when the client started.
#[derive(Debug)]
pub enum CachedToken {
    /// Caching is off, there is no cache directory, or there is no cache
    /// file.
    Absent,
    /// The cache file exists but gave no token (unreadable, or no clock).
    Unusable,
    /// The access token to use (refreshed first if it had expired).
    Token(String),
}

/// What to do with one request that reached the login redirect server.
#[derive(Debug)]
pub enum AuthStep {
    /// The request does not carry our state: wait for the next one.
    Ignore,
    /// The request carries our state but no `code=...&` part.
    Malformed,
    /// The authorization code, and the token request to send for it.
    Exchange { code: String, request: ApiRequest },
}

/// The URL of the token endpoint.
pub open spec fn token_url() -> Seq<char> {
    "https://myanimelist.net/v1/oauth2/token"@
}

/// The state the login flow sends and expects back.
pub open spec fn auth_state() -> Seq<char> {
    "state=bruh"@
}

/// The URL the user opens to log in.
pub open spec fn auth_url_spec(secret: Seq<char>, challenge: Seq<char>) -> Seq<char> {
    "https://myanimelist.net/v1/oauth2/authorize?response_type=code&client_id="@ + secret
        + "&code_challenge="@ + challenge + "&"@ + auth_state()
}

/// The code in a redirect URL: what lies between its first `=` and the
/// first `&` after that, if both are there.
pub open spec fn redirect_code(url: Seq<char>) -> Option<Seq<char>> {
    match first_index(url, '=') {
        None => None,
        Some(e) => {
            let rest = url.subrange(e + 1, url.len() as int);
            match first_index(rest, '&') {
                None => None,
                Some(a) => Some(rest.subrange(0, a)),
            }
        },
    }
}

/// The token request for an authorization code.
pub open spec fn token_request_spec(secret: Seq<char>, code: Seq<char>, verifier: Seq<char>) -> (
    HttpMethod,
    Seq<char>,
    Option<Seq<char>>,
    Seq<(Seq<char>, Seq<char>)>,
) {
    (
        HttpMethod::Post,
        token_url(),
        None,
        seq![
            ("client_id"@, secret),
            ("grant_type"@, "authorization_code"@),
            ("code_verifier"@, verifier),
            ("code"@, code),
        ],
    )
}

/// The limit sent when none is given.
pub open spec fn limit_or_default(limit: Option<u8>) -> nat {
    match limit {
        Some(l) => l as nat,
        None => 100,
    }
}

/// The URL of an anime search.
pub open spec fn anime_list_url(query: Seq<char>, limit: nat) -> Seq<char> {
    "https://api.myanimelist.net/v2/anime?q="@ + query + "&limit="@ + decimal(limit)
}

/// The `fields` value of a details request.
pub open spec fn details_fields(fields: Option<Seq<AnimeField>>) -> Seq<char> {
    match fields {
        Some(f) => join(field_names(f), ","@),
        None => AnimeField::ALL.wire_name(),
    }
}

/// The URL of a details request.
pub open spec fn anime_details_url(id: nat, fields: Option<Seq<AnimeField>>) -> Seq<char> {
    "https://api.myanimelist.net/v2/anime/"@ + decimal(id) + "?fields="@ + details_fields(fields)
}

/// The URL of a ranking request.
pub open spec fn anime_ranking_url(ranking: RankingType, limit: nat) -> Seq<char> {
    "https://api.myanimelist.net/v2/anime/ranking?ranking_type="@ + ranking.wire_name() + "&limit="@
        + decimal(limit)
}

/// The URL of a seasonal request.
pub open spec fn seasonal_anime_url(season: Season, year: nat, limit: nat) -> Seq<char> {
    "https://api.myanimelist.net/v2/anime/season/"@ + decimal(year) + "/"@ + season.wire_name()
        + "?limit="@ + decimal(limit)
}

/// The URL of a suggestions request.
pub open spec fn suggested_anime_url(limit: nat) -> Seq<char> {
    "https://api.myanimelist.net/v2/anime/suggestions?limit="@ + decimal(limit)
}

/// The URL of the user's list entry for a show.
pub open spec fn list_status_url(id: nat) -> Seq<char> {
    "https://api.myanimelist.net/v2/anime/"@ + decimal(id) + "/my_list_status"@
}

/// The URL of the first page of the user's anime list.
pub open spec fn user_anime_list_url() -> Seq<char> {
    "https://api.myanimelist.net/v2/users/@me/animelist?fields=list_status"@
}

/// The URL of the forum boards.
pub open spec fn forum_boards_url() -> Seq<char> {
    "https://api.myanimelist.net/v2/forum/boards"@
}

/// The URL of a forum topic.
pub open spec fn forum_topic_detail_url(topic_id: nat, limit: nat) -> Seq<char> {
    "https://api.myanimelist.net/v2/forum/topic/"@ + decimal(topic_id) + "?limit="@ + decimal(limit)
}

/// One `name=value` query piece, present only when the value is.
pub open spec fn optional_piece(name: Seq<char>, value: Option<Seq<char>>) -> Seq<Seq<char>> {
    match value {
        Some(v) => seq![name + v],
        None => Seq::empty(),
    }
}

/// The decimal text of an optional number.
pub open spec fn optional_decimal(v: Option<u32>) -> Option<Seq<char>> {
    match v {
        Some(n) => Some(decimal(n as nat)),
        None => None,
    }
}

/// The query pieces of a forum topics search, in the order they are sent.
pub open spec fn forum_topics_pieces(
    board_id: Option<u32>,
    subboard_id: Option<u32>,
    query: Option<Seq<char>>,
    topic_user_name: Option<Seq<char>>,
    user_name: Option<Seq<char>>,
    limit: Option<u32>,
) -> Seq<Seq<char>> {
    optional_piece("board_id="@, optional_decimal(board_id)) + optional_piece(
        "subboard_id="@,
        optional_decimal(subboard_id),
    ) + optional_piece("q="@, query) + optional_piece("topic_user_name="@, topic_user_name)
        + optional_piece("user_name="@, user_name) + seq![
        "limit="@ + decimal(
            match limit {
                Some(l) => l as nat,
                None => 100,
            },
        ),
    ]
}

/// The URL of a forum topics search (the pieces are joined by commas).
pub open spec fn forum_topics_url(pieces: Seq<Seq<char>>) -> Seq<char> {
    "https://api.myanimelist.net/v2/forum/topics?"@ + join(pieces, ","@)
}

/// The URL of the user's own details.
pub open spec fn my_user_info_url(fields: Option<Seq<char>>) -> Seq<char> {
    "https://api.myanimelist.net/v2/users/@me?fields="@ + match fields {
        Some(f) => f,
        None => "anime_statistics"@,
    }
}

/// The message of a failed deletion.
pub open spec fn not_found_message(id: nat) -> Seq<char> {
    "Anime "@ + decimal(id) + " not found"@
}

/// Whether a client caches tokens: caching is asked for and there is a
/// cache directory.
pub open spec fn startup_caching(caching: bool, cache_dir: Option<String>) -> bool {
    caching && cache_dir is Some
}

/// Whether a new client needs a login: it does unless it caches tokens and
/// a cache file was found.
pub open spec fn startup_needs_auth(caching: bool, cache_dir: Option<String>, cached: CachedToken) -> bool {
    !(startup_caching(caching, cache_dir) && !(cached is Absent))
}

/// The access token a new client starts with: the cached one when it
/// caches tokens and one was found, else empty.
pub open spec fn startup_token(caching: bool, cache_dir: Option<String>, cached: CachedToken) -> Seq<char> {
    match cached {
        CachedToken::Token(t) => if startup_caching(caching, cache_dir) {
            t@
        } else {
            Seq::<char>::empty()
        },
        _ => Seq::<char>::empty(),
    }
}

/// The tokens of a token reply obtained at `now`.
pub open spec fn tokens_of(resp: TokenResponse, now: u64) -> Tokens {
    Tokens {
        access_token: resp.access_token,
        refresh_token: resp.refresh_token,
        expires_in: resp.expires_in,
        today: now,
    }
}

/// The tokens a login hands back to be written to the cache: those of the
/// reply when the client caches tokens, none otherwise.
pub open spec fn accepted_tokens(caching: bool, resp: TokenResponse, now: u64) -> Option<Tokens> {
    if caching {
        Some(tokens_of(resp, now))
    } else {
        None
    }
}

/// The access token to use from cached tokens at `now`: theirs while they
/// have not expired; none (they must be refreshed) once they have.
pub open spec fn cached_token_to_use(t: Tokens, now: u64) -> Option<Seq<char>> {
    if now - t.today >= t.expires_in {
        None
    } else {
        Some(t.access_token@)
    }
}

/// The request that refreshes tokens with this refresh token.
pub open spec fn refresh_request_spec(refresh_token: Seq<char>) -> (
    HttpMethod,
    Seq<char>,
    Option<Seq<char>>,
    Seq<(Seq<char>, Seq<char>)>,
) {
    (
        HttpMethod::Post,
        token_url(),
        None,
        seq![("grant_type"@, "refresh_token"@), ("refesh_token"@, refresh_token)],
    )
}

/// What to do with tokens read from the cache.
#[derive(Debug)]
pub enum CacheStep {
    /// Use this access token.
    Use(String),
    /// The tokens have expired: send this refresh request.
    Refresh(ApiRequest),
}

/// Whether the token cache is looked at: caching is asked for and there is
/// a cache directory.
pub fn cache_enabled(caching: bool, cache_dir: &Option<String>) -> (r: bool)
    ensures
        r == (caching && cache_dir is Some),
{
    caching && cache_dir.is_some()
}

/// `prefix` followed by `rest`, as a new string.
fn concat2(prefix: &str, rest: &str) -> (r: String)
    ensures
        r@ == prefix@ + rest@,
{
    let mut s = prefix.to_owned();
    s.append(rest);
    s
}

/// The form pairs of `params`, as owned strings.
fn owned_pairs<'a>(params: Vec<(&'a str, String)>) -> (r: Vec<(String, String)>)
    ensures
        pairs_view(r@) == crate::model::options::form_view(params@),
{
    let mut out: Vec<(String, String)> = Vec::new();
    let n = params.len();
    let mut i: usize = 0;
    while i < n
        invariant
            n == params@.len(),
            i <= n,
            pairs_view(out@) =~= crate::model::options::form_view(params@).take(i as int),
        decreases n - i,
    {
        let ghost before = out@;
        let key = params[i].0.to_owned();
        let value = params[i].1.clone();
        out.push((key, value));
        assert(pairs_view(out@) =~= pairs_view(before).push((params@[i as int].0@, params@[i as int].1@)));
        assert(crate::model::options::form_view(params@).take(i + 1) =~= crate::model::options::form_view(params@).take(
            i as int,
        ).push(crate::model::options::form_view(params@)[i as int]));
        i = i + 1;
    }
    assert(crate::model::options::form_view(params@).take(n as int) =~= crate::model::options::form_view(params@));
    out
}

/// The limit to send: the given one, else 100.
fn limit_value(limit: Option<u8>) -> (r: u64)
    ensures
        r == limit_or_default(limit),
{
    match limit {
        Some(l) => l as u64,
        None => 100,
    }
}

impl Tokens {
    /// The tokens of a token reply obtained at `now`.
    pub fn from_response(resp: TokenResponse, now: u64) -> (r: Tokens)
        ensures
            r.access_token == resp.access_token,
            r.refresh_token == resp.refresh_token,
            r.expires_in == resp.expires_in,
            r.today == now,
    {
        Tokens {
            access_token: resp.access_token,
            refresh_token: resp.refresh_token,
            expires_in: resp.expires_in,
            today: now,
        }
    }

    /// Whether the tokens have expired at `now`: at least `expires_in`
    /// seconds have passed since they were obtained.
    pub fn is_expired(&self, now: u64) -> (r: bool)
        requires
            self.today <= now,
        ensures
            r == (now - self.today >= self.expires_in),
    {
        now - self.today >= self.expires_in as u64
    }

    /// What to do with these tokens, read from the cache at `now`: use their
    /// access token while they have not expired, else refresh them.
    pub fn cache_step(&self, now: u64) -> (r: CacheStep)
        requires
            self.today <= now,
        ensures
            cached_token_to_use(*self, now) matches Some(a) ==> (r matches CacheStep::Use(s) && s@ == a),
            cached_token_to_use(*self, now) is None ==> (r matches CacheStep::Refresh(q) && q@
                == refresh_request_spec(self.refresh_token@)),
    {
        if self.is_expired(now) {
            CacheStep::Refresh(self.refresh_request())
        } else {
            CacheStep::Use(self.access_token.clone())
        }
    }

    /// The request that refreshes these tokens.
    pub fn refresh_request(&self) -> (r: ApiRequest)
        ensures
            r@ == refresh_request_spec(self.refresh_token@),
    {
        let mut form: Vec<(String, String)> = Vec::new();
        form.push(("grant_type".to_owned(), "refresh_token".to_owned()));
        form.push(("refesh_token".to_owned(), self.refresh_token.clone()));
        let r = ApiRequest {
            method: HttpMethod::Post,
            url: "https://myanimelist.net/v1/oauth2/token".to_owned(),
            bearer: None,
            form,
        };
        assert(pairs_view(r.form@) =~= seq![("grant_type"@, "refresh_token"@), ("refesh_token"@, self.refresh_token@)]);
        r
    }
}

/// The outcome of deleting a list entry, from the reply's HTTP status:
/// 404 means the show was not on the list.
pub fn delete_result(id: u32, status: u16) -> (r: Result<(), String>)
    ensures
        r is Err <==> status == 404,
        r matches Err(m) ==> m@ == not_found_message(id as nat),
{
    if status == 404 {
        let mut m = "Anime ".to_owned();
        m.append(u64_to_decimal(id as u64).as_str());
        m.append(" not found");
        Err(m)
    } else {
        Ok(())
    }
}

/// The client state: the client id, where tokens are cached, the access
/// token, and whether tokens are cached.
pub struct MALClient {
    client_secret: String,
    dirs: String,
    access_token: String,
    caching: bool,
    pub need_auth: bool,
}

impl MALClient {
    /// The client id.
    pub closed spec fn secret(&self) -> Seq<char> {
        self.client_secret@
    }

    /// The cache directory.
    pub closed spec fn dir(&self) -> Seq<char> {
        self.dirs@
    }

    /// The access token sent with requests.
    pub closed spec fn token(&self) -> Seq<char> {
        self.access_token@
    }

    /// Whether new tokens are written to the cache.
    pub closed spec fn is_caching(&self) -> bool {
        self.caching
    }

    /// Whether the user must log in: the value of the public field
    /// `need_auth`.
    pub closed spec fn needs_auth(&self) -> bool {
        self.need_auth
    }

    /// A client for the API. Tokens are cached when caching is asked for
    /// and there is a cache directory; the user must log in unless a cache
    /// file was found there.
    pub fn new(secret: &str, caching: bool, cache_dir: Option<String>, cached: CachedToken) -> (r: Self)
        ensures
            r.secret() == secret@,
            r.dir() == match cache_dir {
                Some(d) => d@,
                None => Seq::<char>::empty(),
            },
            r.is_caching() == startup_caching(caching, cache_dir),
            r.needs_auth() == startup_needs_auth(caching, cache_dir, cached),
            r.token() == startup_token(caching, cache_dir, cached),
    {
        let will_cache = cache_enabled(caching, &cache_dir);
        let dir = match cache_dir {
            Some(d) => d,
            None => String::new(),
        };
        let mut token = String::new();
        let mut need_auth = true;
        if will_cache {
            match cached {
                CachedToken::Absent => {},
                CachedToken::Unusable => {
                    need_auth = false;
                },
                CachedToken::Token(t) => {
                    token = t;
                    need_auth = false;
                },
            }
        }
        MALClient { client_secret: secret.to_owned(), dirs: dir, access_token: token, caching: will_cache, need_auth }
    }

    /// The cache directory (empty when there is none).
    pub fn cache_dir(&self) -> (r: &str)
        ensures
            r@ == self.dir(),
    {
        self.dirs.as_str()
    }

    /// Whether the user must log in (the public field `need_auth`, for
    /// verified callers).
    pub fn need_auth(&self) -> (r: bool)
        ensures
            r == self.needs_auth(),
    {
        self.need_auth
    }

    /// Whether new tokens are written to the cache.
    pub fn caching(&self) -> (r: bool)
        ensures
            r == self.is_caching(),
    {
        self.caching
    }

    /// The URL the user opens to log in, for a code challenge.
    pub fn auth_url(&self, challenge: &str) -> (r: String)
        ensures
            r@ == auth_url_spec(self.secret(), challenge@),
    {
        let mut url = "https://myanimelist.net/v1/oauth2/authorize?response_type=code&client_id=".to_owned();
        url.append(self.client_secret.as_str());
        url.append("&code_challenge=");
        url.append(challenge);
        url.append("&");
        url.append("state=bruh");
        url
    }

    /// The login URL and the code challenge in it. The challenge is that of
    /// a fresh random verifier of 128 bytes.
    pub fn get_auth_parts(&self) -> (r: (String, String))
        ensures
            r.0@ == auth_url_spec(self.secret(), r.1@),
            exists|v: Seq<u8>|
                v.len() == 128 && (forall|i: int| 0 <= i < v.len() ==> is_verifier_byte(#[trigger] v[i]))
                    && r.1@ == #[trigger] pkce_challenge(v),
    {
        let verifier = pkce_code_verifier(128);
        let challenge = pkce_code_challenge(verifier.as_slice());
        let url = self.auth_url(challenge.as_str());
        assert(challenge@ == pkce_challenge(verifier@));
        (url, challenge)
    }

    /// The token request for an authorization code; `verifier` is sent as
    /// the code verifier.
    pub fn get_tokens(&self, code: &str, verifier: &str) -> (r: ApiRequest)
        ensures
            r@ == token_request_spec(self.secret(), code@, verifier@),
    {
        let mut form: Vec<(String, String)> = Vec::new();
        form.push(("client_id".to_owned(), self.client_secret.clone()));
        form.push(("grant_type".to_owned(), "authorization_code".to_owned()));
        form.push(("code_verifier".to_owned(), verifier.to_owned()));
        form.push(("code".to_owned(), code.to_owned()));
        let r = ApiRequest {
            method: HttpMethod::Post,
            url: "https://myanimelist.net/v1/oauth2/token".to_owned(),
            bearer: None,
            form,
        };
        assert(pairs_view(r.form@) =~= token_request_spec(self.secret(), code@, verifier@).3);
        r
    }

    /// One step of the login: what to do with a request that reached the
    /// redirect server at `url`. Requests without our state are ignored;
    /// otherwise the code is taken from the URL and exchanged for tokens,
    /// with `challenge` as the verifier.
    pub fn auth(&self, url: &str, challenge: &str) -> (r: AuthStep)
        ensures
            !has_substring(url@, auth_state()) ==> r is Ignore,
            has_substring(url@, auth_state()) && redirect_code(url@) is None ==> r is Malformed,
            has_substring(url@, auth_state()) && redirect_code(url@) is Some ==> (r matches AuthStep::Exchange {
                code,
                request,
            } && code@ == redirect_code(url@)->0 && request@ == token_request_spec(
                self.secret(),
                code@,
                challenge@,
            )),
    {
        if !str_contains(url, "state=bruh") {
            return AuthStep::Ignore;
        }
        let chars = chars_of(url);
        let n = chars.len();
        match find_char(&chars, '=') {
            None => AuthStep::Malformed,
            Some(e) => {
                match find_char_from(&chars, '&', e + 1) {
                    None => {
                        assert(url@.subrange(e + 1, n as int) =~= chars@.subrange(e + 1, n as int));
                        AuthStep::Malformed
                    },
                    Some(a) => {
                        let code_str = url.substring_char(e + 1, a);
                        let code = code_str.to_owned();
                        assert(url@.subrange(e + 1, n as int) =~= chars@.subrange(e + 1, n as int));
                        assert(url@.subrange(e + 1, n as int).subrange(0, a - (e + 1)) =~= url@.subrange(
                            e + 1,
                            a as int,
                        ));
                        let request = self.get_tokens(code_str, challenge);
                        AuthStep::Exchange { code, request }
                    },
                }
            },
        }
    }

    /// Takes the tokens of a token reply obtained at `now`: the access token
    /// is used from then on; the tokens to write to the cache are returned
    /// when caching is on.
    pub fn accept_tokens(&mut self, resp: TokenResponse, now: u64) -> (r: Option<Tokens>)
        ensures
            final(self).token() == resp.access_token@,
            final(self).secret() == old(self).secret(),
            final(self).dir() == old(self).dir(),
            final(self).is_caching() == old(self).is_caching(),
            final(self).needs_auth() == old(self).needs_auth(),
            r == accepted_tokens(old(self).is_caching(), resp, now),
    {
        self.access_token = resp.access_token.clone();
        let tokens = Tokens::from_response(resp, now);
        if self.caching {
            Some(tokens)
        } else {
            None
        }
    }

    /// A GET request with the access token.
    fn authorized_get(&self, url: String) -> (r: ApiRequest)
        ensures
            r@ == (HttpMethod::Get, url@, Some(self.token()), Seq::<(Seq<char>, Seq<char>)>::empty()),
    {
        let r = ApiRequest {
            method: HttpMethod::Get,
            url,
            bearer: Some(self.access_token.clone()),
            form: Vec::new(),
        };
        assert(pairs_view(r.form@) =~= Seq::<(Seq<char>, Seq<char>)>::empty());
        r
    }

    /// The search for anime whose title matches `query`; `limit` defaults
    /// to 100.
    pub fn get_anime_list(&self, query: &str, limit: Option<u8>) -> (r: ApiRequest)
        ensures
            r@ == (
                HttpMethod::Get,
                anime_list_url(query@, limit_or_default(limit)),
                Some(self.token()),
                Seq::<(Seq<char>, Seq<char>)>::empty(),
            ),
    {
        let mut url = "https://api.myanimelist.net/v2/anime?q=".to_owned();
        url.append(query);
        url.append("&limit=");
        url.append(u64_to_decimal(limit_value(limit)).as_str());
        self.authorized_get(url)
    }

    /// The details of the show `id`, only the given fields; every field
    /// when `fields` is `None`.
    pub fn get_anime_details(&self, id: &u32, fields: Option<Vec<AnimeField>>) -> (r: ApiRequest)
        ensures
            r@ == (
                HttpMethod::Get,
                anime_details_url(
                    *id as nat,
                    match fields {
                        Some(f) => Some(f@),
                        None => None,
                    },
                ),
                Some(self.token()),
                Seq::<(Seq<char>, Seq<char>)>::empty(),
            ),
    {
        let ghost fv = match &fields {
            Some(f) => Some(f@),
            None => None::<Seq<AnimeField>>,
        };
        let field_text = match fields {
            Some(f) => {
                let mut names: Vec<String> = Vec::new();
                let n = f.len();
                let mut i: usize = 0;
                while i < n
                    invariant
                        n == f@.len(),
                        i <= n,
                        names@.map_values(|s: String| s@) =~= field_names(f@).take(i as int),
                    decreases n - i,
                {
                    let ghost before = names@;
                    names.push(f[i].to_string());
                    assert(names@.map_values(|s: String| s@) =~= before.map_values(|s: String| s@).push(
                        f@[i as int].wire_name(),
                    ));
                    assert(field_names(f@).take(i + 1) =~= field_names(f@).take(i as int).push(
                        field_names(f@)[i as int],
                    ));
                    i = i + 1;
                }
                assert(field_names(f@).take(n as int) =~= field_names(f@));
                join_strings(&names, ",")
            },
            None => AnimeField::ALL.to_string(),
        };
        assert(field_text@ == details_fields(fv));
        let mut url = "https://api.myanimelist.net/v2/anime/".to_owned();
        url.append(u64_to_decimal(*id as u64).as_str());
        url.append("?fields=");
        url.append(field_text.as_str());
        self.authorized_get(url)
    }

    /// The ranking of the given kind; `limit` defaults to 100.
    pub fn get_anime_ranking(&self, ranking_type: RankingType, limit: Option<u8>) -> (r: ApiRequest)
        ensures
            r@ == (
                HttpMethod::Get,
                anime_ranking_url(ranking_type, limit_or_default(limit)),
                Some(self.token()),
                Seq::<(Seq<char>, Seq<char>)>::empty(),
            ),
    {
        let mut url = "https://api.myanimelist.net/v2/anime/ranking?ranking_type=".to_owned();
        url.append(ranking_type.to_string().as_str());
        url.append("&limit=");
        url.append(u64_to_decimal(limit_value(limit)).as_str());
        self.authorized_get(url)
    }

    /// The anime of a season of a year; `limit` defaults to 100.
    pub fn get_seasonal_anime(&self, season: Season, year: u32, limit: Option<u8>) -> (r: ApiRequest)
        ensures
            r@ == (
                HttpMethod::Get,
                seasonal_anime_url(season, year as nat, limit_or_default(limit)),
                Some(self.token()),
                Seq::<(Seq<char>, Seq<char>)>::empty(),
            ),
    {
        let mut url = "https://api.myanimelist.net/v2/anime/season/".to_owned();
        url.append(u64_to_decimal(year as u64).as_str());
        url.append("/");
        url.append(season.to_string().as_str());
        url.append("?limit=");
        url.append(u64_to_decimal(limit_value(limit)).as_str());
        self.authorized_get(url)
    }

    /// The suggestions for the user; `limit` defaults to 100.
    pub fn get_suggested_anime(&self, limit: Option<u8>) -> (r: ApiRequest)
        ensures
            r@ == (
                HttpMethod::Get,
                suggested_anime_url(limit_or_default(limit)),
                Some(self.token()),
                Seq::<(Seq<char>, Seq<char>)>::empty(),
            ),
    {
        let mut url = "https://api.myanimelist.net/v2/anime/suggestions?limit=".to_owned();
        url.append(u64_to_decimal(limit_value(limit)).as_str());
        self.authorized_get(url)
    }

    /// Adds the show `id` to the user's list, or updates its entry, with the
    /// fields of `update` as the form.
    pub fn update_user_anime_status<T: Params>(&self, id: u32, update: T) -> (r: ApiRequest)
        ensures
            r@ == (HttpMethod::Put, list_status_url(id as nat), Some(self.token()), update.form_fields()),
    {
        let params = update.get_params();
        let form = owned_pairs(params);
        let mut url = "https://api.myanimelist.net/v2/anime/".to_owned();
        url.append(u64_to_decimal(id as u64).as_str());
        url.append("/my_list_status");
        ApiRequest { method: HttpMethod::Put, url, bearer: Some(self.access_token.clone()), form }
    }

    /// The first page of the user's full anime list; the following pages
    /// are requested with `next_page`.
    pub fn get_user_anime_list(&self) -> (r: ApiRequest)
        ensures
            r@ == (HttpMethod::Get, user_anime_list_url(), Some(self.token()), Seq::<(Seq<char>, Seq<char>)>::empty()),
    {
        self.authorized_get("https://api.myanimelist.net/v2/users/@me/animelist?fields=list_status".to_owned())
    }

    /// The request for the next page of a list reply, from the reply's
    /// `paging.next` link; none when there is no next page.
    pub fn next_page(&self, next: Option<&str>) -> (r: Option<ApiRequest>)
        ensures
            next is None <==> r is None,
            next matches Some(link) ==> (r matches Some(q) && q@ == (
                HttpMethod::Get,
                link@,
                Some(self.token()),
                Seq::<(Seq<char>, Seq<char>)>::empty(),
            )),
    {
        match next {
            Some(link) => Some(self.authorized_get(link.to_owned())),
            None => None,
        }
    }

    /// Deletes the show `id` from the user's list.
    pub fn delete_anime_list_item(&self, id: u32) -> (r: ApiRequest)
        ensures
            r@ == (HttpMethod::Delete, list_status_url(id as nat), Some(self.token()), Seq::<(Seq<char>, Seq<char>)>::empty()),
    {
        let mut url = "https://api.myanimelist.net/v2/anime/".to_owned();
        url.append(u64_to_decimal(id as u64).as_str());
        url.append("/my_list_status");
        let r = ApiRequest { method: HttpMethod::Delete, url, bearer: Some(self.access_token.clone()), form: Vec::new() };
        assert(pairs_view(r.form@) =~= Seq::<(Seq<char>, Seq<char>)>::empty());
        r
    }

    /// The forum boards.
    pub fn get_forum_boards(&self) -> (r: ApiRequest)
        ensures
            r@ == (HttpMethod::Get, forum_boards_url(), Some(self.token()), Seq::<(Seq<char>, Seq<char>)>::empty()),
    {
        self.authorized_get("https://api.myanimelist.net/v2/forum/boards".to_owned())
    }

    /// The posts of a forum topic; `limit` defaults to 100.
    pub fn get_forum_topic_detail(&self, topic_id: u32, limit: Option<u8>) -> (r: ApiRequest)
        ensures
            r@ == (
                HttpMethod::Get,
                forum_topic_detail_url(topic_id as nat, limit_or_default(limit)),
                Some(self.token()),
                Seq::<(Seq<char>, Seq<char>)>::empty(),
            ),
    {
        let mut url = "https://api.myanimelist.net/v2/forum/topic/".to_owned();
        url.append(u64_to_decimal(topic_id as u64).as_str());
        url.append("?limit=");
        url.append(u64_to_decimal(limit_value(limit)).as_str());
        self.authorized_get(url)
    }

    /// A search of forum topics; each given criterion becomes a
    /// `name=value` piece, and `limit` (default 100) comes last.
    pub fn get_forum_topics(
        &self,
        board_id: Option<u32>,
        subboard_id: Option<u32>,
        query: Option<String>,
        topic_user_name: Option<String>,
        user_name: Option<String>,
        limit: Option<u32>,
    ) -> (r: ApiRequest)
        ensures
            r@ == (
                HttpMethod::Get,
                forum_topics_url(
                    forum_topics_pieces(
                        board_id,
                        subboard_id,
                        option_view(query),
                        option_view(topic_user_name),
                        option_view(user_name),
                        limit,
                    ),
                ),
                Some(self.token()),
                Seq::<(Seq<char>, Seq<char>)>::empty(),
            ),
    {
        let ghost pieces = forum_topics_pieces(
            board_id,
            subboard_id,
            option_view(query),
            option_view(topic_user_name),
            option_view(user_name),
            limit,
        );
        let mut tmp: Vec<String> = Vec::new();
        if let Some(bid) = board_id {
            tmp.push(concat2("board_id=", u64_to_decimal(bid as u64).as_str()));
        }
        if let Some(bid) = subboard_id {
            tmp.push(concat2("subboard_id=", u64_to_decimal(bid as u64).as_str()));
        }
        if let Some(bid) = query {
            tmp.push(concat2("q=", bid.as_str()));
        }
        if let Some(bid) = topic_user_name {
            tmp.push(concat2("topic_user_name=", bid.as_str()));
        }
        if let Some(bid) = user_name {
            tmp.push(concat2("user_name=", bid.as_str()));
        }
        let l: u64 = match limit {
            Some(v) => v as u64,
            None => 100,
        };
        tmp.push(concat2("limit=", u64_to_decimal(l).as_str()));
        assert(tmp@.map_values(|s: String| s@) =~= pieces);
        let params = join_strings(&tmp, ",");
        let mut url = "https://api.myanimelist.net/v2/forum/topics?".to_owned();
        url.append(params.as_str());
        self.authorized_get(url)
    }

    /// The user's own details; `fields` defaults to `anime_statistics`.
    pub fn get_my_user_info(&self, fields: Option<&str>) -> (r: ApiRequest)
        ensures
            r@ == (
                HttpMethod::Get,
                my_user_info_url(
                    match fields {
                        Some(f) => Some(f@),
                        None => None,
                    },
                ),
                Some(self.token()),
                Seq::<(Seq<char>, Seq<char>)>::empty(),
            ),
    {
        let mut url = "https://api.myanimelist.net/v2/users/@me?fields=".to_owned();
        match fields {
            Some(f) => url.append(f),
            None => url.append("anime_statistics"),
        }
        self.authorized_get(url)
    }
}

/// The number of episodes watched after adding `amount` to `watched`,
/// computed as a signed count and stored back unsigned.
pub fn incremented_episodes(watched: u32, amount: i32) -> (r: u32)
    requires
        i32::MIN <= (watched as i32) + amount <= i32::MAX,
    ensures
        r == (((watched as i32) + amount) as i32) as u32,
{
    let eps = watched as i32;
    let sum = eps + amount;
    sum as u32
}

/// The login URL carries the state that the login step looks for.
pub proof fn law_auth_url_carries_state(secret: Seq<char>, challenge: Seq<char>)
    ensures
        has_substring(auth_url_spec(secret, challenge), auth_state()),
{
    let url = auth_url_spec(secret, challenge);
    let k = url.len() - auth_state().len();
    assert(url.subrange(k, k + auth_state().len()) =~= auth_state());
}

/// A redirect of the form `prefix=code&rest`, where `prefix` holds no `=`
/// and `code` no `&`, yields `code`; and when `rest` carries our state, so
/// does the redirect, so the login step exchanges exactly `code`.
pub proof fn law_redirect_code_round_trip(prefix: Seq<char>, code: Seq<char>, rest: Seq<char>)
    requires
        forall|i: int| 0 <= i < prefix.len() ==> prefix[i] != '=',
        forall|i: int| 0 <= i < code.len() ==> code[i] != '&',
    ensures
        redirect_code(prefix + seq!['='] + code + seq!['&'] + rest) == Some(code),
        has_substring(rest, auth_state()) ==> has_substring(prefix + seq!['='] + code + seq!['&'] + rest, auth_state()),
{
    let url = prefix + seq!['='] + code + seq!['&'] + rest;
    let e = prefix.len() as int;
    assert(url[e] == '=');
    assert(is_first_index(url, '=', e));
    lemma_first_index_unique(url, '=', e);
    let after = url.subrange(e + 1, url.len() as int);
    assert(after =~= code + seq!['&'] + rest);
    assert(after[code.len() as int] == '&');
    assert(is_first_index(after, '&', code.len() as int));
    lemma_first_index_unique(after, '&', code.len() as int);
    assert(after.subrange(0, code.len() as int) =~= code);
    if has_substring(rest, auth_state()) {
        let k = choose|k: int| 0 <= k && k + auth_state().len() <= rest.len() && #[trigger] rest.subrange(k, k + auth_state().len()) == auth_state();
        let off = url.len() - rest.len();
        assert(url.subrange(off + k, off + k + auth_state().len()) =~= rest.subrange(k, k + auth_state().len()));
    }
}

/// A missing limit is the limit 100.
pub proof fn law_default_limit()
    ensures
        limit_or_default(None) == limit_or_default(Some(100u8)),
{
}

/// Asking for no fields in particular asks for every single field.
pub proof fn law_details_default_is_every_field(id: nat)
    ensures
        anime_details_url(id, None) == anime_details_url(id, Some(single_fields())),
{
    law_all_lists_every_field();
}

/// Different shows have different list entries.
pub proof fn law_list_entries_distinct(a: nat, b: nat)
    ensures
        a != b ==> list_status_url(a) != list_status_url(b),
{
    if list_status_url(a) == list_status_url(b) {
        let p = "https://api.myanimelist.net/v2/anime/"@;
        let q = "/my_list_status"@;
        let ua = list_status_url(a);
        let ub = list_status_url(b);
        assert(ua.len() == ub.len());
        assert(decimal(a).len() == decimal(b).len());
        assert(ua.subrange(p.len() as int, (p.len() + decimal(a).len()) as int) =~= decimal(a));
        assert(ub.subrange(p.len() as int, (p.len() + decimal(b).len()) as int) =~= decimal(b));
        law_decimal_injective(a, b);
    }
}

/// Tokens from a login come back until they expire: a client started with
/// caching on and a cache directory but no cache file caches tokens and
/// needs a login; the login hands back the reply's tokens to be written;
/// read back from the cache before they expire they give the reply's access
/// token, and a client started with it needs no login and sends it.
pub proof fn law_login_tokens_come_back(dir: String, resp: TokenResponse, now: u64, later: u64)
    requires
        now <= later,
        later - now < resp.expires_in,
    ensures
        startup_caching(true, Some(dir)),
        startup_needs_auth(true, Some(dir), CachedToken::Absent),
        accepted_tokens(startup_caching(true, Some(dir)), resp, now) == Some(tokens_of(resp, now)),
        cached_token_to_use(tokens_of(resp, now), later) == Some(resp.access_token@),
        !startup_needs_auth(true, Some(dir), CachedToken::Token(resp.access_token)),
        startup_token(true, Some(dir), CachedToken::Token(resp.access_token)) == resp.access_token@,
{
}

/// Once cached tokens have expired they are refreshed, not used.
pub proof fn law_expired_tokens_are_refreshed(t: Tokens, now: u64)
    requires
        t.today <= now,
        now - t.today >= t.expires_in,
    ensures
        cached_token_to_use(t, now) is None,
{
}

/// Equal texts around two middles: the middles are equal.
proof fn lemma_cancel_around(p: Seq<char>, x: Seq<char>, y: Seq<char>, q: Seq<char>)
    requires
        p + x + q == p + y + q,
    ensures
        x == y,
{
    let a = p + x + q;
    let b = p + y + q;
    assert(a.len() == b.len());
    assert(x.len() == y.len());
    assert(a.subrange(p.len() as int, (p.len() + x.len()) as int) =~= x);
    assert(b.subrange(p.len() as int, (p.len() + y.len()) as int) =~= y);
}

/// A piece in one part of a concatenation is in the whole.
proof fn lemma_contains_concat(a: Seq<Seq<char>>, b: Seq<Seq<char>>, x: Seq<char>)
    ensures
        a.contains(x) ==> (a + b).contains(x),
        b.contains(x) ==> (a + b).contains(x),
{
    if a.contains(x) {
        let i = choose|i: int| 0 <= i < a.len() && a[i] == x;
        assert((a + b)[i] == x);
    }
    if b.contains(x) {
        let i = choose|i: int| 0 <= i < b.len() && b[i] == x;
        assert((a + b)[a.len() + i] == x);
    }
}

/// A client that does not cache tokens (caching off, or no cache
/// directory) always needs a login and starts with no token; one that
/// caches tokens needs a login exactly when no cache file was found. Tokens
/// are cached exactly when caching is on and there is a directory.
pub proof fn law_login_unless_cached(caching: bool, cache_dir: Option<String>, cached: CachedToken)
    ensures
        startup_caching(caching, cache_dir) <==> (caching && cache_dir is Some),
        !startup_caching(caching, cache_dir) ==> startup_needs_auth(caching, cache_dir, cached)
            && startup_token(caching, cache_dir, cached).len() == 0,
        startup_caching(caching, cache_dir) ==> (startup_needs_auth(caching, cache_dir, cached) <==> cached is Absent),
{
}

/// Each search criterion that is given is sent as its own `name=value`
/// piece, whatever the other criteria are; the limit (100 when none is
/// given) is always the last piece.
pub proof fn law_forum_criteria_sent(
    board_id: Option<u32>,
    subboard_id: Option<u32>,
    query: Option<Seq<char>>,
    topic_user_name: Option<Seq<char>>,
    user_name: Option<Seq<char>>,
    limit: Option<u32>,
)
    ensures
        board_id matches Some(b) ==> forum_topics_pieces(board_id, subboard_id, query, topic_user_name, user_name, limit).contains(
            "board_id="@ + decimal(b as nat),
        ),
        subboard_id matches Some(b) ==> forum_topics_pieces(board_id, subboard_id, query, topic_user_name, user_name, limit).contains(
            "subboard_id="@ + decimal(b as nat),
        ),
        query matches Some(q) ==> forum_topics_pieces(board_id, subboard_id, query, topic_user_name, user_name, limit).contains(
            "q="@ + q,
        ),
        topic_user_name matches Some(t) ==> forum_topics_pieces(board_id, subboard_id, query, topic_user_name, user_name, limit).contains(
            "topic_user_name="@ + t,
        ),
        user_name matches Some(u) ==> forum_topics_pieces(board_id, subboard_id, query, topic_user_name, user_name, limit).contains(
            "user_name="@ + u,
        ),
        forum_topics_pieces(board_id, subboard_id, query, topic_user_name, user_name, limit).last() == "limit="@ + decimal(
            match limit {
                Some(l) => l as nat,
                None => 100,
            },
        ),
{
    let p1 = optional_piece("board_id="@, optional_decimal(board_id));
    let p2 = optional_piece("subboard_id="@, optional_decimal(subboard_id));
    let p3 = optional_piece("q="@, query);
    let p4 = optional_piece("topic_user_name="@, topic_user_name);
    let p5 = optional_piece("user_name="@, user_name);
    let p6 = seq!["limit="@ + decimal(match limit { Some(l) => l as nat, None => 100 })];
    let all = p1 + p2 + p3 + p4 + p5 + p6;
    assert(all == forum_topics_pieces(board_id, subboard_id, query, topic_user_name, user_name, limit));
    if let Some(b) = board_id {
        assert(p1[0] == "board_id="@ + decimal(b as nat));
        assert(p1.contains("board_id="@ + decimal(b as nat)));
        lemma_contains_concat(p1, p2, "board_id="@ + decimal(b as nat));
        lemma_contains_concat(p1 + p2, p3, "board_id="@ + decimal(b as nat));
        lemma_contains_concat(p1 + p2 + p3, p4, "board_id="@ + decimal(b as nat));
        lemma_contains_concat(p1 + p2 + p3 + p4, p5, "board_id="@ + decimal(b as nat));
        lemma_contains_concat(p1 + p2 + p3 + p4 + p5, p6, "board_id="@ + decimal(b as nat));
    }
    if let Some(b) = subboard_id {
        assert(p2[0] == "subboard_id="@ + decimal(b as nat));
        assert(p2.contains("subboard_id="@ + decimal(b as nat)));
        lemma_contains_concat(p1, p2, "subboard_id="@ + decimal(b as nat));
        lemma_contains_concat(p1 + p2, p3, "subboard_id="@ + decimal(b as nat));
        lemma_contains_concat(p1 + p2 + p3, p4, "subboard_id="@ + decimal(b as nat));
        lemma_contains_concat(p1 + p2 + p3 + p4, p5, "subboard_id="@ + decimal(b as nat));
        lemma_contains_concat(p1 + p2 + p3 + p4 + p5, p6, "subboard_id="@ + decimal(b as nat));
    }
    if let Some(q) = query {
        assert(p3[0] == "q="@ + q);
        assert(p3.contains("q="@ + q));
        lemma_contains_concat(p1 + p2, p3, "q="@ + q);
        lemma_contains_concat(p1 + p2 + p3, p4, "q="@ + q);
        lemma_contains_concat(p1 + p2 + p3 + p4, p5, "q="@ + q);
        lemma_contains_concat(p1 + p2 + p3 + p4 + p5, p6, "q="@ + q);
    }
    if let Some(t) = topic_user_name {
        assert(p4[0] == "topic_user_name="@ + t);
        assert(p4.contains("topic_user_name="@ + t));
        lemma_contains_concat(p1 + p2 + p3, p4, "topic_user_name="@ + t);
        lemma_contains_concat(p1 + p2 + p3 + p4, p5, "topic_user_name="@ + t);
        lemma_contains_concat(p1 + p2 + p3 + p4 + p5, p6, "topic_user_name="@ + t);
    }
    if let Some(u) = user_name {
        assert(p5[0] == "user_name="@ + u);
        assert(p5.contains("user_name="@ + u));
        lemma_contains_concat(p1 + p2 + p3 + p4, p5, "user_name="@ + u);
        lemma_contains_concat(p1 + p2 + p3 + p4 + p5, p6, "user_name="@ + u);
    }
}

/// The seasonal request sends the limit it is given: its URL ends with
/// `?limit=` and that number, and different limits give different URLs.
pub proof fn law_seasonal_limit_sent(season: Season, year: nat, l: u8, m: u8)
    ensures
        ({
            let url = seasonal_anime_url(season, year, limit_or_default(Some(l)));
            let tail = "?limit="@ + decimal(l as nat);
            url.len() >= tail.len() && url.subrange(url.len() - tail.len(), url.len() as int) == tail
        }),
        l != m ==> seasonal_anime_url(season, year, limit_or_default(Some(l))) != seasonal_anime_url(
            season,
            year,
            limit_or_default(Some(m)),
        ),
{
    let url = seasonal_anime_url(season, year, limit_or_default(Some(l)));
    let tail = "?limit="@ + decimal(l as nat);
    let head = "https://api.myanimelist.net/v2/anime/season/"@ + decimal(year) + "/"@ + season.wire_name();
    assert(url =~= head + tail);
    assert(url.subrange(url.len() - tail.len(), url.len() as int) =~= tail);
    if seasonal_anime_url(season, year, limit_or_default(Some(l))) == seasonal_anime_url(season, year, limit_or_default(Some(m))) {
        lemma_cancel_around(head + "?limit="@, decimal(l as nat), decimal(m as nat), Seq::empty());
        law_decimal_injective(l as nat, m as nat);
    }
}

/// The details request asks for exactly the fields it is given: one field
/// adds its name to the request for no fields, and each further field adds
/// a comma and its name.
pub proof fn law_details_fields_sent(id: nat, f: Seq<AnimeField>, a: AnimeField)
    ensures
        anime_details_url(id, Some(seq![a])) == anime_details_url(id, Some(Seq::empty())) + a.wire_name(),
        f.len() > 0 ==> anime_details_url(id, Some(f.push(a))) == anime_details_url(id, Some(f)) + ","@
            + a.wire_name(),
{
    let p = "https://api.myanimelist.net/v2/anime/"@ + decimal(id) + "?fields="@;
    assert(field_names(seq![a]) =~= seq![a.wire_name()]);
    assert(field_names(Seq::<AnimeField>::empty()) =~= Seq::<Seq<char>>::empty());
    assert(join(Seq::<Seq<char>>::empty(), ","@) =~= Seq::<char>::empty());
    assert(anime_details_url(id, Some(Seq::empty())) =~= p);
    assert(anime_details_url(id, Some(seq![a])) =~= p + a.wire_name());
    if f.len() > 0 {
        let names = field_names(f.push(a));
        assert(names.drop_last() =~= field_names(f));
        assert(names.last() == a.wire_name());
        assert(join(names, ","@) == join(field_names(f), ","@) + ","@ + a.wire_name());
        assert(anime_details_url(id, Some(f.push(a))) =~= anime_details_url(id, Some(f)) + ","@ + a.wire_name());
    }
}

/// The ranking request names the ranking it is given: its URL holds
/// `ranking_type=` followed by that ranking's name, and different rankings
/// give different URLs.
pub proof fn law_ranking_type_sent(r: RankingType, s: RankingType, limit: nat)
    ensures
        has_substring(anime_ranking_url(r, limit), "ranking_type="@ + r.wire_name()),
        r != s ==> anime_ranking_url(r, limit) != anime_ranking_url(s, limit),
{
    let p = "https://api.myanimelist.net/v2/anime/ranking?ranking_type="@;
    reveal_strlit("https://api.myanimelist.net/v2/anime/ranking?ranking_type=");
    reveal_strlit("ranking_type=");
    let url = anime_ranking_url(r, limit);
    let pat = "ranking_type="@ + r.wire_name();
    let k = p.len() - 13;
    assert(p.subrange(k, p.len() as int) =~= "ranking_type="@);
    assert(url.subrange(k, k + pat.len()) =~= pat);
    if r != s && anime_ranking_url(r, limit) == anime_ranking_url(s, limit) {
        let q = "&limit="@ + decimal(limit);
        assert(anime_ranking_url(r, limit) =~= p + r.wire_name() + q);
        assert(anime_ranking_url(s, limit) =~= p + s.wire_name() + q);
        lemma_cancel_around(p, r.wire_name(), s.wire_name(), q);
        law_rankingtype_names_distinct(r, s);
    }
}

/// `t` is how `s` ends.
pub open spec fn ends_with(s: Seq<char>, t: Seq<char>) -> bool {
    s.len() >= t.len() && s.subrange(s.len() - t.len(), s.len() as int) == t
}

/// A text followed by `t` ends with `t`.
proof fn lemma_ends_with_concat(p: Seq<char>, t: Seq<char>)
    ensures
        ends_with(p + t, t),
{
    assert((p + t).subrange(p.len() as int, (p + t).len() as int) =~= t);
}

/// The search request sends its query and the limit it is given: the URL
/// holds `q=` and the query, ends with `&limit=` and the limit, and
/// different queries or different limits give different URLs.
pub proof fn law_anime_list_sent(query: Seq<char>, other: Seq<char>, l: u8, m: u8)
    ensures
        has_substring(anime_list_url(query, limit_or_default(Some(l))), "q="@ + query),
        ends_with(anime_list_url(query, limit_or_default(Some(l))), "&limit="@ + decimal(l as nat)),
        l != m ==> anime_list_url(query, limit_or_default(Some(l))) != anime_list_url(query, limit_or_default(Some(m))),
        query != other ==> anime_list_url(query, limit_or_default(Some(l))) != anime_list_url(other, limit_or_default(Some(l))),
{
    let p = "https://api.myanimelist.net/v2/anime?q="@;
    reveal_strlit("https://api.myanimelist.net/v2/anime?q=");
    reveal_strlit("q=");
    let tail = "&limit="@ + decimal(l as nat);
    let url = anime_list_url(query, limit_or_default(Some(l)));
    assert(url =~= p + query + tail);
    let k = p.len() - 2;
    assert(url.subrange(k, k + ("q="@ + query).len()) =~= "q="@ + query);
    assert(url =~= (p + query) + tail);
    lemma_ends_with_concat(p + query, tail);
    if l != m && url == anime_list_url(query, limit_or_default(Some(m))) {
        lemma_cancel_around(p + query + "&limit="@, decimal(l as nat), decimal(m as nat), Seq::empty());
        law_decimal_injective(l as nat, m as nat);
    }
    if query != other && url == anime_list_url(other, limit_or_default(Some(l))) {
        assert(anime_list_url(other, limit_or_default(Some(l))) =~= p + other + tail);
        lemma_cancel_around(p, query, other, tail);
    }
}

/// The suggestions request sends the limit it is given.
pub proof fn law_suggested_limit_sent(l: u8, m: u8)
    ensures
        ends_with(suggested_anime_url(limit_or_default(Some(l))), "?limit="@ + decimal(l as nat)),
        l != m ==> suggested_anime_url(limit_or_default(Some(l))) != suggested_anime_url(limit_or_default(Some(m))),
{
    reveal_strlit("https://api.myanimelist.net/v2/anime/suggestions?limit=");
    reveal_strlit("?limit=");
    let p = "https://api.myanimelist.net/v2/anime/suggestions"@;
    reveal_strlit("https://api.myanimelist.net/v2/anime/suggestions");
    assert("https://api.myanimelist.net/v2/anime/suggestions?limit="@ =~= p + "?limit="@);
    assert(suggested_anime_url(limit_or_default(Some(l))) =~= p + ("?limit="@ + decimal(l as nat)));
    lemma_ends_with_concat(p, "?limit="@ + decimal(l as nat));
    if l != m && suggested_anime_url(limit_or_default(Some(l))) == suggested_anime_url(limit_or_default(Some(m))) {
        lemma_cancel_around("https://api.myanimelist.net/v2/anime/suggestions?limit="@, decimal(l as nat), decimal(m as nat), Seq::empty());
        law_decimal_injective(l as nat, m as nat);
    }
}

/// The ranking request sends the limit it is given.
pub proof fn law_ranking_limit_sent(r: RankingType, l: u8, m: u8)
    ensures
        ends_with(anime_ranking_url(r, limit_or_default(Some(l))), "&limit="@ + decimal(l as nat)),
        l != m ==> anime_ranking_url(r, limit_or_default(Some(l))) != anime_ranking_url(r, limit_or_default(Some(m))),
{
    let head = "https://api.myanimelist.net/v2/anime/ranking?ranking_type="@ + r.wire_name();
    assert(anime_ranking_url(r, limit_or_default(Some(l))) =~= head + ("&limit="@ + decimal(l as nat)));
    lemma_ends_with_concat(head, "&limit="@ + decimal(l as nat));
    if l != m && anime_ranking_url(r, limit_or_default(Some(l))) == anime_ranking_url(r, limit_or_default(Some(m))) {
        lemma_cancel_around(head + "&limit="@, decimal(l as nat), decimal(m as nat), Seq::empty());
        law_decimal_injective(l as nat, m as nat);
    }
}

/// The seasonal request names the season it is given: different seasons of
/// a year give different URLs.
pub proof fn law_seasonal_season_sent(s: Season, t: Season, year: nat, limit: nat)
    ensures
        s != t ==> seasonal_anime_url(s, year, limit) != seasonal_anime_url(t, year, limit),
{
    if s != t && seasonal_anime_url(s, year, limit) == seasonal_anime_url(t, year, limit) {
        let p = "https://api.myanimelist.net/v2/anime/season/"@ + decimal(year) + "/"@;
        let q = "?limit="@ + decimal(limit);
        assert(seasonal_anime_url(s, year, limit) =~= p + s.wire_name() + q);
        assert(seasonal_anime_url(t, year, limit) =~= p + t.wire_name() + q);
        lemma_cancel_around(p, s.wire_name(), t.wire_name(), q);
        crate::model::options::law_season_names_distinct(s, t);
    }
}

/// Details of different shows are asked for at different URLs.
pub proof fn law_details_ids_distinct(a: nat, b: nat, fields: Option<Seq<AnimeField>>)
    ensures
        a != b ==> anime_details_url(a, fields) != anime_details_url(b, fields),
{
    if a != b && anime_details_url(a, fields) == anime_details_url(b, fields) {
        let p = "https://api.myanimelist.net/v2/anime/"@;
        let q = "?fields="@ + details_fields(fields);
        assert(anime_details_url(a, fields) =~= p + decimal(a) + q);
        assert(anime_details_url(b, fields) =~= p + decimal(b) + q);
        lemma_cancel_around(p, decimal(a), decimal(b), q);
        law_decimal_injective(a, b);
    }
}

/// The topic request names the topic and sends the limit it is given:
/// different topics, or different limits, give different URLs, and the URL
/// ends with `?limit=` and the limit.
pub proof fn law_topic_detail_sent(a: nat, b: nat, l: u8, m: u8)
    ensures
        ends_with(forum_topic_detail_url(a, limit_or_default(Some(l))), "?limit="@ + decimal(l as nat)),
        a != b ==> forum_topic_detail_url(a, limit_or_default(Some(l))) != forum_topic_detail_url(b, limit_or_default(Some(l))),
        l != m ==> forum_topic_detail_url(a, limit_or_default(Some(l))) != forum_topic_detail_url(a, limit_or_default(Some(m))),
{
    let p = "https://api.myanimelist.net/v2/forum/topic/"@;
    let q = "?limit="@ + decimal(l as nat);
    assert(forum_topic_detail_url(a, limit_or_default(Some(l))) =~= p + decimal(a) + q);
    lemma_ends_with_concat(p + decimal(a), q);
    if a != b && forum_topic_detail_url(a, limit_or_default(Some(l))) == forum_topic_detail_url(b, limit_or_default(Some(l))) {
        assert(forum_topic_detail_url(b, limit_or_default(Some(l))) =~= p + decimal(b) + q);
        lemma_cancel_around(p, decimal(a), decimal(b), q);
        law_decimal_injective(a, b);
    }
    if l != m && forum_topic_detail_url(a, limit_or_default(Some(l))) == forum_topic_detail_url(a, limit_or_default(Some(m))) {
        lemma_cancel_around(p + decimal(a) + "?limit="@, decimal(l as nat), decimal(m as nat), Seq::empty());
        law_decimal_injective(l as nat, m as nat);
    }
}

/// The user info request asks for the fields it is given, and for
/// `anime_statistics` when none are given.
pub proof fn law_user_info_fields_sent(f: Seq<char>)
    ensures
        ends_with(my_user_info_url(Some(f)), "?fields="@ + f),
        my_user_info_url(None) == my_user_info_url(Some("anime_statistics"@)),
{
    reveal_strlit("https://api.myanimelist.net/v2/users/@me?fields=");
    reveal_strlit("?fields=");
    let p = "https://api.myanimelist.net/v2/users/@me"@;
    reveal_strlit("https://api.myanimelist.net/v2/users/@me");
    assert("https://api.myanimelist.net/v2/users/@me?fields="@ =~= p + "?fields="@);
    assert(my_user_info_url(Some(f)) =~= p + ("?fields="@ + f));
    lemma_ends_with_concat(p, "?fields="@ + f);
}

/// Expired tokens stay expired as time goes on.
pub proof fn law_expiry_is_monotone(t: Tokens, now: u64, later: u64)
    requires
        t.today <= now <= later,
    ensures
        now - t.today >= t.expires_in ==> later - t.today >= t.expires_in,
{
}

} // verus!
