use lib_mal::model::fields::AnimeField;
use lib_mal::model::options::{Params, RankingType, Season, Status, StatusUpdate};
use lib_mal::{delete_result, ApiRequest, AuthStep, CacheStep, CachedToken, HttpMethod, MALClient, TokenResponse, Tokens};

fn client() -> MALClient {
    MALClient::new(
        "client123",
        true,
        Some("/tmp/cache".to_string()),
        CachedToken::Token("tok".to_string()),
    )
}

fn assert_get(r: &ApiRequest, url: &str) {
    assert_eq!(r.method, HttpMethod::Get);
    assert_eq!(r.url, url);
    assert_eq!(r.bearer, Some("tok".to_string()));
    assert!(r.form.is_empty());
}

#[test]
fn new_with_cached_token_needs_no_login() {
    let c = client();
    assert!(!c.need_auth);
    assert!(c.caching());
    assert_eq!(c.cache_dir(), "/tmp/cache");
}

#[test]
fn new_without_cache_file_needs_login_and_caches() {
    let c = MALClient::new("id", true, Some("/tmp/x".to_string()), CachedToken::Absent);
    assert!(c.need_auth);
    assert!(c.need_auth());
    assert!(c.caching());
    let r = c.get_forum_boards();
    assert_eq!(r.bearer, Some(String::new()));
}

#[test]
fn new_without_dir_disables_caching() {
    let c = MALClient::new("id", true, None, CachedToken::Token("t".to_string()));
    assert!(c.need_auth);
    assert!(!c.caching());
    assert_eq!(c.cache_dir(), "");
    assert_eq!(c.get_forum_boards().bearer, Some(String::new()));
}

#[test]
fn new_with_caching_off_needs_login() {
    let c = MALClient::new("id", false, Some("/tmp/x".to_string()), CachedToken::Token("t".to_string()));
    assert!(c.need_auth);
    assert!(!c.caching());
}

#[test]
fn new_with_unusable_cache_keeps_caching() {
    let c = MALClient::new("id", true, Some("/tmp/x".to_string()), CachedToken::Unusable);
    assert!(!c.need_auth);
    assert!(c.caching());
    assert_eq!(c.get_forum_boards().bearer, Some(String::new()));
}

#[test]
fn anime_list_default_limit() {
    let r = client().get_anime_list("naruto", None);
    assert_get(&r, "https://api.myanimelist.net/v2/anime?q=naruto&limit=100");
}

#[test]
fn anime_list_given_limit() {
    let r = client().get_anime_list("one piece", Some(7));
    assert_get(&r, "https://api.myanimelist.net/v2/anime?q=one piece&limit=7");
}

#[test]
fn anime_details_selected_fields() {
    let r = client().get_anime_details(&30230, Some(vec![AnimeField::MyListStatus, AnimeField::Title]));
    assert_get(&r, "https://api.myanimelist.net/v2/anime/30230?fields=my_list_status,title");
}

#[test]
fn anime_details_all_fields() {
    let r = client().get_anime_details(&1, None);
    assert_get(
        &r,
        "https://api.myanimelist.net/v2/anime/1?fields=id,title,main_picture,alternative_titles,start_date,end_date,synopsis,mean,rank,popularity,num_list_users,num_scoring_users,nsfw,created_at,updated_at,media_type,status,genres,my_list_status,num_episodes,start_season,broadcast,source,average_episode_duration,rating,pictures,background,related_anime,related_manga,recommendations,studios,statistics",
    );
}

#[test]
fn anime_details_empty_field_list() {
    let r = client().get_anime_details(&42, Some(vec![]));
    assert_get(&r, "https://api.myanimelist.net/v2/anime/42?fields=");
}

#[test]
fn anime_ranking_request() {
    let r = client().get_anime_ranking(RankingType::ByPopularity, Some(3));
    assert_get(&r, "https://api.myanimelist.net/v2/anime/ranking?ranking_type=bypopularity&limit=3");
    let r = client().get_anime_ranking(RankingType::All, None);
    assert_get(&r, "https://api.myanimelist.net/v2/anime/ranking?ranking_type=all&limit=100");
}

#[test]
fn seasonal_anime_request() {
    let r = client().get_seasonal_anime(Season::Fall, 2021, None);
    assert_get(&r, "https://api.myanimelist.net/v2/anime/season/2021/fall?limit=100");
}

#[test]
fn suggested_anime_request() {
    let r = client().get_suggested_anime(Some(0));
    assert_get(&r, "https://api.myanimelist.net/v2/anime/suggestions?limit=0");
}

#[test]
fn user_anime_list_request() {
    let r = client().get_user_anime_list();
    assert_get(&r, "https://api.myanimelist.net/v2/users/@me/animelist?fields=list_status");
    let next = client().next_page(Some("https://api.myanimelist.net/v2/users/@me/animelist?offset=100"));
    assert_get(&next.unwrap(), "https://api.myanimelist.net/v2/users/@me/animelist?offset=100");
    assert!(client().next_page(None).is_none());
}

#[test]
fn forum_requests() {
    assert_get(&client().get_forum_boards(), "https://api.myanimelist.net/v2/forum/boards");
    assert_get(
        &client().get_forum_topic_detail(481, Some(2)),
        "https://api.myanimelist.net/v2/forum/topic/481?limit=2",
    );
}

#[test]
fn forum_topics_request() {
    let r = client().get_forum_topics(Some(1), None, Some("x".to_string()), None, Some("bob".to_string()), None);
    assert_get(&r, "https://api.myanimelist.net/v2/forum/topics?board_id=1,q=x,user_name=bob,limit=100");
    let r = client().get_forum_topics(None, Some(9), None, Some("al".to_string()), None, Some(4000000000));
    assert_get(&r, "https://api.myanimelist.net/v2/forum/topics?subboard_id=9,topic_user_name=al,limit=4000000000");
}

#[test]
fn my_user_info_request() {
    assert_get(&client().get_my_user_info(None), "https://api.myanimelist.net/v2/users/@me?fields=anime_statistics");
    assert_get(&client().get_my_user_info(Some("id,name")), "https://api.myanimelist.net/v2/users/@me?fields=id,name");
}

#[test]
fn update_request_carries_form() {
    let mut u = StatusUpdate::new();
    u.status(Status::Dropped);
    u.score(10);
    u.priority(0);
    u.rewatch_value(3);
    u.comments("Pretty good show lol");
    let r = client().update_user_anime_status(80, u);
    assert_eq!(r.method, HttpMethod::Put);
    assert_eq!(r.url, "https://api.myanimelist.net/v2/anime/80/my_list_status");
    assert_eq!(r.bearer, Some("tok".to_string()));
    let expected: Vec<(String, String)> = vec![
        ("status".to_string(), "dropped".to_string()),
        ("score".to_string(), "10".to_string()),
        ("priority".to_string(), "0".to_string()),
        ("rewatch_value".to_string(), "3".to_string()),
        ("comments".to_string(), "Pretty good show lol".to_string()),
    ];
    assert_eq!(r.form, expected);
}

#[test]
fn delete_request_and_result() {
    let r = client().delete_anime_list_item(80);
    assert_eq!(r.method, HttpMethod::Delete);
    assert_eq!(r.url, "https://api.myanimelist.net/v2/anime/80/my_list_status");
    assert_eq!(r.bearer, Some("tok".to_string()));
    assert!(r.form.is_empty());
    assert_eq!(delete_result(80, 404), Err("Anime 80 not found".to_string()));
    assert_eq!(delete_result(80, 200), Ok(()));
    assert_eq!(delete_result(80, 500), Ok(()));
}

#[test]
fn status_update_all_fields_in_order() {
    let mut u = StatusUpdate::new();
    u.comments("c");
    u.tags(vec!["a".to_string(), "b c".to_string()]);
    u.rewatch_value(5);
    u.num_times_rewatched(2);
    u.priority(1);
    u.num_watched_episodes(12);
    u.score(9);
    u.is_rewatching(true);
    u.status(Status::OnHold);
    let p = u.get_params();
    let expected: Vec<(&str, String)> = vec![
        ("status", "on_hold".to_string()),
        ("is_rewatching", "true".to_string()),
        ("score", "9".to_string()),
        ("num_watched_episodes", "12".to_string()),
        ("priority", "1".to_string()),
        ("num_times_rewatched", "2".to_string()),
        ("rewatch_value", "5".to_string()),
        ("tags", "a,b c".to_string()),
        ("comments", "c".to_string()),
    ];
    assert_eq!(p, expected);
}

#[test]
fn status_update_new_is_empty() {
    assert!(StatusUpdate::new().get_params().is_empty());
}

#[test]
fn status_update_last_set_wins() {
    let mut u = StatusUpdate::new();
    u.score(3);
    u.is_rewatching(true);
    u.score(7);
    u.is_rewatching(false);
    let p = u.get_params();
    assert_eq!(p, vec![("is_rewatching", "false".to_string()), ("score", "7".to_string())]);
}

#[test]
fn status_update_order_of_setters_does_not_matter() {
    let mut a = StatusUpdate::new();
    a.priority(2);
    a.num_watched_episodes(4294967295);
    let mut b = StatusUpdate::new();
    b.num_watched_episodes(4294967295);
    b.priority(2);
    assert_eq!(a.get_params(), b.get_params());
}

#[test]
fn status_update_empty_tags() {
    let mut u = StatusUpdate::new();
    u.tags(vec![]);
    assert_eq!(u.get_params(), vec![("tags", String::new())]);
}

#[test]
fn auth_url_and_parts() {
    let c = client();
    assert_eq!(
        c.auth_url("CH"),
        "https://myanimelist.net/v1/oauth2/authorize?response_type=code&client_id=client123&code_challenge=CH&state=bruh"
    );
    let (url, challenge) = c.get_auth_parts();
    assert_eq!(challenge.len(), 43);
    assert!(challenge.chars().all(|ch| ch.is_ascii_alphanumeric() || ch == '-' || ch == '_'));
    assert_eq!(url, c.auth_url(&challenge));
    assert!(url.ends_with("&state=bruh"));
}

#[test]
fn auth_ignores_other_states() {
    let c = client();
    assert!(matches!(c.auth("/?code=abc&state=other", "v"), AuthStep::Ignore));
    assert!(matches!(c.auth("/favicon.ico", "v"), AuthStep::Ignore));
}

#[test]
fn auth_exchanges_the_code() {
    let c = client();
    match c.auth("/?code=abc123&state=bruh", "verif") {
        AuthStep::Exchange { code, request } => {
            assert_eq!(code, "abc123");
            assert_eq!(request.method, HttpMethod::Post);
            assert_eq!(request.url, "https://myanimelist.net/v1/oauth2/token");
            assert_eq!(request.bearer, None);
            let expected: Vec<(String, String)> = vec![
                ("client_id".to_string(), "client123".to_string()),
                ("grant_type".to_string(), "authorization_code".to_string()),
                ("code_verifier".to_string(), "verif".to_string()),
                ("code".to_string(), "abc123".to_string()),
            ];
            assert_eq!(request.form, expected);
        }
        _ => panic!("expected an exchange"),
    }
}

#[test]
fn auth_malformed_redirect() {
    let c = client();
    assert!(matches!(c.auth("/?state=bruh", "v"), AuthStep::Malformed));
}

#[test]
fn get_tokens_request() {
    let r = client().get_tokens("CODE", "VER");
    assert_eq!(r.method, HttpMethod::Post);
    assert_eq!(r.form[2], ("code_verifier".to_string(), "VER".to_string()));
    assert_eq!(r.form[3], ("code".to_string(), "CODE".to_string()));
}

fn response() -> TokenResponse {
    TokenResponse {
        token_type: "Bearer".to_string(),
        expires_in: 3600,
        access_token: "new_access".to_string(),
        refresh_token: "new_refresh".to_string(),
    }
}

#[test]
fn accept_tokens_when_caching() {
    let mut c = client();
    let t = c.accept_tokens(response(), 1000).expect("caching is on");
    assert_eq!(t.access_token, "new_access");
    assert_eq!(t.refresh_token, "new_refresh");
    assert_eq!(t.expires_in, 3600);
    assert_eq!(t.today, 1000);
    assert_eq!(c.get_forum_boards().bearer, Some("new_access".to_string()));
}

#[test]
fn accept_tokens_without_caching() {
    let mut c = MALClient::new("id", false, None, CachedToken::Absent);
    assert!(c.accept_tokens(response(), 5).is_none());
    assert_eq!(c.get_forum_boards().bearer, Some("new_access".to_string()));
}

#[test]
fn token_expiry_and_refresh() {
    let t = Tokens::from_response(response(), 100);
    assert!(!t.is_expired(100));
    assert!(!t.is_expired(3699));
    assert!(t.is_expired(3700));
    assert!(t.is_expired(10_000));
    let r = t.refresh_request();
    assert_eq!(r.method, HttpMethod::Post);
    assert_eq!(r.url, "https://myanimelist.net/v1/oauth2/token");
    assert_eq!(r.bearer, None);
    assert_eq!(
        r.form,
        vec![
            ("grant_type".to_string(), "refresh_token".to_string()),
            ("refesh_token".to_string(), "new_refresh".to_string()),
        ]
    );
}

#[test]
fn params_trait_through_generic() {
    fn count<T: Params>(p: T) -> usize {
        p.get_params().len()
    }
    let mut u = StatusUpdate::new();
    u.num_watched_episodes(3);
    assert_eq!(count(u), 1);
}

#[test]
fn fresh_login_tokens_come_back() {
    let mut c = MALClient::new("id", true, Some("/tmp/d".to_string()), CachedToken::Absent);
    assert!(c.need_auth);
    let written = c.accept_tokens(response(), 1000).expect("tokens are cached after the first login");
    match written.cache_step(1000 + 3599) {
        CacheStep::Use(t) => {
            let again = MALClient::new("id", true, Some("/tmp/d".to_string()), CachedToken::Token(t));
            assert!(!again.need_auth);
            assert_eq!(again.get_forum_boards().bearer, Some("new_access".to_string()));
        }
        CacheStep::Refresh(_) => panic!("the tokens have not expired"),
    }
    match written.cache_step(1000 + 3600) {
        CacheStep::Refresh(r) => {
            assert_eq!(r.form[1], ("refesh_token".to_string(), "new_refresh".to_string()));
        }
        CacheStep::Use(_) => panic!("the tokens have expired"),
    }
}
