use lib_mal::cache_enabled;
use lib_mal::incremented_episodes;
use lib_mal::model::fields::AnimeField;
use lib_mal::model::options::{RankingType, Season, Status};
use lib_mal::text::{
    bool_to_text, chars_of, contains_chars, find_char, find_char_from, join_strings, str_contains,
    u64_to_decimal,
};

const SINGLE_FIELDS: [AnimeField; 32] = [
    AnimeField::ID,
    AnimeField::Title,
    AnimeField::MainPicture,
    AnimeField::AlternativeTitles,
    AnimeField::StartDate,
    AnimeField::EndDate,
    AnimeField::Synopsis,
    AnimeField::Mean,
    AnimeField::Rank,
    AnimeField::Popularity,
    AnimeField::NumListUsers,
    AnimeField::NumScoringUsers,
    AnimeField::NSFW,
    AnimeField::CreatedAt,
    AnimeField::UpdatedAt,
    AnimeField::MediaType,
    AnimeField::Status,
    AnimeField::Genres,
    AnimeField::MyListStatus,
    AnimeField::NumEpisodes,
    AnimeField::StartSeason,
    AnimeField::Broadcast,
    AnimeField::Source,
    AnimeField::AverageEpisodeDuration,
    AnimeField::Rating,
    AnimeField::Pictures,
    AnimeField::Background,
    AnimeField::RelatedAnime,
    AnimeField::RelatedManga,
    AnimeField::Recommendations,
    AnimeField::Studios,
    AnimeField::Statistics,
];

#[test]
fn anime_field_names() {
    assert_eq!(AnimeField::ID.to_string(), "id");
    assert_eq!(AnimeField::NSFW.to_string(), "nsfw");
    assert_eq!(AnimeField::AverageEpisodeDuration.to_string(), "average_episode_duration");
    assert_eq!(AnimeField::MyListStatus.to_string(), "my_list_status");
    assert_eq!(AnimeField::Statistics.to_string(), "statistics");
}

#[test]
fn all_is_every_field_joined() {
    let names: Vec<String> = SINGLE_FIELDS.iter().map(|f| f.to_string()).collect();
    assert_eq!(AnimeField::ALL.to_string(), names.join(","));
    assert_eq!(AnimeField::ALL.to_string(), join_strings(&names, ","));
}

#[test]
fn field_names_are_distinct() {
    let mut names: Vec<String> = SINGLE_FIELDS.iter().map(|f| f.to_string()).collect();
    names.push(AnimeField::ALL.to_string());
    let n = names.len();
    names.sort();
    names.dedup();
    assert_eq!(names.len(), n);
}

#[test]
fn ranking_type_names() {
    let all = [
        (RankingType::All, "all"),
        (RankingType::Airing, "airing"),
        (RankingType::Upcoming, "upcoming"),
        (RankingType::TV, "tv"),
        (RankingType::OVA, "ova"),
        (RankingType::Movie, "movie"),
        (RankingType::Special, "special"),
        (RankingType::ByPopularity, "bypopularity"),
        (RankingType::Favorite, "favorite"),
    ];
    for (r, n) in all.iter() {
        assert_eq!(r.to_string(), *n);
    }
}

#[test]
fn season_names() {
    assert_eq!(Season::Winter.to_string(), "winter");
    assert_eq!(Season::Spring.to_string(), "spring");
    assert_eq!(Season::Summer.to_string(), "summer");
    assert_eq!(Season::Fall.to_string(), "fall");
}

#[test]
fn status_names() {
    assert_eq!(Status::Watching.to_string(), "watching");
    assert_eq!(Status::Completed.to_string(), "completed");
    assert_eq!(Status::OnHold.to_string(), "on_hold");
    assert_eq!(Status::Dropped.to_string(), "dropped");
    assert_eq!(Status::PlanToWatch.to_string(), "plan_to_watch");
}

#[test]
fn decimal_rendering() {
    assert_eq!(u64_to_decimal(0), "0");
    assert_eq!(u64_to_decimal(7), "7");
    assert_eq!(u64_to_decimal(10), "10");
    assert_eq!(u64_to_decimal(1234567890), "1234567890");
    assert_eq!(u64_to_decimal(u64::MAX), u64::MAX.to_string());
    for n in [1u64, 9, 99, 100, 101, 65535, 4294967295] {
        assert_eq!(u64_to_decimal(n), n.to_string());
    }
}

#[test]
fn bool_rendering() {
    assert_eq!(bool_to_text(true), "true");
    assert_eq!(bool_to_text(false), "false");
}

#[test]
fn joining() {
    assert_eq!(join_strings(&vec![], ","), "");
    assert_eq!(join_strings(&vec!["a".to_string()], ","), "a");
    assert_eq!(join_strings(&vec!["a".to_string(), "".to_string(), "b".to_string()], ", "), "a, , b");
}

#[test]
fn searching() {
    let v = chars_of("a=b&c=d");
    assert_eq!(v, vec!['a', '=', 'b', '&', 'c', '=', 'd']);
    assert_eq!(find_char(&v, '='), Some(1));
    assert_eq!(find_char(&v, '#'), None);
    assert_eq!(find_char_from(&v, '=', 2), Some(5));
    assert_eq!(find_char_from(&v, '&', 4), None);
    assert_eq!(find_char_from(&v, '=', 7), None);
    assert!(str_contains("/?code=x&state=bruh", "state=bruh"));
    assert!(!str_contains("/?code=x&state=bru", "state=bruh"));
    assert!(str_contains("abc", ""));
    assert!(!contains_chars(&chars_of("ab"), &chars_of("abc")));
    assert_eq!(chars_of("héllo").len(), 5);
}

#[test]
fn cache_switch() {
    assert!(cache_enabled(true, &Some("d".to_string())));
    assert!(!cache_enabled(true, &None));
    assert!(!cache_enabled(false, &Some("d".to_string())));
}

#[test]
fn episode_increment() {
    assert_eq!(incremented_episodes(3, 2), 5);
    assert_eq!(incremented_episodes(3, -3), 0);
    assert_eq!(incremented_episodes(0, -1), u32::MAX);
    assert_eq!(incremented_episodes(4294967295, 1), 0);
}
