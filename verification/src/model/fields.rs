//! The fields of an anime that a details request can ask for.
use vstd::prelude::*;

use crate::text::join;

verus! {

/// A field of an anime's details; `ALL` stands for every field.
#[derive(Debug, Clone, Copy, PartialEq, Eq, Structural)]
pub enum AnimeField {
    ID,
    Title,
    MainPicture,
    AlternativeTitles,
    StartDate,
    EndDate,
    Synopsis,
    Mean,
    Rank,
    Popularity,
    NumListUsers,
    NumScoringUsers,
    NSFW,
    CreatedAt,
    UpdatedAt,
    MediaType,
    Status,
    Genres,
    MyListStatus,
    NumEpisodes,
    StartSeason,
    Broadcast,
    Source,
    AverageEpisodeDuration,
    Rating,
    Pictures,
    Background,
    RelatedAnime,
    RelatedManga,
    Recommendations,
    Studios,
    Statistics,
    ALL,
}

/// Every single field, in the order `ALL` lists them.
pub open spec fn single_fields() -> Seq<AnimeField> {
    seq![
        AnimeField::ID,
        AnimeField::Title,
        AnimeField::MainPicture,
        AnimeField::AlternativeTitles,
        AnimeField::StartDate,
        AnimeField::EndDate,
        AnimeField::Synopsis,
        AnimeField::Mean,
        AnimeField::Rank,
        AnimeField::Popularity,
        AnimeField::NumListUsers,
        AnimeField::NumScoringUsers,
        AnimeField::NSFW,
        AnimeField::CreatedAt,
        AnimeField::UpdatedAt,
        AnimeField::MediaType,
        AnimeField::Status,
        AnimeField::Genres,
        AnimeField::MyListStatus,
        AnimeField::NumEpisodes,
        AnimeField::StartSeason,
        AnimeField::Broadcast,
        AnimeField::Source,
        AnimeField::AverageEpisodeDuration,
        AnimeField::Rating,
        AnimeField::Pictures,
        AnimeField::Background,
        AnimeField::RelatedAnime,
        AnimeField::RelatedManga,
        AnimeField::Recommendations,
        AnimeField::Studios,
        AnimeField::Statistics,
    ]
}

/// The names of `fields`, one by one.
pub open spec fn field_names(fields: Seq<AnimeField>) -> Seq<Seq<char>> {
    fields.map_values(|f: AnimeField| f.wire_name())
}

impl AnimeField {
    /// The name the API knows this field by (for `ALL`, every name joined
    /// by commas).
    pub open spec fn wire_name(self) -> Seq<char> {
        match self {
            AnimeField::ID => "id"@,
            AnimeField::Title => "title"@,
            AnimeField::MainPicture => "main_picture"@,
            AnimeField::AlternativeTitles => "alternative_titles"@,
            AnimeField::StartDate => "start_date"@,
            AnimeField::EndDate => "end_date"@,
            AnimeField::Synopsis => "synopsis"@,
            AnimeField::Mean => "mean"@,
            AnimeField::Rank => "rank"@,
            AnimeField::Popularity => "popularity"@,
            AnimeField::NumListUsers => "num_list_users"@,
            AnimeField::NumScoringUsers => "num_scoring_users"@,
            AnimeField::NSFW => "nsfw"@,
            AnimeField::CreatedAt => "created_at"@,
            AnimeField::UpdatedAt => "updated_at"@,
            AnimeField::MediaType => "media_type"@,
            AnimeField::Status => "status"@,
            AnimeField::Genres => "genres"@,
            AnimeField::MyListStatus => "my_list_status"@,
            AnimeField::NumEpisodes => "num_episodes"@,
            AnimeField::StartSeason => "start_season"@,
            AnimeField::Broadcast => "broadcast"@,
            AnimeField::Source => "source"@,
            AnimeField::AverageEpisodeDuration => "average_episode_duration"@,
            AnimeField::Rating => "rating"@,
            AnimeField::Pictures => "pictures"@,
            AnimeField::Background => "background"@,
            AnimeField::RelatedAnime => "related_anime"@,
            AnimeField::RelatedManga => "related_manga"@,
            AnimeField::Recommendations => "recommendations"@,
            AnimeField::Studios => "studios"@,
            AnimeField::Statistics => "statistics"@,
            AnimeField::ALL => "id,title,main_picture,alternative_titles,start_date,end_date,synopsis,mean,rank,popularity,num_list_users,num_scoring_users,nsfw,created_at,updated_at,media_type,status,genres,my_list_status,num_episodes,start_season,broadcast,source,average_episode_duration,rating,pictures,background,related_anime,related_manga,recommendations,studios,statistics"@,
        }
    }

    /// The name the API knows this field by (for `ALL`, every name joined
    /// by commas).
    pub fn to_string(&self) -> (r: String)
        ensures
            r@ == self.wire_name(),
    {
        match self {
            AnimeField::ID => "id".to_owned(),
            AnimeField::Title => "title".to_owned(),
            AnimeField::MainPicture => "main_picture".to_owned(),
            AnimeField::AlternativeTitles => "alternative_titles".to_owned(),
            AnimeField::StartDate => "start_date".to_owned(),
            AnimeField::EndDate => "end_date".to_owned(),
            AnimeField::Synopsis => "synopsis".to_owned(),
            AnimeField::Mean => "mean".to_owned(),
            AnimeField::Rank => "rank".to_owned(),
            AnimeField::Popularity => "popularity".to_owned(),
            AnimeField::NumListUsers => "num_list_users".to_owned(),
            AnimeField::NumScoringUsers => "num_scoring_users".to_owned(),
            AnimeField::NSFW => "nsfw".to_owned(),
            AnimeField::CreatedAt => "created_at".to_owned(),
            AnimeField::UpdatedAt => "updated_at".to_owned(),
            AnimeField::MediaType => "media_type".to_owned(),
            AnimeField::Status => "status".to_owned(),
            AnimeField::Genres => "genres".to_owned(),
            AnimeField::MyListStatus => "my_list_status".to_owned(),
            AnimeField::NumEpisodes => "num_episodes".to_owned(),
            AnimeField::StartSeason => "start_season".to_owned(),
            AnimeField::Broadcast => "broadcast".to_owned(),
            AnimeField::Source => "source".to_owned(),
            AnimeField::AverageEpisodeDuration => "average_episode_duration".to_owned(),
            AnimeField::Rating => "rating".to_owned(),
            AnimeField::Pictures => "pictures".to_owned(),
            AnimeField::Background => "background".to_owned(),
            AnimeField::RelatedAnime => "related_anime".to_owned(),
            AnimeField::RelatedManga => "related_manga".to_owned(),
            AnimeField::Recommendations => "recommendations".to_owned(),
            AnimeField::Studios => "studios".to_owned(),
            AnimeField::Statistics => "statistics".to_owned(),
            AnimeField::ALL => "id,title,main_picture,alternative_titles,start_date,end_date,synopsis,mean,rank,popularity,num_list_users,num_scoring_users,nsfw,created_at,updated_at,media_type,status,genres,my_list_status,num_episodes,start_season,broadcast,source,average_episode_duration,rating,pictures,background,related_anime,related_manga,recommendations,studios,statistics".to_owned(),
        }
    }
}

/// The facts both laws about field names rest on: `ALL` is the other
/// names joined by commas, and two fields' names differ in length, second
/// or ninth character unless the fields are the same.
proof fn lemma_field_names(a: AnimeField, b: AnimeField)
    ensures
        AnimeField::ALL.wire_name() == join(field_names(single_fields()), ","@),
        a != b ==> (a.wire_name().len(), a.wire_name()[1], a.wire_name()[8]) != (
            b.wire_name().len(),
            b.wire_name()[1],
            b.wire_name()[8],
        ),
{
    reveal_strlit("id");
    reveal_strlit("title");
    reveal_strlit("main_picture");
    reveal_strlit("alternative_titles");
    reveal_strlit("start_date");
    reveal_strlit("end_date");
    reveal_strlit("synopsis");
    reveal_strlit("mean");
    reveal_strlit("rank");
    reveal_strlit("popularity");
    reveal_strlit("num_list_users");
    reveal_strlit("num_scoring_users");
    reveal_strlit("nsfw");
    reveal_strlit("created_at");
    reveal_strlit("updated_at");
    reveal_strlit("media_type");
    reveal_strlit("status");
    reveal_strlit("genres");
    reveal_strlit("my_list_status");
    reveal_strlit("num_episodes");
    reveal_strlit("start_season");
    reveal_strlit("broadcast");
    reveal_strlit("source");
    reveal_strlit("average_episode_duration");
    reveal_strlit("rating");
    reveal_strlit("pictures");
    reveal_strlit("background");
    reveal_strlit("related_anime");
    reveal_strlit("related_manga");
    reveal_strlit("recommendations");
    reveal_strlit("studios");
    reveal_strlit("statistics");
    reveal_strlit("id,title,main_picture,alternative_titles,start_date,end_date,synopsis,mean,rank,popularity,num_list_users,num_scoring_users,nsfw,created_at,updated_at,media_type,status,genres,my_list_status,num_episodes,start_season,broadcast,source,average_episode_duration,rating,pictures,background,related_anime,related_manga,recommendations,studios,statistics");
    reveal_strlit(",");
    reveal_with_fuel(join, 33);
    assert(field_names(single_fields()) =~= seq![
        "id"@,
        "title"@,
        "main_picture"@,
        "alternative_titles"@,
        "start_date"@,
        "end_date"@,
        "synopsis"@,
        "mean"@,
        "rank"@,
        "popularity"@,
        "num_list_users"@,
        "num_scoring_users"@,
        "nsfw"@,
        "created_at"@,
        "updated_at"@,
        "media_type"@,
        "status"@,
        "genres"@,
        "my_list_status"@,
        "num_episodes"@,
        "start_season"@,
        "broadcast"@,
        "source"@,
        "average_episode_duration"@,
        "rating"@,
        "pictures"@,
        "background"@,
        "related_anime"@,
        "related_manga"@,
        "recommendations"@,
        "studios"@,
        "statistics"@,
    ]);
    assert(AnimeField::ALL.wire_name() =~= join(field_names(single_fields()), ","@));
}

/// `ALL` names every single field exactly as they are named one by one,
/// in order, separated by commas.
pub proof fn law_all_lists_every_field()
    ensures
        AnimeField::ALL.wire_name() == join(field_names(single_fields()), ","@),
{
    lemma_field_names(AnimeField::ID, AnimeField::ID);
}

/// Different fields are asked for by different names.
pub proof fn law_field_names_distinct(a: AnimeField, b: AnimeField)
    ensures
        a != b ==> a.wire_name() != b.wire_name(),
{
    lemma_field_names(a, b);
}

} // verus!
