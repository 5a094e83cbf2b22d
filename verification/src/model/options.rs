//! Options of the API: ranking kinds, seasons, list statuses, and the
//! form parameters of a list update.
use vstd::prelude::*;

use crate::text::{bool_text, bool_to_text, decimal, join, join_strings, u64_to_decimal};

verus! {

/// The kinds of anime ranking the API offers.
#[derive(Debug, Clone, Copy, PartialEq, Eq, Structural)]
pub enum RankingType {
    All,
    Airing,
    Upcoming,
    TV,
    OVA,
    Movie,
    Special,
    ByPopularity,
    Favorite,
}

impl RankingType {
    /// The name the API knows this ranking by.
    pub open spec fn wire_name(self) -> Seq<char> {
        match self {
            RankingType::All => "all"@,
            RankingType::Airing => "airing"@,
            RankingType::Upcoming => "upcoming"@,
            RankingType::TV => "tv"@,
            RankingType::OVA => "ova"@,
            RankingType::Movie => "movie"@,
            RankingType::Special => "special"@,
            RankingType::ByPopularity => "bypopularity"@,
            RankingType::Favorite => "favorite"@,
        }
    }

    /// The name the API knows this ranking by.
    pub fn to_string(&self) -> (r: String)
        ensures
            r@ == self.wire_name(),
    {
        match self {
            RankingType::Favorite => "favorite".to_owned(),
            RankingType::TV => "tv".to_owned(),
            RankingType::Airing => "airing".to_owned(),
            RankingType::Upcoming => "upcoming".to_owned(),
            RankingType::Special => "special".to_owned(),
            RankingType::ByPopularity => "bypopularity".to_owned(),
            RankingType::Movie => "movie".to_owned(),
            RankingType::OVA => "ova".to_owned(),
            RankingType::All => "all".to_owned(),
        }
    }
}

/// The seasons of an anime year.
#[derive(Debug, Clone, Copy, PartialEq, Eq, Structural)]
pub enum Season {
    Winter,
    Spring,
    Summer,
    Fall,
}

impl Season {
    /// The name the API knows this season by.
    pub open spec fn wire_name(self) -> Seq<char> {
        match self {
            Season::Winter => "winter"@,
            Season::Spring => "spring"@,
            Season::Summer => "summer"@,
            Season::Fall => "fall"@,
        }
    }

    /// The name the API knows this season by.
    pub fn to_string(&self) -> (r: String)
        ensures
            r@ == self.wire_name(),
    {
        match self {
            Season::Winter => "winter".to_owned(),
            Season::Spring => "spring".to_owned(),
            Season::Summer => "summer".to_owned(),
            Season::Fall => "fall".to_owned(),
        }
    }
}

/// The status of a show on the user's list.
#[derive(Debug, Clone, Copy, PartialEq, Eq, Structural)]
pub enum Status {
    Watching,
    Completed,
    OnHold,
    Dropped,
    PlanToWatch,
}

impl Status {
    /// The name the API knows this status by.
    pub open spec fn wire_name(self) -> Seq<char> {
        match self {
            Status::Watching => "watching"@,
            Status::Completed => "completed"@,
            Status::OnHold => "on_hold"@,
            Status::Dropped => "dropped"@,
            Status::PlanToWatch => "plan_to_watch"@,
        }
    }

    /// The name the API knows this status by.
    pub fn to_string(&self) -> (r: String)
        ensures
            r@ == self.wire_name(),
    {
        match self {
            Status::Watching => "watching".to_owned(),
            Status::Completed => "completed".to_owned(),
            Status::OnHold => "on_hold".to_owned(),
            Status::Dropped => "dropped".to_owned(),
            Status::PlanToWatch => "plan_to_watch".to_owned(),
        }
    }
}

/// Different values of `RankingType` are sent under different names.
pub proof fn law_rankingtype_names_distinct(a: RankingType, b: RankingType)
    ensures
        a != b ==> a.wire_name() != b.wire_name(),
{
    reveal_strlit("all");
    reveal_strlit("airing");
    reveal_strlit("upcoming");
    reveal_strlit("tv");
    reveal_strlit("ova");
    reveal_strlit("movie");
    reveal_strlit("special");
    reveal_strlit("bypopularity");
    reveal_strlit("favorite");
    let ka = (a.wire_name().len(), a.wire_name()[0], a.wire_name()[1]);
    let kb = (b.wire_name().len(), b.wire_name()[0], b.wire_name()[1]);
    assert(a != b ==> ka != kb);
}

/// Different values of `Season` are sent under different names.
pub proof fn law_season_names_distinct(a: Season, b: Season)
    ensures
        a != b ==> a.wire_name() != b.wire_name(),
{
    reveal_strlit("winter");
    reveal_strlit("spring");
    reveal_strlit("summer");
    reveal_strlit("fall");
    let ka = (a.wire_name().len(), a.wire_name()[0], a.wire_name()[1]);
    let kb = (b.wire_name().len(), b.wire_name()[0], b.wire_name()[1]);
    assert(a != b ==> ka != kb);
}

/// Different values of `Status` are sent under different names.
pub proof fn law_status_names_distinct(a: Status, b: Status)
    ensures
        a != b ==> a.wire_name() != b.wire_name(),
{
    reveal_strlit("watching");
    reveal_strlit("completed");
    reveal_strlit("on_hold");
    reveal_strlit("dropped");
    reveal_strlit("plan_to_watch");
    let ka = (a.wire_name().len(), a.wire_name()[0], a.wire_name()[1]);
    let kb = (b.wire_name().len(), b.wire_name()[0], b.wire_name()[1]);
    assert(a != b ==> ka != kb);
}

/// The text views of form parameters.
pub open spec fn form_view<'a>(params: Seq<(&'a str, String)>) -> Seq<(Seq<char>, Seq<char>)> {
    params.map_values(|p: (&'a str, String)| (p.0@, p.1@))
}

/// Something that can be sent as the form parameters of a request.
pub trait Params: Sized {
    /// The (key, value) pairs, in order, that `get_params` yields.
    spec fn form_fields(&self) -> Seq<(Seq<char>, Seq<char>)>;

    /// The form parameters.
    fn get_params<'a>(self) -> (r: Vec<(&'a str, String)>)
        ensures
            form_view(r@) == self.form_fields(),
    ;
}

/// One form entry for an optional value: nothing when it is absent.
pub open spec fn optional_entry(key: Seq<char>, value: Option<Seq<char>>) -> Seq<(Seq<char>, Seq<char>)> {
    match value {
        Some(v) => seq![(key, v)],
        None => Seq::empty(),
    }
}

/// The keys of a list update, in the order they are sent.
pub open spec fn update_keys() -> Seq<Seq<char>> {
    seq![
        "status"@,
        "is_rewatching"@,
        "score"@,
        "num_watched_episodes"@,
        "priority"@,
        "num_times_rewatched"@,
        "rewatch_value"@,
        "tags"@,
        "comments"@,
    ]
}

/// The form entries of the first `n` keys, for the field texts `texts`.
pub open spec fn update_form_prefix(texts: Seq<Option<Seq<char>>>, n: nat) -> Seq<(Seq<char>, Seq<char>)>
    decreases n,
{
    if n == 0 {
        Seq::empty()
    } else {
        update_form_prefix(texts, (n - 1) as nat) + optional_entry(update_keys()[n - 1], texts[n - 1])
    }
}

/// The form of a list update with field texts `texts`: one entry per set
/// field, in key order.
pub open spec fn update_form(texts: Seq<Option<Seq<char>>>) -> Seq<(Seq<char>, Seq<char>)> {
    update_form_prefix(texts, 9)
}

/// The text of an optional value.
pub open spec fn text_of<T>(v: Option<T>, f: spec_fn(T) -> Seq<char>) -> Option<Seq<char>> {
    match v {
        Some(x) => Some(f(x)),
        None => None,
    }
}

/// An update of an entry of the user's anime list; only the fields that
/// were set are sent.
#[derive(Debug)]
pub struct StatusUpdate {
    status: Option<Status>,
    is_rewatching: Option<bool>,
    score: Option<u8>,
    num_watched_episodes: Option<u32>,
    priority: Option<u8>,
    num_times_rewatched: Option<u32>,
    rewatch_value: Option<u8>,
    tags: Option<Vec<String>>,
    comments: Option<String>,
}

impl View for StatusUpdate {
    /// The text each field is sent as, in key order (`None` where unset).
    type V = Seq<Option<Seq<char>>>;

    closed spec fn view(&self) -> Seq<Option<Seq<char>>> {
        seq![
            text_of(self.status, |s: Status| s.wire_name()),
            text_of(self.is_rewatching, |b: bool| bool_text(b)),
            text_of(self.score, |v: u8| decimal(v as nat)),
            text_of(self.num_watched_episodes, |v: u32| decimal(v as nat)),
            text_of(self.priority, |v: u8| decimal(v as nat)),
            text_of(self.num_times_rewatched, |v: u32| decimal(v as nat)),
            text_of(self.rewatch_value, |v: u8| decimal(v as nat)),
            text_of(self.tags, |t: Vec<String>| join(t@.map_values(|s: String| s@), ","@)),
            text_of(self.comments, |c: String| c@),
        ]
    }
}

impl StatusUpdate {
    /// The tags that were set, each as given, in order.
    pub closed spec fn tags_list(&self) -> Option<Seq<Seq<char>>> {
        match self.tags {
            Some(t) => Some(t@.map_values(|s: String| s@)),
            None => None,
        }
    }

    /// An update that sets nothing.
    pub fn new() -> (r: Self)
        ensures
            r@ == Seq::new(9, |i: int| None::<Seq<char>>),
            r.tags_list() == None::<Seq<Seq<char>>>,
    {
        let r = StatusUpdate {
            status: None,
            is_rewatching: None,
            score: None,
            num_watched_episodes: None,
            priority: None,
            num_times_rewatched: None,
            rewatch_value: None,
            tags: None,
            comments: None,
        };
        assert(r@ =~= Seq::new(9, |i: int| None::<Seq<char>>));
        r
    }

    /// Sets the list status.
    pub fn status(&mut self, status: Status)
        ensures
            final(self)@ == old(self)@.update(0, Some(status.wire_name())),
            final(self).tags_list() == old(self).tags_list(),
    {
        self.status = Some(status);
        assert(final(self)@ =~= old(self)@.update(0, Some(status.wire_name())));
    }

    /// Sets whether the show is being rewatched.
    pub fn is_rewatching(&mut self, is_rewatching: bool)
        ensures
            final(self)@ == old(self)@.update(1, Some(bool_text(is_rewatching))),
            final(self).tags_list() == old(self).tags_list(),
    {
        self.is_rewatching = Some(is_rewatching);
        assert(final(self)@ =~= old(self)@.update(1, Some(bool_text(is_rewatching))));
    }

    /// Sets the score.
    pub fn score(&mut self, score: u8)
        ensures
            final(self)@ == old(self)@.update(2, Some(decimal(score as nat))),
            final(self).tags_list() == old(self).tags_list(),
    {
        self.score = Some(score);
        assert(final(self)@ =~= old(self)@.update(2, Some(decimal(score as nat))));
    }

    /// Sets the number of episodes watched.
    pub fn num_watched_episodes(&mut self, num_watched_episodes: u32)
        ensures
            final(self)@ == old(self)@.update(3, Some(decimal(num_watched_episodes as nat))),
            final(self).tags_list() == old(self).tags_list(),
    {
        self.num_watched_episodes = Some(num_watched_episodes);
        assert(final(self)@ =~= old(self)@.update(3, Some(decimal(num_watched_episodes as nat))));
    }

    /// Sets the priority.
    pub fn priority(&mut self, priority: u8)
        ensures
            final(self)@ == old(self)@.update(4, Some(decimal(priority as nat))),
            final(self).tags_list() == old(self).tags_list(),
    {
        self.priority = Some(priority);
        assert(final(self)@ =~= old(self)@.update(4, Some(decimal(priority as nat))));
    }

    /// Sets how many times the show was rewatched.
    pub fn num_times_rewatched(&mut self, num_times_rewatched: u32)
        ensures
            final(self)@ == old(self)@.update(5, Some(decimal(num_times_rewatched as nat))),
            final(self).tags_list() == old(self).tags_list(),
    {
        self.num_times_rewatched = Some(num_times_rewatched);
        assert(final(self)@ =~= old(self)@.update(5, Some(decimal(num_times_rewatched as nat))));
    }

    /// Sets the rewatch value.
    pub fn rewatch_value(&mut self, rewatch_value: u8)
        ensures
            final(self)@ == old(self)@.update(6, Some(decimal(rewatch_value as nat))),
            final(self).tags_list() == old(self).tags_list(),
    {
        self.rewatch_value = Some(rewatch_value);
        assert(final(self)@ =~= old(self)@.update(6, Some(decimal(rewatch_value as nat))));
    }

    /// Sets the tags; they are sent joined by commas.
    pub fn tags(&mut self, tags: Vec<String>)
        ensures
            final(self)@ == old(self)@.update(7, Some(join(tags@.map_values(|s: String| s@), ","@))),
            final(self).tags_list() == Some(tags@.map_values(|s: String| s@)),
    {
        let ghost t = tags;
        self.tags = Some(tags);
        assert(final(self)@ =~= old(self)@.update(7, Some(join(t@.map_values(|s: String| s@), ","@))));
    }

    /// Sets the comments.
    pub fn comments(&mut self, comments: &str)
        ensures
            final(self)@ == old(self)@.update(8, Some(comments@)),
            final(self).tags_list() == old(self).tags_list(),
    {
        self.comments = Some(comments.to_owned());
        assert(final(self)@ =~= old(self)@.update(8, Some(comments@)));
    }
}

/// The text view of an optional string.
pub open spec fn opt_view(v: Option<String>) -> Option<Seq<char>> {
    match v {
        Some(s) => Some(s@),
        None => None,
    }
}

/// Appends the entry for `key` when `value` is present.
fn push_entry<'a>(params: &mut Vec<(&'a str, String)>, key: &'a str, value: Option<String>)
    ensures
        form_view(final(params)@) == form_view(old(params)@) + optional_entry(key@, opt_view(value)),
{
    let ghost v = value;
    if let Some(t) = value {
        params.push((key, t));
    }
    assert(form_view(final(params)@) =~= form_view(old(params)@) + optional_entry(key@, opt_view(v)));
}

/// The form prefix grows by one key at a time.
proof fn lemma_form_step(texts: Seq<Option<Seq<char>>>, k: nat)
    ensures
        update_form_prefix(texts, k + 1) == update_form_prefix(texts, k) + optional_entry(update_keys()[k as int], texts[k as int]),
{
}

impl Params for StatusUpdate {
    open spec fn form_fields(&self) -> Seq<(Seq<char>, Seq<char>)> {
        update_form(self@)
    }

    fn get_params<'a>(self) -> (r: Vec<(&'a str, String)>) {
        let ghost texts = self@;
        let StatusUpdate {
            status,
            is_rewatching,
            score,
            num_watched_episodes,
            priority,
            num_times_rewatched,
            rewatch_value,
            tags,
            comments,
        } = self;
        let t0 = match status { Some(s) => Some(s.to_string()), None => None };
        let t1 = match is_rewatching { Some(b) => Some(bool_to_text(b)), None => None };
        let t2 = match score { Some(v) => Some(u64_to_decimal(v as u64)), None => None };
        let t3 = match num_watched_episodes { Some(v) => Some(u64_to_decimal(v as u64)), None => None };
        let t4 = match priority { Some(v) => Some(u64_to_decimal(v as u64)), None => None };
        let t5 = match num_times_rewatched { Some(v) => Some(u64_to_decimal(v as u64)), None => None };
        let t6 = match rewatch_value { Some(v) => Some(u64_to_decimal(v as u64)), None => None };
        let t7 = match tags { Some(t) => Some(join_strings(&t, ",")), None => None };
        let t8 = comments;
        assert(opt_view(t0) == texts[0]);
        assert(opt_view(t1) == texts[1]);
        assert(opt_view(t2) == texts[2]);
        assert(opt_view(t3) == texts[3]);
        assert(opt_view(t4) == texts[4]);
        assert(opt_view(t5) == texts[5]);
        assert(opt_view(t6) == texts[6]);
        assert(opt_view(t7) == texts[7]);
        assert(opt_view(t8) == texts[8]);
        let mut params: Vec<(&'a str, String)> = Vec::new();
        assert(form_view(params@) =~= update_form_prefix(texts, 0));
        push_entry(&mut params, "status", t0);
        proof { lemma_form_step(texts, 0); }
        push_entry(&mut params, "is_rewatching", t1);
        proof { lemma_form_step(texts, 1); }
        push_entry(&mut params, "score", t2);
        proof { lemma_form_step(texts, 2); }
        push_entry(&mut params, "num_watched_episodes", t3);
        proof { lemma_form_step(texts, 3); }
        push_entry(&mut params, "priority", t4);
        proof { lemma_form_step(texts, 4); }
        push_entry(&mut params, "num_times_rewatched", t5);
        proof { lemma_form_step(texts, 5); }
        push_entry(&mut params, "rewatch_value", t6);
        proof { lemma_form_step(texts, 6); }
        push_entry(&mut params, "tags", t7);
        proof { lemma_form_step(texts, 7); }
        push_entry(&mut params, "comments", t8);
        proof { lemma_form_step(texts, 8); }
        params
    }
}

/// The keys of a list update are pairwise different.
proof fn lemma_update_keys_distinct(i: int, j: int)
    requires
        0 <= i < 9,
        0 <= j < 9,
        i != j,
    ensures
        update_keys()[i] != update_keys()[j],
{
    reveal_strlit("status");
    reveal_strlit("is_rewatching");
    reveal_strlit("score");
    reveal_strlit("num_watched_episodes");
    reveal_strlit("priority");
    reveal_strlit("num_times_rewatched");
    reveal_strlit("rewatch_value");
    reveal_strlit("tags");
    reveal_strlit("comments");
    let ki = (update_keys()[i].len(), update_keys()[i][0]);
    let kj = (update_keys()[j].len(), update_keys()[j][0]);
    assert(ki != kj);
}

/// What the first `n` keys contribute to the form: each entry comes from a
/// set field among them, each set field among them has its entry, and keys
/// do not repeat.
proof fn lemma_form_prefix(texts: Seq<Option<Seq<char>>>, n: nat)
    requires
        texts.len() == 9,
        n <= 9,
    ensures
        forall|p: int| 0 <= p < update_form_prefix(texts, n).len() ==> exists|k: int|
            0 <= k < n && #[trigger] update_form_prefix(texts, n)[p] == (update_keys()[k], texts[k]->0)
                && texts[k] is Some,
        forall|k: int| 0 <= k < n && #[trigger] texts[k] is Some ==> update_form_prefix(texts, n).contains(
            (update_keys()[k], texts[k]->0),
        ),
        forall|p: int, q: int|
            0 <= p < q < update_form_prefix(texts, n).len() ==> (#[trigger] update_form_prefix(texts, n)[p]).0
                != (#[trigger] update_form_prefix(texts, n)[q]).0,
    decreases n,
{
    if n > 0 {
        let m = (n - 1) as nat;
        lemma_form_prefix(texts, m);
        let pre = update_form_prefix(texts, m);
        let cur = update_form_prefix(texts, n);
        let e = optional_entry(update_keys()[m as int], texts[m as int]);
        assert(cur == pre + e);
        assert forall|p: int| 0 <= p < cur.len() implies exists|k: int|
            0 <= k < n && #[trigger] cur[p] == (update_keys()[k], texts[k]->0) && texts[k] is Some by {
            if p < pre.len() {
                assert(cur[p] == pre[p]);
                let k = choose|k: int| 0 <= k < m && pre[p] == (update_keys()[k], texts[k]->0) && texts[k] is Some;
                assert(cur[p] == (update_keys()[k], texts[k]->0));
            } else {
                assert(cur[p] == (update_keys()[m as int], texts[m as int]->0));
            }
        }
        assert forall|k: int| 0 <= k < n && #[trigger] texts[k] is Some implies cur.contains(
            (update_keys()[k], texts[k]->0),
        ) by {
            if k < m {
                let p = choose|p: int| 0 <= p < pre.len() && pre[p] == (update_keys()[k], texts[k]->0);
                assert(cur[p] == pre[p]);
            } else {
                assert(cur[pre.len() as int] == (update_keys()[k], texts[k]->0));
            }
        }
        assert forall|p: int, q: int| 0 <= p < q < cur.len() implies (#[trigger] cur[p]).0 != (
        #[trigger] cur[q]).0 by {
            if q < pre.len() {
                assert(cur[p] == pre[p]);
                assert(cur[q] == pre[q]);
            } else {
                assert(cur[p] == pre[p]);
                let k = choose|k: int| 0 <= k < m && pre[p] == (update_keys()[k], texts[k]->0) && texts[k] is Some;
                lemma_update_keys_distinct(k, m as int);
            }
        }
    }
}

/// The form of a list update holds exactly the fields that were set: a set
/// field is sent under its key with its text, an unset one is not sent, and
/// no key is sent twice.
pub proof fn law_update_form_entries(u: StatusUpdate, k: int)
    requires
        0 <= k < 9,
    ensures
        u@[k] matches Some(v) ==> u.form_fields().contains((update_keys()[k], v)),
        u@[k] is None ==> forall|p: int| 0 <= p < u.form_fields().len() ==> (#[trigger] u.form_fields()[p]).0 != update_keys()[k],
        forall|p: int, q: int| 0 <= p < q < u.form_fields().len() ==> (#[trigger] u.form_fields()[p]).0 != (#[trigger] u.form_fields()[q]).0,
{
    let texts = u@;
    lemma_form_prefix(texts, 9);
    if texts[k] is None {
        assert forall|p: int| 0 <= p < u.form_fields().len() implies (#[trigger] u.form_fields()[p]).0 != update_keys()[k] by {
            let j = choose|j: int| 0 <= j < 9 && update_form_prefix(texts, 9)[p] == (update_keys()[j], texts[j]->0) && texts[j] is Some;
            lemma_update_keys_distinct(j, k);
        }
    }
}

/// A fresh update sends nothing.
pub proof fn law_new_update_is_empty()
    ensures
        update_form(Seq::new(9, |i: int| None::<Seq<char>>)).len() == 0,
{
    let texts = Seq::new(9, |i: int| None::<Seq<char>>);
    lemma_form_prefix(texts, 9);
    if update_form(texts).len() > 0 {
        assert(update_form_prefix(texts, 9)[0] == update_form_prefix(texts, 9)[0]);
    }
}

/// Setting the same field twice keeps only the last value.
pub proof fn law_last_set_wins(u: StatusUpdate, k: int, a: Seq<char>, b: Seq<char>)
    requires
        0 <= k < 9,
    ensures
        update_form(u@.update(k, Some(a)).update(k, Some(b))) == update_form(u@.update(k, Some(b))),
{
    assert(u@.update(k, Some(a)).update(k, Some(b)) =~= u@.update(k, Some(b)));
}

/// Setting two different fields gives the same form in either order.
pub proof fn law_setters_commute(u: StatusUpdate, i: int, j: int, a: Seq<char>, b: Seq<char>)
    requires
        0 <= i < 9,
        0 <= j < 9,
        i != j,
    ensures
        update_form(u@.update(i, Some(a)).update(j, Some(b))) == update_form(u@.update(j, Some(b)).update(i, Some(a))),
{
    assert(u@.update(i, Some(a)).update(j, Some(b)) =~= u@.update(j, Some(b)).update(i, Some(a)));
}

/// Every update has one field text per key, and the text of the tags is
/// the tags that were set, joined by commas.
pub proof fn lemma_update_view(u: &StatusUpdate)
    ensures
        u@.len() == 9,
        u@[7] == match u.tags_list() {
            Some(t) => Some(join(t, ","@)),
            None => None,
        },
{
}

/// The field texts after a series of setter calls, each a (key position,
/// text) pair, made in order: every call replaces the text at its position.
pub open spec fn apply_setters(v: Seq<Option<Seq<char>>>, calls: Seq<(int, Seq<char>)>) -> Seq<Option<Seq<char>>>
    decreases calls.len(),
{
    if calls.len() == 0 {
        v
    } else {
        apply_setters(v, calls.drop_last()).update(calls.last().0, Some(calls.last().1))
    }
}

/// Each call names a key position, and no position is set twice.
pub open spec fn distinct_setter_calls(calls: Seq<(int, Seq<char>)>) -> bool {
    &&& forall|i: int| 0 <= i < calls.len() ==> 0 <= #[trigger] calls[i].0 < 9
    &&& forall|i: int, j: int| 0 <= i < j < calls.len() ==> (#[trigger] calls[i]).0 != (#[trigger] calls[j]).0
}

/// The number of set fields among the first `n`.
pub open spec fn set_count(v: Seq<Option<Seq<char>>>, n: nat) -> nat
    decreases n,
{
    if n == 0 {
        0
    } else {
        set_count(v, (n - 1) as nat) + if v[n - 1] is Some {
            1nat
        } else {
            0nat
        }
    }
}

/// What a series of calls with distinct positions leaves: each called
/// position holds its call's text, the others are unchanged.
proof fn lemma_apply_setters(v: Seq<Option<Seq<char>>>, calls: Seq<(int, Seq<char>)>)
    requires
        v.len() == 9,
        distinct_setter_calls(calls),
    ensures
        apply_setters(v, calls).len() == 9,
        forall|i: int| 0 <= i < calls.len() ==> apply_setters(v, calls)[#[trigger] calls[i].0] == Some(calls[i].1),
        forall|k: int| 0 <= k < 9 && (forall|i: int| 0 <= i < calls.len() ==> #[trigger] calls[i].0 != k) ==> #[trigger] apply_setters(v, calls)[k] == v[k],
    decreases calls.len(),
{
    if calls.len() > 0 {
        let rest = calls.drop_last();
        assert(distinct_setter_calls(rest)) by {
            assert forall|i: int, j: int| 0 <= i < j < rest.len() implies (#[trigger] rest[i]).0 != (#[trigger] rest[j]).0 by {
                assert(rest[i] == calls[i]);
                assert(rest[j] == calls[j]);
            }
        }
        lemma_apply_setters(v, rest);
        let last = calls.last();
        assert forall|i: int| 0 <= i < calls.len() implies apply_setters(v, calls)[#[trigger] calls[i].0] == Some(calls[i].1) by {
            if i < calls.len() - 1 {
                assert(rest[i] == calls[i]);
                assert(calls[i].0 != calls[calls.len() - 1].0);
            }
        }
        assert forall|k: int| 0 <= k < 9 && (forall|i: int| 0 <= i < calls.len() ==> #[trigger] calls[i].0 != k) implies #[trigger] apply_setters(v, calls)[k] == v[k] by {
            assert(calls[calls.len() - 1].0 != k);
            assert forall|i: int| 0 <= i < rest.len() implies #[trigger] rest[i].0 != k by {
                assert(rest[i] == calls[i]);
            }
        }
    }
}

/// Setting one more field among the first `n` adds one to the count when
/// it was unset.
proof fn lemma_set_count_update(v: Seq<Option<Seq<char>>>, k: int, x: Seq<char>, n: nat)
    requires
        0 <= k < v.len(),
        n <= v.len(),
    ensures
        set_count(v.update(k, Some(x)), n) == set_count(v, n) + if k < n && v[k] is None {
            1nat
        } else {
            0nat
        },
    decreases n,
{
    if n > 0 {
        lemma_set_count_update(v, k, x, (n - 1) as nat);
    }
}

/// The form of the first `n` keys has one entry per set field among them.
proof fn lemma_form_prefix_len(texts: Seq<Option<Seq<char>>>, n: nat)
    ensures
        update_form_prefix(texts, n).len() == set_count(texts, n),
    decreases n,
{
    if n > 0 {
        lemma_form_prefix_len(texts, (n - 1) as nat);
    }
}

/// Setter calls that set each field at most once give the same form in
/// any order.
pub proof fn law_setter_calls_any_order(u: StatusUpdate, calls1: Seq<(int, Seq<char>)>, calls2: Seq<(int, Seq<char>)>)
    requires
        distinct_setter_calls(calls1),
        distinct_setter_calls(calls2),
        forall|c: (int, Seq<char>)| calls1.contains(c) <==> calls2.contains(c),
    ensures
        update_form(apply_setters(u@, calls1)) == update_form(apply_setters(u@, calls2)),
{
    lemma_update_view(&u);
    lemma_apply_setters(u@, calls1);
    lemma_apply_setters(u@, calls2);
    let a1 = apply_setters(u@, calls1);
    let a2 = apply_setters(u@, calls2);
    assert forall|k: int| 0 <= k < 9 implies a1[k] == a2[k] by {
        if exists|i: int| 0 <= i < calls1.len() && calls1[i].0 == k {
            let i = choose|i: int| 0 <= i < calls1.len() && calls1[i].0 == k;
            assert(calls1.contains(calls1[i]));
            assert(calls2.contains(calls1[i]));
            let j = choose|j: int| 0 <= j < calls2.len() && calls2[j] == calls1[i];
            assert(a1[calls1[i].0] == Some(calls1[i].1));
            assert(a2[calls2[j].0] == Some(calls2[j].1));
        } else if exists|j: int| 0 <= j < calls2.len() && calls2[j].0 == k {
            let j = choose|j: int| 0 <= j < calls2.len() && calls2[j].0 == k;
            assert(calls2.contains(calls2[j]));
            assert(calls1.contains(calls2[j]));
            let i = choose|i: int| 0 <= i < calls1.len() && calls1[i] == calls2[j];
            assert(calls1[i].0 == k);
        } else {
            assert(a1[k] == u@[k]);
            assert(a2[k] == u@[k]);
        }
    }
    assert(a1 =~= a2);
}

/// Setter calls on a fresh update that set each field at most once send
/// exactly as many entries as there were calls.
pub proof fn law_setter_calls_count(calls: Seq<(int, Seq<char>)>)
    requires
        distinct_setter_calls(calls),
    ensures
        update_form(apply_setters(Seq::new(9, |i: int| None::<Seq<char>>), calls)).len() == calls.len(),
    decreases calls.len(),
{
    let v = Seq::new(9, |i: int| None::<Seq<char>>);
    lemma_form_prefix_len(apply_setters(v, calls), 9);
    if calls.len() == 0 {
        assert(set_count(v, 9) == 0) by {
            reveal_with_fuel(set_count, 10);
        }
    } else {
        let rest = calls.drop_last();
        assert(distinct_setter_calls(rest)) by {
            assert forall|i: int, j: int| 0 <= i < j < rest.len() implies (#[trigger] rest[i]).0 != (#[trigger] rest[j]).0 by {
                assert(rest[i] == calls[i]);
                assert(rest[j] == calls[j]);
            }
        }
        law_setter_calls_count(rest);
        lemma_form_prefix_len(apply_setters(v, rest), 9);
        lemma_apply_setters(v, rest);
        let k = calls.last().0;
        assert forall|i: int| 0 <= i < rest.len() implies #[trigger] rest[i].0 != k by {
            assert(rest[i] == calls[i]);
        }
        assert(apply_setters(v, rest)[k] == v[k]);
        lemma_set_count_update(apply_setters(v, rest), k, calls.last().1, 9);
    }
}

} // verus!
