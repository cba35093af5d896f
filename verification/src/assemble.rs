//! Assembly of the write-set for one fetched game: validating its state,
//! classifying its mode, deriving team identities, resolving coordinates,
//! filling in missing scores, and building every row. The assembly is a
//! pure transformation of the input; it performs no writes.

use vstd::prelude::*;
use crate::error::IngestError;
use crate::geo::{resolve_country, resolve_subdivision, spec_resolve_country, spec_resolve_subdivision};
use crate::modes::{get_game_mode, get_geo_mode, spec_game_mode, spec_geo_mode, GeoMode, TeamGameMode};
use crate::payload::{
    DuelsGameInput, DuelsGuessInput, DuelsPlayerInput, GameModeRatings, PlayerRankedSystemProgress,
    RankedTeamDuelsProgress, RoundInput, SoloGameInput, User,
};
use crate::rows::{
    CompTeamRow, DuelsGameRow, DuelsRoundRow, FunTeamRow, GameData, GuessRow, LocationRow, MapRow,
    PlayerRow, SoloGameData, SoloGameRow, SoloRoundRow,
};
use crate::score::{calculate_score, spec_score};
use crate::team_id::{canon_team_id, get_team_id, views_of};
use crate::util::{to_ascii_upper, upper_seq};

verus! {

/// The instant a timestamp text denotes, in milliseconds since the epoch,
/// or nothing if the text does not parse.
pub uninterp spec fn utc_millis_of(s: Seq<char>) -> Option<i64>;

/// Parses a timestamp as the game service writes them.
///
/// Relies on chrono's `DateTime` parsing and `timestamp_millis`: the
/// result depends on the text alone.
#[verifier::external_body]
fn parse_utc_millis(s: &str) -> (r: Option<i64>)
    ensures
        r == utc_millis_of(s@),
{
    match s.parse::<chrono::DateTime<chrono::Utc>>() {
        Ok(dt) => Some(dt.timestamp_millis()),
        Err(_) => None,
    }
}

/// A fresh identifier for a new row.
///
/// Relies on `uuid::Uuid::new_v4` and its hyphenated rendering; nothing is
/// assumed of the value, which is randomly drawn.
#[verifier::external_body]
fn new_uuid() -> (r: String) {
    uuid::Uuid::new_v4().to_string()
}

/// Whole seconds from one instant to another, truncated toward zero and
/// clamped to the storable range.
pub open spec fn elapsed_seconds(guess_millis: int, start_millis: int) -> int {
    if guess_millis >= start_millis {
        let q = (guess_millis - start_millis) / 1000;
        if q > i32::MAX as int {
            i32::MAX as int
        } else {
            q
        }
    } else {
        let q = (start_millis - guess_millis) / 1000;
        if -q < i32::MIN as int {
            i32::MIN as int
        } else {
            -q
        }
    }
}

/// Computes the seconds a guess took, from the round's start to the
/// guess's own timestamp.
pub fn elapsed_secs(guess_millis: i64, start_millis: i64) -> (r: i32)
    ensures
        r as int == elapsed_seconds(guess_millis as int, start_millis as int),
{
    if guess_millis >= start_millis {
        let d: i128 = (guess_millis as i128) - (start_millis as i128);
        let q: i128 = d / 1000;
        if q > i32::MAX as i128 {
            i32::MAX
        } else {
            q as i32
        }
    } else {
        let d: i128 = (start_millis as i128) - (guess_millis as i128);
        let q: i128 = d / 1000;
        if q > -((i32::MIN as i128)) {
            i32::MIN
        } else {
            (-q) as i32
        }
    }
}

/// The per-submode ratings stored for a player: absent wherever the
/// progress lookup reported nothing.
pub open spec fn player_row_ok(
    row: PlayerRow,
    user: User,
    progress: Option<PlayerRankedSystemProgress>,
) -> bool {
    &&& row.id@ == user.id@
    &&& row.name@ == user.nick@
    &&& row.country_code@ == upper_seq(user.country_code@)
    &&& row.rating == (match progress {
        Some(p) => p.rating,
        None => None,
    })
    &&& row.moving_rating == (match spec_mode_ratings(progress) {
        Some(r) => r.standard_duels,
        None => None,
    })
    &&& row.no_move_rating == (match spec_mode_ratings(progress) {
        Some(r) => r.no_move_duels,
        None => None,
    })
    &&& row.nmpz_rating == (match spec_mode_ratings(progress) {
        Some(r) => r.nmpz_duels,
        None => None,
    })
    &&& row.avatar_pin@ == user.pin.url@
    &&& row.level == user.br.level
    &&& row.is_pro_user == user.is_pro_user
    &&& row.is_creator == user.is_creator
}

/// The submode ratings inside a progress report, if any.
pub open spec fn spec_mode_ratings(
    progress: Option<PlayerRankedSystemProgress>,
) -> Option<GameModeRatings> {
    match progress {
        Some(p) => p.game_mode_ratings,
        None => None,
    }
}

/// Builds a player's profile row from the user lookup and the optional
/// rating lookup, upper-casing the country code.
pub fn build_player_row(user: User, progress: Option<PlayerRankedSystemProgress>) -> (r: PlayerRow)
    ensures
        player_row_ok(r, user, progress),
{
    let country_code = to_ascii_upper(user.country_code.as_str());
    let (rating, mode_ratings): (Option<i32>, Option<GameModeRatings>) = match progress {
        Some(p) => (p.rating, p.game_mode_ratings),
        None => (None, None),
    };
    let (moving_rating, no_move_rating, nmpz_rating): (Option<i32>, Option<i32>, Option<i32>) =
        match mode_ratings {
        Some(r) => (r.standard_duels, r.no_move_duels, r.nmpz_duels),
        None => (None, None, None),
    };
    PlayerRow {
        id: user.id,
        name: user.nick,
        country_code,
        rating,
        moving_rating,
        no_move_rating,
        nmpz_rating,
        avatar_pin: user.pin.url,
        level: user.br.level,
        is_pro_user: user.is_pro_user,
        is_creator: user.is_creator,
    }
}

/// Builds a rated team's row: the canonical identifier of the pairing, the
/// display name the team lookup reported, and the rating after the match.
pub fn build_comp_team_row(
    player_id1: &String,
    player_id2: &String,
    team_name: String,
    team_progress: &RankedTeamDuelsProgress,
) -> (r: CompTeamRow)
    ensures
        r.team_id@ == canon_team_id(seq![player_id1@, player_id2@]),
        r.player_id1@ == player_id1@,
        r.player_id2@ == player_id2@,
        r.name@ == team_name@,
        r.rating == team_progress.rating_after,
{
    let members = vec![player_id1.as_str(), player_id2.as_str()];
    proof {
        assert(views_of(members@) =~= seq![player_id1@, player_id2@]);
    }
    let team_id = get_team_id(members);
    CompTeamRow {
        team_id,
        player_id1: player_id1.clone(),
        player_id2: player_id2.clone(),
        name: team_name,
        rating: team_progress.rating_after,
    }
}

/// The member ids of a team's players, in payload order.
pub open spec fn team_member_ids(players: Seq<DuelsPlayerInput>) -> Seq<Seq<char>> {
    players.map_values(|p: DuelsPlayerInput| p.player_id@)
}

/// The canonical identifier of a team's pairing.
pub fn team_key(players: &Vec<DuelsPlayerInput>) -> (r: String)
    ensures
        r@ == canon_team_id(team_member_ids(players@)),
{
    let mut members: Vec<&str> = Vec::new();
    let mut i: usize = 0;
    while i < players.len()
        invariant
            i <= players@.len(),
            members@.len() == i,
            views_of(members@) =~= team_member_ids(players@).subrange(0, i as int),
        decreases players@.len() - i,
    {
        let ghost before = members@;
        members.push(players[i].player_id.as_str());
        proof {
            assert(members@ == before.push(members@[i as int]));
            assert(members@[i as int]@ == players@[i as int].player_id@);
            assert forall|j: int| 0 <= j < i + 1 implies views_of(members@)[j] == team_member_ids(
                players@,
            ).subrange(0, i + 1)[j] by {
                if j < i {
                    assert(views_of(before)[j] == team_member_ids(players@).subrange(0, i as int)[j]);
                }
            }
            assert(views_of(members@) =~= team_member_ids(players@).subrange(0, i + 1));
        }
        i = i + 1;
    }
    proof {
        assert(team_member_ids(players@).subrange(0, players@.len() as int) =~= team_member_ids(
            players@,
        ));
    }
    get_team_id(members)
}

/// Builds a casual team's row: the canonical identifier and the members in
/// payload order.
pub fn build_fun_team_row(players: &Vec<DuelsPlayerInput>) -> (r: FunTeamRow)
    ensures
        r.team_id@ == canon_team_id(team_member_ids(players@)),
        r.player_ids.deep_view() == team_member_ids(players@),
{
    let team_id = team_key(players);
    let mut member_ids: Vec<String> = Vec::new();
    let mut i: usize = 0;
    while i < players.len()
        invariant
            i <= players@.len(),
            member_ids@.len() == i,
            member_ids.deep_view() =~= team_member_ids(players@).subrange(0, i as int),
        decreases players@.len() - i,
    {
        member_ids.push(players[i].player_id.clone());
        proof {
            assert(member_ids.deep_view() =~= team_member_ids(players@).subrange(0, i + 1));
        }
        i = i + 1;
    }
    proof {
        assert(member_ids.deep_view() =~= team_member_ids(players@));
        assert(team_member_ids(players@).subrange(0, players@.len() as int) =~= team_member_ids(
            players@,
        ));
    }
    FunTeamRow { team_id, player_ids: member_ids }
}

/// The first guess answering round `ri` (zero-based), scanning from `j`.
pub open spec fn first_guess_from(gs: Seq<DuelsGuessInput>, ri: int, j: int) -> Option<
    DuelsGuessInput,
>
    decreases gs.len() - j,
{
    if j < 0 || j >= gs.len() {
        None
    } else if gs[j].round_number == ri + 1 {
        Some(gs[j])
    } else {
        first_guess_from(gs, ri, j + 1)
    }
}

/// The first guess of a player answering round `ri`.
pub open spec fn first_guess_for(gs: Seq<DuelsGuessInput>, ri: int) -> Option<DuelsGuessInput> {
    first_guess_from(gs, ri, 0)
}

/// The players of one team that answered round `ri`, each with that
/// answer, in payload order.
pub open spec fn team_pairs(players: Seq<DuelsPlayerInput>, ri: int) -> Seq<
    (DuelsPlayerInput, DuelsGuessInput),
>
    decreases players.len(),
{
    if players.len() == 0 {
        Seq::empty()
    } else {
        let init = team_pairs(players.drop_last(), ri);
        match first_guess_for(players.last().guesses@, ri) {
            Some(gi) => init.push((players.last(), gi)),
            None => init,
        }
    }
}

/// The view of an optional shared team identifier.
pub open spec fn opt_key_view(o: Option<&String>) -> Option<Seq<char>> {
    match o {
        Some(s) => Some(s@),
        None => None,
    }
}

/// What a stored guess row holds, given its context: everything but the
/// row's own randomly drawn identifier is a function of the payload.
pub open spec fn guess_row_ok(
    row: GuessRow,
    game_id: Seq<char>,
    round_id: Seq<char>,
    round_cc_upper: Seq<char>,
    team_key_view: Option<Seq<char>>,
    start_millis: int,
    max_dist: int,
    p: DuelsPlayerInput,
    gi: DuelsGuessInput,
) -> bool {
    &&& row.game_id@ == game_id
    &&& row.round_id@ == round_id
    &&& row.team_id@ == (match team_key_view {
        Some(t) => t,
        None => p.player_id@,
    })
    &&& row.lat_micro == gi.lat_micro
    &&& row.lng_micro == gi.lng_micro
    &&& row.score as int == (match gi.score {
        Some(s) => s as int,
        None => spec_score(gi.distance_m as int, max_dist),
    })
    &&& utc_millis_of(gi.created@) matches Some(gms) ==> {
        &&& row.date_millis == gms
        &&& row.time matches Some(t) && t as int == elapsed_seconds(gms as int, start_millis)
    }
    &&& row.distance_m == gi.distance_m
    &&& row.country_code.deep_view() == spec_resolve_country(gi.country_candidates.deep_view())
    &&& row.subdivision_code.deep_view() == spec_resolve_subdivision(
        gi.subdivision_candidates.deep_view(),
    )
    &&& row.round_country_code@ == round_cc_upper
    &&& row.is_teams_best == gi.is_teams_best_guess_on_round
}

/// Whether some answer of round `ri` in this team carries a timestamp the
/// clock cannot parse.
pub open spec fn team_has_bad_timestamp(players: Seq<DuelsPlayerInput>, ri: int) -> bool {
    exists|k: int|
        0 <= k < team_pairs(players, ri).len() && utc_millis_of(
            (#[trigger] team_pairs(players, ri)[k]).1.created@,
        ) is None
}

/// Finds the player's first answer for round `ri`.
fn find_guess(gs: &Vec<DuelsGuessInput>, ri: usize) -> (r: Option<usize>)
    requires
        ri < i32::MAX as usize,
    ensures
        match r {
            Some(j) => j < gs@.len() && first_guess_for(gs@, ri as int) == Some(gs@[j as int]),
            None => first_guess_for(gs@, ri as int) is None,
        },
{
    let mut j: usize = 0;
    while j < gs.len()
        invariant
            j <= gs@.len(),
            ri < i32::MAX as usize,
            first_guess_for(gs@, ri as int) == first_guess_from(gs@, ri as int, j as int),
        decreases gs@.len() - j,
    {
        let rn = gs[j].round_number;
        if rn >= 1 && (rn as usize) == ri + 1 {
            proof {
                assert(first_guess_from(gs@, ri as int, j as int) == Some(gs@[j as int]));
            }
            return Some(j);
        }
        proof {
            assert(gs@[j as int].round_number != ri + 1);
            assert(first_guess_from(gs@, ri as int, j as int) == first_guess_from(
                gs@,
                ri as int,
                j + 1,
            ));
        }
        j = j + 1;
    }
    None
}

/// Builds the guess rows one team contributes to one round: one row per
/// player that answered it, in payload order. Fails only on an answer
/// whose timestamp does not parse.
#[verifier::rlimit(30)]
fn build_team_guesses(
    players: &Vec<DuelsPlayerInput>,
    game_id: &String,
    round_id: &String,
    round_cc_upper: &String,
    team_key_opt: Option<&String>,
    start_millis: i64,
    max_dist: u64,
    ri: usize,
) -> (r: Result<Vec<GuessRow>, IngestError>)
    requires
        max_dist >= 1,
        ri < i32::MAX as usize,
    ensures
        (r is Err) == team_has_bad_timestamp(players@, ri as int),
        r matches Err(e) ==> e matches IngestError::UpstreamFetchFailure(_),
        r matches Ok(v) ==> {
            &&& v@.len() == team_pairs(players@, ri as int).len()
            &&& forall|k: int|
                0 <= k < v@.len() ==> guess_row_ok(
                    #[trigger] v@[k],
                    game_id@,
                    round_id@,
                    round_cc_upper@,
                    opt_key_view(team_key_opt),
                    start_millis as int,
                    max_dist as int,
                    team_pairs(players@, ri as int)[k].0,
                    team_pairs(players@, ri as int)[k].1,
                )
        },
{
    let mut out: Vec<GuessRow> = Vec::new();
    let mut pi: usize = 0;
    proof {
        assert(players@.subrange(0, 0) =~= Seq::<DuelsPlayerInput>::empty());
    }
    while pi < players.len()
        invariant
            pi <= players@.len(),
            max_dist >= 1,
            ri < i32::MAX as usize,
            out@.len() == team_pairs(players@.subrange(0, pi as int), ri as int).len(),
            !team_has_bad_timestamp(players@.subrange(0, pi as int), ri as int),
            forall|k: int|
                0 <= k < out@.len() ==> guess_row_ok(
                    #[trigger] out@[k],
                    game_id@,
                    round_id@,
                    round_cc_upper@,
                    opt_key_view(team_key_opt),
                    start_millis as int,
                    max_dist as int,
                    team_pairs(players@.subrange(0, pi as int), ri as int)[k].0,
                    team_pairs(players@.subrange(0, pi as int), ri as int)[k].1,
                ),
        decreases players@.len() - pi,
    {
        let ghost prefix = players@.subrange(0, pi as int);
        let ghost prefix1 = players@.subrange(0, pi + 1);
        proof {
            assert(prefix1.drop_last() =~= prefix);
            assert(prefix1.last() == players@[pi as int]);
        }
        let p = &players[pi];
        match find_guess(&p.guesses, ri) {
            Some(j) => {
                let gi = &p.guesses[j];
                let gms = match parse_utc_millis(gi.created.as_str()) {
                    Some(m) => m,
                    None => {
                        proof {
                            let pairs1 = team_pairs(prefix1, ri as int);
                            assert(pairs1.last() == (players@[pi as int], p.guesses@[j as int]));
                            assert(team_has_bad_timestamp(prefix1, ri as int));
                            lemma_bad_timestamp_extends(players@, pi + 1, ri as int);
                        }
                        return Err(
                            IngestError::UpstreamFetchFailure(
                                "a guess carries a timestamp that does not parse".to_owned(),
                            ),
                        );
                    },
                };
                let team_id: String = match team_key_opt {
                    Some(t) => t.clone(),
                    None => p.player_id.clone(),
                };
                let score: i32 = match gi.score {
                    Some(s) => s,
                    None => calculate_score(gi.distance_m, max_dist),
                };
                let row = GuessRow {
                    id: new_uuid(),
                    game_id: game_id.clone(),
                    round_id: round_id.clone(),
                    team_id,
                    lat_micro: gi.lat_micro,
                    lng_micro: gi.lng_micro,
                    score,
                    time: Some(elapsed_secs(gms, start_millis)),
                    date_millis: gms,
                    distance_m: gi.distance_m,
                    country_code: resolve_country(&gi.country_candidates),
                    subdivision_code: resolve_subdivision(&gi.subdivision_candidates),
                    round_country_code: round_cc_upper.clone(),
                    is_teams_best: gi.is_teams_best_guess_on_round,
                };
                out.push(row);
                proof {
                    assert(team_pairs(prefix1, ri as int) =~= team_pairs(prefix, ri as int).push(
                        (players@[pi as int], p.guesses@[j as int]),
                    ));
                }
            },
            None => {
                proof {
                    assert(team_pairs(prefix1, ri as int) =~= team_pairs(prefix, ri as int));
                }
            },
        }
        pi = pi + 1;
    }
    proof {
        assert(players@.subrange(0, players@.len() as int) =~= players@);
    }
    Ok(out)
}

/// Whether a round was actually played: rounds beyond the match's recorded
/// progress are excluded.
pub open spec fn is_completed(g: DuelsGameInput, r: RoundInput) -> bool {
    r.round_number <= g.current_round_number
}

/// The completion test as a relation value, applied when filtering.
pub open spec fn completed_pred(g: DuelsGameInput) -> spec_fn(RoundInput) -> bool {
    |r: RoundInput| is_completed(g, r)
}

/// The completed rounds among the first `i` of the payload, in order.
pub open spec fn completed_prefix(g: DuelsGameInput, i: int) -> Seq<RoundInput> {
    g.rounds@.subrange(0, i).filter(completed_pred(g))
}

/// Each prefix of the payload contributes a prefix of the completed
/// rounds.
pub proof fn lemma_completed_prefix_extends(g: DuelsGameInput, i: int, j: int)
    requires
        0 <= i <= j <= g.rounds@.len(),
    ensures
        completed_prefix(g, i).len() <= completed_prefix(g, j).len(),
        forall|k: int|
            0 <= k < completed_prefix(g, i).len() ==> #[trigger] completed_prefix(g, j)[k]
                == completed_prefix(g, i)[k],
    decreases j - i,
{
    if i < j {
        reveal(Seq::filter);
        lemma_completed_prefix_extends(g, i, j - 1);
        assert(g.rounds@.subrange(0, j).drop_last() =~= g.rounds@.subrange(0, j - 1));
        assert(g.rounds@.subrange(0, j).last() == g.rounds@[j - 1]);
        if completed_pred(g)(g.rounds@[j - 1]) {
            assert(completed_prefix(g, j) == completed_prefix(g, j - 1).push(g.rounds@[j - 1]));
        } else {
            assert(completed_prefix(g, j) == completed_prefix(g, j - 1));
        }
    }
}

/// The completed rounds of the match, in order.
pub open spec fn completed_rounds(g: DuelsGameInput) -> Seq<RoundInput> {
    completed_prefix(g, g.rounds@.len() as int)
}

/// The mode of the match, from its team sizes and ranked flag.
pub open spec fn mode_of(g: DuelsGameInput) -> TeamGameMode {
    spec_game_mode(g.teams@[0].players@.len() as int, g.teams@[1].players@.len() as int, g.is_rated)
}

/// The team identifier stored with a guess of side `ti`: the player's own
/// id in one-against-one modes, the canonical team identifier otherwise.
pub open spec fn team_key_view_for(g: DuelsGameInput, ti: int) -> Option<Seq<char>> {
    match mode_of(g) {
        TeamGameMode::Duels | TeamGameMode::DuelsRanked => None,
        _ => Some(canon_team_id(team_member_ids(g.teams@[ti].players@))),
    }
}

/// The divisor of the score curve: the map's corner-to-corner distance,
/// never less than one meter.
pub open spec fn eff_max_distance(g: DuelsGameInput) -> int {
    if g.max_map_distance_m == 0 {
        1
    } else {
        g.max_map_distance_m as int
    }
}

/// The instant a completed round started, in milliseconds.
pub open spec fn round_start_millis(rin: RoundInput) -> int {
    utc_millis_of((rin.start_time->0)@)->0 as int
}

/// The answers to round `ri`, each tagged with its side, first side then
/// second, each side in payload order.
pub open spec fn round_pairs(g: DuelsGameInput, ri: int) -> Seq<
    (int, (DuelsPlayerInput, DuelsGuessInput)),
> {
    team_pairs(g.teams@[0].players@, ri).map_values(
        |q: (DuelsPlayerInput, DuelsGuessInput)| (0int, q),
    ) + team_pairs(g.teams@[1].players@, ri).map_values(
        |q: (DuelsPlayerInput, DuelsGuessInput)| (1int, q),
    )
}

/// The answers to the first `n` completed rounds, tagged with the round
/// index and the side, in storage order.
pub open spec fn all_pairs(g: DuelsGameInput, n: int) -> Seq<
    (int, (int, (DuelsPlayerInput, DuelsGuessInput))),
>
    decreases n,
{
    if n <= 0 {
        Seq::empty()
    } else {
        all_pairs(g, n - 1) + round_pairs(g, n - 1).map_values(
            |q: (int, (DuelsPlayerInput, DuelsGuessInput))| (n - 1, q),
        )
    }
}

/// Every tagged answer names a round below `n` and a side below two.
pub proof fn lemma_all_pairs_range(g: DuelsGameInput, n: int)
    ensures
        forall|k: int|
            0 <= k < all_pairs(g, n).len() ==> {
                &&& 0 <= (#[trigger] all_pairs(g, n)[k]).0 < n
                &&& 0 <= all_pairs(g, n)[k].1.0 < 2
            },
    decreases n,
{
    if n > 0 {
        lemma_all_pairs_range(g, n - 1);
        assert forall|k: int|
            0 <= k < all_pairs(g, n).len() implies {
            &&& 0 <= (#[trigger] all_pairs(g, n)[k]).0 < n
            &&& 0 <= all_pairs(g, n)[k].1.0 < 2
        } by {
            let prev = all_pairs(g, n - 1);
            if k >= prev.len() {
                let rp = round_pairs(g, n - 1);
                let tp0 = team_pairs(g.teams@[0].players@, n - 1).map_values(
                    |q: (DuelsPlayerInput, DuelsGuessInput)| (0int, q),
                );
                let tp1 = team_pairs(g.teams@[1].players@, n - 1).map_values(
                    |q: (DuelsPlayerInput, DuelsGuessInput)| (1int, q),
                );
                assert(rp[k - prev.len()] == if k - prev.len() < tp0.len() {
                    tp0[k - prev.len()]
                } else {
                    tp1[k - prev.len() - tp0.len()]
                });
            }
        }
    }
}

/// Whether a completed round blocks assembly: its start is missing or
/// unparseable, or one of its answers carries an unparseable timestamp.
pub open spec fn round_broken(g: DuelsGameInput, rin: RoundInput, ri: int) -> bool {
    ||| rin.start_time is None
    ||| utc_millis_of((rin.start_time->0)@) is None
    ||| team_has_bad_timestamp(g.teams@[0].players@, ri)
    ||| team_has_bad_timestamp(g.teams@[1].players@, ri)
}

/// Whether a finished match's payload cannot be assembled: the wrong team
/// shape, no rounds, a missing first start time, an unstorable round
/// count, or a broken completed round.
pub open spec fn duels_malformed(g: DuelsGameInput) -> bool {
    ||| g.teams@.len() != 2
    ||| g.teams@[0].players@.len() == 0
    ||| g.teams@[1].players@.len() == 0
    ||| g.rounds@.len() == 0
    ||| g.rounds@.len() > i32::MAX as int
    ||| g.rounds@[0].start_time is None
    ||| exists|ri: int|
        0 <= ri < completed_rounds(g).len() && round_broken(
            g,
            #[trigger] completed_rounds(g)[ri],
            ri,
        )
}

/// The pre-match ratings stored for a one-against-one match: each team's
/// own rating before the match, taken from its own progress report, and
/// present only when both sides carry one.
pub open spec fn duels_rating_befores(g: DuelsGameInput) -> (Option<i32>, Option<i32>) {
    match (g.teams@[0].players@[0].progress_change, g.teams@[1].players@[0].progress_change) {
        (Some(p1), Some(p2)) => match (p1.ranked_system_progress, p2.ranked_system_progress) {
            (Some(r1), Some(r2)) => (r1.rating_before, r2.rating_before),
            _ => (None, None),
        },
        _ => (None, None),
    }
}

/// The pre-match ratings stored for a ranked team match: each team's own
/// rating before the match, from its own ranked-team progress report.
pub open spec fn team_rating_befores(g: DuelsGameInput) -> (Option<i32>, Option<i32>) {
    match (g.teams@[0].players@[0].progress_change, g.teams@[1].players@[0].progress_change) {
        (Some(p1), Some(p2)) => match (
            p1.ranked_team_duels_progress,
            p2.ranked_team_duels_progress,
        ) {
            (Some(r1), Some(r2)) => (r1.rating_before, r2.rating_before),
            _ => (None, None),
        },
        _ => (None, None),
    }
}

/// What the match row holds: identifiers, team identities by mode, team
/// healths, the classified modes, the first round's start text, the map,
/// and the mode-dependent pre-match ratings.
pub open spec fn game_row_ok(row: DuelsGameRow, g: DuelsGameInput) -> bool {
    let mode = mode_of(g);
    &&& row.id@ == g.game_id@
    &&& (match mode {
        TeamGameMode::Duels | TeamGameMode::DuelsRanked => {
            &&& row.team_id1@ == g.teams@[0].players@[0].player_id@
            &&& row.team_id2@ == g.teams@[1].players@[0].player_id@
        },
        _ => {
            &&& row.team_id1@ == canon_team_id(team_member_ids(g.teams@[0].players@))
            &&& row.team_id2@ == canon_team_id(team_member_ids(g.teams@[1].players@))
        },
    })
    &&& row.health_team1 == g.teams@[0].health
    &&& row.health_team2 == g.teams@[1].health
    &&& row.team_game_mode == mode
    &&& row.geo_mode == spec_geo_mode(g.movement_options)
    &&& row.start_time@ == (g.rounds@[0].start_time->0)@
    &&& row.map_id@ == g.map_slug@
    &&& (match mode {
        TeamGameMode::Duels | TeamGameMode::DuelsRanked => (row.rating_before_team1,
        row.rating_before_team2) == duels_rating_befores(g),
        TeamGameMode::TeamDuelsRanked => (row.rating_before_team1, row.rating_before_team2)
            == team_rating_befores(g),
        _ => row.rating_before_team1 is None && row.rating_before_team2 is None,
    })
}

/// What a round row holds, besides its own randomly drawn identifier.
pub open spec fn round_row_ok(row: DuelsRoundRow, g: DuelsGameInput, rin: RoundInput, ri: int) -> bool {
    &&& row.game_id@ == g.game_id@
    &&& row.location_id@ == rin.panorama.pano_id@
    &&& row.round_country_code@ == upper_seq(rin.panorama.country_code@)
    &&& row.round_number as int == ri
    &&& row.damage_multiplier_micro == rin.damage_multiplier_micro
}

/// What a location row holds: the target's own data, its country code
/// upper-cased, and its subdivision resolved from the candidates.
pub open spec fn location_row_ok(row: LocationRow, rin: RoundInput) -> bool {
    &&& row.id@ == rin.panorama.pano_id@
    &&& row.lat_micro == rin.panorama.lat_micro
    &&& row.lng_micro == rin.panorama.lng_micro
    &&& row.heading_micro == rin.panorama.heading_micro
    &&& row.pitch_micro == rin.panorama.pitch_micro
    &&& row.zoom_micro == rin.panorama.zoom_micro
    &&& row.country_code@ == upper_seq(rin.panorama.country_code@)
    &&& row.subdivision_code.deep_view() == spec_resolve_subdivision(
        rin.panorama.subdivision_candidates.deep_view(),
    )
}

/// What the map row holds: the slug, the name, the bounding corners and
/// the map's own maximum distance.
pub open spec fn map_row_ok(row: MapRow, g: DuelsGameInput) -> bool {
    &&& row.id@ == g.map_slug@
    &&& row.name@ == g.map_name@
    &&& row.lat1_micro == g.bounds_min_lat_micro
    &&& row.lng1_micro == g.bounds_min_lng_micro
    &&& row.lat2_micro == g.bounds_max_lat_micro
    &&& row.lng2_micro == g.bounds_max_lng_micro
    &&& row.max_distance == g.map_max_error_distance
}

/// A bad timestamp in some prefix of the team is a bad timestamp in the
/// whole team.
proof fn lemma_bad_timestamp_extends(players: Seq<DuelsPlayerInput>, n: int, ri: int)
    requires
        0 <= n <= players.len(),
        team_has_bad_timestamp(players.subrange(0, n), ri),
    ensures
        team_has_bad_timestamp(players, ri),
    decreases players.len() - n,
{
    if n == players.len() {
        assert(players.subrange(0, n) =~= players);
    } else {
        let prefix = players.subrange(0, n);
        let prefix1 = players.subrange(0, n + 1);
        assert(prefix1.drop_last() =~= prefix);
        let k = choose|k: int|
            0 <= k < team_pairs(prefix, ri).len() && utc_millis_of(
                (#[trigger] team_pairs(prefix, ri)[k]).1.created@,
            ) is None;
        match first_guess_for(prefix1.last().guesses@, ri) {
            Some(gi) => {
                assert(team_pairs(prefix1, ri)[k] == team_pairs(prefix, ri)[k]);
            },
            None => {
                assert(team_pairs(prefix1, ri)[k] == team_pairs(prefix, ri)[k]);
            },
        }
        assert(team_has_bad_timestamp(prefix1, ri));
        lemma_bad_timestamp_extends(players, n + 1, ri);
    }
}

/// What a successful assembly pins down about the produced write-set:
/// every row of every table is a function of the payload and the enriched
/// rows handed in, except the randomly drawn row identifiers; the guesses
/// correspond index-by-index to the answers of the completed rounds in
/// storage order.
pub open spec fn assembled_write_set(
    data: GameData,
    g: DuelsGameInput,
    players: Vec<PlayerRow>,
    comp_teams: Vec<CompTeamRow>,
) -> bool {
    &&& game_row_ok(data.duels_game, g)
    &&& data.rounds@.len() == completed_rounds(g).len()
    &&& forall|ri: int|
        0 <= ri < data.rounds@.len() ==> round_row_ok(
            #[trigger] data.rounds@[ri],
            g,
            completed_rounds(g)[ri],
            ri,
        )
    &&& data.locations@.len() == completed_rounds(g).len()
    &&& forall|ri: int|
        0 <= ri < data.locations@.len() ==> location_row_ok(
            #[trigger] data.locations@[ri],
            completed_rounds(g)[ri],
        )
    &&& data.guesses@.len() == all_pairs(
        g,
        completed_rounds(g).len() as int,
    ).len()
    &&& forall|k: int|
        0 <= k < data.guesses@.len() ==> {
            let e = #[trigger] all_pairs(
                g,
                completed_rounds(g).len() as int,
            )[k];
            guess_row_ok(
                data.guesses@[k],
                g.game_id@,
                data.rounds@[e.0].id@,
                upper_seq(completed_rounds(g)[e.0].panorama.country_code@),
                team_key_view_for(g, e.1.0),
                round_start_millis(completed_rounds(g)[e.0]),
                eff_max_distance(g),
                e.1.1.0,
                e.1.1.1,
            )
        }
    &&& map_row_ok(data.map, g)
    &&& data.players == players
    &&& data.comp_teams == comp_teams
    &&& (match mode_of(g) {
        TeamGameMode::TeamDuels | TeamGameMode::TeamFun => {
            &&& data.fun_teams@.len() == 2
            &&& data.fun_teams@[0].team_id@ == canon_team_id(
                team_member_ids(g.teams@[0].players@),
            )
            &&& data.fun_teams@[0].player_ids.deep_view() == team_member_ids(
                g.teams@[0].players@,
            )
            &&& data.fun_teams@[1].team_id@ == canon_team_id(
                team_member_ids(g.teams@[1].players@),
            )
            &&& data.fun_teams@[1].player_ids.deep_view() == team_member_ids(
                g.teams@[1].players@,
            )
        },
        _ => data.fun_teams@.len() == 0,
    })
}

/// Assembles the full write-set of one fetched duels match: validates that
/// the match finished, classifies its mode, derives team identities,
/// resolves every coordinate's candidates, computes elapsed times and
/// missing scores, and builds the match, round, location, guess, casual
/// team and map rows. Enriched player and rated-team rows are passed in
/// and embedded unchanged. Nothing is written anywhere.
#[verifier::rlimit(100)]
pub fn assemble_duels_game(
    game: &DuelsGameInput,
    players: Vec<PlayerRow>,
    comp_teams: Vec<CompTeamRow>,
) -> (r: Result<GameData, IngestError>)
    ensures
        (r == Err::<GameData, IngestError>(IngestError::NotFinished)) == (game.status@
            != "Finished"@),
        r matches Err(e) && (e matches IngestError::UpstreamFetchFailure(_)) ==> duels_malformed(
            *game,
        ) && game.status@ == "Finished"@,
        r matches Err(e) ==> (e matches IngestError::NotFinished || e matches
            IngestError::UpstreamFetchFailure(_)),
        r matches Ok(data) ==> {
            &&& game.status@ == "Finished"@
            &&& !duels_malformed(*game)
            &&& assembled_write_set(data, *game, players, comp_teams)
        },
{
    if !crate::lex::str_eq(game.status.as_str(), "Finished") {
        return Err(IngestError::NotFinished);
    }
    if game.teams.len() != 2 {
        return Err(
            IngestError::UpstreamFetchFailure("the match does not have two teams".to_owned()),
        );
    }
    if game.teams[0].players.len() == 0 || game.teams[1].players.len() == 0 {
        return Err(IngestError::UpstreamFetchFailure("a team has no players".to_owned()));
    }
    if game.rounds.len() == 0 {
        return Err(IngestError::UpstreamFetchFailure("the match has no rounds".to_owned()));
    }
    if game.rounds.len() > (i32::MAX as usize) {
        return Err(
            IngestError::UpstreamFetchFailure("the round count cannot be stored".to_owned()),
        );
    }
    let start_time_text: String = match &game.rounds[0].start_time {
        None => {
            return Err(
                IngestError::UpstreamFetchFailure("the first round has no start time".to_owned()),
            );
        },
        Some(st) => st.clone(),
    };
    let mode = get_game_mode(
        game.teams[0].players.len(),
        game.teams[1].players.len(),
        game.is_rated,
    );
    let gmode = get_geo_mode(&game.movement_options);
    let tkey1 = team_key(&game.teams[0].players);
    let tkey2 = team_key(&game.teams[1].players);
    proof {
        assert(mode == mode_of(*game));
    }
    let is_duel_mode: bool = match mode {
        TeamGameMode::Duels | TeamGameMode::DuelsRanked => true,
        _ => false,
    };
    let (game_team_id1, game_team_id2): (String, String) = if is_duel_mode {
        (game.teams[0].players[0].player_id.clone(), game.teams[1].players[0].player_id.clone())
    } else {
        (tkey1.clone(), tkey2.clone())
    };
    let (rb1, rb2): (Option<i32>, Option<i32>) = match mode {
        TeamGameMode::Duels | TeamGameMode::DuelsRanked => {
            match (&game.teams[0].players[0].progress_change, &game.teams[1].players[0].progress_change) {
                (Some(p1), Some(p2)) => match (&p1.ranked_system_progress, &p2.ranked_system_progress) {
                    (Some(r1), Some(r2)) => (r1.rating_before, r2.rating_before),
                    _ => (None, None),
                },
                _ => (None, None),
            }
        },
        TeamGameMode::TeamDuelsRanked => {
            match (&game.teams[0].players[0].progress_change, &game.teams[1].players[0].progress_change) {
                (Some(p1), Some(p2)) => match (
                    &p1.ranked_team_duels_progress,
                    &p2.ranked_team_duels_progress,
                ) {
                    (Some(r1), Some(r2)) => (r1.rating_before, r2.rating_before),
                    _ => (None, None),
                },
                _ => (None, None),
            }
        },
        _ => (None, None),
    };
    let duels_game = DuelsGameRow {
        id: game.game_id.clone(),
        team_id1: game_team_id1,
        team_id2: game_team_id2,
        health_team1: game.teams[0].health,
        health_team2: game.teams[1].health,
        team_game_mode: mode,
        geo_mode: gmode,
        start_time: start_time_text,
        map_id: game.map_slug.clone(),
        rating_before_team1: rb1,
        rating_before_team2: rb2,
    };
    proof {
        assert(game_row_ok(duels_game, *game));
    }
    let fun_teams: Vec<FunTeamRow> = match mode {
        TeamGameMode::TeamDuels | TeamGameMode::TeamFun => {
            let t0 = build_fun_team_row(&game.teams[0].players);
            let t1 = build_fun_team_row(&game.teams[1].players);
            let v = vec![t0, t1];
            proof {
                assert(v@[0] == t0);
                assert(v@[1] == t1);
            }
            v
        },
        _ => Vec::new(),
    };
    let max_dist: u64 = if game.max_map_distance_m == 0 {
        1
    } else {
        game.max_map_distance_m
    };
    let mut rounds_v: Vec<DuelsRoundRow> = Vec::new();
    let mut locations_v: Vec<LocationRow> = Vec::new();
    let mut guesses_v: Vec<GuessRow> = Vec::new();
    let mut i: usize = 0;
    proof {
        reveal(Seq::filter);
        assert(game.rounds@.subrange(0, 0) =~= Seq::<RoundInput>::empty());
        assert(completed_prefix(*game, 0) =~= Seq::<RoundInput>::empty());
        assert(all_pairs(*game, 0) =~= Seq::<(int, (int, (DuelsPlayerInput, DuelsGuessInput)))>::empty());
    }
    while i < game.rounds.len()
        invariant
            i <= game.rounds@.len(),
            game.rounds@.len() <= i32::MAX as int,
            game.status@ == "Finished"@,
            game.teams@.len() == 2,
            game.teams@[0].players@.len() > 0,
            game.teams@[1].players@.len() > 0,
            game.rounds@.len() > 0,
            game.rounds@[0].start_time is Some,
            max_dist >= 1,
            max_dist as int == eff_max_distance(*game),
            mode == mode_of(*game),
            is_duel_mode == (mode_of(*game) == TeamGameMode::Duels || mode_of(*game)
                == TeamGameMode::DuelsRanked),
            tkey1@ == canon_team_id(team_member_ids(game.teams@[0].players@)),
            tkey2@ == canon_team_id(team_member_ids(game.teams@[1].players@)),
            rounds_v@.len() == completed_prefix(*game, i as int).len(),
            locations_v@.len() == completed_prefix(*game, i as int).len(),
            forall|ri: int|
                0 <= ri < rounds_v@.len() ==> round_row_ok(
                    #[trigger] rounds_v@[ri],
                    *game,
                    completed_prefix(*game, i as int)[ri],
                    ri,
                ),
            forall|ri: int|
                0 <= ri < locations_v@.len() ==> location_row_ok(
                    #[trigger] locations_v@[ri],
                    completed_prefix(*game, i as int)[ri],
                ),
            forall|ri: int|
                0 <= ri < rounds_v@.len() ==> !round_broken(
                    *game,
                    #[trigger] completed_prefix(*game, i as int)[ri],
                    ri,
                ),
            guesses_v@.len() == all_pairs(*game, rounds_v@.len() as int).len(),
            forall|k: int|
                0 <= k < guesses_v@.len() ==> {
                    let e = #[trigger] all_pairs(*game, rounds_v@.len() as int)[k];
                    guess_row_ok(
                        guesses_v@[k],
                        game.game_id@,
                        rounds_v@[e.0].id@,
                        upper_seq(completed_prefix(*game, i as int)[e.0].panorama.country_code@),
                        team_key_view_for(*game, e.1.0),
                        round_start_millis(completed_prefix(*game, i as int)[e.0]),
                        eff_max_distance(*game),
                        e.1.1.0,
                        e.1.1.1,
                    )
                },
        decreases game.rounds@.len() - i,
    {
        let ghost cp = completed_prefix(*game, i as int);
        let ghost cp1 = completed_prefix(*game, i + 1);
        proof {
            reveal(Seq::filter);
            assert(game.rounds@.subrange(0, i + 1).drop_last() =~= game.rounds@.subrange(
                0,
                i as int,
            ));
            assert(game.rounds@.subrange(0, i + 1).last() == game.rounds@[i as int]);
            if completed_pred(*game)(game.rounds@[i as int]) {
                assert(cp1 == cp.push(game.rounds@[i as int]));
            } else {
                assert(cp1 == cp);
            }
        }
        let rin = &game.rounds[i];
        if rin.round_number <= game.current_round_number {
            proof {
                assert(cp1 == cp.push(game.rounds@[i as int]));
                lemma_completed_prefix_extends(*game, i + 1, game.rounds@.len() as int);
            }
            let rc = rounds_v.len();
            let start_ms: i64 = match &rin.start_time {
                None => {
                    proof {
                        assert(round_broken(*game, completed_rounds(*game)[rc as int], rc as int));
                    }
                    return Err(
                        IngestError::UpstreamFetchFailure(
                            "a completed round has no start time".to_owned(),
                        ),
                    );
                },
                Some(st) => match parse_utc_millis(st.as_str()) {
                    None => {
                        proof {
                            assert(round_broken(
                                *game,
                                completed_rounds(*game)[rc as int],
                                rc as int,
                            ));
                        }
                        return Err(
                            IngestError::UpstreamFetchFailure(
                                "a round start time does not parse".to_owned(),
                            ),
                        );
                    },
                    Some(m) => m,
                },
            };
            let round_id = new_uuid();
            let round_cc_upper = to_ascii_upper(rin.panorama.country_code.as_str());
            let location = LocationRow {
                id: rin.panorama.pano_id.clone(),
                lat_micro: rin.panorama.lat_micro,
                lng_micro: rin.panorama.lng_micro,
                heading_micro: rin.panorama.heading_micro,
                pitch_micro: rin.panorama.pitch_micro,
                zoom_micro: rin.panorama.zoom_micro,
                country_code: round_cc_upper.clone(),
                subdivision_code: resolve_subdivision(&rin.panorama.subdivision_candidates),
            };
            locations_v.push(location);
            let round_row = DuelsRoundRow {
                id: round_id.clone(),
                game_id: game.game_id.clone(),
                location_id: rin.panorama.pano_id.clone(),
                round_country_code: round_cc_upper.clone(),
                round_number: rc as i32,
                damage_multiplier_micro: rin.damage_multiplier_micro,
            };
            let ghost old_rounds = rounds_v@;
            rounds_v.push(round_row);
            let tk_opt0: Option<&String> = if is_duel_mode {
                None
            } else {
                Some(&tkey1)
            };
            let mut g0 = match build_team_guesses(
                &game.teams[0].players,
                &game.game_id,
                &round_id,
                &round_cc_upper,
                tk_opt0,
                start_ms,
                max_dist,
                rc,
            ) {
                Ok(v) => v,
                Err(e) => {
                    proof {
                        assert(round_broken(*game, completed_rounds(*game)[rc as int], rc as int));
                    }
                    return Err(e);
                },
            };
            let tk_opt1: Option<&String> = if is_duel_mode {
                None
            } else {
                Some(&tkey2)
            };
            let mut g1 = match build_team_guesses(
                &game.teams[1].players,
                &game.game_id,
                &round_id,
                &round_cc_upper,
                tk_opt1,
                start_ms,
                max_dist,
                rc,
            ) {
                Ok(v) => v,
                Err(e) => {
                    proof {
                        assert(round_broken(*game, completed_rounds(*game)[rc as int], rc as int));
                    }
                    return Err(e);
                },
            };
            let ghost old_guesses = guesses_v@;
            let ghost s0 = g0@;
            let ghost s1 = g1@;
            guesses_v.append(&mut g0);
            guesses_v.append(&mut g1);
            proof {
                let tp0 = team_pairs(game.teams@[0].players@, rc as int);
                let tp1 = team_pairs(game.teams@[1].players@, rc as int);
                let rp = round_pairs(*game, rc as int);
                assert(rp.len() == tp0.len() + tp1.len());
                assert(all_pairs(*game, rc + 1) == all_pairs(*game, rc as int) + rp.map_values(
                    |q: (int, (DuelsPlayerInput, DuelsGuessInput))| (rc as int, q),
                ));
                assert(guesses_v@ =~= old_guesses + s0 + s1);
                assert(guesses_v@.len() == all_pairs(*game, rc + 1).len());
                assert(opt_key_view(tk_opt0) == team_key_view_for(*game, 0));
                assert(opt_key_view(tk_opt1) == team_key_view_for(*game, 1));
                assert(round_start_millis(cp1[rc as int]) == start_ms as int);
                assert forall|k: int| 0 <= k < guesses_v@.len() implies {
                    let e = #[trigger] all_pairs(*game, rc + 1)[k];
                    guess_row_ok(
                        guesses_v@[k],
                        game.game_id@,
                        rounds_v@[e.0].id@,
                        upper_seq(cp1[e.0].panorama.country_code@),
                        team_key_view_for(*game, e.1.0),
                        round_start_millis(cp1[e.0]),
                        eff_max_distance(*game),
                        e.1.1.0,
                        e.1.1.1,
                    )
                } by {
                    let e = all_pairs(*game, rc + 1)[k];
                    lemma_all_pairs_range(*game, rc + 1);
                    if k < old_guesses.len() {
                        assert(all_pairs(*game, rc + 1)[k] == all_pairs(*game, rc as int)[k]);
                        lemma_all_pairs_range(*game, rc as int);
                        assert(e.0 < rc);
                        assert(rounds_v@[e.0] == old_rounds[e.0]);
                        assert(cp1[e.0] == cp[e.0]);
                        assert(guesses_v@[k] == old_guesses[k]);
                    } else {
                        assert(e == (rc as int, rp[k - old_guesses.len()]));
                        assert(rounds_v@[rc as int].id@ == round_id@);
                        assert(cp1[rc as int] == game.rounds@[i as int]);
                        if k - old_guesses.len() < tp0.len() {
                            assert(rp[k - old_guesses.len()] == (0int, tp0[k - old_guesses.len()]));
                            assert(guesses_v@[k] == s0[k - old_guesses.len()]);
                        } else {
                            assert(rp[k - old_guesses.len()] == (
                                1int,
                                tp1[k - old_guesses.len() - tp0.len()],
                            ));
                            assert(guesses_v@[k] == s1[k - old_guesses.len() - tp0.len()]);
                        }
                    }
                }
            }
        }
        i = i + 1;
    }
    proof {
        assert(game.rounds@.subrange(0, game.rounds@.len() as int) =~= game.rounds@);
        assert(completed_prefix(*game, i as int) == completed_rounds(*game));
    }
    let map = MapRow {
        id: game.map_slug.clone(),
        name: game.map_name.clone(),
        lat1_micro: game.bounds_min_lat_micro,
        lng1_micro: game.bounds_min_lng_micro,
        lat2_micro: game.bounds_max_lat_micro,
        lng2_micro: game.bounds_max_lng_micro,
        max_distance: game.map_max_error_distance,
    };
    proof {
        assert(!duels_malformed(*game));
    }
    Ok(
        GameData {
            duels_game,
            rounds: rounds_v,
            guesses: guesses_v,
            locations: locations_v,
            players,
            comp_teams,
            fun_teams,
            map,
        },
    )
}

/// The stored date of a solo guess: the round's start plus the seconds the
/// player took, clamped to the storable range.
pub open spec fn solo_guess_date(start_millis: int, time_secs: int) -> int {
    let d = start_millis + time_secs * 1000;
    if d > i64::MAX as int {
        i64::MAX as int
    } else if d < i64::MIN as int {
        i64::MIN as int
    } else {
        d
    }
}

/// Computes the stored date of a solo guess.
fn solo_guess_date_millis(start_millis: i64, time_secs: i32) -> (r: i64)
    ensures
        r as int == solo_guess_date(start_millis as int, time_secs as int),
{
    let d: i128 = (start_millis as i128) + (time_secs as i128) * 1000;
    if d > i64::MAX as i128 {
        i64::MAX
    } else if d < i64::MIN as i128 {
        i64::MIN
    } else {
        d as i64
    }
}

/// The map's corner distance as a storable maximum distance.
pub open spec fn spec_diagonal_max_distance(diagonal_m: u64) -> int {
    if diagonal_m > i32::MAX as u64 {
        i32::MAX as int
    } else {
        diagonal_m as int
    }
}

/// Whether a solo round blocks assembly: its start is missing or does not
/// parse.
pub open spec fn solo_round_broken(rin: crate::payload::SoloRoundInput) -> bool {
    ||| rin.start_time is None
    ||| utc_millis_of((rin.start_time->0)@) is None
}

/// Whether a finished solo game's payload cannot be assembled: fewer
/// guesses than rounds, no rounds at all, an unstorable round count, or a
/// round whose start is missing or unparseable.
pub open spec fn solo_malformed(g: SoloGameInput) -> bool {
    ||| g.guesses@.len() < g.rounds@.len()
    ||| g.rounds@.len() == 0
    ||| g.rounds@.len() > i32::MAX as int
    ||| exists|ri: int| 0 <= ri < g.rounds@.len() && solo_round_broken(#[trigger] g.rounds@[ri])
}

/// The movement mode of a solo game, from its three restriction flags.
pub open spec fn solo_mode_of(g: SoloGameInput) -> GeoMode {
    spec_geo_mode(
        crate::modes::MovementOption {
            forbid_moving: g.forbid_moving,
            forbid_zooming: g.forbid_zooming,
            forbid_rotating: g.forbid_rotating,
        },
    )
}

/// What a solo location row holds.
pub open spec fn solo_location_row_ok(row: LocationRow, rin: crate::payload::SoloRoundInput) -> bool {
    &&& row.id@ == rin.pano_id@
    &&& row.lat_micro == rin.lat_micro
    &&& row.lng_micro == rin.lng_micro
    &&& row.heading_micro == rin.heading_micro
    &&& row.pitch_micro == rin.pitch_micro
    &&& row.zoom_micro == rin.zoom_micro
    &&& row.country_code@ == upper_seq(rin.streak_location_code@)
    &&& row.subdivision_code.deep_view() == spec_resolve_subdivision(
        rin.subdivision_candidates.deep_view(),
    )
}

/// What a solo guess row holds, besides its own randomly drawn
/// identifier: the requested game id, the player as its own team, the
/// reported score, the elapsed seconds and derived date, the resolved
/// country of the guess, and the round's own subdivision and country.
pub open spec fn solo_guess_row_ok(
    row: GuessRow,
    g: SoloGameInput,
    game_id: Seq<char>,
    round_id: Seq<char>,
    rin: crate::payload::SoloRoundInput,
    gi: crate::payload::SoloGuessInput,
) -> bool {
    &&& row.game_id@ == game_id
    &&& row.round_id@ == round_id
    &&& row.team_id@ == g.player_id@
    &&& row.lat_micro == gi.lat_micro
    &&& row.lng_micro == gi.lng_micro
    &&& row.score == gi.round_score_in_points
    &&& row.time == Some(gi.time)
    &&& row.date_millis as int == solo_guess_date(round_start_millis_solo(rin), gi.time as int)
    &&& row.distance_m == gi.distance_m
    &&& row.country_code.deep_view() == spec_resolve_country(gi.country_candidates.deep_view())
    &&& row.subdivision_code.deep_view() == spec_resolve_subdivision(
        rin.subdivision_candidates.deep_view(),
    )
    &&& row.round_country_code@ == upper_seq(rin.streak_location_code@)
    &&& row.is_teams_best == true
}

/// The instant a solo round started, in milliseconds.
pub open spec fn round_start_millis_solo(rin: crate::payload::SoloRoundInput) -> int {
    utc_millis_of((rin.start_time->0)@)->0 as int
}

/// What a solo round row holds, besides its own identifier.
pub open spec fn solo_round_row_ok(
    row: SoloRoundRow,
    g: SoloGameInput,
    rin: crate::payload::SoloRoundInput,
    ri: int,
) -> bool {
    &&& row.game_id@ == g.token@
    &&& row.location_id@ == rin.pano_id@
    &&& row.round_number as int == ri
}

/// What the solo game row holds.
pub open spec fn solo_game_row_ok(row: SoloGameRow, g: SoloGameInput) -> bool {
    &&& row.id@ == g.token@
    &&& row.player_id@ == g.player_id@
    &&& row.geo_mode == solo_mode_of(g)
    &&& row.start_time@ == (g.rounds@[0].start_time->0)@
    &&& row.map_id@ == g.map@
}

/// What the solo map row holds: the map's corner distance, clamped to a
/// storable value, stands in for its unknown maximum distance.
pub open spec fn solo_map_row_ok(row: MapRow, g: SoloGameInput) -> bool {
    &&& row.id@ == g.map@
    &&& row.name@ == g.map_name@
    &&& row.lat1_micro == g.bounds_min_lat_micro
    &&& row.lng1_micro == g.bounds_min_lng_micro
    &&& row.lat2_micro == g.bounds_max_lat_micro
    &&& row.lng2_micro == g.bounds_max_lng_micro
    &&& row.max_distance as int == spec_diagonal_max_distance(g.diagonal_m)
}

/// Assembles the full write-set of one fetched solo game: validates that
/// the game finished, derives the movement mode, resolves every
/// coordinate's candidates, and builds the game, round, guess, location
/// and map rows. The guesses answer the rounds in order, one per round.
/// An enriched player row, if any, is embedded unchanged.
#[verifier::rlimit(50)]
pub fn assemble_solo_game(
    game_id: &String,
    game: &SoloGameInput,
    player: Option<PlayerRow>,
) -> (r: Result<SoloGameData, IngestError>)
    ensures
        (r == Err::<SoloGameData, IngestError>(IngestError::NotFinished)) == (game.state@
            != "finished"@),
        r matches Err(e) && (e matches IngestError::UpstreamFetchFailure(_)) ==> solo_malformed(
            *game,
        ) && game.state@ == "finished"@,
        r matches Err(e) ==> (e matches IngestError::NotFinished || e matches
            IngestError::UpstreamFetchFailure(_)),
        r matches Ok(data) ==> {
            &&& game.state@ == "finished"@
            &&& !solo_malformed(*game)
            &&& solo_game_row_ok(data.solo_game, *game)
            &&& data.rounds@.len() == game.rounds@.len()
            &&& forall|ri: int|
                0 <= ri < data.rounds@.len() ==> solo_round_row_ok(
                    #[trigger] data.rounds@[ri],
                    *game,
                    game.rounds@[ri],
                    ri,
                )
            &&& data.locations@.len() == game.rounds@.len()
            &&& forall|ri: int|
                0 <= ri < data.locations@.len() ==> solo_location_row_ok(
                    #[trigger] data.locations@[ri],
                    game.rounds@[ri],
                )
            &&& data.guesses@.len() == game.rounds@.len()
            &&& forall|ri: int|
                0 <= ri < data.guesses@.len() ==> solo_guess_row_ok(
                    #[trigger] data.guesses@[ri],
                    *game,
                    game_id@,
                    data.rounds@[ri].id@,
                    game.rounds@[ri],
                    game.guesses@[ri],
                )
            &&& solo_map_row_ok(data.map, *game)
            &&& data.player == player
        },
{
    if !crate::lex::str_eq(game.state.as_str(), "finished") {
        return Err(IngestError::NotFinished);
    }
    if game.guesses.len() < game.rounds.len() {
        return Err(
            IngestError::UpstreamFetchFailure("the game has fewer guesses than rounds".to_owned()),
        );
    }
    if game.rounds.len() == 0 {
        return Err(IngestError::UpstreamFetchFailure("the game has no rounds".to_owned()));
    }
    if game.rounds.len() > (i32::MAX as usize) {
        return Err(
            IngestError::UpstreamFetchFailure("the round count cannot be stored".to_owned()),
        );
    }
    let start_time_text: String = match &game.rounds[0].start_time {
        None => {
            return Err(
                IngestError::UpstreamFetchFailure("the first round has no start time".to_owned()),
            );
        },
        Some(st) => st.clone(),
    };
    let gmode = get_geo_mode(
        &crate::modes::MovementOption {
            forbid_moving: game.forbid_moving,
            forbid_zooming: game.forbid_zooming,
            forbid_rotating: game.forbid_rotating,
        },
    );
    let solo_game = SoloGameRow {
        id: game.token.clone(),
        player_id: game.player_id.clone(),
        geo_mode: gmode,
        start_time: start_time_text,
        map_id: game.map.clone(),
    };
    let mut rounds_v: Vec<SoloRoundRow> = Vec::new();
    let mut locations_v: Vec<LocationRow> = Vec::new();
    let mut guesses_v: Vec<GuessRow> = Vec::new();
    let mut i: usize = 0;
    while i < game.rounds.len()
        invariant
            i <= game.rounds@.len(),
            game.state@ == "finished"@,
            game.rounds@.len() <= i32::MAX as int,
            game.guesses@.len() >= game.rounds@.len(),
            rounds_v@.len() == i,
            locations_v@.len() == i,
            guesses_v@.len() == i,
            forall|ri: int|
                0 <= ri < i ==> solo_round_row_ok(
                    #[trigger] rounds_v@[ri],
                    *game,
                    game.rounds@[ri],
                    ri,
                ),
            forall|ri: int|
                0 <= ri < i ==> solo_location_row_ok(
                    #[trigger] locations_v@[ri],
                    game.rounds@[ri],
                ),
            forall|ri: int|
                0 <= ri < i ==> solo_guess_row_ok(
                    #[trigger] guesses_v@[ri],
                    *game,
                    game_id@,
                    rounds_v@[ri].id@,
                    game.rounds@[ri],
                    game.guesses@[ri],
                ),
            forall|ri: int| 0 <= ri < i ==> !solo_round_broken(#[trigger] game.rounds@[ri]),
        decreases game.rounds@.len() - i,
    {
        let rin = &game.rounds[i];
        let gi = &game.guesses[i];
        let start_ms: i64 = match &rin.start_time {
            None => {
                proof {
                    assert(solo_round_broken(game.rounds@[i as int]));
                }
                return Err(
                    IngestError::UpstreamFetchFailure("a round has no start time".to_owned()),
                );
            },
            Some(st) => match parse_utc_millis(st.as_str()) {
                None => {
                    proof {
                        assert(solo_round_broken(game.rounds@[i as int]));
                    }
                    return Err(
                        IngestError::UpstreamFetchFailure(
                            "a round start time does not parse".to_owned(),
                        ),
                    );
                },
                Some(m) => m,
            },
        };
        let round_id = new_uuid();
        let guess_id = new_uuid();
        let round_cc_upper = to_ascii_upper(rin.streak_location_code.as_str());
        let location = LocationRow {
            id: rin.pano_id.clone(),
            lat_micro: rin.lat_micro,
            lng_micro: rin.lng_micro,
            heading_micro: rin.heading_micro,
            pitch_micro: rin.pitch_micro,
            zoom_micro: rin.zoom_micro,
            country_code: round_cc_upper.clone(),
            subdivision_code: resolve_subdivision(&rin.subdivision_candidates),
        };
        locations_v.push(location);
        let guess = GuessRow {
            id: guess_id,
            game_id: game_id.clone(),
            round_id: round_id.clone(),
            team_id: game.player_id.clone(),
            lat_micro: gi.lat_micro,
            lng_micro: gi.lng_micro,
            score: gi.round_score_in_points,
            time: Some(gi.time),
            date_millis: solo_guess_date_millis(start_ms, gi.time),
            distance_m: gi.distance_m,
            country_code: resolve_country(&gi.country_candidates),
            subdivision_code: resolve_subdivision(&rin.subdivision_candidates),
            round_country_code: round_cc_upper,
            is_teams_best: true,
        };
        guesses_v.push(guess);
        let round_row = SoloRoundRow {
            id: round_id,
            game_id: game.token.clone(),
            location_id: rin.pano_id.clone(),
            round_number: i as i32,
        };
        rounds_v.push(round_row);
        i = i + 1;
    }
    let diagonal: i32 = if game.diagonal_m > (i32::MAX as u64) {
        i32::MAX
    } else {
        game.diagonal_m as i32
    };
    let map = MapRow {
        id: game.map.clone(),
        name: game.map_name.clone(),
        lat1_micro: game.bounds_min_lat_micro,
        lng1_micro: game.bounds_min_lng_micro,
        lat2_micro: game.bounds_max_lat_micro,
        lng2_micro: game.bounds_max_lng_micro,
        max_distance: diagonal,
    };
    Ok(
        SoloGameData {
            solo_game,
            rounds: rounds_v,
            guesses: guesses_v,
            locations: locations_v,
            player,
            map,
        },
    )
}

} // verus!
