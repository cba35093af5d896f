//! Batched ingestion: choosing which recently played matches to ingest,
//! dropping the ones already stored, and merging the per-match write-sets
//! into one batch with duplicate reference rows removed.

use vstd::prelude::*;
use crate::dedup::{remove_duplicates, spec_dedup};
use crate::lex::str_eq;
use crate::rows::{
    CompTeamRow, DuelsGameRow, DuelsRoundRow, FunTeamRow, GameData, GamesData, GuessRow,
    LocationRow, MapRow, PlayerRow,
};

verus! {

/// How many matches one batched ingestion will fetch at most.
pub const REQUEST_CHUNK_SIZE: usize = 50;

/// One candidate match from a player's recent-games feed.
#[derive(Debug, Clone, PartialEq, Eq)]
pub struct GameCandidate {
    pub game_mode: String,
    pub game_id: String,
}

/// Whether a candidate is ingestible: live-challenge entries are not.
pub open spec fn ingestible(c: GameCandidate) -> bool {
    c.game_mode@ != "LiveChallenge"@
}

/// The ingestibility test as a relation value, applied when filtering.
pub open spec fn ingestible_pred() -> spec_fn(GameCandidate) -> bool {
    |c: GameCandidate| ingestible(c)
}

/// The ids of the ingestible candidates among the first `i`, in order.
pub open spec fn ingestible_prefix(s: Seq<GameCandidate>, i: int) -> Seq<Seq<char>> {
    s.subrange(0, i).filter(ingestible_pred()).map_values(|c: GameCandidate| c.game_id@)
}

/// The ids a batch will fetch: the ingestible candidates in feed order,
/// capped at the chunk size.
pub open spec fn spec_selected_ids(s: Seq<GameCandidate>) -> Seq<Seq<char>> {
    let all = ingestible_prefix(s, s.len() as int);
    if all.len() > REQUEST_CHUNK_SIZE as int {
        all.subrange(0, REQUEST_CHUNK_SIZE as int)
    } else {
        all
    }
}

/// Longer candidate prefixes keep earlier ingestible ids in place.
proof fn lemma_ingestible_prefix_extends(s: Seq<GameCandidate>, i: int, j: int)
    requires
        0 <= i <= j <= s.len(),
    ensures
        ingestible_prefix(s, i).len() <= ingestible_prefix(s, j).len(),
        forall|k: int|
            0 <= k < ingestible_prefix(s, i).len() ==> #[trigger] ingestible_prefix(s, j)[k]
                == ingestible_prefix(s, i)[k],
    decreases j - i,
{
    if i < j {
        reveal(Seq::filter);
        lemma_ingestible_prefix_extends(s, i, j - 1);
        assert(s.subrange(0, j).drop_last() =~= s.subrange(0, j - 1));
        assert(s.subrange(0, j).last() == s[j - 1]);
        if ingestible_pred()(s[j - 1]) {
            assert(s.subrange(0, j).filter(ingestible_pred()) == s.subrange(0, j - 1).filter(
                ingestible_pred(),
            ).push(s[j - 1]));
        } else {
            assert(s.subrange(0, j).filter(ingestible_pred()) == s.subrange(0, j - 1).filter(
                ingestible_pred(),
            ));
        }
        assert forall|k: int| 0 <= k < ingestible_prefix(s, i).len() implies #[trigger]
            ingestible_prefix(s, j)[k] == ingestible_prefix(s, i)[k] by {
            assert(ingestible_prefix(s, j - 1)[k] == ingestible_prefix(s, i)[k]);
            assert(s.subrange(0, j).filter(ingestible_pred())[k] == s.subrange(0, j - 1).filter(
                ingestible_pred(),
            )[k]);
        }
    }
}

/// Chooses the ids a batch will fetch: ingestible candidates in feed
/// order, at most one chunk of them.
pub fn select_game_ids(candidates: &Vec<GameCandidate>) -> (r: Vec<String>)
    ensures
        r.deep_view() == spec_selected_ids(candidates@),
{
    let mut out: Vec<String> = Vec::new();
    let mut i: usize = 0;
    proof {
        reveal(Seq::filter);
        assert(candidates@.subrange(0, 0) =~= Seq::<GameCandidate>::empty());
        assert(out.deep_view() =~= ingestible_prefix(candidates@, 0));
    }
    while i < candidates.len() && out.len() < REQUEST_CHUNK_SIZE
        invariant
            i <= candidates@.len(),
            out@.len() <= REQUEST_CHUNK_SIZE as int,
            out.deep_view() == ingestible_prefix(candidates@, i as int),
            out@.len() < REQUEST_CHUNK_SIZE as int || ingestible_prefix(candidates@, i as int).len()
                >= REQUEST_CHUNK_SIZE as int,
        decreases candidates@.len() - i,
    {
        let ghost pre = ingestible_prefix(candidates@, i as int);
        proof {
            reveal(Seq::filter);
            assert(candidates@.subrange(0, i + 1).drop_last() =~= candidates@.subrange(
                0,
                i as int,
            ));
            assert(candidates@.subrange(0, i + 1).last() == candidates@[i as int]);
        }
        if !str_eq(candidates[i].game_mode.as_str(), "LiveChallenge") {
            let ghost before = out.deep_view();
            let ghost before_len = out@.len();
            out.push(candidates[i].game_id.clone());
            proof {
                assert(candidates@.subrange(0, i + 1).filter(ingestible_pred())
                    == candidates@.subrange(0, i as int).filter(ingestible_pred()).push(
                    candidates@[i as int],
                ));
                assert(out@.len() == before_len + 1);
                assert(out@[before_len as int]@ == candidates@[i as int].game_id@);
                let fi = candidates@.subrange(0, i as int).filter(ingestible_pred());
                let fi1 = candidates@.subrange(0, i + 1).filter(ingestible_pred());
                assert(fi1 == fi.push(candidates@[i as int]));
                assert(before.len() == fi.len());
                assert forall|k: int| 0 <= k < out@.len() implies out.deep_view()[k]
                    == ingestible_prefix(candidates@, i + 1)[k] by {
                    assert(ingestible_prefix(candidates@, i + 1)[k] == fi1[k].game_id@);
                    if k < before_len {
                        assert(fi1[k] == fi[k]);
                        assert(out.deep_view()[k] == before[k]);
                        assert(before[k] == ingestible_prefix(candidates@, i as int)[k]);
                        assert(ingestible_prefix(candidates@, i as int)[k] == fi[k].game_id@);
                    } else {
                        assert(fi1[k] == candidates@[i as int]);
                    }
                }
                assert(out.deep_view() =~= ingestible_prefix(candidates@, i + 1));
            }
        } else {
            proof {
                assert(candidates@.subrange(0, i + 1).filter(ingestible_pred())
                    == candidates@.subrange(0, i as int).filter(ingestible_pred()));
                assert(out.deep_view() =~= ingestible_prefix(candidates@, i + 1));
            }
        }
        i = i + 1;
    }
    proof {
        let all = ingestible_prefix(candidates@, candidates@.len() as int);
        lemma_ingestible_prefix_extends(candidates@, i as int, candidates@.len() as int);
        if i < candidates@.len() {
            assert(out@.len() == REQUEST_CHUNK_SIZE as int);
            assert(all.len() >= REQUEST_CHUNK_SIZE as int);
            assert(out.deep_view() =~= all.subrange(0, REQUEST_CHUNK_SIZE as int));
        } else {
            assert(candidates@.subrange(0, i as int) =~= candidates@);
            if all.len() > REQUEST_CHUNK_SIZE as int {
                assert(out@.len() == REQUEST_CHUNK_SIZE as int);
                assert(out.deep_view() =~= all.subrange(0, REQUEST_CHUNK_SIZE as int));
            }
        }
    }
    out
}

/// Whether some stored id equals the given one.
pub open spec fn has_id(s: Seq<String>, k: Seq<char>) -> bool {
    exists|j: int| 0 <= j < s.len() && (#[trigger] s[j])@ == k
}

/// The novelty test against a set of stored ids, applied when filtering.
pub open spec fn novel_pred(existing: Seq<String>) -> spec_fn(String) -> bool {
    |id: String| !has_id(existing, id@)
}

/// Drops the ids that are already stored, keeping feed order.
pub fn filter_new_ids(ids: Vec<String>, existing: &Vec<String>) -> (r: Vec<String>)
    ensures
        r@ == ids@.filter(novel_pred(existing@)),
{
    let ghost all = ids@;
    let mut rest = ids;
    let mut out: Vec<String> = Vec::new();
    let mut i: usize = 0;
    proof {
        reveal(Seq::filter);
        assert(all.len() == rest.len());
        assert(all.subrange(0, 0) =~= Seq::<String>::empty());
        assert(all.skip(0) =~= rest@);
    }
    while rest.len() > 0
        invariant
            i <= all.len(),
            all.len() <= usize::MAX,
            rest@ =~= all.skip(i as int),
            out@ == all.subrange(0, i as int).filter(novel_pred(existing@)),
        decreases rest@.len(),
    {
        let x = rest.remove(0);
        proof {
            reveal(Seq::filter);
            assert(x == all[i as int]);
            assert(rest@ =~= all.skip(i + 1));
            assert(all.subrange(0, i + 1).drop_last() =~= all.subrange(0, i as int));
            assert(all.subrange(0, i + 1).last() == x);
        }
        let mut seen = false;
        let mut j: usize = 0;
        while j < existing.len()
            invariant
                j <= existing@.len(),
                seen == exists|p: int| 0 <= p < j && (#[trigger] existing@[p])@ == x@,
            decreases existing@.len() - j,
        {
            if str_eq(existing[j].as_str(), x.as_str()) {
                seen = true;
            }
            j = j + 1;
        }
        proof {
            assert(seen == has_id(existing@, x@));
        }
        if !seen {
            out.push(x);
        }
        i = i + 1;
    }
    proof {
        assert(all.subrange(0, i as int) =~= all);
    }
    out
}

/// The match rows of the per-match write-sets, in order.
pub open spec fn cat_games(s: Seq<GameData>) -> Seq<DuelsGameRow>
    decreases s.len(),
{
    if s.len() == 0 {
        Seq::empty()
    } else {
        cat_games(s.drop_last()).push(s.last().duels_game)
    }
}

/// The round rows of the per-match write-sets, concatenated in order.
pub open spec fn cat_rounds(s: Seq<GameData>) -> Seq<DuelsRoundRow>
    decreases s.len(),
{
    if s.len() == 0 {
        Seq::empty()
    } else {
        cat_rounds(s.drop_last()) + s.last().rounds@
    }
}

/// The guess rows of the per-match write-sets, concatenated in order.
pub open spec fn cat_guesses(s: Seq<GameData>) -> Seq<GuessRow>
    decreases s.len(),
{
    if s.len() == 0 {
        Seq::empty()
    } else {
        cat_guesses(s.drop_last()) + s.last().guesses@
    }
}

/// The location rows of the per-match write-sets, concatenated in order.
pub open spec fn cat_locations(s: Seq<GameData>) -> Seq<LocationRow>
    decreases s.len(),
{
    if s.len() == 0 {
        Seq::empty()
    } else {
        cat_locations(s.drop_last()) + s.last().locations@
    }
}

/// The player rows of the per-match write-sets, concatenated in order.
pub open spec fn cat_players(s: Seq<GameData>) -> Seq<PlayerRow>
    decreases s.len(),
{
    if s.len() == 0 {
        Seq::empty()
    } else {
        cat_players(s.drop_last()) + s.last().players@
    }
}

/// The rated-team rows of the per-match write-sets, concatenated in order.
pub open spec fn cat_comp_teams(s: Seq<GameData>) -> Seq<CompTeamRow>
    decreases s.len(),
{
    if s.len() == 0 {
        Seq::empty()
    } else {
        cat_comp_teams(s.drop_last()) + s.last().comp_teams@
    }
}

/// The casual-team rows of the per-match write-sets, concatenated in order.
pub open spec fn cat_fun_teams(s: Seq<GameData>) -> Seq<FunTeamRow>
    decreases s.len(),
{
    if s.len() == 0 {
        Seq::empty()
    } else {
        cat_fun_teams(s.drop_last()) + s.last().fun_teams@
    }
}

/// The map rows of the per-match write-sets, in order.
pub open spec fn cat_maps(s: Seq<GameData>) -> Seq<MapRow>
    decreases s.len(),
{
    if s.len() == 0 {
        Seq::empty()
    } else {
        cat_maps(s.drop_last()).push(s.last().map)
    }
}

/// Merges the write-sets of a batch of matches into one: per-match rows
/// (matches, rounds) are concatenated as they are; shared reference rows
/// (guesses, locations, players, teams, maps) are concatenated and then
/// stripped of rows repeating a primary key, keeping the first-seen row.
pub fn collect_games_data(items: Vec<GameData>) -> (r: GamesData)
    ensures
        r.duels_games@ == cat_games(items@),
        r.rounds@ == cat_rounds(items@),
        r.guesses@ == spec_dedup(cat_guesses(items@)),
        r.locations@ == spec_dedup(cat_locations(items@)),
        r.players@ == spec_dedup(cat_players(items@)),
        r.comp_teams@ == spec_dedup(cat_comp_teams(items@)),
        r.fun_teams@ == spec_dedup(cat_fun_teams(items@)),
        r.maps@ == spec_dedup(cat_maps(items@)),
{
    let ghost all = items@;
    let mut rest = items;
    let mut duels_games: Vec<DuelsGameRow> = Vec::new();
    let mut rounds: Vec<DuelsRoundRow> = Vec::new();
    let mut guesses: Vec<GuessRow> = Vec::new();
    let mut locations: Vec<LocationRow> = Vec::new();
    let mut players: Vec<PlayerRow> = Vec::new();
    let mut comp_teams: Vec<CompTeamRow> = Vec::new();
    let mut fun_teams: Vec<FunTeamRow> = Vec::new();
    let mut maps: Vec<MapRow> = Vec::new();
    let mut i: usize = 0;
    proof {
        assert(all.len() == rest.len());
        assert(all.subrange(0, 0) =~= Seq::<GameData>::empty());
        assert(all.skip(0) =~= rest@);
    }
    while rest.len() > 0
        invariant
            i <= all.len(),
            all.len() <= usize::MAX,
            rest@ =~= all.skip(i as int),
            duels_games@ == cat_games(all.subrange(0, i as int)),
            rounds@ == cat_rounds(all.subrange(0, i as int)),
            guesses@ == cat_guesses(all.subrange(0, i as int)),
            locations@ == cat_locations(all.subrange(0, i as int)),
            players@ == cat_players(all.subrange(0, i as int)),
            comp_teams@ == cat_comp_teams(all.subrange(0, i as int)),
            fun_teams@ == cat_fun_teams(all.subrange(0, i as int)),
            maps@ == cat_maps(all.subrange(0, i as int)),
        decreases rest@.len(),
    {
        let mut item = rest.remove(0);
        proof {
            assert(item == all[i as int]);
            assert(rest@ =~= all.skip(i + 1));
            assert(all.subrange(0, i + 1).drop_last() =~= all.subrange(0, i as int));
            assert(all.subrange(0, i + 1).last() == item);
        }
        let ghost g0 = guesses@;
        let ghost l0 = locations@;
        let ghost p0 = players@;
        let ghost c0 = comp_teams@;
        let ghost f0 = fun_teams@;
        let ghost r0 = rounds@;
        duels_games.push(item.duels_game);
        rounds.append(&mut item.rounds);
        guesses.append(&mut item.guesses);
        locations.append(&mut item.locations);
        players.append(&mut item.players);
        comp_teams.append(&mut item.comp_teams);
        fun_teams.append(&mut item.fun_teams);
        maps.push(item.map);
        i = i + 1;
    }
    proof {
        assert(all.subrange(0, i as int) =~= all);
    }
    let guesses = remove_duplicates(guesses);
    let locations = remove_duplicates(locations);
    let players = remove_duplicates(players);
    let comp_teams = remove_duplicates(comp_teams);
    let fun_teams = remove_duplicates(fun_teams);
    let maps = remove_duplicates(maps);
    GamesData { duels_games, rounds, guesses, locations, players, comp_teams, fun_teams, maps }
}

} // verus!
