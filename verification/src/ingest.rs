//! The interface the core exposes: ingest one match, or a batch of them,
//! into the store. Fetching and enrichment happen outside; this composes
//! the verified assembly with the atomic commit.

use vstd::prelude::*;
use crate::assemble::{assemble_duels_game, assembled_write_set, duels_malformed};
use crate::batch::{
    cat_comp_teams, cat_fun_teams, cat_games, cat_guesses, cat_locations, cat_maps, cat_players,
    cat_rounds, collect_games_data,
};
use crate::dedup::spec_dedup;
use crate::error::IngestError;
use crate::payload::DuelsGameInput;
use crate::rows::{CompTeamRow, GameData, GamesData, Keyed, PlayerRow};
use crate::store::Store;
use crate::table::has_key;

verus! {

/// How one committed match changes the store: the match, round and guess
/// tables are extended by its rows; players, rated teams and the map
/// refresh their mutable columns on key conflict; casual teams and
/// locations keep the first stored row; the solo tables are untouched.
pub open spec fn ingest_delta(pre: Store, post: Store, data: GameData) -> bool {
    &&& post.duels_games@ == pre.duels_games@ + seq![data.duels_game]
    &&& post.duels_rounds@ == pre.duels_rounds@ + data.rounds@
    &&& post.guesses@ == pre.guesses@ + data.guesses@
    &&& post.players@ == crate::store::spec_upsert_all(pre.players@, data.players@)
    &&& post.comp_teams@ == crate::store::spec_upsert_all(pre.comp_teams@, data.comp_teams@)
    &&& post.maps@ == crate::store::spec_upsert_all(pre.maps@, seq![data.map])
    &&& post.fun_teams@ == crate::store::spec_ignore_all(pre.fun_teams@, data.fun_teams@)
    &&& post.locations@ == crate::store::spec_ignore_all(pre.locations@, data.locations@)
    &&& post.solo_games@ == pre.solo_games@
    &&& post.solo_rounds@ == pre.solo_rounds@
}

/// Ingests one fetched match: assembles its write-set and commits it
/// atomically. A match that was committed before is reported as
/// `AlreadyExists` and the store stays as it was; an unfinished match and
/// a payload that cannot be assembled are rejected before anything is
/// read from the store. On success the store gains exactly the assembled
/// write-set, each table under its own conflict policy.
pub fn ingest_match(
    store: &mut Store,
    game: &DuelsGameInput,
    players: Vec<PlayerRow>,
    comp_teams: Vec<CompTeamRow>,
) -> (r: Result<(), IngestError>)
    ensures
        (r == Err::<(), IngestError>(IngestError::NotFinished)) == (game.status@ != "Finished"@),
        r matches Err(e) && (e matches IngestError::UpstreamFetchFailure(_)) ==> duels_malformed(
            *game,
        ),
        r is Err ==> *final(store) == *old(store),
        game.status@ == "Finished"@ && !duels_malformed(*game) && has_key(
            old(store).duels_games@,
            game.game_id@,
        ) ==> r == Err::<(), IngestError>(IngestError::AlreadyExists),
        r is Ok ==> {
            &&& game.status@ == "Finished"@
            &&& !duels_malformed(*game)
            &&& final(store).duels_games@.len() == old(store).duels_games@.len() + 1
            &&& final(store).duels_games@.last().id@ == game.game_id@
            &&& exists|data: GameData|
                #[trigger] assembled_write_set(data, *game, players, comp_teams) && ingest_delta(
                    *old(store),
                    *final(store),
                    data,
                )
        },
{
    let ghost handed_players = players;
    let ghost handed_comp_teams = comp_teams;
    let data = match assemble_duels_game(game, players, comp_teams) {
        Ok(d) => d,
        Err(e) => {
            return Err(e);
        },
    };
    let ghost wdata = data;
    let batch = GamesData {
        duels_games: vec![data.duels_game],
        rounds: data.rounds,
        guesses: data.guesses,
        locations: data.locations,
        players: data.players,
        comp_teams: data.comp_teams,
        fun_teams: data.fun_teams,
        maps: vec![data.map],
    };
    proof {
        assert(batch.duels_games@ =~= seq![wdata.duels_game]);
        assert(batch.maps@ =~= seq![wdata.map]);
        assert(batch.duels_games@[0].id@ == game.game_id@);
    }
    match store.apply_games(batch) {
        Ok(()) => {
            proof {
                if has_key(old(store).duels_games@, game.game_id@) {
                    assert(batch.duels_games@[0].skey() == game.game_id@);
                    assert(crate::store::insert_conflict(
                        old(store).duels_games@,
                        batch.duels_games@,
                    ));
                }
                assert(assembled_write_set(wdata, *game, handed_players, handed_comp_teams));
                assert(ingest_delta(*old(store), *store, wdata));
            }
            Ok(())
        },
        Err(e) => Err(e),
    }
}

/// Ingests a batch of assembled write-sets: merges them, removes the
/// reference rows repeated across matches, and commits everything in one
/// atomic step. On success the count of committed matches is returned.
pub fn ingest_batch(store: &mut Store, write_sets: Vec<GameData>) -> (r: Result<
    usize,
    IngestError,
>)
    ensures
        r matches Err(e) ==> *final(store) == *old(store) && (e == IngestError::AlreadyExists
            || e matches IngestError::StorageFailure(_)),
        write_sets@.len() == 0 ==> (r matches Err(e) && e matches IngestError::StorageFailure(_)),
        write_sets@.len() > 0 && (exists|j: int|
            0 <= j < write_sets@.len() && has_key(
                old(store).duels_games@,
                (#[trigger] cat_games(write_sets@)[j]).id@,
            )) ==> r == Err::<usize, IngestError>(IngestError::AlreadyExists),
        r matches Ok(n) ==> {
            &&& n == write_sets@.len()
            &&& final(store).duels_games@ == old(store).duels_games@ + cat_games(write_sets@)
            &&& final(store).duels_rounds@ == old(store).duels_rounds@ + cat_rounds(write_sets@)
            &&& final(store).guesses@ == old(store).guesses@ + spec_dedup(
                cat_guesses(write_sets@),
            )
            &&& final(store).players@ == crate::store::spec_upsert_all(
                old(store).players@,
                spec_dedup(cat_players(write_sets@)),
            )
            &&& final(store).comp_teams@ == crate::store::spec_upsert_all(
                old(store).comp_teams@,
                spec_dedup(cat_comp_teams(write_sets@)),
            )
            &&& final(store).maps@ == crate::store::spec_upsert_all(
                old(store).maps@,
                spec_dedup(cat_maps(write_sets@)),
            )
            &&& final(store).fun_teams@ == crate::store::spec_ignore_all(
                old(store).fun_teams@,
                spec_dedup(cat_fun_teams(write_sets@)),
            )
            &&& final(store).locations@ == crate::store::spec_ignore_all(
                old(store).locations@,
                spec_dedup(cat_locations(write_sets@)),
            )
        },
{
    let count = write_sets.len();
    let ghost sets = write_sets@;
    let batch = collect_games_data(write_sets);
    proof {
        lemma_cat_games_len(sets);
    }
    match store.apply_games(batch) {
        Ok(()) => {
            proof {
                if exists|j: int|
                    0 <= j < sets.len() && has_key(
                        old(store).duels_games@,
                        (#[trigger] cat_games(sets)[j]).id@,
                    ) {
                    let j = choose|j: int|
                        0 <= j < sets.len() && has_key(
                            old(store).duels_games@,
                            (#[trigger] cat_games(sets)[j]).id@,
                        );
                    assert(batch.duels_games@[j].skey() == cat_games(sets)[j].id@);
                    assert(crate::store::insert_conflict(
                        old(store).duels_games@,
                        batch.duels_games@,
                    ));
                }
            }
            Ok(count)
        },
        Err(e) => Err(e),
    }
}

/// A batch holds one match row per write-set.
proof fn lemma_cat_games_len(s: Seq<GameData>)
    ensures
        cat_games(s).len() == s.len(),
    decreases s.len(),
{
    if s.len() > 0 {
        lemma_cat_games_len(s.drop_last());
    }
}

} // verus!
