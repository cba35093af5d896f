//! The relational store as the pipeline sees it, with the per-table
//! conflict policies of the transactional upsert: matches, rounds and
//! guesses are insert-only (a conflict means the match was already
//! ingested); players, rated teams and maps are insert-or-update; casual
//! teams and locations are insert-or-ignore. A whole write-set commits
//! atomically: on any conflict of an insert-only table nothing changes at
//! all.

use vstd::prelude::*;
use crate::error::IngestError;
use crate::rows::{
    CompTeamRow, DuelsGameRow, DuelsRoundRow, FunTeamRow, GameData, GamesData, GuessRow, Keyed,
    LocationRow, MapRow, PlayerRow, SoloGameData, SoloGameRow, SoloRoundRow,
};
use crate::table::{contains_key, find_by_key, first_key_index, has_key};

verus! {

/// A row type whose table refreshes an existing row on key conflict.
pub trait Upsert: Keyed + Sized {
    /// The row that replaces an existing row when a new one arrives with
    /// the same key: mutable columns from the new row, immutable ones kept.
    spec fn merge_spec(old_row: Self, new_row: Self) -> Self;

    /// Merges a new row into an existing one.
    fn merged(old_row: &Self, new_row: Self) -> (r: Self)
        ensures
            r == Self::merge_spec(*old_row, new_row),
    ;
}

impl Upsert for PlayerRow {
    /// Every profile column is mutable: the new snapshot wins whole.
    open spec fn merge_spec(old_row: Self, new_row: Self) -> Self {
        new_row
    }

    fn merged(old_row: &Self, new_row: Self) -> (r: Self) {
        new_row
    }
}

impl Upsert for CompTeamRow {
    /// Only the display name and the rating are refreshed; the member ids
    /// of the stored pairing stay.
    open spec fn merge_spec(old_row: Self, new_row: Self) -> Self {
        CompTeamRow {
            team_id: old_row.team_id,
            player_id1: old_row.player_id1,
            player_id2: old_row.player_id2,
            name: new_row.name,
            rating: new_row.rating,
        }
    }

    fn merged(old_row: &Self, new_row: Self) -> (r: Self) {
        CompTeamRow {
            team_id: old_row.team_id.clone(),
            player_id1: old_row.player_id1.clone(),
            player_id2: old_row.player_id2.clone(),
            name: new_row.name,
            rating: new_row.rating,
        }
    }
}

impl Upsert for MapRow {
    /// Name and maximum distance may be corrected; the bounds are
    /// immutable once stored.
    open spec fn merge_spec(old_row: Self, new_row: Self) -> Self {
        MapRow {
            id: old_row.id,
            name: new_row.name,
            lat1_micro: old_row.lat1_micro,
            lng1_micro: old_row.lng1_micro,
            lat2_micro: old_row.lat2_micro,
            lng2_micro: old_row.lng2_micro,
            max_distance: new_row.max_distance,
        }
    }

    fn merged(old_row: &Self, new_row: Self) -> (r: Self) {
        MapRow {
            id: old_row.id.clone(),
            name: new_row.name,
            lat1_micro: old_row.lat1_micro,
            lng1_micro: old_row.lng1_micro,
            lat2_micro: old_row.lat2_micro,
            lng2_micro: old_row.lng2_micro,
            max_distance: new_row.max_distance,
        }
    }
}

/// Whether inserting the rows into the table would hit a key conflict:
/// a row's key is already stored, or two inserted rows share a key.
pub open spec fn insert_conflict<T: Keyed>(table: Seq<T>, rows: Seq<T>) -> bool {
    ||| exists|i: int| 0 <= i < rows.len() && has_key(table, (#[trigger] rows[i].skey()))
    ||| exists|i: int, j: int|
        0 <= i < j < rows.len() && (#[trigger] rows[i].skey()) == (#[trigger] rows[j].skey())
}

/// The table after insert-or-ignore of the rows in order: a row whose key
/// is present already (stored, or inserted just before it) is dropped.
pub open spec fn spec_ignore_all<T: Keyed>(table: Seq<T>, rows: Seq<T>) -> Seq<T>
    decreases rows.len(),
{
    if rows.len() == 0 {
        table
    } else {
        let t = spec_ignore_all(table, rows.drop_last());
        if has_key(t, rows.last().skey()) {
            t
        } else {
            t.push(rows.last())
        }
    }
}

/// The table after insert-or-update of the rows in order: a row whose key
/// is present refreshes the stored row's mutable columns, a new key is
/// appended.
pub open spec fn spec_upsert_all<T: Upsert>(table: Seq<T>, rows: Seq<T>) -> Seq<T>
    decreases rows.len(),
{
    if rows.len() == 0 {
        table
    } else {
        let t = spec_upsert_all(table, rows.drop_last());
        match first_key_index(t, rows.last().skey()) {
            Some(i) => t.update(i, T::merge_spec(t[i], rows.last())),
            None => t.push(rows.last()),
        }
    }
}

/// Tests whether inserting the rows would hit a key conflict, without
/// changing anything.
fn any_insert_conflict<T: Keyed>(table: &Vec<T>, rows: &Vec<T>) -> (r: bool)
    ensures
        r == insert_conflict(table@, rows@),
{
    let mut i: usize = 0;
    while i < rows.len()
        invariant
            i <= rows@.len(),
            forall|p: int| 0 <= p < i ==> !has_key(table@, (#[trigger] rows@[p].skey())),
            forall|p: int, q: int|
                0 <= p < q < i ==> (#[trigger] rows@[p].skey()) != (#[trigger] rows@[q].skey()),
        decreases rows@.len() - i,
    {
        if contains_key(table, rows[i].key()) {
            return true;
        }
        let mut j: usize = 0;
        while j < i
            invariant
                j <= i < rows@.len(),
                forall|q: int| 0 <= q < j ==> (#[trigger] rows@[q].skey()) != rows@[i as int].skey(),
            decreases i - j,
        {
            if crate::lex::str_eq(rows[j].key(), rows[i].key()) {
                return true;
            }
            j = j + 1;
        }
        i = i + 1;
    }
    false
}

/// Appends all rows to an insert-only table; the caller has ruled out
/// conflicts beforehand.
fn insert_all<T: Keyed>(table: &mut Vec<T>, rows: Vec<T>)
    ensures
        final(table)@ == old(table)@ + rows@,
{
    let mut rows = rows;
    table.append(&mut rows);
}

/// Applies insert-or-ignore of all rows, in order.
fn insert_ignore_all<T: Keyed>(table: &mut Vec<T>, rows: Vec<T>)
    ensures
        final(table)@ == spec_ignore_all(old(table)@, rows@),
{
    let ghost orig_table = old(table)@;
    let ghost all = rows@;
    let mut rest = rows;
    let mut i: usize = 0;
    proof {
        assert(all.len() == rest.len());
        assert(all.subrange(0, 0) =~= Seq::<T>::empty());
        assert(all.skip(0) =~= rest@);
    }
    while rest.len() > 0
        invariant
            i <= all.len(),
            all.len() <= usize::MAX,
            rest@ =~= all.skip(i as int),
            table@ == spec_ignore_all(orig_table, all.subrange(0, i as int)),
        decreases rest@.len(),
    {
        let ghost prefix = all.subrange(0, i as int);
        let x = rest.remove(0);
        proof {
            assert(x == all[i as int]);
            assert(rest@ =~= all.skip(i + 1));
            assert(all.subrange(0, i + 1).drop_last() =~= prefix);
            assert(all.subrange(0, i + 1).last() == x);
        }
        let seen = contains_key(table, x.key());
        if !seen {
            table.push(x);
        }
        i = i + 1;
    }
    proof {
        assert(all.subrange(0, i as int) =~= all);
    }
}

/// Applies insert-or-update of all rows, in order.
fn upsert_all<T: Upsert>(table: &mut Vec<T>, rows: Vec<T>)
    ensures
        final(table)@ == spec_upsert_all(old(table)@, rows@),
{
    let ghost orig_table = old(table)@;
    let ghost all = rows@;
    let mut rest = rows;
    let mut i: usize = 0;
    proof {
        assert(all.len() == rest.len());
        assert(all.subrange(0, 0) =~= Seq::<T>::empty());
        assert(all.skip(0) =~= rest@);
    }
    while rest.len() > 0
        invariant
            i <= all.len(),
            all.len() <= usize::MAX,
            rest@ =~= all.skip(i as int),
            table@ == spec_upsert_all(orig_table, all.subrange(0, i as int)),
        decreases rest@.len(),
    {
        let ghost prefix = all.subrange(0, i as int);
        let x = rest.remove(0);
        proof {
            assert(x == all[i as int]);
            assert(rest@ =~= all.skip(i + 1));
            assert(all.subrange(0, i + 1).drop_last() =~= prefix);
            assert(all.subrange(0, i + 1).last() == x);
        }
        match find_by_key(table, x.key()) {
            Some(pos) => {
                proof {
                    crate::table::lemma_first_key_index_from(table@, x.skey(), 0);
                }
                let merged = T::merged(&table[pos], x);
                table[pos] = merged;
            },
            None => {
                table.push(x);
            },
        }
        i = i + 1;
    }
    proof {
        assert(all.subrange(0, i as int) =~= all);
    }
}

/// The stored tables.
#[derive(Debug, Clone, PartialEq)]
pub struct Store {
    pub duels_games: Vec<DuelsGameRow>,
    pub solo_games: Vec<SoloGameRow>,
    pub duels_rounds: Vec<DuelsRoundRow>,
    pub solo_rounds: Vec<SoloRoundRow>,
    pub guesses: Vec<GuessRow>,
    pub players: Vec<PlayerRow>,
    pub comp_teams: Vec<CompTeamRow>,
    pub fun_teams: Vec<FunTeamRow>,
    pub locations: Vec<LocationRow>,
    pub maps: Vec<MapRow>,
}

/// Whether committing the batch would hit a key conflict on one of the
/// insert-only tables: the match was ingested before.
pub open spec fn games_conflict(s: Store, data: GamesData) -> bool {
    ||| insert_conflict(s.duels_games@, data.duels_games@)
    ||| insert_conflict(s.duels_rounds@, data.rounds@)
    ||| insert_conflict(s.guesses@, data.guesses@)
}

/// Whether committing the solo write-set would hit a key conflict on one
/// of its insert-only tables.
pub open spec fn solo_conflict(s: Store, data: SoloGameData) -> bool {
    ||| has_key(s.solo_games@, data.solo_game.skey())
    ||| insert_conflict(s.solo_rounds@, data.rounds@)
    ||| insert_conflict(s.guesses@, data.guesses@)
}

impl Store {
    /// An empty store.
    pub fn new() -> (r: Store)
        ensures
            r.duels_games@.len() == 0,
            r.solo_games@.len() == 0,
            r.duels_rounds@.len() == 0,
            r.solo_rounds@.len() == 0,
            r.guesses@.len() == 0,
            r.players@.len() == 0,
            r.comp_teams@.len() == 0,
            r.fun_teams@.len() == 0,
            r.locations@.len() == 0,
            r.maps@.len() == 0,
    {
        Store {
            duels_games: Vec::new(),
            solo_games: Vec::new(),
            duels_rounds: Vec::new(),
            solo_rounds: Vec::new(),
            guesses: Vec::new(),
            players: Vec::new(),
            comp_teams: Vec::new(),
            fun_teams: Vec::new(),
            locations: Vec::new(),
            maps: Vec::new(),
        }
    }

    /// Commits a batch's write-set atomically. A key conflict on the
    /// match, round or guess tables means the match was already ingested:
    /// the whole write-set is rejected as `AlreadyExists` and nothing
    /// changes. An empty batch is a storage failure, as the storage layer
    /// refuses an empty insert. Otherwise every table changes under its
    /// own policy: matches, rounds and guesses are appended; players,
    /// rated teams and maps refresh their mutable columns on conflict;
    /// casual teams and locations keep the first stored row.
    pub fn apply_games(&mut self, data: GamesData) -> (r: Result<(), IngestError>)
        ensures
            data.duels_games@.len() == 0 ==> (r matches Err(e) && (e matches
                IngestError::StorageFailure(_))) && *final(self) == *old(self),
            data.duels_games@.len() > 0 && games_conflict(*old(self), data) ==> r == Err::<
                (),
                IngestError,
            >(IngestError::AlreadyExists) && *final(self) == *old(self),
            data.duels_games@.len() > 0 && !games_conflict(*old(self), data) ==> {
                &&& r is Ok
                &&& final(self).duels_games@ == old(self).duels_games@ + data.duels_games@
                &&& final(self).duels_rounds@ == old(self).duels_rounds@ + data.rounds@
                &&& final(self).guesses@ == old(self).guesses@ + data.guesses@
                &&& final(self).players@ == spec_upsert_all(old(self).players@, data.players@)
                &&& final(self).comp_teams@ == spec_upsert_all(
                    old(self).comp_teams@,
                    data.comp_teams@,
                )
                &&& final(self).maps@ == spec_upsert_all(old(self).maps@, data.maps@)
                &&& final(self).fun_teams@ == spec_ignore_all(
                    old(self).fun_teams@,
                    data.fun_teams@,
                )
                &&& final(self).locations@ == spec_ignore_all(
                    old(self).locations@,
                    data.locations@,
                )
                &&& final(self).solo_games@ == old(self).solo_games@
                &&& final(self).solo_rounds@ == old(self).solo_rounds@
            },
    {
        if data.duels_games.len() == 0 {
            return Err(IngestError::StorageFailure(
                "an empty batch cannot be inserted".to_owned(),
            ));
        }
        if any_insert_conflict(&self.duels_games, &data.duels_games) || any_insert_conflict(
            &self.duels_rounds,
            &data.rounds,
        ) || any_insert_conflict(&self.guesses, &data.guesses) {
            return Err(IngestError::AlreadyExists);
        }
        insert_all(&mut self.duels_games, data.duels_games);
        insert_all(&mut self.duels_rounds, data.rounds);
        insert_all(&mut self.guesses, data.guesses);
        upsert_all(&mut self.players, data.players);
        upsert_all(&mut self.comp_teams, data.comp_teams);
        upsert_all(&mut self.maps, data.maps);
        insert_ignore_all(&mut self.fun_teams, data.fun_teams);
        insert_ignore_all(&mut self.locations, data.locations);
        Ok(())
    }

    /// Commits one solo game's write-set atomically, under the solo
    /// pipeline's policies: game, rounds and guesses are insert-only; the
    /// map and the locations keep the first stored row; the player's
    /// profile is refreshed if one was enriched.
    pub fn apply_solo(&mut self, data: SoloGameData) -> (r: Result<(), IngestError>)
        ensures
            solo_conflict(*old(self), data) ==> r == Err::<(), IngestError>(
                IngestError::AlreadyExists,
            ) && *final(self) == *old(self),
            !solo_conflict(*old(self), data) ==> {
                &&& r is Ok
                &&& final(self).solo_games@ == old(self).solo_games@.push(data.solo_game)
                &&& final(self).solo_rounds@ == old(self).solo_rounds@ + data.rounds@
                &&& final(self).guesses@ == old(self).guesses@ + data.guesses@
                &&& final(self).maps@ == spec_ignore_all(old(self).maps@, seq![data.map])
                &&& final(self).locations@ == spec_ignore_all(
                    old(self).locations@,
                    data.locations@,
                )
                &&& final(self).players@ == (match data.player {
                    Some(p) => spec_upsert_all(old(self).players@, seq![p]),
                    None => old(self).players@,
                })
                &&& final(self).duels_games@ == old(self).duels_games@
                &&& final(self).duels_rounds@ == old(self).duels_rounds@
                &&& final(self).comp_teams@ == old(self).comp_teams@
                &&& final(self).fun_teams@ == old(self).fun_teams@
            },
    {
        if contains_key(&self.solo_games, data.solo_game.key()) || any_insert_conflict(
            &self.solo_rounds,
            &data.rounds,
        ) || any_insert_conflict(&self.guesses, &data.guesses) {
            return Err(IngestError::AlreadyExists);
        }
        self.solo_games.push(data.solo_game);
        insert_all(&mut self.solo_rounds, data.rounds);
        insert_all(&mut self.guesses, data.guesses);
        let map_rows = vec![data.map];
        proof {
            assert(map_rows@ =~= seq![data.map]);
        }
        insert_ignore_all(&mut self.maps, map_rows);
        insert_ignore_all(&mut self.locations, data.locations);
        match data.player {
            Some(p) => {
                let player_rows = vec![p];
                proof {
                    assert(player_rows@ =~= seq![p]);
                }
                upsert_all(&mut self.players, player_rows);
            },
            None => {},
        }
        Ok(())
    }
}

/// Re-ingesting a committed match conflicts: once a batch with at least
/// one match row has been committed, committing the same write-set again
/// is rejected as `AlreadyExists`, and by the commit's own contract the
/// store then stays exactly as it was.
pub proof fn lemma_reingest_conflicts(before: Store, after: Store, data: GamesData)
    requires
        data.duels_games@.len() > 0,
        after.duels_games@ == before.duels_games@ + data.duels_games@,
    ensures
        games_conflict(after, data),
{
    let k = data.duels_games@[0].skey();
    assert(after.duels_games@[before.duels_games@.len() as int].skey() == k);
    assert(has_key(after.duels_games@, k));
    assert(insert_conflict(after.duels_games@, data.duels_games@));
}

} // verus!
