//! The operations on one session as loaded from storage: each takes what was
//! read (the room, if any; the stored commitments) and returns what is to be
//! written and what the hub is to be told.
use crate::address::Address;
use crate::commitment::{commitment_of, compute_commitment};
use crate::error::Error;
use crate::host::{HubEnd, HubStart};
use crate::room::{bury_spec, created, dig_spec, join_spec, reveal_spec, start_spec, Room, RoomView};
use soroban_sdk::Env;
use vstd::prelude::*;

verus! {

/// `r` is what `expected` gives for the loaded room, or `RoomNotFound` when
/// there was none.
pub open spec fn from_loaded(room: Option<Room>, r: Result<Room, Error>, expected: Result<RoomView, Error>) -> bool {
    match room {
        None => r == Err::<Room, Error>(Error::RoomNotFound),
        Some(_) => match expected {
            Ok(v) => r is Ok && r->Ok_0@ == v,
            Err(e) => r == Err::<Room, Error>(e),
        },
    }
}

/// The stored commitment, as bytes.
pub open spec fn digest_view(d: Option<[u8; 32]>) -> Option<Seq<u8>> {
    match d {
        Some(x) => Some(x@),
        None => None,
    }
}

fn fail(e: Error) -> (r: Result<Room, Error>)
    ensures
        r == Err::<Room, Error>(e),
{
    Err(e)
}

/// A new room for `room_id`, unless one `exists` already.
pub fn open_room(exists: bool, room_id: u32, player_a: Address, player_a_points: i128) -> (r: Result<Room, Error>)
    ensures
        exists ==> r == Err::<Room, Error>(Error::RoomExists),
        !exists ==> r is Ok && r->Ok_0@ == created(room_id, player_a, player_a_points),
{
    if exists {
        return fail(Error::RoomExists);
    }
    Ok(Room::new(room_id, player_a, player_a_points))
}

/// The loaded room after `joiner` joins it.
pub fn join_loaded(room: Option<Room>, joiner: Address, points: i128) -> (r: Result<Room, Error>)
    ensures
        from_loaded(room, r, join_spec(room->Some_0@, joiner, points)),
{
    match room {
        None => fail(Error::RoomNotFound),
        Some(mut x) => match x.join(joiner, points) {
            Ok(()) => Ok(x),
            Err(e) => fail(e),
        },
    }
}

/// The loaded room after its start, and the registration for the hub at
/// `hub`.
pub fn start_loaded(
    room: Option<Room>,
    hub: Address,
    room_id: u32,
    player_a: Address,
    player_b: Address,
    player_a_points: i128,
    player_b_points: i128,
) -> (r: Result<(Room, HubStart), Error>)
    ensures
        from_loaded(
            room,
            match r {
                Ok(p) => Ok(p.0),
                Err(e) => Err(e),
            },
            start_spec(room->Some_0@, player_a, player_b, player_a_points, player_b_points),
        ),
        r is Ok ==> r->Ok_0.1 == (HubStart {
            hub,
            session_id: room_id,
            player1: player_a,
            player2: player_b,
            player1_points: player_a_points,
            player2_points: player_b_points,
        }),
{
    match room {
        None => Err(Error::RoomNotFound),
        Some(mut x) => match x.start(&player_a, &player_b, player_a_points, player_b_points) {
            Ok(()) => Ok(
                (
                    x,
                    HubStart {
                        hub,
                        session_id: room_id,
                        player1: player_a,
                        player2: player_b,
                        player1_points: player_a_points,
                        player2_points: player_b_points,
                    },
                ),
            ),
            Err(e) => Err(e),
        },
    }
}

/// The loaded room after `player` buries, and whether the commitment goes
/// to player A's slot.
pub fn bury_loaded(room: Option<Room>, player: Address) -> (r: Result<(Room, bool), Error>)
    ensures
        from_loaded(
            room,
            match r {
                Ok(p) => Ok(p.0),
                Err(e) => Err(e),
            },
            bury_spec(room->Some_0@, player),
        ),
        r is Ok ==> r->Ok_0.1 == (room->Some_0@.slot_of(player) == Some(true)),
{
    match room {
        None => Err(Error::RoomNotFound),
        Some(mut x) => {
            let is_a = x.slot_of(&player) == Some(true);
            match x.bury(&player) {
                Ok(()) => Ok((x, is_a)),
                Err(e) => Err(e),
            }
        },
    }
}

/// The loaded room after `player` digs (island, tile).
pub fn dig_loaded(room: Option<Room>, player: Address, island_id: u32, tile_id: u32) -> (r: Result<Room, Error>)
    ensures
        from_loaded(room, r, dig_spec(room->Some_0@, player, island_id, tile_id)),
{
    match room {
        None => fail(Error::RoomNotFound),
        Some(mut x) => match x.dig(&player, island_id, tile_id) {
            Ok(()) => Ok(x),
            Err(e) => fail(e),
        },
    }
}

/// The loaded room after `player` reveals (island, tile, salt) against the
/// opponent's stored commitment, and the result for the hub at `hub`.
pub fn reveal_loaded(
    env: &Env,
    room: Option<Room>,
    hub: Address,
    room_id: u32,
    player: Address,
    island_id: u32,
    tile_id: u32,
    salt: &[u8; 32],
    stored_a: Option<[u8; 32]>,
    stored_b: Option<[u8; 32]>,
) -> (r: Result<(Room, HubEnd), Error>)
    ensures
        from_loaded(
            room,
            match r {
                Ok(p) => Ok(p.0),
                Err(e) => Err(e),
            },
            reveal_spec(
                room->Some_0@,
                player,
                island_id,
                tile_id,
                commitment_of(room_id, island_id, tile_id, salt@),
                if room->Some_0@.slot_of(player) == Some(true) {
                    digest_view(stored_b)
                } else {
                    digest_view(stored_a)
                },
            ),
        ),
        r is Ok ==> r->Ok_0.1 == (HubEnd {
            hub,
            session_id: room_id,
            player1_won: room->Some_0@.slot_of(player) == Some(true),
        }),
{
    match room {
        None => Err(Error::RoomNotFound),
        Some(mut x) => {
            let is_a = x.slot_of(&player) == Some(true);
            let stored = if is_a {
                stored_b
            } else {
                stored_a
            };
            let computed = compute_commitment(env, room_id, island_id, tile_id, salt);
            let outcome = match &stored {
                Some(d) => x.claim_victory(&player, island_id, tile_id, &computed, Some(d)),
                None => x.claim_victory(&player, island_id, tile_id, &computed, None),
            };
            match outcome {
                Ok(()) => Ok((x, HubEnd { hub, session_id: room_id, player1_won: is_a })),
                Err(e) => Err(e),
            }
        },
    }
}

} // verus!
