//! Properties of the room protocol that span several operations.
use crate::address::Address;
use crate::commitment::commitment_of;
use crate::contract::{
    bury_step, create_step, dig_step, get_step, join_step, reveal_step, start_step, TreasureView,
};
use crate::error::Error;
use crate::room::{board, created, move_check, phase_rank, Phase, RoomView};
use vstd::prelude::*;

verus! {

/// One mutating operation on a session, with its arguments.
pub enum Action {
    Create { creator: Address, stake: i128 },
    Join { joiner: Address, stake: i128 },
    Start { player_a: Address, player_b: Address, stake_a: i128, stake_b: i128 },
    Bury { player: Address, digest: Seq<u8> },
    Dig { player: Address, island_id: u32, tile_id: u32 },
    Reveal { player: Address, island_id: u32, tile_id: u32, salt: Seq<u8> },
}

/// The effect of `a` on session `id`.
pub open spec fn apply(m: TreasureView, id: u32, a: Action) -> Result<TreasureView, Error> {
    match a {
        Action::Create { creator, stake } => create_step(m, id, creator, stake),
        Action::Join { joiner, stake } => join_step(m, id, joiner, stake),
        Action::Start { player_a, player_b, stake_a, stake_b } => start_step(
            m,
            id,
            player_a,
            player_b,
            stake_a,
            stake_b,
        ),
        Action::Bury { player, digest } => bury_step(m, id, player, digest),
        Action::Dig { player, island_id, tile_id } => dig_step(m, id, player, island_id, tile_id),
        Action::Reveal { player, island_id, tile_id, salt } => reveal_step(
            m,
            id,
            player,
            island_id,
            tile_id,
            salt,
        ),
    }
}

/// A room read right after its creation is in Waiting, holds no commitment
/// and no dig, and records the creator and their stake.
pub proof fn law_create_then_get(m: TreasureView, id: u32, creator: Address, stake: i128)
    requires
        m.wf(),
        !m.rooms.contains_key(id),
    ensures
        create_step(m, id, creator, stake) is Ok,
        get_step(create_step(m, id, creator, stake)->Ok_0, id) == Ok::<RoomView, Error>(created(id, creator, stake)),
        created(id, creator, stake).phase == Phase::Waiting,
        created(id, creator, stake).player_a == creator,
        created(id, creator, stake).player_a_points == stake,
        !created(id, creator, stake).has_commitment_a,
        !created(id, creator, stake).has_commitment_b,
        created(id, creator, stake).digs.len() == 0,
        create_step(m, id, creator, stake)->Ok_0.commitment(id, true) is None,
        create_step(m, id, creator, stake)->Ok_0.commitment(id, false) is None,
{
    assert(!m.commitments_a.contains_key(id));
    assert(!m.commitments_b.contains_key(id));
}

/// A waiting room that already has player B refuses every joiner as full;
/// one that has only its creator refuses the creator as a self-join.
pub proof fn law_join_full_or_self(m: TreasureView, id: u32, joiner: Address, stake: i128)
    requires
        m.rooms.contains_key(id),
        m.rooms[id].phase == Phase::Waiting,
    ensures
        m.rooms[id].player_b is Some ==> join_step(m, id, joiner, stake) == Err::<TreasureView, Error>(Error::RoomFull),
        m.rooms[id].player_b is None && joiner == m.rooms[id].player_a ==> join_step(m, id, joiner, stake)
            == Err::<TreasureView, Error>(Error::SelfPlay),
{
}

/// Starting without player B fails with `NoOpponent`; a start that succeeds
/// leaves the room in Burying with a registered match.
pub proof fn law_start(m: TreasureView, id: u32, a: Address, b: Address, sa: i128, sb: i128)
    requires
        m.rooms.contains_key(id),
    ensures
        m.rooms[id].player_b is None ==> start_step(m, id, a, b, sa, sb) == Err::<TreasureView, Error>(Error::NoOpponent),
        start_step(m, id, a, b, sa, sb) is Ok ==> {
            let r = start_step(m, id, a, b, sa, sb)->Ok_0.rooms[id];
            r.phase == Phase::Burying && r.game_active
        },
{
}

/// While the room is still in Burying, a player whose commitment was
/// accepted cannot bury again.
pub proof fn law_bury_once(m: TreasureView, id: u32, p: Address, d1: Seq<u8>, d2: Seq<u8>)
    requires
        bury_step(m, id, p, d1) is Ok,
        bury_step(m, id, p, d1)->Ok_0.rooms[id].phase == Phase::Burying,
    ensures
        bury_step(bury_step(m, id, p, d1)->Ok_0, id, p, d2) == Err::<TreasureView, Error>(Error::AlreadyBuried),
{
}

/// Once both players have buried, in either order, the room is in Playing
/// with player A to move, and holds both commitments.
pub proof fn law_bury_both(m: TreasureView, id: u32, da: Seq<u8>, db: Seq<u8>)
    requires
        m.wf(),
        m.rooms.contains_key(id),
        m.rooms[id].phase == Phase::Burying,
        !m.rooms[id].has_commitment_a,
        !m.rooms[id].has_commitment_b,
    ensures
        ({
            let r = m.rooms[id];
            let b = r.player_b->Some_0;
            let ab = bury_step(bury_step(m, id, r.player_a, da)->Ok_0, id, b, db);
            let ba = bury_step(bury_step(m, id, b, db)->Ok_0, id, r.player_a, da);
            &&& bury_step(m, id, r.player_a, da) is Ok
            &&& bury_step(m, id, b, db) is Ok
            &&& ab is Ok && ba is Ok
            &&& ab->Ok_0.rooms[id].phase == Phase::Playing && ab->Ok_0.rooms[id].turn_is_a
            &&& ba->Ok_0.rooms[id].phase == Phase::Playing && ba->Ok_0.rooms[id].turn_is_a
            &&& ab->Ok_0.commitment(id, true) == Some(da) && ab->Ok_0.commitment(id, false) == Some(db)
            &&& ba->Ok_0.commitment(id, true) == Some(da) && ba->Ok_0.commitment(id, false) == Some(db)
        }),
{
}

/// An accepted dig records its tile and passes the turn.
pub proof fn law_dig_passes_turn(m: TreasureView, id: u32, p: Address, island_id: u32, tile_id: u32)
    requires
        dig_step(m, id, p, island_id, tile_id) is Ok,
    ensures
        ({
            let r = m.rooms[id];
            let n = dig_step(m, id, p, island_id, tile_id)->Ok_0.rooms[id];
            &&& n.turn_is_a == !r.turn_is_a
            &&& n.digs.len() == r.digs.len() + 1
            &&& n.dug(island_id, tile_id)
        }),
{
    let r = m.rooms[id];
    let n = dig_step(m, id, p, island_id, tile_id)->Ok_0.rooms[id];
    assert(n.digs[r.digs.len() as int].island_id == island_id);
}

/// A dug tile can be neither dug nor revealed again, by either player, and
/// whatever lies buried there.
pub proof fn law_dug_tile_refused(m: TreasureView, id: u32, q: Address, island_id: u32, tile_id: u32, salt: Seq<u8>)
    requires
        m.wf(),
        m.rooms.contains_key(id),
        m.rooms[id].phase == Phase::Playing,
        m.rooms[id].turn_ok(q),
        m.rooms[id].dug(island_id, tile_id),
    ensures
        dig_step(m, id, q, island_id, tile_id) == Err::<TreasureView, Error>(Error::AlreadyDug),
        reveal_step(m, id, q, island_id, tile_id, salt) == Err::<TreasureView, Error>(Error::AlreadyDug),
{
    let r = m.rooms[id];
    let i = choose|i: int|
        0 <= i < r.digs.len() && #[trigger] r.digs[i].island_id == island_id && r.digs[i].tile_id
            == tile_id;
    assert(crate::room::on_board(r.digs[i].island_id, r.digs[i].tile_id));
}

/// A dig or a reveal off the board fails: an island index of 3 or more with
/// `InvalidIsland`, a tile index past its island with `InvalidTile`.
pub proof fn law_bounds(m: TreasureView, id: u32, q: Address, island_id: u32, tile_id: u32, salt: Seq<u8>)
    requires
        m.wf(),
        m.rooms.contains_key(id),
        m.rooms[id].phase == Phase::Playing,
        m.rooms[id].turn_ok(q),
    ensures
        island_id >= 3 ==> dig_step(m, id, q, island_id, tile_id) == Err::<TreasureView, Error>(Error::InvalidIsland)
            && reveal_step(m, id, q, island_id, tile_id, salt) == Err::<TreasureView, Error>(Error::InvalidIsland),
        island_id < 3 && tile_id >= board()[island_id as int] ==> dig_step(m, id, q, island_id, tile_id)
            == Err::<TreasureView, Error>(Error::InvalidTile) && reveal_step(m, id, q, island_id, tile_id, salt)
            == Err::<TreasureView, Error>(Error::InvalidTile),
{
}

/// Once a reveal passes the turn and board checks, it succeeds exactly when
/// the commitment of the revealed values equals the opponent's stored one;
/// then the revealer wins and the room ends.
pub proof fn law_reveal_iff_commitment(m: TreasureView, id: u32, q: Address, island_id: u32, tile_id: u32, salt: Seq<u8>)
    requires
        m.rooms.contains_key(id),
        move_check(m.rooms[id], q, island_id, tile_id) is Ok,
    ensures
        ({
            let opponent_is_a = m.rooms[id].slot_of(q) != Some(true);
            let res = reveal_step(m, id, q, island_id, tile_id, salt);
            &&& res is Ok <==> m.commitment(id, opponent_is_a) == Some(commitment_of(id, island_id, tile_id, salt))
            &&& res is Err ==> res == Err::<TreasureView, Error>(Error::CommitmentMismatch)
            &&& res is Ok ==> {
                let n = res->Ok_0.rooms[id];
                n.winner == Some(q) && n.phase == Phase::Ended && !n.game_active
            }
        }),
{
}

/// An operation on one session leaves every other session, its room and
/// its commitments, as it was, and the configuration too.
pub proof fn law_sessions_isolated(m: TreasureView, id: u32, a: Action, other: u32)
    requires
        apply(m, id, a) is Ok,
        other != id,
    ensures
        ({
            let n = apply(m, id, a)->Ok_0;
            &&& n.rooms.contains_key(other) == m.rooms.contains_key(other)
            &&& m.rooms.contains_key(other) ==> n.rooms[other] == m.rooms[other]
            &&& n.commitment(other, true) == m.commitment(other, true)
            &&& n.commitment(other, false) == m.commitment(other, false)
            &&& n.admin == m.admin && n.hub == m.hub
        }),
{
}

/// A room's phase never moves back, its digs are only appended to, and a
/// stored commitment is never replaced.
pub proof fn law_history_kept(m: TreasureView, id: u32, a: Action)
    requires
        m.wf(),
        apply(m, id, a) is Ok,
        m.rooms.contains_key(id),
    ensures
        ({
            let n = apply(m, id, a)->Ok_0;
            &&& n.rooms.contains_key(id)
            &&& phase_rank(m.rooms[id].phase) <= phase_rank(n.rooms[id].phase)
            &&& n.rooms[id].digs.subrange(0, m.rooms[id].digs.len() as int) == m.rooms[id].digs
            &&& m.commitment(id, true) is Some ==> n.commitment(id, true) == m.commitment(id, true)
            &&& m.commitment(id, false) is Some ==> n.commitment(id, false) == m.commitment(id, false)
        }),
{
    let n = apply(m, id, a)->Ok_0;
    assert(n.rooms[id].digs.subrange(0, m.rooms[id].digs.len() as int) =~= m.rooms[id].digs);
}

} // verus!
