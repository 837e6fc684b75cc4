use crate::address::Address;
use crate::error::Error;
use vstd::prelude::*;

verus! {

/// The coarse state of a match. Phases only move forward.
#[derive(Clone, Copy, Debug, PartialEq, Eq, Structural)]
pub enum Phase {
    /// Created; waiting for player B to join and for the start.
    Waiting,
    /// Both players submit their commitments.
    Burying,
    /// Players dig in turns; either may reveal on their turn.
    Playing,
    /// A player has won.
    Ended,
}

/// One accepted dig.
#[derive(Clone, Copy, Debug)]
pub struct DigRecord {
    pub digger: Address,
    pub island_id: u32,
    pub tile_id: u32,
}

/// The full state of one session.
#[derive(Clone, Debug)]
pub struct Room {
    pub room_id: u32,
    pub player_a: Address,
    /// Unset until player B joins.
    pub player_b: Option<Address>,
    pub player_a_points: i128,
    pub player_b_points: i128,
    pub phase: Phase,
    pub turn_is_a: bool,
    /// Number of tiles on each island.
    pub island_tile_counts: Vec<u32>,
    pub has_commitment_a: bool,
    pub has_commitment_b: bool,
    /// A match is registered with the hub and not yet concluded.
    pub game_active: bool,
    /// Set exactly when the room has ended.
    pub winner: Option<Address>,
    /// Accepted digs, in order.
    pub digs: Vec<DigRecord>,
}

/// The mathematical value of a room.
pub struct RoomView {
    pub room_id: u32,
    pub player_a: Address,
    pub player_b: Option<Address>,
    pub player_a_points: i128,
    pub player_b_points: i128,
    pub phase: Phase,
    pub turn_is_a: bool,
    pub island_tile_counts: Seq<u32>,
    pub has_commitment_a: bool,
    pub has_commitment_b: bool,
    pub game_active: bool,
    pub winner: Option<Address>,
    pub digs: Seq<DigRecord>,
}

impl View for Room {
    type V = RoomView;

    open spec fn view(&self) -> RoomView {
        RoomView {
            room_id: self.room_id,
            player_a: self.player_a,
            player_b: self.player_b,
            player_a_points: self.player_a_points,
            player_b_points: self.player_b_points,
            phase: self.phase,
            turn_is_a: self.turn_is_a,
            island_tile_counts: self.island_tile_counts@,
            has_commitment_a: self.has_commitment_a,
            has_commitment_b: self.has_commitment_b,
            game_active: self.game_active,
            winner: self.winner,
            digs: self.digs@,
        }
    }
}

/// The board of every room: three islands of 10, 20 and 30 tiles.
pub open spec fn board() -> Seq<u32> {
    seq![10u32, 20u32, 30u32]
}

/// The position of a phase in the order Waiting, Burying, Playing, Ended.
pub open spec fn phase_rank(p: Phase) -> nat {
    match p {
        Phase::Waiting => 0,
        Phase::Burying => 1,
        Phase::Playing => 2,
        Phase::Ended => 3,
    }
}

/// Whether (island, tile) lies on the board.
pub open spec fn on_board(island_id: u32, tile_id: u32) -> bool {
    island_id < board().len() && tile_id < board()[island_id as int]
}

impl RoomView {
    /// Whether some accepted dig was at (island, tile).
    pub open spec fn dug(self, island_id: u32, tile_id: u32) -> bool {
        exists|i: int|
            0 <= i < self.digs.len() && #[trigger] self.digs[i].island_id == island_id
                && self.digs[i].tile_id == tile_id
    }

    /// Which slot `p` holds: `Some(true)` for A, `Some(false)` for B.
    pub open spec fn slot_of(self, p: Address) -> Option<bool> {
        if p == self.player_a {
            Some(true)
        } else if self.player_b == Some(p) {
            Some(false)
        } else {
            None
        }
    }

    /// The invariants that every stored room keeps.
    pub open spec fn wf(self) -> bool {
        &&& self.island_tile_counts == board()
        &&& self.player_b != Some(self.player_a)
        &&& (self.winner is Some <==> self.phase == Phase::Ended)
        &&& self.phase != Phase::Waiting ==> self.player_b is Some
        &&& self.phase == Phase::Burying ==> self.game_active
        &&& self.phase == Phase::Playing ==> self.game_active && self.has_commitment_a
            && self.has_commitment_b
        &&& forall|i: int|
            0 <= i < self.digs.len() ==> on_board(
                #[trigger] self.digs[i].island_id,
                self.digs[i].tile_id,
            )
        &&& forall|i: int, j: int|
            0 <= i < j < self.digs.len() ==> !(#[trigger] self.digs[i].island_id
                == #[trigger] self.digs[j].island_id && self.digs[i].tile_id
                == self.digs[j].tile_id)
    }

    /// Whether it is `player`'s turn.
    pub open spec fn turn_ok(self, player: Address) -> bool {
        self.slot_of(player) == Some(self.turn_is_a)
    }
}

/// A room as it is created.
pub open spec fn created(room_id: u32, player_a: Address, player_a_points: i128) -> RoomView {
    RoomView {
        room_id,
        player_a,
        player_b: None,
        player_a_points,
        player_b_points: 0,
        phase: Phase::Waiting,
        turn_is_a: true,
        island_tile_counts: board(),
        has_commitment_a: false,
        has_commitment_b: false,
        game_active: false,
        winner: None,
        digs: Seq::empty(),
    }
}

/// Player B joins.
pub open spec fn join_spec(r: RoomView, joiner: Address, points: i128) -> Result<RoomView, Error> {
    if r.phase != Phase::Waiting {
        Err(Error::WrongPhase)
    } else if r.player_b is Some {
        Err(Error::RoomFull)
    } else if joiner == r.player_a {
        Err(Error::SelfPlay)
    } else {
        Ok(RoomView { player_b: Some(joiner), player_b_points: points, ..r })
    }
}

/// Both players start the match with their stakes.
pub open spec fn start_spec(
    r: RoomView,
    player_a: Address,
    player_b: Address,
    player_a_points: i128,
    player_b_points: i128,
) -> Result<RoomView, Error> {
    if r.player_b is None {
        Err(Error::NoOpponent)
    } else if player_a != r.player_a || r.player_b != Some(player_b) {
        Err(Error::NotAPlayer)
    } else if r.phase != Phase::Waiting {
        Err(Error::WrongPhase)
    } else {
        Ok(
            RoomView {
                player_a_points,
                player_b_points,
                phase: Phase::Burying,
                game_active: true,
                ..r
            },
        )
    }
}

/// A player buries their treasure; the room moves to Playing once both have.
pub open spec fn bury_spec(r: RoomView, player: Address) -> Result<RoomView, Error> {
    match r.slot_of(player) {
        None => Err(Error::NotAPlayer),
        Some(is_a) => {
            if r.phase != Phase::Burying {
                Err(Error::WrongPhase)
            } else if (is_a && r.has_commitment_a) || (!is_a && r.has_commitment_b) {
                Err(Error::AlreadyBuried)
            } else {
                let a = r.has_commitment_a || is_a;
                let b = r.has_commitment_b || !is_a;
                if a && b {
                    Ok(
                        RoomView {
                            has_commitment_a: a,
                            has_commitment_b: b,
                            phase: Phase::Playing,
                            turn_is_a: true,
                            ..r
                        },
                    )
                } else {
                    Ok(RoomView { has_commitment_a: a, has_commitment_b: b, ..r })
                }
            }
        },
    }
}

/// The checks that a dig and a reveal share, in order.
pub open spec fn move_check(r: RoomView, player: Address, island_id: u32, tile_id: u32) -> Result<(), Error> {
    if r.slot_of(player) is None {
        Err(Error::NotAPlayer)
    } else if r.phase != Phase::Playing {
        Err(Error::WrongPhase)
    } else if !r.game_active {
        Err(Error::GameEnded)
    } else if !r.turn_ok(player) {
        Err(Error::NotYourTurn)
    } else if island_id >= r.island_tile_counts.len() {
        Err(Error::InvalidIsland)
    } else if tile_id >= r.island_tile_counts[island_id as int] {
        Err(Error::InvalidTile)
    } else if r.dug(island_id, tile_id) {
        Err(Error::AlreadyDug)
    } else {
        Ok(())
    }
}

/// A dig: recorded, and the turn passes.
pub open spec fn dig_spec(r: RoomView, player: Address, island_id: u32, tile_id: u32) -> Result<RoomView, Error> {
    match move_check(r, player, island_id, tile_id) {
        Err(e) => Err(e),
        Ok(_) => Ok(
            RoomView {
                digs: r.digs.push(DigRecord { digger: player, island_id, tile_id }),
                turn_is_a: !r.turn_is_a,
                ..r
            },
        ),
    }
}

/// A reveal, given the commitment recomputed from the revealed values and the
/// opponent's stored commitment.
pub open spec fn reveal_spec(
    r: RoomView,
    player: Address,
    island_id: u32,
    tile_id: u32,
    computed: Seq<u8>,
    stored: Option<Seq<u8>>,
) -> Result<RoomView, Error> {
    match move_check(r, player, island_id, tile_id) {
        Err(e) => Err(e),
        Ok(_) => if stored != Some(computed) {
            Err(Error::CommitmentMismatch)
        } else {
            Ok(
                RoomView {
                    winner: Some(player),
                    game_active: false,
                    phase: Phase::Ended,
                    ..r
                },
            )
        },
    }
}

/// A created room is well formed.
pub proof fn lemma_created_wf(room_id: u32, player_a: Address, points: i128)
    ensures
        created(room_id, player_a, points).wf(),
{
}

/// Every accepted transition keeps a room well formed and keeps its id.
pub proof fn lemma_join_wf(r: RoomView, joiner: Address, points: i128)
    requires
        r.wf(),
        join_spec(r, joiner, points) is Ok,
    ensures
        join_spec(r, joiner, points)->Ok_0.wf(),
        join_spec(r, joiner, points)->Ok_0.room_id == r.room_id,
{
}

pub proof fn lemma_start_wf(r: RoomView, a: Address, b: Address, sa: i128, sb: i128)
    requires
        r.wf(),
        start_spec(r, a, b, sa, sb) is Ok,
    ensures
        start_spec(r, a, b, sa, sb)->Ok_0.wf(),
        start_spec(r, a, b, sa, sb)->Ok_0.room_id == r.room_id,
{
}

pub proof fn lemma_bury_wf(r: RoomView, player: Address)
    requires
        r.wf(),
        bury_spec(r, player) is Ok,
    ensures
        bury_spec(r, player)->Ok_0.wf(),
        bury_spec(r, player)->Ok_0.room_id == r.room_id,
{
}

pub proof fn lemma_dig_wf(r: RoomView, player: Address, island_id: u32, tile_id: u32)
    requires
        r.wf(),
        dig_spec(r, player, island_id, tile_id) is Ok,
    ensures
        dig_spec(r, player, island_id, tile_id)->Ok_0.wf(),
        dig_spec(r, player, island_id, tile_id)->Ok_0.room_id == r.room_id,
{
    let n = dig_spec(r, player, island_id, tile_id)->Ok_0;
    let d = DigRecord { digger: player, island_id, tile_id };
    assert(n.digs == r.digs.push(d));
    assert(!r.dug(island_id, tile_id));
    assert forall|i: int| 0 <= i < n.digs.len() implies on_board(
        #[trigger] n.digs[i].island_id,
        n.digs[i].tile_id,
    ) by {
        if i < r.digs.len() {
            assert(n.digs[i] == r.digs[i]);
        }
    }
    assert forall|i: int, j: int|
        0 <= i < j < n.digs.len() implies !(#[trigger] n.digs[i].island_id
        == #[trigger] n.digs[j].island_id && n.digs[i].tile_id == n.digs[j].tile_id) by {
        assert(n.digs[i] == r.digs[i]);
        if j < r.digs.len() {
            assert(n.digs[j] == r.digs[j]);
        } else {
            assert(n.digs[j] == d);
            if r.digs[i].island_id == island_id && r.digs[i].tile_id == tile_id {
                assert(r.dug(island_id, tile_id));
            }
        }
    }
}

pub proof fn lemma_reveal_wf(
    r: RoomView,
    player: Address,
    island_id: u32,
    tile_id: u32,
    computed: Seq<u8>,
    stored: Option<Seq<u8>>,
)
    requires
        r.wf(),
        reveal_spec(r, player, island_id, tile_id, computed, stored) is Ok,
    ensures
        reveal_spec(r, player, island_id, tile_id, computed, stored)->Ok_0.wf(),
        reveal_spec(r, player, island_id, tile_id, computed, stored)->Ok_0.room_id == r.room_id,
{
}

/// `r` reports `expected`: on success `after` is the expected room, on failure
/// the same error is returned and nothing changed.
pub open spec fn applied(
    r: Result<(), Error>,
    before: RoomView,
    after: RoomView,
    expected: Result<RoomView, Error>,
) -> bool {
    match expected {
        Ok(v) => r is Ok && after == v,
        Err(e) => r == Err::<(), Error>(e) && after == before,
    }
}

fn same_opt(a: &Option<Address>, b: &Address) -> (r: bool)
    ensures
        r == (*a == Some(*b)),
{
    match a {
        Some(x) => x.same(b),
        None => false,
    }
}

impl Room {
    /// A new room in Waiting, created by player A with their stake.
    pub fn new(room_id: u32, player_a: Address, player_a_points: i128) -> (r: Room)
        ensures
            r@ == created(room_id, player_a, player_a_points),
            r@.wf(),
    {
        let mut counts: Vec<u32> = Vec::new();
        counts.push(10);
        counts.push(20);
        counts.push(30);
        let r = Room {
            room_id,
            player_a,
            player_b: None,
            player_a_points,
            player_b_points: 0,
            phase: Phase::Waiting,
            turn_is_a: true,
            island_tile_counts: counts,
            has_commitment_a: false,
            has_commitment_b: false,
            game_active: false,
            winner: None,
            digs: Vec::new(),
        };
        assert(r@.island_tile_counts =~= board());
        assert(r@.digs =~= Seq::<DigRecord>::empty());
        r
    }

    /// A copy of this room.
    pub fn snapshot(&self) -> (r: Room)
        ensures
            r@ == self@,
    {
        let mut counts: Vec<u32> = Vec::new();
        let mut i: usize = 0;
        while i < self.island_tile_counts.len()
            invariant
                i <= self.island_tile_counts@.len(),
                counts@ == self.island_tile_counts@.subrange(0, i as int),
            decreases self.island_tile_counts@.len() - i,
        {
            counts.push(self.island_tile_counts[i]);
            assert(self.island_tile_counts@.subrange(0, i + 1) =~= self.island_tile_counts@.subrange(
                0,
                i as int,
            ).push(self.island_tile_counts@[i as int]));
            i = i + 1;
        }
        let mut digs: Vec<DigRecord> = Vec::new();
        let mut j: usize = 0;
        while j < self.digs.len()
            invariant
                j <= self.digs@.len(),
                digs@ == self.digs@.subrange(0, j as int),
            decreases self.digs@.len() - j,
        {
            digs.push(self.digs[j]);
            assert(self.digs@.subrange(0, j + 1) =~= self.digs@.subrange(0, j as int).push(
                self.digs@[j as int],
            ));
            j = j + 1;
        }
        assert(counts@ =~= self.island_tile_counts@);
        assert(digs@ =~= self.digs@);
        Room {
            room_id: self.room_id,
            player_a: self.player_a,
            player_b: self.player_b,
            player_a_points: self.player_a_points,
            player_b_points: self.player_b_points,
            phase: self.phase,
            turn_is_a: self.turn_is_a,
            island_tile_counts: counts,
            has_commitment_a: self.has_commitment_a,
            has_commitment_b: self.has_commitment_b,
            game_active: self.game_active,
            winner: self.winner,
            digs,
        }
    }

    /// Which slot `p` holds: `Some(true)` for A, `Some(false)` for B.
    pub fn slot_of(&self, p: &Address) -> (r: Option<bool>)
        ensures
            r == self@.slot_of(*p),
    {
        if p.same(&self.player_a) {
            Some(true)
        } else if same_opt(&self.player_b, p) {
            Some(false)
        } else {
            None
        }
    }

    /// Whether some accepted dig was at (island, tile).
    pub fn has_dug(&self, island_id: u32, tile_id: u32) -> (r: bool)
        ensures
            r == self@.dug(island_id, tile_id),
    {
        let mut i: usize = 0;
        while i < self.digs.len()
            invariant
                i <= self.digs@.len(),
                forall|k: int|
                    0 <= k < i ==> !(#[trigger] self.digs@[k].island_id == island_id
                        && self.digs@[k].tile_id == tile_id),
            decreases self.digs@.len() - i,
        {
            if self.digs[i].island_id == island_id && self.digs[i].tile_id == tile_id {
                assert(self@.digs[i as int].island_id == island_id);
                return true;
            }
            i = i + 1;
        }
        false
    }

    /// The checks that a dig and a reveal share; on success, whether the
    /// mover is player A.
    pub fn check_move(&self, player: &Address, island_id: u32, tile_id: u32) -> (r: Result<bool, Error>)
        ensures
            match move_check(self@, *player, island_id, tile_id) {
                Ok(_) => r == Ok::<bool, Error>(self@.turn_is_a) && self@.slot_of(*player) == Some(self@.turn_is_a),
                Err(e) => r == Err::<bool, Error>(e),
            },
    {
        let slot = self.slot_of(player);
        let is_a = match slot {
            None => { return Err(Error::NotAPlayer); },
            Some(a) => a,
        };
        if self.phase != Phase::Playing {
            return Err(Error::WrongPhase);
        }
        if !self.game_active {
            return Err(Error::GameEnded);
        }
        if is_a != self.turn_is_a {
            return Err(Error::NotYourTurn);
        }
        if island_id as usize >= self.island_tile_counts.len() {
            return Err(Error::InvalidIsland);
        }
        if tile_id >= self.island_tile_counts[island_id as usize] {
            return Err(Error::InvalidTile);
        }
        if self.has_dug(island_id, tile_id) {
            return Err(Error::AlreadyDug);
        }
        Ok(is_a)
    }

    /// Player B joins with their stake.
    pub fn join(&mut self, joiner: Address, points: i128) -> (r: Result<(), Error>)
        ensures
            applied(r, old(self)@, final(self)@, join_spec(old(self)@, joiner, points)),
    {
        if self.phase != Phase::Waiting {
            return Err(Error::WrongPhase);
        }
        if self.player_b.is_some() {
            return Err(Error::RoomFull);
        }
        if joiner.same(&self.player_a) {
            return Err(Error::SelfPlay);
        }
        self.player_b = Some(joiner);
        self.player_b_points = points;
        Ok(())
    }

    /// Both registered players start the match with these stakes.
    pub fn start(
        &mut self,
        player_a: &Address,
        player_b: &Address,
        player_a_points: i128,
        player_b_points: i128,
    ) -> (r: Result<(), Error>)
        ensures
            applied(
                r,
                old(self)@,
                final(self)@,
                start_spec(old(self)@, *player_a, *player_b, player_a_points, player_b_points),
            ),
    {
        if self.player_b.is_none() {
            return Err(Error::NoOpponent);
        }
        if !player_a.same(&self.player_a) || !same_opt(&self.player_b, player_b) {
            return Err(Error::NotAPlayer);
        }
        if self.phase != Phase::Waiting {
            return Err(Error::WrongPhase);
        }
        self.player_a_points = player_a_points;
        self.player_b_points = player_b_points;
        self.phase = Phase::Burying;
        self.game_active = true;
        Ok(())
    }

    /// `player` buries a treasure; the room moves to Playing, player A to
    /// move, once both have.
    pub fn bury(&mut self, player: &Address) -> (r: Result<(), Error>)
        ensures
            applied(r, old(self)@, final(self)@, bury_spec(old(self)@, *player)),
    {
        let is_a = match self.slot_of(player) {
            None => { return Err(Error::NotAPlayer); },
            Some(a) => a,
        };
        if self.phase != Phase::Burying {
            return Err(Error::WrongPhase);
        }
        if (is_a && self.has_commitment_a) || (!is_a && self.has_commitment_b) {
            return Err(Error::AlreadyBuried);
        }
        if is_a {
            self.has_commitment_a = true;
        } else {
            self.has_commitment_b = true;
        }
        if self.has_commitment_a && self.has_commitment_b {
            self.phase = Phase::Playing;
            self.turn_is_a = true;
        }
        Ok(())
    }

    /// `player` digs (island, tile) on their turn; the turn passes.
    pub fn dig(&mut self, player: &Address, island_id: u32, tile_id: u32) -> (r: Result<(), Error>)
        ensures
            applied(r, old(self)@, final(self)@, dig_spec(old(self)@, *player, island_id, tile_id)),
    {
        self.check_move(player, island_id, tile_id)?;
        self.digs.push(DigRecord { digger: *player, island_id, tile_id });
        self.turn_is_a = !self.turn_is_a;
        Ok(())
    }

    /// `player` reveals the opponent's treasure on their turn. `computed` is
    /// the commitment of the revealed values, `stored` the opponent's.
    pub fn claim_victory(
        &mut self,
        player: &Address,
        island_id: u32,
        tile_id: u32,
        computed: &[u8; 32],
        stored: Option<&[u8; 32]>,
    ) -> (r: Result<(), Error>)
        ensures
            applied(
                r,
                old(self)@,
                final(self)@,
                reveal_spec(
                    old(self)@,
                    *player,
                    island_id,
                    tile_id,
                    computed@,
                    match stored {
                        Some(s) => Some(s@),
                        None => None,
                    },
                ),
            ),
    {
        self.check_move(player, island_id, tile_id)?;
        let matches = match stored {
            Some(s) => crate::commitment::digests_equal(s, computed),
            None => false,
        };
        if !matches {
            return Err(Error::CommitmentMismatch);
        }
        self.winner = Some(*player);
        self.game_active = false;
        self.phase = Phase::Ended;
        Ok(())
    }
}

} // verus!
