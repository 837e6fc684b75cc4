use crate::address::Address;
use crate::commitment::commitment_of;
use crate::error::Error;
use crate::host::{same_answers, Host, HubEnd, HubStart};
use crate::ledger::{bury_loaded, dig_loaded, join_loaded, open_room, reveal_loaded, start_loaded};
use crate::room::{
    bury_spec, created, dig_spec, join_spec, reveal_spec, start_spec, Room, RoomView,
};
use soroban_sdk::Env;
use std::collections::HashMap;
use vstd::prelude::*;

verus! {

broadcast use vstd::std_specs::hash::group_hash_axioms;

/// The keys of the contract's persisted records.
#[derive(Clone, Copy, Debug, PartialEq, Eq, Structural)]
pub enum DataKey {
    /// The room of a session.
    Room(u32),
    /// The commitment of a session's player A (`true`) or B (`false`).
    Commitment(u32, bool),
    /// The administrator's address.
    Admin,
    /// The address of the match registry.
    GameHubAddress,
}

/// The treasure-hunt contract: its configuration, its rooms, and the
/// commitments of each room's two players, stored apart from the rooms.
pub struct PiratesTreasure {
    env: Env,
    admin: Address,
    hub: Address,
    rooms: HashMap<u32, Room>,
    commitments_a: HashMap<u32, [u8; 32]>,
    commitments_b: HashMap<u32, [u8; 32]>,
}

/// The mathematical value of the contract's state.
pub struct TreasureView {
    pub admin: Address,
    pub hub: Address,
    pub rooms: Map<u32, RoomView>,
    pub commitments_a: Map<u32, Seq<u8>>,
    pub commitments_b: Map<u32, Seq<u8>>,
}

impl TreasureView {
    /// The invariants of the stored state.
    pub open spec fn wf(self) -> bool {
        &&& forall|id: u32| #[trigger]
            self.rooms.contains_key(id) ==> self.rooms[id].wf() && self.rooms[id].room_id == id
        &&& forall|id: u32| #[trigger]
            self.commitments_a.contains_key(id) <==> (self.rooms.contains_key(id)
                && self.rooms[id].has_commitment_a)
        &&& forall|id: u32| #[trigger]
            self.commitments_b.contains_key(id) <==> (self.rooms.contains_key(id)
                && self.rooms[id].has_commitment_b)
    }

    /// The stored commitment of a session's player A (`is_a`) or B.
    pub open spec fn commitment(self, id: u32, is_a: bool) -> Option<Seq<u8>> {
        let m = if is_a {
            self.commitments_a
        } else {
            self.commitments_b
        };
        if m.contains_key(id) {
            Some(m[id])
        } else {
            None
        }
    }

    /// This state with the room of `id` replaced by `r`.
    pub open spec fn with_room(self, id: u32, r: RoomView) -> TreasureView {
        TreasureView { rooms: self.rooms.insert(id, r), ..self }
    }
}

/// Reading a room.
pub open spec fn get_step(m: TreasureView, id: u32) -> Result<RoomView, Error> {
    if m.rooms.contains_key(id) {
        Ok(m.rooms[id])
    } else {
        Err(Error::RoomNotFound)
    }
}

/// Creating a room.
pub open spec fn create_step(m: TreasureView, id: u32, creator: Address, stake: i128) -> Result<TreasureView, Error> {
    if m.rooms.contains_key(id) {
        Err(Error::RoomExists)
    } else {
        Ok(m.with_room(id, created(id, creator, stake)))
    }
}

/// Storing the outcome of a transition of room `id`.
pub open spec fn lift(m: TreasureView, id: u32, r: Result<RoomView, Error>) -> Result<TreasureView, Error> {
    match r {
        Ok(v) => Ok(m.with_room(id, v)),
        Err(e) => Err(e),
    }
}

/// Player B joining a room.
pub open spec fn join_step(m: TreasureView, id: u32, joiner: Address, stake: i128) -> Result<TreasureView, Error> {
    if !m.rooms.contains_key(id) {
        Err(Error::RoomNotFound)
    } else {
        lift(m, id, join_spec(m.rooms[id], joiner, stake))
    }
}

/// Starting a room's match.
pub open spec fn start_step(
    m: TreasureView,
    id: u32,
    player_a: Address,
    player_b: Address,
    stake_a: i128,
    stake_b: i128,
) -> Result<TreasureView, Error> {
    if !m.rooms.contains_key(id) {
        Err(Error::RoomNotFound)
    } else {
        lift(m, id, start_spec(m.rooms[id], player_a, player_b, stake_a, stake_b))
    }
}

/// Burying a treasure: the room changes and the player's commitment is
/// stored in their slot.
pub open spec fn bury_step(m: TreasureView, id: u32, player: Address, digest: Seq<u8>) -> Result<TreasureView, Error> {
    if !m.rooms.contains_key(id) {
        Err(Error::RoomNotFound)
    } else {
        match bury_spec(m.rooms[id], player) {
            Err(e) => Err(e),
            Ok(v) => {
                let is_a = m.rooms[id].slot_of(player) == Some(true);
                Ok(
                    TreasureView {
                        rooms: m.rooms.insert(id, v),
                        commitments_a: if is_a {
                            m.commitments_a.insert(id, digest)
                        } else {
                            m.commitments_a
                        },
                        commitments_b: if is_a {
                            m.commitments_b
                        } else {
                            m.commitments_b.insert(id, digest)
                        },
                        ..m
                    },
                )
            },
        }
    }
}

/// Digging a tile.
pub open spec fn dig_step(m: TreasureView, id: u32, player: Address, island_id: u32, tile_id: u32) -> Result<TreasureView, Error> {
    if !m.rooms.contains_key(id) {
        Err(Error::RoomNotFound)
    } else {
        lift(m, id, dig_spec(m.rooms[id], player, island_id, tile_id))
    }
}

/// A reveal checks the revealed values against the opponent's commitment.
pub open spec fn reveal_step(
    m: TreasureView,
    id: u32,
    player: Address,
    island_id: u32,
    tile_id: u32,
    salt: Seq<u8>,
) -> Result<TreasureView, Error> {
    if !m.rooms.contains_key(id) {
        Err(Error::RoomNotFound)
    } else {
        let r = m.rooms[id];
        let opponent_is_a = r.slot_of(player) != Some(true);
        lift(
            m,
            id,
            reveal_spec(
                r,
                player,
                island_id,
                tile_id,
                commitment_of(id, island_id, tile_id, salt),
                m.commitment(id, opponent_is_a),
            ),
        )
    }
}

/// The outcome of an operation that needs `authorized` and, when that holds,
/// does what `expected` gives: on success the new state, with the records in
/// `renewed` renewed; on any failure nothing changes and nothing is renewed.
pub open spec fn decided<H: Host>(
    r: Result<(), Error>,
    before: TreasureView,
    after: TreasureView,
    h0: H,
    h1: H,
    authorized: bool,
    expected: Result<TreasureView, Error>,
    renewed: Seq<DataKey>,
) -> bool {
    if !authorized {
        r == Err::<(), Error>(Error::Unauthorized) && after == before && h1.renewals() == h0.renewals()
    } else {
        match expected {
            Ok(v) => r is Ok && after == v && h1.renewals() == h0.renewals() + renewed,
            Err(e) => r == Err::<(), Error>(e) && after == before && h1.renewals() == h0.renewals(),
        }
    }
}

/// As `decided`, where a transition that is due also needs the hub to
/// accept, and fails with `HubRefused` when it does not.
pub open spec fn decided_with_hub<H: Host>(
    r: Result<(), Error>,
    before: TreasureView,
    after: TreasureView,
    h0: H,
    h1: H,
    authorized: bool,
    expected: Result<TreasureView, Error>,
    renewed: Seq<DataKey>,
) -> bool {
    if authorized && expected is Ok && !h0.hub_accepts() {
        r == Err::<(), Error>(Error::HubRefused) && after == before && h1.renewals() == h0.renewals()
    } else {
        decided(r, before, after, h0, h1, authorized, expected, renewed)
    }
}

/// No hub notification and no upgrade request was made.
pub open spec fn no_hub<H: Host>(h0: H, h1: H) -> bool {
    &&& same_answers(h0, h1)
    &&& h1.hub_starts() == h0.hub_starts()
    &&& h1.hub_ends() == h0.hub_ends()
    &&& h1.upgrades() == h0.upgrades()
}

/// The outcome of an operation, without the room it returns.
pub open spec fn unit_of(r: Result<Room, Error>) -> Result<(), Error> {
    match r {
        Ok(_) => Ok(()),
        Err(e) => Err(e),
    }
}

impl View for PiratesTreasure {
    type V = TreasureView;

    closed spec fn view(&self) -> TreasureView {
        TreasureView {
            admin: self.admin,
            hub: self.hub,
            rooms: self.rooms@.map_values(|r: Room| r@),
            commitments_a: self.commitments_a@.map_values(|d: [u8; 32]| d@),
            commitments_b: self.commitments_b@.map_values(|d: [u8; 32]| d@),
        }
    }
}

impl PiratesTreasure {
    /// A contract with an administrator, a hub, and no rooms.
    pub fn new(env: Env, admin: Address, game_hub: Address) -> (r: PiratesTreasure)
        ensures
            r@.admin == admin,
            r@.hub == game_hub,
            r@.rooms == Map::<u32, RoomView>::empty(),
            r@.commitments_a == Map::<u32, Seq<u8>>::empty(),
            r@.commitments_b == Map::<u32, Seq<u8>>::empty(),
            r@.wf(),
    {
        let r = PiratesTreasure {
            env,
            admin,
            hub: game_hub,
            rooms: HashMap::new(),
            commitments_a: HashMap::new(),
            commitments_b: HashMap::new(),
        };
        assert(r@.rooms =~= Map::<u32, RoomView>::empty());
        assert(r@.commitments_a =~= Map::<u32, Seq<u8>>::empty());
        assert(r@.commitments_b =~= Map::<u32, Seq<u8>>::empty());
        r
    }


    /// A copy of the room of `room_id`.
    fn load(&self, room_id: u32) -> (r: Result<Room, Error>)
        ensures
            match get_step(self@, room_id) {
                Ok(v) => r is Ok && r->Ok_0@ == v,
                Err(e) => r == Err::<Room, Error>(e),
            },
    {
        match self.rooms.get(&room_id) {
            Some(room) => Ok(room.snapshot()),
            None => Err(Error::RoomNotFound),
        }
    }

    /// Stores `room` under `room_id`, replacing what was there.
    fn save(&mut self, room_id: u32, room: Room)
        ensures
            final(self)@ == old(self)@.with_room(room_id, room@),
    {
        let ghost before = self@;
        self.rooms.insert(room_id, room);
        assert(self@.rooms =~= before.rooms.insert(room_id, room@));
    }

    /// The room of `room_id`.
    pub fn get_room(&self, room_id: u32) -> (r: Result<Room, Error>)
        ensures
            match get_step(self@, room_id) {
                Ok(v) => r is Ok && r->Ok_0@ == v,
                Err(e) => r == Err::<Room, Error>(e),
            },
    {
        self.load(room_id)
    }

    /// The room of `room_id`, as `get_room` gives it.
    pub fn get_game(&self, room_id: u32) -> (r: Result<Room, Error>)
        ensures
            match get_step(self@, room_id) {
                Ok(v) => r is Ok && r->Ok_0@ == v,
                Err(e) => r == Err::<Room, Error>(e),
            },
    {
        self.get_room(room_id)
    }

    /// The room of `room_id`, if there is one.
    fn load_opt(&self, room_id: u32) -> (r: Option<Room>)
        ensures
            r is Some <==> self@.rooms.contains_key(room_id),
            r is Some ==> r->Some_0@ == self@.rooms[room_id],
    {
        match self.rooms.get(&room_id) {
            Some(room) => Some(room.snapshot()),
            None => None,
        }
    }

    /// The stored commitment of player A (`is_a`) or B of `room_id`.
    fn stored(&self, room_id: u32, is_a: bool) -> (r: Option<[u8; 32]>)
        ensures
            crate::ledger::digest_view(r) == self@.commitment(room_id, is_a),
    {
        let found = if is_a {
            self.commitments_a.get(&room_id)
        } else {
            self.commitments_b.get(&room_id)
        };
        match found {
            Some(d) => Some(*d),
            None => None,
        }
    }

    /// `player_a` opens a room for `room_id` with their stake.
    pub fn create_room<H: Host>(
        &mut self,
        host: &mut H,
        room_id: u32,
        player_a: Address,
        player_a_points: i128,
    ) -> (r: Result<Room, Error>)
        requires
            old(self)@.wf(),
        ensures
            final(self)@.wf(),
            no_hub(*old(host), *final(host)),
            decided(
                unit_of(r),
                old(self)@,
                final(self)@,
                *old(host),
                *final(host),
                old(host).authorized(player_a),
                create_step(old(self)@, room_id, player_a, player_a_points),
                seq![DataKey::Room(room_id)],
            ),
            r is Ok ==> r->Ok_0@ == final(self)@.rooms[room_id],
    {
        if !host.require_auth(&player_a) {
            return Err(Error::Unauthorized);
        }
        let room = match open_room(self.rooms.contains_key(&room_id), room_id, player_a, player_a_points) {
            Ok(room) => room,
            Err(e) => { return Err(e); },
        };
        proof {
            crate::room::lemma_created_wf(room_id, player_a, player_a_points);
        }
        let out = room.snapshot();
        let ghost h0 = host.renewals();
        self.save(room_id, room);
        host.extend_ttl(DataKey::Room(room_id));
        assert(host.renewals() =~= h0 + seq![DataKey::Room(room_id)]);
        Ok(out)
    }

    /// `player_b` joins the room of `room_id` with their stake.
    pub fn join_room<H: Host>(
        &mut self,
        host: &mut H,
        room_id: u32,
        player_b: Address,
        player_b_points: i128,
    ) -> (r: Result<Room, Error>)
        requires
            old(self)@.wf(),
        ensures
            final(self)@.wf(),
            no_hub(*old(host), *final(host)),
            decided(
                unit_of(r),
                old(self)@,
                final(self)@,
                *old(host),
                *final(host),
                old(host).authorized(player_b),
                join_step(old(self)@, room_id, player_b, player_b_points),
                seq![DataKey::Room(room_id)],
            ),
            r is Ok ==> r->Ok_0@ == final(self)@.rooms[room_id],
    {
        if !host.require_auth(&player_b) {
            return Err(Error::Unauthorized);
        }
        let room = match join_loaded(self.load_opt(room_id), player_b, player_b_points) {
            Ok(room) => room,
            Err(e) => { return Err(e); },
        };
        proof {
            crate::room::lemma_join_wf(self@.rooms[room_id], player_b, player_b_points);
        }
        let out = room.snapshot();
        let ghost h0 = host.renewals();
        self.save(room_id, room);
        host.extend_ttl(DataKey::Room(room_id));
        assert(host.renewals() =~= h0 + seq![DataKey::Room(room_id)]);
        Ok(out)
    }

    /// Both players start the match of `room_id` with these stakes. The hub
    /// is told before the room changes; if it refuses, nothing changes.
    pub fn start_room<H: Host>(
        &mut self,
        host: &mut H,
        room_id: u32,
        player_a: Address,
        player_b: Address,
        player_a_points: i128,
        player_b_points: i128,
    ) -> (r: Result<Room, Error>)
        requires
            old(self)@.wf(),
        ensures
            final(self)@.wf(),
            same_answers(*old(host), *final(host)),
            final(host).hub_ends() == old(host).hub_ends(),
            final(host).upgrades() == old(host).upgrades(),
            final(host).hub_starts() == if old(host).authorized(player_a) && old(host).authorized(player_b)
                && start_step(old(self)@, room_id, player_a, player_b, player_a_points, player_b_points) is Ok {
                old(host).hub_starts().push(
                    HubStart {
                        hub: old(self)@.hub,
                        session_id: room_id,
                        player1: player_a,
                        player2: player_b,
                        player1_points: player_a_points,
                        player2_points: player_b_points,
                    },
                )
            } else {
                old(host).hub_starts()
            },
            decided_with_hub(
                unit_of(r),
                old(self)@,
                final(self)@,
                *old(host),
                *final(host),
                old(host).authorized(player_a) && old(host).authorized(player_b),
                start_step(old(self)@, room_id, player_a, player_b, player_a_points, player_b_points),
                seq![DataKey::Room(room_id)],
            ),
            r is Ok ==> r->Ok_0@ == final(self)@.rooms[room_id],
    {
        if !host.require_auth(&player_a) {
            return Err(Error::Unauthorized);
        }
        if !host.require_auth(&player_b) {
            return Err(Error::Unauthorized);
        }
        let loaded = self.load_opt(room_id);
        let (room, call) = match start_loaded(
            loaded,
            self.hub,
            room_id,
            player_a,
            player_b,
            player_a_points,
            player_b_points,
        ) {
            Ok(p) => p,
            Err(e) => { return Err(e); },
        };
        if !host.start_game(call) {
            return Err(Error::HubRefused);
        }
        proof {
            crate::room::lemma_start_wf(
                self@.rooms[room_id],
                player_a,
                player_b,
                player_a_points,
                player_b_points,
            );
        }
        let out = room.snapshot();
        let ghost h0 = host.renewals();
        self.save(room_id, room);
        host.extend_ttl(DataKey::Room(room_id));
        assert(host.renewals() =~= h0 + seq![DataKey::Room(room_id)]);
        Ok(out)
    }

    /// `player` digs (island, tile) in the room of `room_id`.
    pub fn dig<H: Host>(
        &mut self,
        host: &mut H,
        room_id: u32,
        player: Address,
        island_id: u32,
        tile_id: u32,
    ) -> (r: Result<(), Error>)
        requires
            old(self)@.wf(),
        ensures
            final(self)@.wf(),
            no_hub(*old(host), *final(host)),
            decided(
                r,
                old(self)@,
                final(self)@,
                *old(host),
                *final(host),
                old(host).authorized(player),
                dig_step(old(self)@, room_id, player, island_id, tile_id),
                seq![DataKey::Room(room_id)],
            ),
    {
        if !host.require_auth(&player) {
            return Err(Error::Unauthorized);
        }
        let room = match dig_loaded(self.load_opt(room_id), player, island_id, tile_id) {
            Ok(room) => room,
            Err(e) => { return Err(e); },
        };
        proof {
            crate::room::lemma_dig_wf(self@.rooms[room_id], player, island_id, tile_id);
        }
        let ghost h0 = host.renewals();
        self.save(room_id, room);
        host.extend_ttl(DataKey::Room(room_id));
        assert(host.renewals() =~= h0 + seq![DataKey::Room(room_id)]);
        Ok(())
    }

    /// `player` buries their treasure in the room of `room_id` behind
    /// `commitment`. Once both have, the room moves to Playing.
    pub fn bury_treasure<H: Host>(
        &mut self,
        host: &mut H,
        room_id: u32,
        player: Address,
        commitment: [u8; 32],
    ) -> (r: Result<(), Error>)
        requires
            old(self)@.wf(),
        ensures
            final(self)@.wf(),
            no_hub(*old(host), *final(host)),
            decided(
                r,
                old(self)@,
                final(self)@,
                *old(host),
                *final(host),
                old(host).authorized(player),
                bury_step(old(self)@, room_id, player, commitment@),
                seq![
                    DataKey::Commitment(room_id, old(self)@.rooms[room_id].slot_of(player) == Some(true)),
                    DataKey::Room(room_id),
                ],
            ),
    {
        if !host.require_auth(&player) {
            return Err(Error::Unauthorized);
        }
        let (room, is_a) = match bury_loaded(self.load_opt(room_id), player) {
            Ok(p) => p,
            Err(e) => { return Err(e); },
        };
        proof {
            crate::room::lemma_bury_wf(self@.rooms[room_id], player);
        }
        let ghost before = self@;
        let ghost h0 = host.renewals();
        if is_a {
            self.commitments_a.insert(room_id, commitment);
            assert(self@.commitments_a =~= before.commitments_a.insert(room_id, commitment@));
        } else {
            self.commitments_b.insert(room_id, commitment);
            assert(self@.commitments_b =~= before.commitments_b.insert(room_id, commitment@));
        }
        host.extend_ttl(DataKey::Commitment(room_id, is_a));
        self.save(room_id, room);
        host.extend_ttl(DataKey::Room(room_id));
        assert(host.renewals() =~= h0 + seq![DataKey::Commitment(room_id, is_a), DataKey::Room(room_id)]);
        Ok(())
    }

    /// `player` claims victory in the room of `room_id` by revealing the
    /// opponent's treasure: (island, tile) and the salt must reproduce the
    /// opponent's commitment. The hub is told before the room changes; if
    /// it refuses, nothing changes.
    pub fn reveal_treasure<H: Host>(
        &mut self,
        host: &mut H,
        room_id: u32,
        player: Address,
        island_id: u32,
        tile_id: u32,
        salt: [u8; 32],
    ) -> (r: Result<(), Error>)
        requires
            old(self)@.wf(),
        ensures
            final(self)@.wf(),
            same_answers(*old(host), *final(host)),
            final(host).hub_starts() == old(host).hub_starts(),
            final(host).upgrades() == old(host).upgrades(),
            final(host).hub_ends() == if old(host).authorized(player) && reveal_step(
                old(self)@,
                room_id,
                player,
                island_id,
                tile_id,
                salt@,
            ) is Ok {
                old(host).hub_ends().push(
                    HubEnd {
                        hub: old(self)@.hub,
                        session_id: room_id,
                        player1_won: old(self)@.rooms[room_id].slot_of(player) == Some(true),
                    },
                )
            } else {
                old(host).hub_ends()
            },
            decided_with_hub(
                r,
                old(self)@,
                final(self)@,
                *old(host),
                *final(host),
                old(host).authorized(player),
                reveal_step(old(self)@, room_id, player, island_id, tile_id, salt@),
                seq![DataKey::Room(room_id)],
            ),
    {
        if !host.require_auth(&player) {
            return Err(Error::Unauthorized);
        }
        let loaded = self.load_opt(room_id);
        let stored_a = self.stored(room_id, true);
        let stored_b = self.stored(room_id, false);
        let (room, call) = match reveal_loaded(
            &self.env,
            loaded,
            self.hub,
            room_id,
            player,
            island_id,
            tile_id,
            &salt,
            stored_a,
            stored_b,
        ) {
            Ok(p) => p,
            Err(e) => { return Err(e); },
        };
        if !host.end_game(call) {
            return Err(Error::HubRefused);
        }
        proof {
            let r0 = self@.rooms[room_id];
            crate::room::lemma_reveal_wf(
                r0,
                player,
                island_id,
                tile_id,
                commitment_of(room_id, island_id, tile_id, salt@),
                self@.commitment(room_id, r0.slot_of(player) != Some(true)),
            );
        }
        let ghost h0 = host.renewals();
        self.save(room_id, room);
        host.extend_ttl(DataKey::Room(room_id));
        assert(host.renewals() =~= h0 + seq![DataKey::Room(room_id)]);
        Ok(())
    }

    pub fn get_admin(&self) -> (r: Address)
        ensures
            r == self@.admin,
    {
        self.admin
    }

    pub fn get_hub(&self) -> (r: Address)
        ensures
            r == self@.hub,
    {
        self.hub
    }

    /// The administrator hands the role to `new_admin`.
    pub fn set_admin<H: Host>(&mut self, host: &mut H, new_admin: Address) -> (r: Result<(), Error>)
        requires
            old(self)@.wf(),
        ensures
            final(self)@.wf(),
            no_hub(*old(host), *final(host)),
            decided(
                r,
                old(self)@,
                final(self)@,
                *old(host),
                *final(host),
                old(host).authorized(old(self)@.admin),
                Ok::<TreasureView, Error>(TreasureView { admin: new_admin, ..old(self)@ }),
                seq![DataKey::Admin],
            ),
    {
        if !host.require_auth(&self.admin) {
            return Err(Error::Unauthorized);
        }
        let ghost h0 = host.renewals();
        self.admin = new_admin;
        host.extend_ttl(DataKey::Admin);
        assert(host.renewals() =~= h0 + seq![DataKey::Admin]);
        Ok(())
    }

    /// The administrator points the contract at another hub.
    pub fn set_hub<H: Host>(&mut self, host: &mut H, new_hub: Address) -> (r: Result<(), Error>)
        requires
            old(self)@.wf(),
        ensures
            final(self)@.wf(),
            no_hub(*old(host), *final(host)),
            decided(
                r,
                old(self)@,
                final(self)@,
                *old(host),
                *final(host),
                old(host).authorized(old(self)@.admin),
                Ok::<TreasureView, Error>(TreasureView { hub: new_hub, ..old(self)@ }),
                seq![DataKey::GameHubAddress],
            ),
    {
        if !host.require_auth(&self.admin) {
            return Err(Error::Unauthorized);
        }
        let ghost h0 = host.renewals();
        self.hub = new_hub;
        host.extend_ttl(DataKey::GameHubAddress);
        assert(host.renewals() =~= h0 + seq![DataKey::GameHubAddress]);
        Ok(())
    }

    /// The administrator replaces the contract's code: with the
    /// administrator's authorization the update is requested, else the call
    /// fails with `Unauthorized` and nothing is requested.
    pub fn upgrade<H: Host>(&self, host: &mut H, new_wasm_hash: [u8; 32]) -> (r: Result<(), Error>)
        ensures
            same_answers(*old(host), *final(host)),
            final(host).hub_starts() == old(host).hub_starts(),
            final(host).hub_ends() == old(host).hub_ends(),
            final(host).renewals() == old(host).renewals(),
            old(host).authorized(self@.admin) ==> r is Ok && final(host).upgrades()
                == old(host).upgrades().push(new_wasm_hash@),
            !old(host).authorized(self@.admin) ==> r == Err::<(), Error>(Error::Unauthorized)
                && final(host).upgrades() == old(host).upgrades(),
    {
        if !host.require_auth(&self.admin) {
            return Err(Error::Unauthorized);
        }
        host.update_current_contract_wasm(new_wasm_hash);
        Ok(())
    }
}

} // verus!
