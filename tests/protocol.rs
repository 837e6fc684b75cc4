use pirates_treasure::{
    commitment_preimage, compute_commitment, digests_equal, verify_commitment, Address, DataKey,
    Error, HubEnd, Phase, PiratesTreasure, RecordingHost,
};
use soroban_sdk::{Bytes, Env};

fn addr(seed: u8) -> Address {
    let mut key = [0u8; 32];
    key[31] = seed;
    Address::account(key)
}

fn setup_env() -> (PiratesTreasure, RecordingHost, Address, Address, Address) {
    let admin = addr(100);
    let hub = Address::contract([7u8; 32]);
    let game = PiratesTreasure::new(Env::default(), admin, hub);
    let host = RecordingHost::new(vec![addr(1), addr(2), addr(3), admin]);
    (game, host, addr(1), addr(2), hub)
}

fn make_salt(seed: u8) -> [u8; 32] {
    let mut arr = [0u8; 32];
    arr[0] = seed;
    arr
}

/// SHA-256(room ‖ island ‖ tile ‖ salt), computed directly with the host.
fn make_commitment(room_id: u32, island_id: u32, tile_id: u32, salt: &[u8; 32]) -> [u8; 32] {
    let env = Env::default();
    let mut buf = Bytes::new(&env);
    buf.extend_from_array(&room_id.to_be_bytes());
    buf.extend_from_array(&island_id.to_be_bytes());
    buf.extend_from_array(&tile_id.to_be_bytes());
    buf.extend_from_slice(salt);
    env.crypto().sha256(&buf).to_array()
}

fn ready_to_bury(game: &mut PiratesTreasure, host: &mut RecordingHost, a: Address, b: Address) {
    game.create_room(host, 1, a, 100).unwrap();
    game.join_room(host, 1, b, 200).unwrap();
    game.start_room(host, 1, a, b, 100, 200).unwrap();
}

fn ready_to_play(game: &mut PiratesTreasure, host: &mut RecordingHost, a: Address, b: Address) {
    ready_to_bury(game, host, a, b);
    game.bury_treasure(host, 1, a, make_commitment(1, 0, 5, &make_salt(1))).unwrap();
    game.bury_treasure(host, 1, b, make_commitment(1, 2, 15, &make_salt(2))).unwrap();
}

#[test]
fn end_to_end_scenario() {
    let (mut game, mut host, a, b, _hub) = setup_env();
    game.create_room(&mut host, 1, a, 100).unwrap();
    game.join_room(&mut host, 1, b, 200).unwrap();
    let room = game.start_room(&mut host, 1, a, b, 100, 200).unwrap();
    assert_eq!(room.phase, Phase::Burying);
    let salt_a = make_salt(1);
    game.bury_treasure(&mut host, 1, a, make_commitment(1, 0, 5, &salt_a)).unwrap();
    let room = game.get_room(1).unwrap();
    assert!(room.has_commitment_a);
    assert_eq!(room.phase, Phase::Burying);
    game.bury_treasure(&mut host, 1, b, make_commitment(1, 2, 15, &make_salt(2))).unwrap();
    let room = game.get_room(1).unwrap();
    assert_eq!(room.phase, Phase::Playing);
    assert!(room.turn_is_a);
    game.dig(&mut host, 1, a, 0, 0).unwrap();
    let room = game.get_room(1).unwrap();
    assert!(!room.turn_is_a);
    assert_eq!(room.digs.len(), 1);
    game.reveal_treasure(&mut host, 1, b, 0, 5, salt_a).unwrap();
    let room = game.get_room(1).unwrap();
    assert_eq!(room.winner, Some(b));
    assert_eq!(room.phase, Phase::Ended);
    assert_eq!(host.started.len(), 1);
    assert_eq!(host.ended, vec![HubEnd { hub: game.get_hub(), session_id: 1, player1_won: false }]);
}

#[test]
fn unauthorized_bury_fails() {
    let (mut game, mut host, a, b, _hub) = setup_env();
    ready_to_bury(&mut game, &mut host, a, b);
    host.authorized.retain(|x| *x != b);
    let r = game.bury_treasure(&mut host, 1, b, [2u8; 32]);
    assert_eq!(r.unwrap_err(), Error::Unauthorized);
    assert!(!game.get_room(1).unwrap().has_commitment_b);
}

#[test]
fn failed_moves_tell_the_hub_nothing() {
    let (mut game, mut host, a, b, _hub) = setup_env();
    game.create_room(&mut host, 1, a, 100).unwrap();
    assert!(game.start_room(&mut host, 1, a, b, 1, 1).is_err());
    assert!(game.start_room(&mut host, 7, a, b, 1, 1).is_err());
    assert!(host.started.is_empty());
    game.join_room(&mut host, 1, b, 200).unwrap();
    game.start_room(&mut host, 1, a, b, 100, 200).unwrap();
    assert!(game.start_room(&mut host, 1, a, b, 100, 200).is_err());
    assert_eq!(host.started.len(), 1);
    game.bury_treasure(&mut host, 1, a, make_commitment(1, 0, 5, &make_salt(1))).unwrap();
    game.bury_treasure(&mut host, 1, b, make_commitment(1, 2, 15, &make_salt(2))).unwrap();
    assert!(game.reveal_treasure(&mut host, 1, a, 2, 14, make_salt(2)).is_err());
    assert!(game.reveal_treasure(&mut host, 1, a, 3, 0, make_salt(2)).is_err());
    game.dig(&mut host, 1, a, 2, 15).unwrap();
    assert!(game.reveal_treasure(&mut host, 1, b, 2, 15, make_salt(2)).is_err());
    assert!(host.ended.is_empty());
    let renewed = host.renewed.len();
    assert!(game.dig(&mut host, 1, a, 0, 0).is_err());
    assert_eq!(host.renewed.len(), renewed);
}

#[test]
fn create_then_get_is_fresh() {
    let (mut game, mut host, a, _b, _hub) = setup_env();
    game.create_room(&mut host, 42, a, 7).unwrap();
    let room = game.get_room(42).unwrap();
    assert_eq!(room.room_id, 42);
    assert_eq!(room.phase, Phase::Waiting);
    assert!(!room.has_commitment_a && !room.has_commitment_b);
    assert!(room.digs.is_empty());
    assert_eq!(room.player_a_points, 7);
    assert_eq!(room.player_b, None);
    assert_eq!(room.winner, None);
    assert!(!room.game_active);
    assert_eq!(room.island_tile_counts, vec![10, 20, 30]);
    assert_eq!(host.renewed, vec![DataKey::Room(42)]);
}

#[test]
fn create_twice_is_refused() {
    let (mut game, mut host, a, b, _hub) = setup_env();
    game.create_room(&mut host, 1, a, 100).unwrap();
    assert_eq!(game.create_room(&mut host, 1, b, 5).unwrap_err(), Error::RoomExists);
    assert_eq!(game.get_room(1).unwrap().player_a, a);
}

#[test]
fn missing_room_is_not_found() {
    let (mut game, mut host, a, b, _hub) = setup_env();
    assert_eq!(game.get_room(9).unwrap_err(), Error::RoomNotFound);
    assert_eq!(game.join_room(&mut host, 9, b, 1).unwrap_err(), Error::RoomNotFound);
    assert_eq!(game.start_room(&mut host, 9, a, b, 1, 1).unwrap_err(), Error::RoomNotFound);
    assert_eq!(game.bury_treasure(&mut host, 9, a, [0u8; 32]).unwrap_err(), Error::RoomNotFound);
    assert_eq!(game.dig(&mut host, 9, a, 0, 0).unwrap_err(), Error::RoomNotFound);
    let r = game.reveal_treasure(&mut host, 9, a, 0, 0, [0u8; 32]);
    assert_eq!(r.unwrap_err(), Error::RoomNotFound);
}

#[test]
fn unauthorized_caller_changes_nothing() {
    let (mut game, mut host, a, b, _hub) = setup_env();
    ready_to_play(&mut game, &mut host, a, b);
    host.authorized.retain(|x| *x != a);
    assert_eq!(game.dig(&mut host, 1, a, 0, 0).unwrap_err(), Error::Unauthorized);
    let r = game.reveal_treasure(&mut host, 1, a, 2, 15, make_salt(2));
    assert_eq!(r.unwrap_err(), Error::Unauthorized);
    assert_eq!(game.create_room(&mut host, 2, a, 1).unwrap_err(), Error::Unauthorized);
    let room = game.get_room(1).unwrap();
    assert!(room.digs.is_empty());
    assert_eq!(room.phase, Phase::Playing);
    assert_eq!(game.get_room(2).unwrap_err(), Error::RoomNotFound);
}

#[test]
fn admin_setters_need_the_admin() {
    let (mut game, mut host, a, _b, hub) = setup_env();
    let admin = game.get_admin();
    host.authorized.retain(|x| *x != admin);
    assert_eq!(game.set_admin(&mut host, a).unwrap_err(), Error::Unauthorized);
    assert_eq!(game.set_hub(&mut host, a).unwrap_err(), Error::Unauthorized);
    assert_eq!(game.upgrade(&mut host, [3u8; 32]).unwrap_err(), Error::Unauthorized);
    assert_eq!(game.get_admin(), admin);
    assert_eq!(game.get_hub(), hub);
    assert!(host.upgraded.is_empty());
    host.authorized.push(admin);
    game.upgrade(&mut host, [3u8; 32]).unwrap();
    assert_eq!(host.upgraded, vec![[3u8; 32]]);
}

#[test]
fn join_after_start_is_wrong_phase() {
    let (mut game, mut host, a, b, _hub) = setup_env();
    ready_to_bury(&mut game, &mut host, a, b);
    assert_eq!(game.join_room(&mut host, 1, addr(3), 1).unwrap_err(), Error::WrongPhase);
    assert_eq!(game.start_room(&mut host, 1, a, b, 1, 1).unwrap_err(), Error::WrongPhase);
}

#[test]
fn start_by_strangers_is_refused() {
    let (mut game, mut host, a, b, _hub) = setup_env();
    game.create_room(&mut host, 1, a, 100).unwrap();
    game.join_room(&mut host, 1, b, 200).unwrap();
    let r = game.start_room(&mut host, 1, a, addr(3), 100, 200);
    assert_eq!(r.unwrap_err(), Error::NotAPlayer);
    assert_eq!(game.get_room(1).unwrap().phase, Phase::Waiting);
}

#[test]
fn start_records_the_stakes() {
    let (mut game, mut host, a, b, _hub) = setup_env();
    game.create_room(&mut host, 1, a, 100).unwrap();
    game.join_room(&mut host, 1, b, 200).unwrap();
    let room = game.start_room(&mut host, 1, a, b, 300, 400).unwrap();
    assert_eq!(room.player_a_points, 300);
    assert_eq!(room.player_b_points, 400);
}

#[test]
fn hub_refusal_changes_nothing() {
    let (mut game, mut host, a, b, _hub) = setup_env();
    game.create_room(&mut host, 1, a, 100).unwrap();
    game.join_room(&mut host, 1, b, 200).unwrap();
    host.hub_refuses = true;
    let r = game.start_room(&mut host, 1, a, b, 100, 200);
    assert_eq!(r.unwrap_err(), Error::HubRefused);
    assert_eq!(host.started.len(), 1);
    let room = game.get_room(1).unwrap();
    assert_eq!(room.phase, Phase::Waiting);
    assert!(!room.game_active);
    host.hub_refuses = false;
    game.start_room(&mut host, 1, a, b, 100, 200).unwrap();
    game.bury_treasure(&mut host, 1, a, make_commitment(1, 0, 5, &make_salt(1))).unwrap();
    game.bury_treasure(&mut host, 1, b, make_commitment(1, 2, 15, &make_salt(2))).unwrap();
    host.hub_refuses = true;
    let r = game.reveal_treasure(&mut host, 1, a, 2, 15, make_salt(2));
    assert_eq!(r.unwrap_err(), Error::HubRefused);
    assert_eq!(host.ended.len(), 1);
    let room = game.get_room(1).unwrap();
    assert_eq!(room.phase, Phase::Playing);
    assert_eq!(room.winner, None);
}

#[test]
fn bury_by_stranger_or_in_wrong_phase() {
    let (mut game, mut host, a, b, _hub) = setup_env();
    game.create_room(&mut host, 1, a, 100).unwrap();
    assert_eq!(game.bury_treasure(&mut host, 1, a, [1u8; 32]).unwrap_err(), Error::WrongPhase);
    game.join_room(&mut host, 1, b, 200).unwrap();
    game.start_room(&mut host, 1, a, b, 100, 200).unwrap();
    let r = game.bury_treasure(&mut host, 1, addr(3), [1u8; 32]);
    assert_eq!(r.unwrap_err(), Error::NotAPlayer);
}

#[test]
fn bury_in_either_order_starts_play_with_a() {
    let (mut game, mut host, a, b, _hub) = setup_env();
    ready_to_bury(&mut game, &mut host, a, b);
    game.bury_treasure(&mut host, 1, b, [2u8; 32]).unwrap();
    assert_eq!(game.get_room(1).unwrap().phase, Phase::Burying);
    assert_eq!(game.bury_treasure(&mut host, 1, b, [9u8; 32]).unwrap_err(), Error::AlreadyBuried);
    game.bury_treasure(&mut host, 1, a, [1u8; 32]).unwrap();
    let room = game.get_room(1).unwrap();
    assert_eq!(room.phase, Phase::Playing);
    assert!(room.turn_is_a);
    assert!(host.renewed.contains(&DataKey::Commitment(1, true)));
    assert!(host.renewed.contains(&DataKey::Commitment(1, false)));
}

#[test]
fn dig_outside_play_or_by_stranger() {
    let (mut game, mut host, a, b, _hub) = setup_env();
    ready_to_bury(&mut game, &mut host, a, b);
    assert_eq!(game.dig(&mut host, 1, a, 0, 0).unwrap_err(), Error::WrongPhase);
    game.bury_treasure(&mut host, 1, a, [1u8; 32]).unwrap();
    game.bury_treasure(&mut host, 1, b, [2u8; 32]).unwrap();
    assert_eq!(game.dig(&mut host, 1, addr(3), 0, 0).unwrap_err(), Error::NotAPlayer);
}

#[test]
fn dig_records_the_digger() {
    let (mut game, mut host, a, b, _hub) = setup_env();
    ready_to_play(&mut game, &mut host, a, b);
    game.dig(&mut host, 1, a, 2, 29).unwrap();
    let room = game.get_room(1).unwrap();
    assert_eq!(room.digs[0].digger, a);
    assert_eq!(room.digs[0].island_id, 2);
    assert_eq!(room.digs[0].tile_id, 29);
}

#[test]
fn tile_bounds_follow_the_island() {
    let (mut game, mut host, a, b, _hub) = setup_env();
    ready_to_play(&mut game, &mut host, a, b);
    assert_eq!(game.dig(&mut host, 1, a, 0, 10).unwrap_err(), Error::InvalidTile);
    assert_eq!(game.dig(&mut host, 1, a, 3, 0).unwrap_err(), Error::InvalidIsland);
    let r = game.reveal_treasure(&mut host, 1, a, 3, 0, make_salt(2));
    assert_eq!(r.unwrap_err(), Error::InvalidIsland);
    game.dig(&mut host, 1, a, 0, 9).unwrap();
    assert_eq!(game.dig(&mut host, 1, b, 1, 20).unwrap_err(), Error::InvalidTile);
    game.dig(&mut host, 1, b, 1, 19).unwrap();
}

#[test]
fn dug_tile_cannot_be_revealed() {
    let (mut game, mut host, a, b, _hub) = setup_env();
    ready_to_play(&mut game, &mut host, a, b);
    // A digs the very tile where A's own treasure lies; B may not reveal it.
    game.dig(&mut host, 1, a, 0, 5).unwrap();
    let r = game.reveal_treasure(&mut host, 1, b, 0, 5, make_salt(1));
    assert_eq!(r.unwrap_err(), Error::AlreadyDug);
    assert_eq!(game.get_room(1).unwrap().phase, Phase::Playing);
}

#[test]
fn failed_reveal_keeps_the_turn() {
    let (mut game, mut host, a, b, _hub) = setup_env();
    ready_to_play(&mut game, &mut host, a, b);
    let r = game.reveal_treasure(&mut host, 1, a, 2, 14, make_salt(2));
    assert_eq!(r.unwrap_err(), Error::CommitmentMismatch);
    let r = game.reveal_treasure(&mut host, 1, a, 2, 15, make_salt(3));
    assert_eq!(r.unwrap_err(), Error::CommitmentMismatch);
    let room = game.get_room(1).unwrap();
    assert!(room.turn_is_a);
    assert_eq!(room.phase, Phase::Playing);
    assert!(host.ended.is_empty());
    game.reveal_treasure(&mut host, 1, a, 2, 15, make_salt(2)).unwrap();
    assert_eq!(game.get_room(1).unwrap().winner, Some(a));
}

#[test]
fn reveal_of_own_treasure_fails() {
    let (mut game, mut host, a, b, _hub) = setup_env();
    ready_to_play(&mut game, &mut host, a, b);
    let r = game.reveal_treasure(&mut host, 1, a, 0, 5, make_salt(1));
    assert_eq!(r.unwrap_err(), Error::CommitmentMismatch);
}

#[test]
fn reveal_out_of_turn_fails() {
    let (mut game, mut host, a, b, _hub) = setup_env();
    ready_to_play(&mut game, &mut host, a, b);
    let r = game.reveal_treasure(&mut host, 1, b, 0, 5, make_salt(1));
    assert_eq!(r.unwrap_err(), Error::NotYourTurn);
}

#[test]
fn ended_room_rejects_moves() {
    let (mut game, mut host, a, b, _hub) = setup_env();
    ready_to_play(&mut game, &mut host, a, b);
    game.reveal_treasure(&mut host, 1, a, 2, 15, make_salt(2)).unwrap();
    assert_eq!(game.dig(&mut host, 1, b, 1, 1).unwrap_err(), Error::WrongPhase);
    let r = game.reveal_treasure(&mut host, 1, b, 0, 5, make_salt(1));
    assert_eq!(r.unwrap_err(), Error::WrongPhase);
    assert_eq!(game.bury_treasure(&mut host, 1, a, [0u8; 32]).unwrap_err(), Error::WrongPhase);
    assert_eq!(game.join_room(&mut host, 1, addr(3), 1).unwrap_err(), Error::WrongPhase);
}

#[test]
fn sessions_do_not_share_state() {
    let (mut game, mut host, a, b, _hub) = setup_env();
    ready_to_play(&mut game, &mut host, a, b);
    game.create_room(&mut host, 2, a, 500).unwrap();
    game.join_room(&mut host, 2, b, 600).unwrap();
    game.start_room(&mut host, 2, a, b, 500, 600).unwrap();
    // Session 2 commits to the same coordinates; its digests differ.
    game.bury_treasure(&mut host, 2, a, make_commitment(2, 0, 5, &make_salt(1))).unwrap();
    game.bury_treasure(&mut host, 2, b, make_commitment(2, 2, 15, &make_salt(2))).unwrap();
    game.dig(&mut host, 1, a, 0, 0).unwrap();
    let room2 = game.get_room(2).unwrap();
    assert!(room2.digs.is_empty());
    assert!(room2.turn_is_a);
    assert_eq!(room2.player_a_points, 500);
    // Session 1's secret does not open session 2.
    game.dig(&mut host, 2, a, 1, 1).unwrap();
    let r = game.reveal_treasure(&mut host, 2, b, 0, 5, make_salt(1));
    assert!(r.is_ok());
    assert_eq!(game.get_room(1).unwrap().phase, Phase::Playing);
    assert_eq!(game.get_room(1).unwrap().player_a_points, 100);
}

#[test]
fn preimage_layout_is_big_endian() {
    let mut salt = [0u8; 32];
    salt[0] = 0xAA;
    salt[31] = 0xBB;
    let buf = commitment_preimage(0x0102_0304, 2, 0x0000_0A0B, &salt);
    assert_eq!(buf.len(), 44);
    assert_eq!(&buf[0..12], &[1, 2, 3, 4, 0, 0, 0, 2, 0, 0, 0x0A, 0x0B]);
    assert_eq!(buf[12], 0xAA);
    assert_eq!(buf[43], 0xBB);
}

#[test]
fn commitment_is_sha256_of_preimage() {
    let env = Env::default();
    let salt = make_salt(2);
    let c = compute_commitment(&env, 1, 2, 15, &salt);
    assert_eq!(c, make_commitment(1, 2, 15, &salt));
    assert_ne!(c, salt);
    assert_ne!(c, compute_commitment(&env, 2, 2, 15, &salt));
    // SHA-256 of 44 zero bytes.
    let zero = compute_commitment(&env, 0, 0, 0, &[0u8; 32]);
    assert_eq!(zero[0], 0x85);
    assert_eq!(zero[31], 0xb0);
    assert_eq!(c[0], 0x5f);
    assert_eq!(c[31], 0x52);
}

#[test]
fn verify_commitment_matches_exactly() {
    let env = Env::default();
    let salt = make_salt(1);
    let c = make_commitment(1, 0, 5, &salt);
    assert!(verify_commitment(&env, &c, 1, 0, 5, &salt));
    assert!(!verify_commitment(&env, &c, 1, 0, 6, &salt));
    assert!(!verify_commitment(&env, &c, 2, 0, 5, &salt));
    assert!(digests_equal(&c, &c));
    let mut d = c;
    d[31] ^= 1;
    assert!(!digests_equal(&c, &d));
}

#[test]
fn addresses_compare_by_kind_and_key() {
    assert_eq!(addr(1), addr(1));
    assert_ne!(addr(1), addr(2));
    assert_ne!(Address::account([5u8; 32]), Address::contract([5u8; 32]));
    assert!(addr(1).same(&addr(1)));
}
