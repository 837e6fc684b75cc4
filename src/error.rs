use vstd::prelude::*;

verus! {

/// Every way an operation on a room can be refused.
#[derive(Clone, Copy, Debug, PartialEq, Eq, Structural)]
pub enum Error {
    /// A room with this session id already exists.
    RoomExists,
    /// No room has this session id.
    RoomNotFound,
    /// Player B has already joined.
    RoomFull,
    /// The creator tried to join their own room.
    SelfPlay,
    /// The room is in the wrong phase for this action.
    WrongPhase,
    /// It is the other player's turn.
    NotYourTurn,
    /// The tile has already been dug.
    AlreadyDug,
    /// This player has already buried a treasure.
    AlreadyBuried,
    /// The island index is out of range.
    InvalidIsland,
    /// The tile index is out of range for the island.
    InvalidTile,
    /// The revealed coordinate does not reproduce the opponent's commitment.
    CommitmentMismatch,
    /// The caller is not a participant of the room.
    NotAPlayer,
    /// The game has already ended.
    GameEnded,
    /// Player B has not joined yet.
    NoOpponent,
    /// The caller could not prove control of the identity it acts as.
    Unauthorized,
    /// The match registry refused the notification.
    HubRefused,
}

} // verus!
