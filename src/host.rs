use crate::address::Address;
use crate::contract::DataKey;
use vstd::prelude::*;

verus! {

/// A match registration sent to the hub.
#[derive(Clone, Copy, Debug, PartialEq, Eq)]
pub struct HubStart {
    pub hub: Address,
    pub session_id: u32,
    pub player1: Address,
    pub player2: Address,
    pub player1_points: i128,
    pub player2_points: i128,
}

/// A match result sent to the hub.
#[derive(Clone, Copy, Debug, PartialEq, Eq)]
pub struct HubEnd {
    pub hub: Address,
    pub session_id: u32,
    pub player1_won: bool,
}

/// What the contract needs from its surroundings: proof of identity, the
/// match registry (hub), expiry of records and code upgrades. Its model is
/// who has authorized the current call, whether the hub accepts, and the
/// requests made so far.
pub trait Host: Sized {
    /// Whether `who` has proved control of that identity for this call.
    spec fn authorized(&self, who: Address) -> bool;

    /// Whether the hub accepts notifications.
    spec fn hub_accepts(&self) -> bool;

    /// The match registrations sent to the hub, in order.
    spec fn hub_starts(&self) -> Seq<HubStart>;

    /// The match results sent to the hub, in order.
    spec fn hub_ends(&self) -> Seq<HubEnd>;

    /// The records whose expiration window was renewed, in order.
    spec fn renewals(&self) -> Seq<DataKey>;

    /// The code hashes requested as upgrades, in order.
    spec fn upgrades(&self) -> Seq<Seq<u8>>;

    /// Whether `who` has authorized the current call.
    fn require_auth(&mut self, who: &Address) -> (r: bool)
        ensures
            r == old(self).authorized(*who),
            forall|w: Address| #[trigger] final(self).authorized(w) == old(self).authorized(w),
            final(self).hub_accepts() == old(self).hub_accepts(),
            final(self).hub_starts() == old(self).hub_starts(),
            final(self).hub_ends() == old(self).hub_ends(),
            final(self).renewals() == old(self).renewals(),
            final(self).upgrades() == old(self).upgrades(),
    ;

    /// Registers a match with the hub; whether the hub accepted.
    fn start_game(&mut self, call: HubStart) -> (r: bool)
        ensures
            r == old(self).hub_accepts(),
            final(self).hub_starts() == old(self).hub_starts().push(call),
            final(self).hub_ends() == old(self).hub_ends(),
            final(self).renewals() == old(self).renewals(),
            final(self).upgrades() == old(self).upgrades(),
            forall|w: Address| #[trigger] final(self).authorized(w) == old(self).authorized(w),
            final(self).hub_accepts() == old(self).hub_accepts(),
    ;

    /// Reports a result to the hub; whether the hub accepted.
    fn end_game(&mut self, call: HubEnd) -> (r: bool)
        ensures
            r == old(self).hub_accepts(),
            final(self).hub_ends() == old(self).hub_ends().push(call),
            final(self).hub_starts() == old(self).hub_starts(),
            final(self).renewals() == old(self).renewals(),
            final(self).upgrades() == old(self).upgrades(),
            forall|w: Address| #[trigger] final(self).authorized(w) == old(self).authorized(w),
            final(self).hub_accepts() == old(self).hub_accepts(),
    ;

    /// Renews the expiration window of the record under `key`.
    fn extend_ttl(&mut self, key: DataKey)
        ensures
            final(self).renewals() == old(self).renewals().push(key),
            final(self).hub_starts() == old(self).hub_starts(),
            final(self).hub_ends() == old(self).hub_ends(),
            final(self).upgrades() == old(self).upgrades(),
            forall|w: Address| #[trigger] final(self).authorized(w) == old(self).authorized(w),
            final(self).hub_accepts() == old(self).hub_accepts(),
    ;

    /// Replaces the contract's code by the code with this hash.
    fn update_current_contract_wasm(&mut self, new_wasm_hash: [u8; 32])
        ensures
            final(self).upgrades() == old(self).upgrades().push(new_wasm_hash@),
            final(self).hub_starts() == old(self).hub_starts(),
            final(self).hub_ends() == old(self).hub_ends(),
            final(self).renewals() == old(self).renewals(),
            forall|w: Address| #[trigger] final(self).authorized(w) == old(self).authorized(w),
            final(self).hub_accepts() == old(self).hub_accepts(),
    ;
}

/// The host answers as before: the same identities are authorized and the
/// hub accepts as before.
pub open spec fn same_answers<H: Host>(a: H, b: H) -> bool {
    &&& forall|w: Address| #[trigger] b.authorized(w) == a.authorized(w)
    &&& b.hub_accepts() == a.hub_accepts()
}

/// A host that answers from a fixed list of authorized identities and
/// records every request.
pub struct RecordingHost {
    pub authorized: Vec<Address>,
    pub hub_refuses: bool,
    pub started: Vec<HubStart>,
    pub ended: Vec<HubEnd>,
    pub renewed: Vec<DataKey>,
    pub upgraded: Vec<[u8; 32]>,
}

impl RecordingHost {
    /// A host where exactly `authorized` have proved their identity, with
    /// an accepting hub and nothing recorded.
    pub fn new(authorized: Vec<Address>) -> (r: RecordingHost)
        ensures
            r.authorized@ == authorized@,
            !r.hub_refuses,
            r.started@.len() == 0,
            r.ended@.len() == 0,
            r.renewed@.len() == 0,
            r.upgraded@.len() == 0,
    {
        RecordingHost {
            authorized,
            hub_refuses: false,
            started: Vec::new(),
            ended: Vec::new(),
            renewed: Vec::new(),
            upgraded: Vec::new(),
        }
    }
}

impl Host for RecordingHost {
    open spec fn authorized(&self, who: Address) -> bool {
        self.authorized@.contains(who)
    }

    open spec fn hub_accepts(&self) -> bool {
        !self.hub_refuses
    }

    open spec fn hub_starts(&self) -> Seq<HubStart> {
        self.started@
    }

    open spec fn hub_ends(&self) -> Seq<HubEnd> {
        self.ended@
    }

    open spec fn renewals(&self) -> Seq<DataKey> {
        self.renewed@
    }

    open spec fn upgrades(&self) -> Seq<Seq<u8>> {
        self.upgraded@.map_values(|h: [u8; 32]| h@)
    }

    fn require_auth(&mut self, who: &Address) -> (r: bool) {
        let mut i: usize = 0;
        while i < self.authorized.len()
            invariant
                i <= self.authorized@.len(),
                forall|k: int| 0 <= k < i ==> self.authorized@[k] != *who,
            decreases self.authorized@.len() - i,
        {
            if self.authorized[i].same(who) {
                assert(self.authorized@[i as int] == *who);
                return true;
            }
            i = i + 1;
        }
        false
    }

    fn start_game(&mut self, call: HubStart) -> (r: bool) {
        self.started.push(call);
        !self.hub_refuses
    }

    fn end_game(&mut self, call: HubEnd) -> (r: bool) {
        self.ended.push(call);
        !self.hub_refuses
    }

    fn extend_ttl(&mut self, key: DataKey) {
        self.renewed.push(key);
    }

    fn update_current_contract_wasm(&mut self, new_wasm_hash: [u8; 32]) {
        let ghost before = self.upgrades();
        self.upgraded.push(new_wasm_hash);
        assert(self.upgrades() =~= before.push(new_wasm_hash@));
    }
}

} // verus!
