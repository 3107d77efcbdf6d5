//! The reward-ledger state machine.
//!
//! All durable state of the contract — admin identity, token reference,
//! reward schedules, claim records and player histories — lives in one
//! [`GameRewardContract`] value. Every operation validates authorization and
//! invariants, mutates the state at most once, and reports its outcome as a
//! `Result`; a failed operation leaves the state exactly as it was. The full
//! behaviour of each operation is captured by an open `..._post` predicate,
//! so that laws about sequences of operations follow from the contracts
//! alone.

use vstd::prelude::*;

verus! {

/// An opaque identity reference: the admin, a player, the payout token, or
/// the ledger's own holding account.
#[derive(Clone, Copy, PartialEq, Eq, Structural, Debug)]
pub struct Principal(pub u64);

/// The error codes with which an operation can be rejected.
#[derive(Clone, Copy, PartialEq, Eq, Structural, Debug)]
pub enum RewardError {
    /// `initialize` was called on an already-initialized ledger.
    AlreadyInitialized,
    /// Reserved for admin-identity mismatches; no operation raises it
    /// (authorization failures surface as [`Abort::Unauthorized`]).
    NotAdmin,
    /// A distribution was requested for an unregistered game.
    GameNotFound,
    /// The token reference failed the decimals sanity probe.
    InvalidToken,
    /// A non-positive amount was supplied.
    InvalidAmount,
    /// A distribution was replayed for an already-claimed (game, player) pair.
    AlreadyClaimed,
}

/// Why an operation aborted. Every abort leaves the ledger unchanged.
#[derive(Clone, Copy, PartialEq, Eq, Structural, Debug)]
pub enum Abort {
    /// The admin identity is not set: the ledger was never initialized.
    Uninitialized,
    /// The caller has not proven control of the required principal.
    Unauthorized,
    /// The operation was rejected with a specific error code.
    Rejected(RewardError),
}

/// A transfer order for the token transfer service: move `amount` units of
/// `token` from `from` to `to`. The environment performs it and commits the
/// ledger state that produced it only if the transfer succeeds.
#[derive(Clone, Copy, PartialEq, Eq, Structural, Debug)]
pub struct Transfer {
    pub token: Principal,
    pub from: Principal,
    pub to: Principal,
    pub amount: i128,
}

/// The reward registered for `game_id` by a schedule log: the amount of the
/// last registration, or `None` if the game was never registered.
pub open spec fn reward_in(log: Seq<(u32, i128)>, game_id: u32) -> Option<i128>
    decreases log.len(),
{
    if log.len() == 0 {
        None
    } else if log.last().0 == game_id {
        Some(log.last().1)
    } else {
        reward_in(log.drop_last(), game_id)
    }
}

/// Whether a claim log records that `player` already received the reward for
/// `game_id`.
pub open spec fn claimed_in(log: Seq<(u32, Principal)>, game_id: u32, player: Principal) -> bool {
    exists|i: int| 0 <= i < log.len() && log[i] == (game_id, player)
}

/// The games paid out to `player`, in payout order, as recorded by a history
/// log.
pub open spec fn games_of(log: Seq<(Principal, u32)>, player: Principal) -> Seq<u32>
    decreases log.len(),
{
    if log.len() == 0 {
        Seq::empty()
    } else if log.last().0 == player {
        games_of(log.drop_last(), player).push(log.last().1)
    } else {
        games_of(log.drop_last(), player)
    }
}

/// Appending a registration to the schedule log wins for its own game and
/// changes no other game's reward.
proof fn lemma_reward_push(log: Seq<(u32, i128)>, e: (u32, i128), g: u32)
    ensures
        reward_in(log.push(e), g) == if e.0 == g {
            Some(e.1)
        } else {
            reward_in(log, g)
        },
{
    assert(log.push(e).drop_last() =~= log);
    assert(log.push(e).last() == e);
}

/// A registered reward is positive whenever every entry of the schedule log
/// is.
proof fn lemma_reward_in_positive(log: Seq<(u32, i128)>, g: u32)
    requires
        forall|i: int| 0 <= i < log.len() ==> #[trigger] log[i].1 > 0,
    ensures
        reward_in(log, g) matches Some(v) ==> v > 0,
    decreases log.len(),
{
    if log.len() > 0 && log.last().0 != g {
        assert forall|i: int| 0 <= i < log.drop_last().len() implies #[trigger] log.drop_last()[i].1
            > 0 by {
            assert(log.drop_last()[i] == log[i]);
        }
        lemma_reward_in_positive(log.drop_last(), g);
    }
}

/// Appending a claim marker records exactly that one claim and no other.
proof fn lemma_claimed_push(log: Seq<(u32, Principal)>, e: (u32, Principal), g: u32, p: Principal)
    ensures
        claimed_in(log.push(e), g, p) <==> (claimed_in(log, g, p) || e == (g, p)),
{
    let pushed = log.push(e);
    if claimed_in(pushed, g, p) {
        let i = choose|i: int| 0 <= i < pushed.len() && pushed[i] == (g, p);
        if i < log.len() {
            assert(log[i] == (g, p));
        } else {
            assert(pushed[log.len() as int] == e);
        }
    }
    if claimed_in(log, g, p) {
        let i = choose|i: int| 0 <= i < log.len() && log[i] == (g, p);
        assert(pushed[i] == (g, p));
    }
    if e == (g, p) {
        assert(pushed[log.len() as int] == (g, p));
    }
}

/// Appending a history entry extends exactly its own player's history.
proof fn lemma_games_push(log: Seq<(Principal, u32)>, e: (Principal, u32), p: Principal)
    ensures
        games_of(log.push(e), p) == if e.0 == p {
            games_of(log, p).push(e.1)
        } else {
            games_of(log, p)
        },
{
    assert(log.push(e).drop_last() =~= log);
    assert(log.push(e).last() == e);
}

/// The instance-tier configuration — holding account, admin identity and
/// token reference — is the same in both states.
pub open spec fn config_unchanged(pre: GameRewardContract, post: GameRewardContract) -> bool {
    &&& post.spec_holding() == pre.spec_holding()
    &&& post.spec_admin() == pre.spec_admin()
    &&& post.spec_token() == pre.spec_token()
}

/// Every game's registered reward is the same in both states.
pub open spec fn rewards_unchanged(pre: GameRewardContract, post: GameRewardContract) -> bool {
    forall|g: u32| #[trigger] post.spec_reward(g) == pre.spec_reward(g)
}

/// Every claim record is the same in both states.
pub open spec fn claims_unchanged(pre: GameRewardContract, post: GameRewardContract) -> bool {
    forall|g: u32, p: Principal| #[trigger] post.spec_claimed(g, p) == pre.spec_claimed(g, p)
}

/// Every player's history is the same in both states.
pub open spec fn history_unchanged(pre: GameRewardContract, post: GameRewardContract) -> bool {
    forall|p: Principal| #[trigger] post.spec_history(p) == pre.spec_history(p)
}

/// The complete outcome of `initialize(admin, token_id)` invoked by a caller
/// who has proven control of `auth`, with the token's decimals probe
/// answering `token_decimals`.
pub open spec fn initialize_post(
    pre: GameRewardContract,
    post: GameRewardContract,
    admin: Principal,
    token_id: Principal,
    auth: Principal,
    token_decimals: u32,
    r: Result<(), Abort>,
) -> bool {
    if pre.initialized() {
        r == Err::<(), Abort>(Abort::Rejected(RewardError::AlreadyInitialized)) && post == pre
    } else if auth != admin {
        r == Err::<(), Abort>(Abort::Unauthorized) && post == pre
    } else if token_decimals == 0 {
        r == Err::<(), Abort>(Abort::Rejected(RewardError::InvalidToken)) && post == pre
    } else {
        &&& r == Ok::<(), Abort>(())
        &&& post.spec_admin() == Some(admin)
        &&& post.spec_token() == Some(token_id)
        &&& post.spec_holding() == pre.spec_holding()
        &&& rewards_unchanged(pre, post)
        &&& claims_unchanged(pre, post)
        &&& history_unchanged(pre, post)
    }
}

/// The complete outcome of `add_game_type(game_id, reward_amount)` invoked by
/// a caller who has proven control of `auth`.
pub open spec fn add_game_type_post(
    pre: GameRewardContract,
    post: GameRewardContract,
    game_id: u32,
    reward_amount: i128,
    auth: Principal,
    r: Result<(), Abort>,
) -> bool {
    if !pre.initialized() {
        r == Err::<(), Abort>(Abort::Uninitialized) && post == pre
    } else if pre.spec_admin() != Some(auth) {
        r == Err::<(), Abort>(Abort::Unauthorized) && post == pre
    } else if reward_amount <= 0 {
        r == Err::<(), Abort>(Abort::Rejected(RewardError::InvalidAmount)) && post == pre
    } else {
        &&& r == Ok::<(), Abort>(())
        &&& post.spec_reward(game_id) == Some(reward_amount)
        &&& forall|g: u32| g != game_id ==> #[trigger] post.spec_reward(g) == pre.spec_reward(g)
        &&& config_unchanged(pre, post)
        &&& claims_unchanged(pre, post)
        &&& history_unchanged(pre, post)
    }
}

/// The complete outcome of `distribute_reward(to, game_id)` invoked by a
/// caller who has proven control of `auth`.
pub open spec fn distribute_post(
    pre: GameRewardContract,
    post: GameRewardContract,
    to: Principal,
    game_id: u32,
    auth: Principal,
    r: Result<Transfer, Abort>,
) -> bool {
    if !pre.initialized() {
        r == Err::<Transfer, Abort>(Abort::Uninitialized) && post == pre
    } else if pre.spec_admin() != Some(auth) {
        r == Err::<Transfer, Abort>(Abort::Unauthorized) && post == pre
    } else if pre.spec_reward(game_id) is None {
        r == Err::<Transfer, Abort>(Abort::Rejected(RewardError::GameNotFound)) && post == pre
    } else if pre.spec_claimed(game_id, to) {
        r == Err::<Transfer, Abort>(Abort::Rejected(RewardError::AlreadyClaimed)) && post == pre
    } else {
        &&& match r {
            Ok(t) => {
                &&& pre.spec_token() == Some(t.token)
                &&& t.from == pre.spec_holding()
                &&& t.to == to
                &&& pre.spec_reward(game_id) == Some(t.amount)
                &&& t.amount > 0
            },
            Err(_) => false,
        }
        &&& config_unchanged(pre, post)
        &&& rewards_unchanged(pre, post)
        &&& forall|g2: u32, p2: Principal|
            #[trigger] post.spec_claimed(g2, p2) <==> (pre.spec_claimed(g2, p2) || (g2 == game_id
                && p2 == to))
        &&& post.spec_history(to) == pre.spec_history(to).push(game_id)
        &&& forall|p: Principal| p != to ==> #[trigger] post.spec_history(p) == pre.spec_history(p)
    }
}

/// The complete outcome of `withdraw(to, amount)` invoked by a caller who has
/// proven control of `auth`. A withdrawal never changes ledger state.
pub open spec fn withdraw_res(
    s: GameRewardContract,
    to: Principal,
    amount: i128,
    auth: Principal,
    r: Result<Transfer, Abort>,
) -> bool {
    if !s.initialized() {
        r == Err::<Transfer, Abort>(Abort::Uninitialized)
    } else if s.spec_admin() != Some(auth) {
        r == Err::<Transfer, Abort>(Abort::Unauthorized)
    } else if amount <= 0 {
        r == Err::<Transfer, Abort>(Abort::Rejected(RewardError::InvalidAmount))
    } else {
        match r {
            Ok(t) => {
                &&& s.spec_token() == Some(t.token)
                &&& t.from == s.spec_holding()
                &&& t.to == to
                &&& t.amount == amount
            },
            Err(_) => false,
        }
    }
}

/// The complete outcome of `upgrade(new_wasm_hash)` invoked by a caller who
/// has proven control of `auth`: on success the code reference is released,
/// unchanged, to the deployment mechanism.
pub open spec fn upgrade_res(
    s: GameRewardContract,
    new_wasm_hash: Seq<u8>,
    auth: Principal,
    r: Result<Vec<u8>, Abort>,
) -> bool {
    if !s.initialized() {
        r == Err::<Vec<u8>, Abort>(Abort::Uninitialized)
    } else if s.spec_admin() != Some(auth) {
        r == Err::<Vec<u8>, Abort>(Abort::Unauthorized)
    } else {
        match r {
            Ok(h) => h@ == new_wasm_hash,
            Err(_) => false,
        }
    }
}

/// Whether saved ledger parts are consistent: admin identity and token
/// reference present together, and every scheduled amount positive. Exactly
/// the parts a well-formed ledger can produce.
pub open spec fn parts_consistent(
    admin: Option<Principal>,
    token: Option<Principal>,
    rewards: Seq<(u32, i128)>,
) -> bool {
    &&& (admin.is_some() <==> token.is_some())
    &&& forall|i: int| 0 <= i < rewards.len() ==> #[trigger] rewards[i].1 > 0
}

/// The complete outcome of loading saved parts with
/// [`GameRewardContract::from_parts`]: consistent parts rebuild exactly the
/// ledger they describe, inconsistent parts are refused.
pub open spec fn loaded_from(
    r: Option<GameRewardContract>,
    holding: Principal,
    admin: Option<Principal>,
    token: Option<Principal>,
    rewards: Seq<(u32, i128)>,
    claims: Seq<(u32, Principal)>,
    history: Seq<(Principal, u32)>,
) -> bool {
    &&& (r is Some <==> parts_consistent(admin, token, rewards))
    &&& match r {
        Some(s) => {
            &&& s.wf()
            &&& s.spec_holding() == holding
            &&& s.spec_admin() == admin
            &&& s.spec_token() == token
            &&& s.spec_schedule_log() == rewards
            &&& s.spec_claim_log() == claims
            &&& s.spec_history_log() == history
        },
        None => true,
    }
}

/// The reward ledger: one contract instance and all its persisted state.
pub struct GameRewardContract {
    /// The ledger's own holding account, the source of every payout.
    holding: Principal,
    /// The admin identity; set exactly once, at initialization.
    admin: Option<Principal>,
    /// The payout token reference; set exactly once, at initialization.
    token: Option<Principal>,
    /// Reward-schedule registrations, in order; the last entry for a game
    /// wins, so re-registering a game overwrites its amount.
    rewards: Vec<(u32, i128)>,
    /// The claim records: one `(game, player)` marker per successful
    /// distribution, never cleared.
    claims: Vec<(u32, Principal)>,
    /// The payout history: one `(player, game)` entry per successful
    /// distribution, append-only.
    history: Vec<(Principal, u32)>,
}

impl GameRewardContract {
    /// The ledger's holding account.
    pub closed spec fn spec_holding(self) -> Principal {
        self.holding
    }

    /// The stored admin identity, if initialized.
    pub closed spec fn spec_admin(self) -> Option<Principal> {
        self.admin
    }

    /// The stored payout token reference, if initialized.
    pub closed spec fn spec_token(self) -> Option<Principal> {
        self.token
    }

    /// The raw schedule log: every registration, in order, last entry per
    /// game winning.
    pub closed spec fn spec_schedule_log(self) -> Seq<(u32, i128)> {
        self.rewards@
    }

    /// The raw claim log: one `(game, player)` marker per successful
    /// distribution.
    pub closed spec fn spec_claim_log(self) -> Seq<(u32, Principal)> {
        self.claims@
    }

    /// The raw history log: one `(player, game)` entry per successful
    /// distribution, in payout order.
    pub closed spec fn spec_history_log(self) -> Seq<(Principal, u32)> {
        self.history@
    }

    /// The reward currently registered for `game_id`.
    pub open spec fn spec_reward(self, game_id: u32) -> Option<i128> {
        reward_in(self.spec_schedule_log(), game_id)
    }

    /// Whether `player` has already claimed the reward for `game_id`.
    pub open spec fn spec_claimed(self, game_id: u32, player: Principal) -> bool {
        claimed_in(self.spec_claim_log(), game_id, player)
    }

    /// The games paid out to `player`, in payout order.
    pub open spec fn spec_history(self, player: Principal) -> Seq<u32> {
        games_of(self.spec_history_log(), player)
    }

    /// Whether the ledger has been initialized.
    pub open spec fn initialized(self) -> bool {
        self.spec_admin().is_some()
    }

    /// The ledger's internal invariant: admin and token are set together,
    /// and every registered reward amount is positive.
    pub closed spec fn wf(self) -> bool {
        &&& self.admin.is_some() <==> self.token.is_some()
        &&& forall|i: int| 0 <= i < self.rewards@.len() ==> #[trigger] self.rewards@[i].1 > 0
    }

    /// A fresh, uninitialized ledger whose payouts will be drawn from
    /// `holding`.
    pub fn new(holding: Principal) -> (s: Self)
        ensures
            s.wf(),
            !s.initialized(),
            s.spec_admin() is None,
            s.spec_token() is None,
            s.spec_holding() == holding,
            forall|g: u32| #[trigger] s.spec_reward(g) is None,
            forall|g: u32, p: Principal| !s.spec_claimed(g, p),
            forall|p: Principal| #[trigger] s.spec_history(p) == Seq::<u32>::empty(),
    {
        GameRewardContract {
            holding,
            admin: None,
            token: None,
            rewards: Vec::new(),
            claims: Vec::new(),
            history: Vec::new(),
        }
    }

    /// The stored admin identity, if the ledger is initialized. A public,
    /// authorization-free read with no side effects.
    pub fn get_admin(&self) -> (r: Option<Principal>)
        ensures
            r == self.spec_admin(),
    {
        self.admin
    }

    /// The stored payout token reference, if the ledger is initialized. A
    /// public, authorization-free read with no side effects.
    pub fn get_token(&self) -> (r: Option<Principal>)
        ensures
            r == self.spec_token(),
    {
        self.token
    }

    /// The ledger's holding account, the source of every payout.
    pub fn get_holding(&self) -> (r: Principal)
        ensures
            r == self.spec_holding(),
    {
        self.holding
    }

    /// The raw schedule log, for the environment to persist.
    pub fn schedule_log(&self) -> (r: &Vec<(u32, i128)>)
        ensures
            r@ == self.spec_schedule_log(),
    {
        &self.rewards
    }

    /// The raw claim log, for the environment to persist.
    pub fn claim_log(&self) -> (r: &Vec<(u32, Principal)>)
        ensures
            r@ == self.spec_claim_log(),
    {
        &self.claims
    }

    /// The raw history log, for the environment to persist.
    pub fn history_log(&self) -> (r: &Vec<(Principal, u32)>)
        ensures
            r@ == self.spec_history_log(),
    {
        &self.history
    }

    /// Rebuild a ledger from saved parts, refusing parts that no well-formed
    /// ledger could have produced.
    pub fn from_parts(
        holding: Principal,
        admin: Option<Principal>,
        token: Option<Principal>,
        rewards: Vec<(u32, i128)>,
        claims: Vec<(u32, Principal)>,
        history: Vec<(Principal, u32)>,
    ) -> (r: Option<GameRewardContract>)
        ensures
            loaded_from(r, holding, admin, token, rewards@, claims@, history@),
    {
        if admin.is_some() != token.is_some() {
            return None;
        }
        let mut i: usize = 0;
        while i < rewards.len()
            invariant
                i <= rewards@.len(),
                forall|j: int| 0 <= j < i ==> #[trigger] rewards@[j].1 > 0,
            decreases rewards@.len() - i,
        {
            let (_, amount) = rewards[i];
            if amount <= 0 {
                return None;
            }
            i = i + 1;
        }
        Some(GameRewardContract { holding, admin, token, rewards, claims, history })
    }

    /// Whether a claim record exists for `(game_id, player)`. A public,
    /// authorization-free read with no side effects.
    pub fn get_player_status(&self, player: Principal, game_id: u32) -> (r: bool)
        ensures
            r == self.spec_claimed(game_id, player),
    {
        let mut i: usize = 0;
        while i < self.claims.len()
            invariant
                i <= self.claims@.len(),
                forall|j: int| 0 <= j < i ==> self.claims@[j] != (game_id, player),
            decreases self.claims@.len() - i,
        {
            let (g, p) = self.claims[i];
            if g == game_id && p == player {
                proof {
                    assert(self.claims@[i as int] == (game_id, player));
                }
                return true;
            }
            i = i + 1;
        }
        false
    }

    /// The reward currently registered for `game_id`, if any. A public,
    /// authorization-free read with no side effects.
    pub fn reward_amount(&self, game_id: u32) -> (r: Option<i128>)
        ensures
            r == self.spec_reward(game_id),
    {
        let mut found: Option<i128> = None;
        let mut i: usize = 0;
        proof {
            assert(self.rewards@.take(0) =~= Seq::<(u32, i128)>::empty());
        }
        while i < self.rewards.len()
            invariant
                i <= self.rewards@.len(),
                found == reward_in(self.rewards@.take(i as int), game_id),
            decreases self.rewards@.len() - i,
        {
            let (g, a) = self.rewards[i];
            proof {
                assert(self.rewards@.take(i as int + 1) =~= self.rewards@.take(
                    i as int,
                ).push(self.rewards@[i as int]));
                lemma_reward_push(self.rewards@.take(i as int), self.rewards@[i as int], game_id);
            }
            if g == game_id {
                found = Some(a);
            }
            i = i + 1;
        }
        proof {
            assert(self.rewards@.take(i as int) =~= self.rewards@);
        }
        found
    }

    /// The games paid out to `player` so far, in payout order. A public,
    /// authorization-free read with no side effects.
    pub fn get_player_history(&self, player: Principal) -> (r: Vec<u32>)
        ensures
            r@ == self.spec_history(player),
    {
        let mut r: Vec<u32> = Vec::new();
        let mut i: usize = 0;
        proof {
            assert(self.history@.take(0) =~= Seq::<(Principal, u32)>::empty());
        }
        while i < self.history.len()
            invariant
                i <= self.history@.len(),
                r@ == games_of(self.history@.take(i as int), player),
            decreases self.history@.len() - i,
        {
            let (p, g) = self.history[i];
            proof {
                assert(self.history@.take(i as int + 1) =~= self.history@.take(
                    i as int,
                ).push(self.history@[i as int]));
                lemma_games_push(self.history@.take(i as int), self.history@[i as int], player);
            }
            if p == player {
                r.push(g);
            }
            i = i + 1;
        }
        proof {
            assert(self.history@.take(i as int) =~= self.history@);
        }
        r
    }

    /// One-shot initialization: establish `admin` as the ledger's authority
    /// and `token_id` as the payout token.
    ///
    /// `auth` is the principal the invoking caller has proven control of, and
    /// `token_decimals` is the environment's answer to the `decimals()`
    /// sanity probe on `token_id` (a result of zero rejects the token).
    pub fn initialize(
        &mut self,
        admin: Principal,
        token_id: Principal,
        auth: Principal,
        token_decimals: u32,
    ) -> (r: Result<(), Abort>)
        requires
            old(self).wf(),
        ensures
            final(self).wf(),
            initialize_post(*old(self), *final(self), admin, token_id, auth, token_decimals, r),
    {
        if self.admin.is_some() {
            return Err(Abort::Rejected(RewardError::AlreadyInitialized));
        }
        if auth != admin {
            return Err(Abort::Unauthorized);
        }
        if token_decimals == 0 {
            return Err(Abort::Rejected(RewardError::InvalidToken));
        }
        self.admin = Some(admin);
        self.token = Some(token_id);
        Ok(())
    }

    /// Register (or overwrite) the reward for `game_id`; already-issued claim
    /// records are unaffected.
    ///
    /// `auth` is the principal the invoking caller has proven control of; it
    /// must be the stored admin.
    pub fn add_game_type(&mut self, game_id: u32, reward_amount: i128, auth: Principal) -> (r:
        Result<(), Abort>)
        requires
            old(self).wf(),
        ensures
            final(self).wf(),
            add_game_type_post(*old(self), *final(self), game_id, reward_amount, auth, r),
    {
        let admin = match self.admin {
            Some(a) => a,
            None => {
                return Err(Abort::Uninitialized);
            },
        };
        if auth != admin {
            return Err(Abort::Unauthorized);
        }
        if reward_amount <= 0 {
            return Err(Abort::Rejected(RewardError::InvalidAmount));
        }
        self.rewards.push((game_id, reward_amount));
        proof {
            assert forall|i: int| 0 <= i < self.rewards@.len() implies #[trigger] self.rewards@[i].1
                > 0 by {
                if i < old(self).rewards@.len() {
                    assert(self.rewards@[i] == old(self).rewards@[i]);
                }
            }
            assert forall|g: u32| g != game_id implies #[trigger] self.spec_reward(g) == old(
                self,
            ).spec_reward(g) by {
                lemma_reward_push(old(self).rewards@, (game_id, reward_amount), g);
            }
            lemma_reward_push(old(self).rewards@, (game_id, reward_amount), game_id);
        }
        Ok(())
    }

    /// The at-most-once payout: record the claim for `(game_id, to)` and hand
    /// back the transfer order that pays `to` the registered reward out of
    /// the holding account. The environment must perform the transfer and
    /// commit the new ledger state only if the transfer succeeds, so that
    /// payout and record stand or fall together.
    ///
    /// `auth` is the principal the invoking caller has proven control of; it
    /// must be the stored admin (a push model: players do not self-claim).
    pub fn distribute_reward(&mut self, to: Principal, game_id: u32, auth: Principal) -> (r: Result<
        Transfer,
        Abort,
    >)
        requires
            old(self).wf(),
        ensures
            final(self).wf(),
            distribute_post(*old(self), *final(self), to, game_id, auth, r),
    {
        let admin = match self.admin {
            Some(a) => a,
            None => {
                return Err(Abort::Uninitialized);
            },
        };
        if auth != admin {
            return Err(Abort::Unauthorized);
        }
        let amount = match self.reward_amount(game_id) {
            Some(v) => v,
            None => {
                return Err(Abort::Rejected(RewardError::GameNotFound));
            },
        };
        if self.get_player_status(to, game_id) {
            return Err(Abort::Rejected(RewardError::AlreadyClaimed));
        }
        let token = self.token.unwrap();
        self.claims.push((game_id, to));
        self.history.push((to, game_id));
        proof {
            lemma_reward_in_positive(old(self).rewards@, game_id);
            assert forall|g2: u32, p2: Principal| #[trigger]
                self.spec_claimed(g2, p2) <==> (old(self).spec_claimed(g2, p2) || (g2 == game_id
                && p2 == to)) by {
                lemma_claimed_push(old(self).claims@, (game_id, to), g2, p2);
            }
            lemma_games_push(old(self).history@, (to, game_id), to);
            assert forall|p: Principal| p != to implies #[trigger] self.spec_history(p) == old(
                self,
            ).spec_history(p) by {
                lemma_games_push(old(self).history@, (to, game_id), p);
            }
        }
        Ok(Transfer { token, from: self.holding, to, amount })
    }

    /// Administrative withdrawal: hand back a transfer order that moves
    /// `amount` from the holding account to `to`. Deliberately unconstrained
    /// by the reward bookkeeping; the ledger state is untouched.
    ///
    /// `auth` is the principal the invoking caller has proven control of; it
    /// must be the stored admin.
    pub fn withdraw(&self, to: Principal, amount: i128, auth: Principal) -> (r: Result<
        Transfer,
        Abort,
    >)
        requires
            self.wf(),
        ensures
            withdraw_res(*self, to, amount, auth, r),
    {
        let admin = match self.admin {
            Some(a) => a,
            None => {
                return Err(Abort::Uninitialized);
            },
        };
        if auth != admin {
            return Err(Abort::Unauthorized);
        }
        if amount <= 0 {
            return Err(Abort::Rejected(RewardError::InvalidAmount));
        }
        let token = match self.token {
            Some(t) => t,
            None => {
                return Err(Abort::Uninitialized);
            },
        };
        Ok(Transfer { token, from: self.holding, to, amount })
    }

    /// Code upgrade gate: on success the new code reference is released,
    /// unchanged, to the deployment mechanism, which swaps the running code
    /// while preserving all persisted state.
    ///
    /// `auth` is the principal the invoking caller has proven control of; it
    /// must be the stored admin.
    pub fn upgrade(&self, new_wasm_hash: Vec<u8>, auth: Principal) -> (r: Result<Vec<u8>, Abort>)
        ensures
            upgrade_res(*self, new_wasm_hash@, auth, r),
    {
        let admin = match self.admin {
            Some(a) => a,
            None => {
                return Err(Abort::Uninitialized);
            },
        };
        if auth != admin {
            return Err(Abort::Unauthorized);
        }
        Ok(new_wasm_hash)
    }
}

/// Saving and re-loading is lossless: a well-formed ledger's parts are
/// always accepted back by [`GameRewardContract::from_parts`], and the loaded
/// ledger agrees with the saved one on every observation — configuration,
/// every game's reward, every claim record and every player's history.
pub proof fn law_snapshot_round_trip(s: GameRewardContract, r: Option<GameRewardContract>)
    requires
        s.wf(),
        loaded_from(
            r,
            s.spec_holding(),
            s.spec_admin(),
            s.spec_token(),
            s.spec_schedule_log(),
            s.spec_claim_log(),
            s.spec_history_log(),
        ),
    ensures
        r is Some,
        r matches Some(t) ==> {
            &&& t.wf()
            &&& config_unchanged(s, t)
            &&& rewards_unchanged(s, t)
            &&& claims_unchanged(s, t)
            &&& history_unchanged(s, t)
        },
{
}

} // verus!
