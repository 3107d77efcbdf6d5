//! Laws of the reward ledger, proved from the operation contracts alone.
//!
//! Each proof function takes the states and results of one or more operation
//! outcomes, described by the open `..._post` predicates of [`crate::ledger`],
//! and derives the stated guarantee for every input its `requires` admits.

use vstd::prelude::*;

use crate::ledger::add_game_type_post;
use crate::ledger::distribute_post;
use crate::ledger::initialize_post;
use crate::ledger::upgrade_res;
use crate::ledger::withdraw_res;
use crate::ledger::Abort;
use crate::ledger::GameRewardContract;
use crate::ledger::Principal;
use crate::ledger::RewardError;
use crate::ledger::Transfer;

verus! {

/// Replay protection: after one successful distribution of `game_id` to
/// `to`, the claim is recorded (so `get_player_status` answers true), and a
/// second admin-authorized distribution for the same pair is rejected with
/// `AlreadyClaimed`, hands out no transfer order, and changes nothing.
pub proof fn law_replay_protected(
    pre: GameRewardContract,
    mid: GameRewardContract,
    post: GameRewardContract,
    to: Principal,
    game_id: u32,
    auth: Principal,
    r1: Result<Transfer, Abort>,
    r2: Result<Transfer, Abort>,
)
    requires
        distribute_post(pre, mid, to, game_id, auth, r1),
        r1 is Ok,
        distribute_post(mid, post, to, game_id, auth, r2),
    ensures
        mid.spec_claimed(game_id, to),
        r2 == Err::<Transfer, Abort>(Abort::Rejected(RewardError::AlreadyClaimed)),
        post == mid,
{
}

/// An uninitialized ledger refuses every operation that looks up the admin
/// identity: registration, distribution, withdrawal and upgrade all abort
/// with `Uninitialized` and change nothing.
pub proof fn law_uninitialized_refuses_all(
    pre: GameRewardContract,
    post_a: GameRewardContract,
    post_d: GameRewardContract,
    game_id: u32,
    reward_amount: i128,
    to: Principal,
    amount: i128,
    hash: Seq<u8>,
    auth: Principal,
    ra: Result<(), Abort>,
    rd: Result<Transfer, Abort>,
    rw: Result<Transfer, Abort>,
    ru: Result<Vec<u8>, Abort>,
)
    requires
        !pre.initialized(),
        add_game_type_post(pre, post_a, game_id, reward_amount, auth, ra),
        distribute_post(pre, post_d, to, game_id, auth, rd),
        withdraw_res(pre, to, amount, auth, rw),
        upgrade_res(pre, hash, auth, ru),
    ensures
        ra == Err::<(), Abort>(Abort::Uninitialized),
        post_a == pre,
        rd == Err::<Transfer, Abort>(Abort::Uninitialized),
        post_d == pre,
        rw == Err::<Transfer, Abort>(Abort::Uninitialized),
        ru == Err::<Vec<u8>, Abort>(Abort::Uninitialized),
{
}

/// Initialization is one-shot: after a successful `initialize`, any second
/// `initialize` — whatever its arguments — fails with `AlreadyInitialized`
/// and leaves the state exactly as the first call left it.
pub proof fn law_initialize_once(
    pre: GameRewardContract,
    s1: GameRewardContract,
    s2: GameRewardContract,
    admin1: Principal,
    token1: Principal,
    auth1: Principal,
    decimals1: u32,
    admin2: Principal,
    token2: Principal,
    auth2: Principal,
    decimals2: u32,
    r1: Result<(), Abort>,
    r2: Result<(), Abort>,
)
    requires
        initialize_post(pre, s1, admin1, token1, auth1, decimals1, r1),
        r1 is Ok,
        initialize_post(s1, s2, admin2, token2, auth2, decimals2, r2),
    ensures
        r2 == Err::<(), Abort>(Abort::Rejected(RewardError::AlreadyInitialized)),
        s2 == s1,
{
}

/// A non-positive reward amount is rejected with `InvalidAmount`, and the
/// whole ledger — in particular any prior schedule for the game — is left
/// unchanged. Stated for an initialized ledger and an admin-authorized call,
/// the inputs on which the amount check is reached.
pub proof fn law_nonpositive_amount_rejected(
    pre: GameRewardContract,
    post: GameRewardContract,
    game_id: u32,
    reward_amount: i128,
    auth: Principal,
    r: Result<(), Abort>,
)
    requires
        pre.initialized(),
        pre.spec_admin() == Some(auth),
        reward_amount <= 0,
        add_game_type_post(pre, post, game_id, reward_amount, auth, r),
    ensures
        r == Err::<(), Abort>(Abort::Rejected(RewardError::InvalidAmount)),
        post == pre,
        post.spec_reward(game_id) == pre.spec_reward(game_id),
{
}

/// Distribution for a game that was never registered is rejected with
/// `GameNotFound` and changes nothing. Stated for an initialized ledger and
/// an admin-authorized call, the inputs on which the schedule lookup is
/// reached.
pub proof fn law_unregistered_game_rejected(
    pre: GameRewardContract,
    post: GameRewardContract,
    to: Principal,
    game_id: u32,
    auth: Principal,
    r: Result<Transfer, Abort>,
)
    requires
        pre.initialized(),
        pre.spec_admin() == Some(auth),
        pre.spec_reward(game_id) is None,
        distribute_post(pre, post, to, game_id, auth, r),
    ensures
        r == Err::<Transfer, Abort>(Abort::Rejected(RewardError::GameNotFound)),
        post == pre,
{
}

/// Authorization gating: on an initialized ledger, a caller who has not
/// proven control of the stored admin identity has registration,
/// distribution, withdrawal and upgrade all abort with `Unauthorized` before
/// any state mutation.
pub proof fn law_unauthorized_mutates_nothing(
    pre: GameRewardContract,
    post_a: GameRewardContract,
    post_d: GameRewardContract,
    game_id: u32,
    reward_amount: i128,
    to: Principal,
    amount: i128,
    hash: Seq<u8>,
    auth: Principal,
    ra: Result<(), Abort>,
    rd: Result<Transfer, Abort>,
    rw: Result<Transfer, Abort>,
    ru: Result<Vec<u8>, Abort>,
)
    requires
        pre.initialized(),
        pre.spec_admin() != Some(auth),
        add_game_type_post(pre, post_a, game_id, reward_amount, auth, ra),
        distribute_post(pre, post_d, to, game_id, auth, rd),
        withdraw_res(pre, to, amount, auth, rw),
        upgrade_res(pre, hash, auth, ru),
    ensures
        ra == Err::<(), Abort>(Abort::Unauthorized),
        post_a == pre,
        rd == Err::<Transfer, Abort>(Abort::Unauthorized),
        post_d == pre,
        rw == Err::<Transfer, Abort>(Abort::Unauthorized),
        ru == Err::<Vec<u8>, Abort>(Abort::Unauthorized),
{
}

/// Claim records are monotonic: whatever the outcome of an initialization,
/// a schedule registration or a distribution, a claim once recorded is still
/// recorded afterwards — the replay-protection ledger is never cleared.
pub proof fn law_claims_monotonic(
    pre: GameRewardContract,
    post_i: GameRewardContract,
    post_a: GameRewardContract,
    post_d: GameRewardContract,
    admin: Principal,
    token_id: Principal,
    decimals: u32,
    game_id: u32,
    reward_amount: i128,
    to: Principal,
    auth: Principal,
    ri: Result<(), Abort>,
    ra: Result<(), Abort>,
    rd: Result<Transfer, Abort>,
)
    requires
        initialize_post(pre, post_i, admin, token_id, auth, decimals, ri),
        add_game_type_post(pre, post_a, game_id, reward_amount, auth, ra),
        distribute_post(pre, post_d, to, game_id, auth, rd),
    ensures
        forall|g: u32, p: Principal| pre.spec_claimed(g, p) ==> #[trigger] post_i.spec_claimed(g, p),
        forall|g: u32, p: Principal| pre.spec_claimed(g, p) ==> #[trigger] post_a.spec_claimed(g, p),
        forall|g: u32, p: Principal| pre.spec_claimed(g, p) ==> #[trigger] post_d.spec_claimed(g, p),
{
}

/// Player histories are append-only: whatever the outcome of an
/// initialization, a schedule registration or a distribution, every player's
/// prior history is a prefix of the history afterwards — never reordered and
/// never truncated.
pub proof fn law_history_append_only(
    pre: GameRewardContract,
    post_i: GameRewardContract,
    post_a: GameRewardContract,
    post_d: GameRewardContract,
    admin: Principal,
    token_id: Principal,
    decimals: u32,
    game_id: u32,
    reward_amount: i128,
    to: Principal,
    auth: Principal,
    ri: Result<(), Abort>,
    ra: Result<(), Abort>,
    rd: Result<Transfer, Abort>,
)
    requires
        initialize_post(pre, post_i, admin, token_id, auth, decimals, ri),
        add_game_type_post(pre, post_a, game_id, reward_amount, auth, ra),
        distribute_post(pre, post_d, to, game_id, auth, rd),
    ensures
        forall|p: Principal| pre.spec_history(p).is_prefix_of(#[trigger] post_i.spec_history(p)),
        forall|p: Principal| pre.spec_history(p).is_prefix_of(#[trigger] post_a.spec_history(p)),
        forall|p: Principal| pre.spec_history(p).is_prefix_of(#[trigger] post_d.spec_history(p)),
{
}

} // verus!
