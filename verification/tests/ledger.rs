//! End-to-end tests of the reward ledger.
//!
//! Token balances live outside the ledger, so each test that moves funds
//! keeps a tiny balance book of its own and applies the `Transfer` orders the
//! ledger hands out, exactly as the surrounding environment would.

use game_reward::ledger::Abort;
use game_reward::ledger::GameRewardContract;
use game_reward::ledger::Principal;
use game_reward::ledger::RewardError;
use game_reward::ledger::Transfer;

const ADMIN: Principal = Principal(1);
const PLAYER: Principal = Principal(2);
const TOKEN: Principal = Principal(3);
const HOLDING: Principal = Principal(4);

/// A ledger that is initialized and ready to distribute.
fn initialized_ledger() -> GameRewardContract {
    let mut ledger = GameRewardContract::new(HOLDING);
    ledger
        .initialize(ADMIN, TOKEN, ADMIN, 7)
        .expect("initialization should succeed");
    ledger
}

#[test]
fn test_reward_flow() {
    let mut ledger = initialized_ledger();

    // The environment funds the holding account with 1000 units.
    let mut holding_balance: i128 = 1000;
    let mut player_balance: i128 = 0;

    ledger.add_game_type(1, 50, ADMIN).expect("registration should succeed");

    let transfer = ledger
        .distribute_reward(PLAYER, 1, ADMIN)
        .expect("distribution should succeed");
    assert_eq!(transfer.token, TOKEN);
    assert_eq!(transfer.from, HOLDING);
    assert_eq!(transfer.to, PLAYER);
    holding_balance -= transfer.amount;
    player_balance += transfer.amount;

    assert_eq!(player_balance, 50);
    assert_eq!(holding_balance, 950);
}

#[test]
fn test_cannot_initialize_twice() {
    let mut ledger = GameRewardContract::new(HOLDING);
    ledger
        .initialize(ADMIN, TOKEN, ADMIN, 7)
        .expect("first initialization should succeed");
    let second = ledger.initialize(ADMIN, TOKEN, ADMIN, 7);
    assert_eq!(
        second,
        Err(Abort::Rejected(RewardError::AlreadyInitialized))
    );
    // The state still equals the state after the first call.
    assert_eq!(ledger.get_admin(), Some(ADMIN));
    assert_eq!(ledger.get_token(), Some(TOKEN));
}

#[test]
fn test_initialize_requires_admin_authorization() {
    let mut ledger = GameRewardContract::new(HOLDING);
    let intruder = Principal(66);
    let r = ledger.initialize(ADMIN, TOKEN, intruder, 7);
    assert_eq!(r, Err(Abort::Unauthorized));
    assert_eq!(ledger.get_admin(), None);
}

#[test]
fn test_initialize_rejects_invalid_token() {
    let mut ledger = GameRewardContract::new(HOLDING);
    // A decimals probe answering zero fails the sanity check.
    let r = ledger.initialize(ADMIN, TOKEN, ADMIN, 0);
    assert_eq!(r, Err(Abort::Rejected(RewardError::InvalidToken)));
    // The ledger stays uninitialized.
    assert_eq!(ledger.get_admin(), None);
    assert_eq!(
        ledger.add_game_type(1, 50, ADMIN),
        Err(Abort::Uninitialized)
    );
}

#[test]
fn test_uninitialized_operations_fail() {
    let mut ledger = GameRewardContract::new(HOLDING);
    assert_eq!(
        ledger.add_game_type(1, 50, ADMIN),
        Err(Abort::Uninitialized)
    );
    assert_eq!(
        ledger.distribute_reward(PLAYER, 1, ADMIN),
        Err(Abort::Uninitialized)
    );
    assert_eq!(ledger.withdraw(PLAYER, 10, ADMIN), Err(Abort::Uninitialized));
    assert_eq!(
        ledger.upgrade(vec![7u8; 32], ADMIN),
        Err(Abort::Uninitialized)
    );
    // The claim query is a public read and simply answers false.
    assert!(!ledger.get_player_status(PLAYER, 1));
}

#[test]
fn test_add_game_type_rejects_nonpositive_amount() {
    let mut ledger = initialized_ledger();
    ledger.add_game_type(1, 50, ADMIN).expect("registration should succeed");

    assert_eq!(
        ledger.add_game_type(1, 0, ADMIN),
        Err(Abort::Rejected(RewardError::InvalidAmount))
    );
    assert_eq!(
        ledger.add_game_type(1, -5, ADMIN),
        Err(Abort::Rejected(RewardError::InvalidAmount))
    );
    // The prior schedule for the game is unchanged.
    assert_eq!(ledger.reward_amount(1), Some(50));
}

#[test]
fn test_add_game_type_overwrites_amount() {
    let mut ledger = initialized_ledger();
    ledger.add_game_type(1, 50, ADMIN).expect("registration should succeed");
    ledger.add_game_type(1, 75, ADMIN).expect("re-registration should succeed");
    assert_eq!(ledger.reward_amount(1), Some(75));
    assert_eq!(ledger.reward_amount(2), None);
}

#[test]
fn test_distribute_unknown_game_fails() {
    let mut ledger = initialized_ledger();
    let r = ledger.distribute_reward(PLAYER, 7, ADMIN);
    assert_eq!(r, Err(Abort::Rejected(RewardError::GameNotFound)));
    assert!(!ledger.get_player_status(PLAYER, 7));
}

#[test]
fn test_distribute_records_claim_and_history() {
    let mut ledger = initialized_ledger();
    let mut holding_balance: i128 = 1000;
    let mut player_balance: i128 = 0;

    ledger.add_game_type(1, 50, ADMIN).expect("registration should succeed");
    assert!(!ledger.get_player_status(PLAYER, 1));

    let transfer = ledger
        .distribute_reward(PLAYER, 1, ADMIN)
        .expect("distribution should succeed");
    assert_eq!(
        transfer,
        Transfer { token: TOKEN, from: HOLDING, to: PLAYER, amount: 50 }
    );
    holding_balance -= transfer.amount;
    player_balance += transfer.amount;

    assert_eq!(player_balance, 50);
    assert_eq!(holding_balance, 950);
    assert!(ledger.get_player_status(PLAYER, 1));
    assert_eq!(ledger.get_player_history(PLAYER), vec![1u32]);
}

#[test]
fn test_distribute_twice_pays_once() {
    let mut ledger = initialized_ledger();
    let mut player_balance: i128 = 0;

    ledger.add_game_type(1, 50, ADMIN).expect("registration should succeed");

    let first = ledger.distribute_reward(PLAYER, 1, ADMIN);
    if let Ok(t) = &first {
        player_balance += t.amount;
    }
    assert!(first.is_ok());

    let second = ledger.distribute_reward(PLAYER, 1, ADMIN);
    if let Ok(t) = &second {
        player_balance += t.amount;
    }
    assert_eq!(second, Err(Abort::Rejected(RewardError::AlreadyClaimed)));

    // Paid 50 in total, not 100, and the history holds one entry.
    assert_eq!(player_balance, 50);
    assert_eq!(ledger.get_player_history(PLAYER), vec![1u32]);
}

#[test]
fn test_distribute_same_game_to_two_players() {
    let mut ledger = initialized_ledger();
    let other = Principal(5);

    ledger.add_game_type(1, 50, ADMIN).expect("registration should succeed");
    ledger.add_game_type(2, 30, ADMIN).expect("registration should succeed");

    ledger.distribute_reward(PLAYER, 1, ADMIN).expect("first payout should succeed");
    ledger.distribute_reward(other, 1, ADMIN).expect("other player may still claim");
    ledger.distribute_reward(PLAYER, 2, ADMIN).expect("other game may still be claimed");

    assert!(ledger.get_player_status(PLAYER, 1));
    assert!(ledger.get_player_status(other, 1));
    assert_eq!(ledger.get_player_history(PLAYER), vec![1u32, 2u32]);
    assert_eq!(ledger.get_player_history(other), vec![1u32]);
}

#[test]
fn test_unauthorized_callers_are_refused() {
    let mut ledger = initialized_ledger();
    let intruder = Principal(66);

    ledger.add_game_type(1, 50, ADMIN).expect("registration should succeed");

    assert_eq!(
        ledger.add_game_type(2, 10, intruder),
        Err(Abort::Unauthorized)
    );
    assert_eq!(
        ledger.distribute_reward(PLAYER, 1, intruder),
        Err(Abort::Unauthorized)
    );
    assert_eq!(
        ledger.withdraw(intruder, 10, intruder),
        Err(Abort::Unauthorized)
    );
    assert_eq!(
        ledger.upgrade(vec![7u8; 32], intruder),
        Err(Abort::Unauthorized)
    );

    // Nothing was mutated by the refused calls.
    assert_eq!(ledger.reward_amount(1), Some(50));
    assert_eq!(ledger.reward_amount(2), None);
    assert!(!ledger.get_player_status(PLAYER, 1));
    assert_eq!(ledger.get_player_history(PLAYER), Vec::<u32>::new());
}

#[test]
fn test_withdraw() {
    let mut ledger = initialized_ledger();
    let destination = Principal(9);
    let mut holding_balance: i128 = 1000;

    let transfer = ledger
        .withdraw(destination, 100, ADMIN)
        .expect("withdrawal should succeed");
    assert_eq!(
        transfer,
        Transfer { token: TOKEN, from: HOLDING, to: destination, amount: 100 }
    );
    holding_balance -= transfer.amount;
    assert_eq!(holding_balance, 900);

    assert_eq!(
        ledger.withdraw(destination, 0, ADMIN),
        Err(Abort::Rejected(RewardError::InvalidAmount))
    );
    assert_eq!(
        ledger.withdraw(destination, -1, ADMIN),
        Err(Abort::Rejected(RewardError::InvalidAmount))
    );
}

#[test]
fn test_upgrade_releases_code_reference() {
    let ledger = initialized_ledger();
    let hash: Vec<u8> = (0u8..32).collect();
    let released = ledger
        .upgrade(hash.clone(), ADMIN)
        .expect("upgrade should pass the authorization gate");
    assert_eq!(released, hash);
}

#[test]
fn test_snapshot_round_trip() {
    let mut ledger = initialized_ledger();
    ledger.add_game_type(1, 50, ADMIN).expect("registration should succeed");
    ledger
        .distribute_reward(PLAYER, 1, ADMIN)
        .expect("distribution should succeed");

    let reloaded = GameRewardContract::from_parts(
        ledger.get_holding(),
        ledger.get_admin(),
        ledger.get_token(),
        ledger.schedule_log().clone(),
        ledger.claim_log().clone(),
        ledger.history_log().clone(),
    )
    .expect("parts saved from a ledger always load back");

    assert_eq!(reloaded.get_admin(), Some(ADMIN));
    assert_eq!(reloaded.get_token(), Some(TOKEN));
    assert_eq!(reloaded.get_holding(), HOLDING);
    assert_eq!(reloaded.reward_amount(1), Some(50));
    assert!(reloaded.get_player_status(PLAYER, 1));
    assert_eq!(reloaded.get_player_history(PLAYER), vec![1u32]);
}

#[test]
fn test_from_parts_refuses_inconsistent_parts() {
    // A non-positive scheduled amount can never come from a saved ledger.
    let r = GameRewardContract::from_parts(
        HOLDING,
        Some(ADMIN),
        Some(TOKEN),
        vec![(1u32, 0i128)],
        Vec::new(),
        Vec::new(),
    );
    assert!(r.is_none());
    // Neither can an admin identity without a token reference.
    let r = GameRewardContract::from_parts(
        HOLDING,
        Some(ADMIN),
        None,
        Vec::new(),
        Vec::new(),
        Vec::new(),
    );
    assert!(r.is_none());
}
