//! Tests of the tagged storage-key serialization.

use game_reward::keys::DataKey;
use game_reward::ledger::Principal;

#[test]
fn test_key_encoding_exact_bytes() {
    assert_eq!(DataKey::Admin.encode(), vec![0u8]);
    assert_eq!(DataKey::TokenID.encode(), vec![1u8]);
    assert_eq!(
        DataKey::GameReward(0x0102_0304).encode(),
        vec![2u8, 1, 2, 3, 4]
    );
    assert_eq!(
        DataKey::GameClaimed(7, Principal(0x0102_0304_0506_0708)).encode(),
        vec![3u8, 0, 0, 0, 7, 1, 2, 3, 4, 5, 6, 7, 8]
    );
    assert_eq!(
        DataKey::PlayerGames(Principal(5)).encode(),
        vec![4u8, 0, 0, 0, 0, 0, 0, 0, 5]
    );
}

#[test]
fn test_key_encoding_distinguishes_entities() {
    // Keys that share payload bytes still encode differently.
    let keys = vec![
        DataKey::Admin,
        DataKey::TokenID,
        DataKey::GameReward(1),
        DataKey::GameReward(2),
        DataKey::GameClaimed(1, Principal(2)),
        DataKey::GameClaimed(2, Principal(1)),
        DataKey::PlayerGames(Principal(1)),
        DataKey::PlayerGames(Principal(2)),
    ];
    for (i, a) in keys.iter().enumerate() {
        for (j, b) in keys.iter().enumerate() {
            assert_eq!(a.encode() == b.encode(), i == j);
        }
    }
}
