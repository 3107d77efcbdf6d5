//! Tagged storage keys for a durable key-value embedding of the ledger.
//!
//! An environment that persists the ledger entity by entity keys the store
//! with a closed tagged union, serialized to a stable byte key. The encoding
//! here is one tag byte followed by fixed-width big-endian payloads, and
//! [`law_key_encoding_injective`] proves it collision-free: logically
//! distinct entities can never share a slot of the flat key namespace.

use vstd::prelude::*;

use crate::ledger::Principal;

verus! {

/// A storage key: one variant per persisted entity of the ledger.
#[derive(Clone, Copy, PartialEq, Eq, Structural, Debug)]
pub enum DataKey {
    /// The admin identity (instance tier).
    Admin,
    /// The payout token reference (instance tier).
    TokenID,
    /// The reward schedule of one game (entry tier).
    GameReward(u32),
    /// The claim marker of one `(game, player)` pair (entry tier).
    GameClaimed(u32, Principal),
    /// The payout history of one player (entry tier).
    PlayerGames(Principal),
}

/// The four big-endian bytes of a 32-bit payload.
pub open spec fn be4(x: u32) -> Seq<u8> {
    seq![(x >> 24) as u8, (x >> 16) as u8, (x >> 8) as u8, x as u8]
}

/// The eight big-endian bytes of a 64-bit payload.
pub open spec fn be8(x: u64) -> Seq<u8> {
    seq![
        (x >> 56) as u8,
        (x >> 48) as u8,
        (x >> 40) as u8,
        (x >> 32) as u8,
        (x >> 24) as u8,
        (x >> 16) as u8,
        (x >> 8) as u8,
        x as u8,
    ]
}

/// Equal big-endian bytes come only from equal 32-bit payloads.
proof fn lemma_be4_injective(a: u32, b: u32)
    requires
        be4(a) == be4(b),
    ensures
        a == b,
{
    assert(be4(a)[0] == be4(b)[0] && be4(a)[1] == be4(b)[1] && be4(a)[2] == be4(b)[2] && be4(a)[3]
        == be4(b)[3]);
    assert(((a >> 24) as u8 == (b >> 24) as u8 && (a >> 16) as u8 == (b >> 16) as u8 && (a
        >> 8) as u8 == (b >> 8) as u8 && a as u8 == b as u8) ==> a == b) by (bit_vector);
}

/// Equal big-endian bytes come only from equal 64-bit payloads.
proof fn lemma_be8_injective(a: u64, b: u64)
    requires
        be8(a) == be8(b),
    ensures
        a == b,
{
    assert(be8(a)[0] == be8(b)[0] && be8(a)[1] == be8(b)[1] && be8(a)[2] == be8(b)[2] && be8(a)[3]
        == be8(b)[3] && be8(a)[4] == be8(b)[4] && be8(a)[5] == be8(b)[5] && be8(a)[6] == be8(b)[6]
        && be8(a)[7] == be8(b)[7]);
    assert(((a >> 56) as u8 == (b >> 56) as u8 && (a >> 48) as u8 == (b >> 48) as u8 && (a
        >> 40) as u8 == (b >> 40) as u8 && (a >> 32) as u8 == (b >> 32) as u8 && (a >> 24) as u8 == (
    b >> 24) as u8 && (a >> 16) as u8 == (b >> 16) as u8 && (a >> 8) as u8 == (b >> 8) as u8
        && a as u8 == b as u8) ==> a == b) by (bit_vector);
}

/// Append the four big-endian bytes of `x`.
fn push_be4(r: &mut Vec<u8>, x: u32)
    ensures
        final(r)@ == old(r)@ + be4(x),
{
    r.push((x >> 24) as u8);
    r.push(#[verifier::truncate] ((x >> 16) as u8));
    r.push(#[verifier::truncate] ((x >> 8) as u8));
    r.push(#[verifier::truncate] (x as u8));
    proof {
        assert(r@ =~= old(r)@ + be4(x));
    }
}

/// Append the eight big-endian bytes of `x`.
fn push_be8(r: &mut Vec<u8>, x: u64)
    ensures
        final(r)@ == old(r)@ + be8(x),
{
    r.push((x >> 56) as u8);
    r.push(#[verifier::truncate] ((x >> 48) as u8));
    r.push(#[verifier::truncate] ((x >> 40) as u8));
    r.push(#[verifier::truncate] ((x >> 32) as u8));
    r.push(#[verifier::truncate] ((x >> 24) as u8));
    r.push(#[verifier::truncate] ((x >> 16) as u8));
    r.push(#[verifier::truncate] ((x >> 8) as u8));
    r.push(#[verifier::truncate] (x as u8));
    proof {
        assert(r@ =~= old(r)@ + be8(x));
    }
}

impl DataKey {
    /// The stable byte form of the key: a tag byte, then the payloads in
    /// fixed-width big-endian form.
    pub open spec fn spec_encode(self) -> Seq<u8> {
        match self {
            DataKey::Admin => seq![0u8],
            DataKey::TokenID => seq![1u8],
            DataKey::GameReward(g) => seq![2u8] + be4(g),
            DataKey::GameClaimed(g, p) => seq![3u8] + be4(g) + be8(p.0),
            DataKey::PlayerGames(p) => seq![4u8] + be8(p.0),
        }
    }

    /// Serialize the key for the underlying store.
    pub fn encode(&self) -> (r: Vec<u8>)
        ensures
            r@ == self.spec_encode(),
    {
        let mut r: Vec<u8> = Vec::new();
        match self {
            DataKey::Admin => {
                r.push(0);
            },
            DataKey::TokenID => {
                r.push(1);
            },
            DataKey::GameReward(g) => {
                r.push(2);
                push_be4(&mut r, *g);
            },
            DataKey::GameClaimed(g, p) => {
                r.push(3);
                push_be4(&mut r, *g);
                push_be8(&mut r, p.0);
            },
            DataKey::PlayerGames(p) => {
                r.push(4);
                push_be8(&mut r, p.0);
            },
        }
        proof {
            assert(r@ =~= self.spec_encode());
        }
        r
    }
}

/// Every key's byte form starts with its variant's tag byte.
proof fn lemma_encode_tag(k: DataKey)
    ensures
        k.spec_encode().len() >= 1,
        k.spec_encode()[0] == match k {
            DataKey::Admin => 0u8,
            DataKey::TokenID => 1u8,
            DataKey::GameReward(_) => 2u8,
            DataKey::GameClaimed(_, _) => 3u8,
            DataKey::PlayerGames(_) => 4u8,
        },
{
    match k {
        DataKey::Admin => {},
        DataKey::TokenID => {},
        DataKey::GameReward(g) => {
            assert((seq![2u8] + be4(g))[0] == 2u8);
        },
        DataKey::GameClaimed(g, p) => {
            assert((seq![3u8] + be4(g) + be8(p.0))[0] == (seq![3u8] + be4(g))[0]);
            assert((seq![3u8] + be4(g))[0] == 3u8);
        },
        DataKey::PlayerGames(p) => {
            assert((seq![4u8] + be8(p.0))[0] == 4u8);
        },
    }
}

/// The key encoding is collision-free: two keys with the same byte form are
/// the same key, so logically distinct entities never collide in the store's
/// flat namespace.
pub proof fn law_key_encoding_injective(k1: DataKey, k2: DataKey)
    requires
        k1.spec_encode() == k2.spec_encode(),
    ensures
        k1 == k2,
{
    lemma_encode_tag(k1);
    lemma_encode_tag(k2);
    assert(k1.spec_encode()[0] == k2.spec_encode()[0]);
    match (k1, k2) {
        (DataKey::GameReward(g1), DataKey::GameReward(g2)) => {
            assert(be4(g1) =~= be4(g2)) by {
                assert forall|i: int| 0 <= i < 4 implies be4(g1)[i] == be4(g2)[i] by {
                    assert((seq![2u8] + be4(g1))[i + 1] == be4(g1)[i]);
                    assert((seq![2u8] + be4(g2))[i + 1] == be4(g2)[i]);
                    assert(k1.spec_encode()[i + 1] == k2.spec_encode()[i + 1]);
                }
            }
            lemma_be4_injective(g1, g2);
        },
        (DataKey::GameClaimed(g1, p1), DataKey::GameClaimed(g2, p2)) => {
            assert(be4(g1) =~= be4(g2)) by {
                assert forall|i: int| 0 <= i < 4 implies be4(g1)[i] == be4(g2)[i] by {
                    assert((seq![3u8] + be4(g1) + be8(p1.0))[i + 1] == (seq![3u8] + be4(g1))[i + 1]);
                    assert((seq![3u8] + be4(g1))[i + 1] == be4(g1)[i]);
                    assert((seq![3u8] + be4(g2) + be8(p2.0))[i + 1] == (seq![3u8] + be4(g2))[i + 1]);
                    assert((seq![3u8] + be4(g2))[i + 1] == be4(g2)[i]);
                    assert(k1.spec_encode()[i + 1] == k2.spec_encode()[i + 1]);
                }
            }
            lemma_be4_injective(g1, g2);
            assert(be8(p1.0) =~= be8(p2.0)) by {
                assert forall|i: int| 0 <= i < 8 implies be8(p1.0)[i] == be8(p2.0)[i] by {
                    assert((seq![3u8] + be4(g1) + be8(p1.0))[i + 5] == be8(p1.0)[i]);
                    assert((seq![3u8] + be4(g2) + be8(p2.0))[i + 5] == be8(p2.0)[i]);
                    assert(k1.spec_encode()[i + 5] == k2.spec_encode()[i + 5]);
                }
            }
            lemma_be8_injective(p1.0, p2.0);
        },
        (DataKey::PlayerGames(p1), DataKey::PlayerGames(p2)) => {
            assert(be8(p1.0) =~= be8(p2.0)) by {
                assert forall|i: int| 0 <= i < 8 implies be8(p1.0)[i] == be8(p2.0)[i] by {
                    assert((seq![4u8] + be8(p1.0))[i + 1] == be8(p1.0)[i]);
                    assert((seq![4u8] + be8(p2.0))[i + 1] == be8(p2.0)[i]);
                    assert(k1.spec_encode()[i + 1] == k2.spec_encode()[i + 1]);
                }
            }
            lemma_be8_injective(p1.0, p2.0);
        },
        _ => {},
    }
}

} // verus!
