use crate::asset::asset_eq;
use crate::asset::asset_gt;
use crate::asset::concat_bytes;
use crate::asset::lex_lt;
use crate::asset::lemma_lex_asymmetric;
use crate::asset::lemma_lex_connected;
use crate::asset::AssetId;
use crate::errors::PoolError;
use vstd::prelude::*;

verus! {

/// Protocol-wide fee configuration: a singleton record created once at
/// protocol initialization. The fee is a percentage held below one hundred;
/// the swap formula does not yet apply it.
#[derive(Clone, Copy, Debug, PartialEq, Eq, Structural)]
pub struct CurveConfiguration {
    pub fees: u64,
}

impl CurveConfiguration {
    /// The fee is a percentage and stays below one hundred.
    pub open spec fn wf(self) -> bool {
        self.fees < 100
    }

    pub fn new(fees: u64) -> (c: Self)
        requires
            fees < 100,
        ensures
            c.fees == fees,
            c.wf(),
    {
        Self { fees }
    }
}

/// Creates the singleton fee configuration at protocol initialization.
pub fn initialize(fee: u64) -> (c: CurveConfiguration)
    requires
        fee < 100,
    ensures
        c.fees == fee,
        c.wf(),
{
    CurveConfiguration::new(fee)
}

/// A provider's position against a pool: the number of shares held.
#[derive(Clone, Copy, Debug, PartialEq, Eq, Structural)]
pub struct LiquidityProvider {
    pub shares: u64,
}

/// The per-asset-pair ledger: the two asset identities, the pooled reserves
/// of each, the recorded share supply, and the address-derivation nonce.
/// Reserves and supply move only through the engine operations.
#[derive(Clone, Debug)]
pub struct LiquidityPool {
    pub token_one: AssetId,
    pub token_two: AssetId,
    pub total_supply: u64,
    pub reserve_one: u64,
    pub reserve_two: u64,
    /// Collision-avoidance nonce for the pool's derived address; owned by
    /// the addressing collaborator and stored here for replay.
    pub bump: u8,
}

/// The numeric content of a ledger, as the engine contracts speak of it.
pub struct LedgerModel {
    pub total_supply: nat,
    pub reserve_one: nat,
    pub reserve_two: nat,
}

/// The canonical pairing key of two asset identities: their bytes
/// concatenated, the identity that orders after the other first, so that
/// both argument orders yield the same key.
pub open spec fn spec_pairing_key(a: Seq<u8>, b: Seq<u8>) -> Seq<u8> {
    if lex_lt(b, a) {
        a + b
    } else {
        b + a
    }
}

/// The pairing key does not depend on the order of its two arguments.
pub proof fn lemma_pairing_key_symmetric(a: Seq<u8>, b: Seq<u8>)
    ensures
        spec_pairing_key(a, b) == spec_pairing_key(b, a),
{
    if lex_lt(b, a) {
        lemma_lex_asymmetric(b, a);
    } else if lex_lt(a, b) {
    } else {
        lemma_lex_connected(a, b);
        assert(a + b =~= b + a);
    }
}

impl LiquidityPool {
    /// The mathematical content of the ledger.
    pub open spec fn ledger(self) -> LedgerModel {
        LedgerModel {
            total_supply: self.total_supply as nat,
            reserve_one: self.reserve_one as nat,
            reserve_two: self.reserve_two as nat,
        }
    }

    /// A fresh ledger over two assets: no reserves, no issued shares.
    pub fn new(token_one: AssetId, token_two: AssetId, bump: u8) -> (p: Self)
        ensures
            p.token_one == token_one,
            p.token_two == token_two,
            p.total_supply == 0,
            p.reserve_one == 0,
            p.reserve_two == 0,
            p.bump == bump,
    {
        Self { token_one, token_two, total_supply: 0u64, reserve_one: 0u64, reserve_two: 0u64, bump }
    }

    /// The canonical, order-independent pairing key of two asset identities,
    /// under which the same pool is reachable regardless of argument order.
    pub fn generate_seed(token_one: &AssetId, token_two: &AssetId) -> (seed: Vec<u8>)
        ensures
            seed@ == spec_pairing_key(token_one@, token_two@),
    {
        if asset_gt(token_one, token_two) {
            concat_bytes(&token_one.bytes, &token_two.bytes)
        } else {
            concat_bytes(&token_two.bytes, &token_one.bytes)
        }
    }
}

/// Creates the ledger for a new pool over two distinct assets, zeroed.
/// Fails when the two assets are one and the same.
pub fn create_pool(token_one: AssetId, token_two: AssetId, bump: u8) -> (r: Result<
    LiquidityPool,
    PoolError,
>)
    ensures
        token_one@ == token_two@ ==> r == Err::<LiquidityPool, PoolError>(
            PoolError::DuplicateAsset,
        ),
        token_one@ != token_two@ ==> (r matches Ok(p) && p.token_one == token_one && p.token_two
            == token_two && p.total_supply == 0 && p.reserve_one == 0 && p.reserve_two == 0
            && p.bump == bump),
{
    if asset_eq(&token_one, &token_two) {
        Err(PoolError::DuplicateAsset)
    } else {
        Ok(LiquidityPool::new(token_one, token_two, bump))
    }
}

} // verus!
