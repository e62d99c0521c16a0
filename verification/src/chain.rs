//! Network identifiers and the validation the Fuel-specific facades apply.

use vstd::prelude::*;

verus! {

/// The upstream network a query applies to.
#[derive(Clone, Copy, Debug, PartialEq, Eq, Structural)]
pub enum ChainId {
    ETH,
    BTC,
    FUEL,
    FUELTESTNET,
}

/// The short wire name of a chain, as used in comma-separated filters.
pub open spec fn chain_wire(c: ChainId) -> Seq<u8> {
    match c {
        ChainId::ETH => seq![101, 116, 104],  // eth
        ChainId::BTC => seq![98, 116, 99],  // btc
        ChainId::FUEL => seq![102, 117, 101, 108],  // fuel
        ChainId::FUELTESTNET => seq![102, 117, 101, 108, 116, 101, 115, 116, 110, 101, 116],  // fueltestnet
    }
}

impl ChainId {
    /// The wire name of this chain.
    pub fn name_bytes(&self) -> (r: Vec<u8>)
        ensures
            r@ == chain_wire(*self),
    {
        match self {
            ChainId::ETH => {
                let v: Vec<u8> = vec![101, 116, 104];
                proof {
                    assert(v@ =~= chain_wire(ChainId::ETH));
                }
                v
            },
            ChainId::BTC => {
                let v: Vec<u8> = vec![98, 116, 99];
                proof {
                    assert(v@ =~= chain_wire(ChainId::BTC));
                }
                v
            },
            ChainId::FUEL => {
                let v: Vec<u8> = vec![102, 117, 101, 108];
                proof {
                    assert(v@ =~= chain_wire(ChainId::FUEL));
                }
                v
            },
            ChainId::FUELTESTNET => {
                let v: Vec<u8> = vec![102, 117, 101, 108, 116, 101, 115, 116, 110, 101, 116];
                proof {
                    assert(v@ =~= chain_wire(ChainId::FUELTESTNET));
                }
                v
            },
        }
    }

    /// Whether a Fuel-specific query may name this chain.
    pub fn is_fuel(&self) -> (r: bool)
        ensures
            r == chain_is_fuel(*self),
    {
        match self {
            ChainId::FUEL => true,
            ChainId::FUELTESTNET => true,
            _ => false,
        }
    }
}

pub open spec fn chain_is_fuel(c: ChainId) -> bool {
    c == ChainId::FUEL || c == ChainId::FUELTESTNET
}

/// The chain set a Fuel request starts from.
pub fn default_chains() -> (r: Vec<ChainId>)
    ensures
        r@ == seq![ChainId::FUEL],
{
    let v: Vec<ChainId> = vec![ChainId::FUEL];
    proof {
        assert(v@ =~= seq![ChainId::FUEL]);
    }
    v
}

} // verus!
