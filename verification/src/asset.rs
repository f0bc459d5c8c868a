//! Assets: what kind of token an amount is denominated in.

use vstd::prelude::*;

verus! {

/// What kind of token an amount is denominated in.
#[derive(Debug, PartialEq, Eq)]
pub enum AssetInfo {
    /// A token managed by a contract.
    Token { contract_addr: String },
    /// A native coin of the chain.
    NativeToken { denom: String },
}

impl Clone for AssetInfo {
    fn clone(&self) -> (copy: Self)
        ensures
            copy == *self,
    {
        match self {
            AssetInfo::Token { contract_addr } => AssetInfo::Token {
                contract_addr: contract_addr.clone(),
            },
            AssetInfo::NativeToken { denom } => AssetInfo::NativeToken { denom: denom.clone() },
        }
    }
}

/// An amount of some token.
#[derive(Debug, PartialEq, Eq)]
pub struct Asset {
    /// The token the amount is denominated in.
    pub info: AssetInfo,
    /// The number of tokens.
    pub amount: u128,
}

impl Clone for Asset {
    fn clone(&self) -> (copy: Self)
        ensures
            copy == *self,
    {
        Asset { info: self.info.clone(), amount: self.amount }
    }
}

} // verus!
