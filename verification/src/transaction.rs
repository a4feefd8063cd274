//! The parameters of a transaction, as the command line gives them and as
//! the transaction layer takes them.

use vstd::prelude::*;
use vstd::std_specs::convert::FromSpecImpl;

verus! {

/// The transaction parameters given on the command line.
#[derive(Clone, Debug, PartialEq, Eq)]
pub struct CliTransactionArgs {
    /// Orderbook contract address.
    pub orderbook_address: String,
    /// Derivation path of the Ledger wallet.
    pub derivation_path: Option<usize>,
    /// Chain ID of the network.
    pub chain_id: u64,
    /// RPC URL.
    pub rpc_url: String,
}

/// The transaction parameters that the transaction layer takes.
#[derive(Clone, Debug, PartialEq, Eq)]
pub struct TransactionArgs {
    pub orderbook_address: String,
    pub derivation_path: Option<usize>,
    pub chain_id: u64,
    pub rpc_url: String,
}

impl From<CliTransactionArgs> for TransactionArgs {
    /// Carries every parameter over unchanged.
    fn from(val: CliTransactionArgs) -> (r: TransactionArgs) {
        TransactionArgs {
            orderbook_address: val.orderbook_address,
            derivation_path: val.derivation_path,
            chain_id: val.chain_id,
            rpc_url: val.rpc_url,
        }
    }
}

impl FromSpecImpl<CliTransactionArgs> for TransactionArgs {
    open spec fn obeys_from_spec() -> bool {
        true
    }

    open spec fn from_spec(val: CliTransactionArgs) -> TransactionArgs {
        TransactionArgs {
            orderbook_address: val.orderbook_address,
            derivation_path: val.derivation_path,
            chain_id: val.chain_id,
            rpc_url: val.rpc_url,
        }
    }
}

} // verus!
