use vstd::prelude::*;

use std::collections::HashMap;

verus! {

/// Connection and contract parameters of one deployment: node info,
/// the three contracts the cycle touches, and the proving-service
/// application id.
pub struct NeutronStrategyConfig {
    /// gRPC endpoint of the node.
    pub grpc_url: String,
    /// gRPC port of the node.
    pub grpc_port: String,
    /// Chain identifier.
    pub chain_id: String,
    /// The authorizations module address.
    pub authorizations: String,
    /// The processor coupled with the authorizations module.
    pub processor: String,
    /// The token contract the processor mints on.
    pub cw20: String,
    /// The proving-service application id.
    pub coprocessor_app_id: String,
}

/// The inputs a deployment starts from.
pub struct NeutronInputs {
    /// gRPC endpoint of the node.
    pub grpc_url: String,
    /// gRPC port of the node.
    pub grpc_port: String,
    /// Chain identifier.
    pub chain_id: String,
    /// The owner address.
    pub owner: String,
    /// The proving-service application id.
    pub coprocessor_app_id: String,
}

/// The code ids of previously uploaded contracts, by name.
pub struct UploadedContracts {
    /// Contract name to code id.
    pub code_ids: HashMap<String, u64>,
}

} // verus!
