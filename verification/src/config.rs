//! The configuration of a node, and the test network on which it runs.

use crate::json::{
    as_items, get_member, json, json_read, json_text, json_texts, json_unsigned, member, read_json,
    read_text, read_texts, read_unsigned, Json,
};
use crate::text::{same_text, texts};
use serde_json::Value;
use vstd::prelude::*;
use zakura_chain::amount::Amount;
use zakura_chain::block::Height;
use zakura_chain::parameters::subsidy::FundingStreamReceiver;
use zakura_chain::parameters::testnet::{
    ConfiguredActivationHeights, ConfiguredFundingStreamRecipient, ConfiguredFundingStreams, ConfiguredLockboxDisbursement,
    RegtestParameters,
};
use zakura_chain::parameters::Network;

verus! {

/// A regression test network: the height at which the Ironwood upgrade activates, the
/// heights of its funding stream, the share of the stream that is deferred, and the
/// address and amount of its lockbox disbursement.
pub uninterp spec fn regtest_network(
    activation: u32,
    start: u32,
    end: u32,
    numerator: u64,
    lockbox: Seq<char>,
    amount: i64,
) -> Network;

/// Calls `Network::new_regtest` of `zakura_chain` with one activation height, one
/// funding stream whose only receiver is the deferred pool, and one lockbox
/// disbursement, and the defaults for everything else. It panics on an activation
/// height of zero or above the largest height, on a stream that ends before it
/// starts, on a numerator above the denominator of one hundred, and on an amount
/// that is no amount of money; those are left out.
#[verifier::external_body]
fn regtest(activation: u32, start: u32, end: u32, numerator: u64, lockbox: &str, amount: i64) -> (net: Network)
    requires
        1 <= activation <= 2147483647,
        start <= end,
        numerator <= 100,
        0 <= amount <= 2100000000000000,
    ensures
        net == regtest_network(activation, start, end, numerator, lockbox@, amount),
{
    let activation_heights = ConfiguredActivationHeights { nu6_3: Some(activation), ..Default::default() };
    let receiver = FundingStreamReceiver::Deferred;
    let recipient = ConfiguredFundingStreamRecipient { receiver, numerator, addresses: None };
    let streams = ConfiguredFundingStreams { height_range: Some(Height(start)..Height(end)), recipients: Some(vec![recipient]) };
    let disbursement = ConfiguredLockboxDisbursement { address: lockbox.into(), amount: Amount::new(amount) };
    Network::new_regtest(RegtestParameters {
        activation_heights,
        funding_streams: Some(vec![streams]),
        lockbox_disbursements: Some(vec![disbursement]),
        ..Default::default()
    })
}

/// The test network of the demonstration.
pub open spec fn demo_network() -> Network {
    regtest_network(1, 1, 2001, 1, "t2RnBRiqrN1nW4ecZs1Fj3WWjNdnSs4kiX8"@, 6250000)
}

/// The test network of the demonstration: Ironwood from the first block on.
pub fn network() -> (net: Network)
    ensures
        net == demo_network(),
{
    regtest(1, 1, 2001, 1, "t2RnBRiqrN1nW4ecZs1Fj3WWjNdnSs4kiX8", 6250000)
}

/// The least service fee, where the configuration names none.
pub fn min_fee() -> (fee: u64)
    ensures
        fee == 10000,
{
    10000
}

/// The configuration of a node.
#[derive(Debug, PartialEq)]
pub struct Config {
    pub role: String,
    pub node_config: String,
    pub chain_id: String,
    pub server_peer: String,
    pub node_rpc: String,
    pub api: String,
    pub database: String,
    pub seed: String,
    pub miners: Vec<String>,
    pub min_fee_zat: u64,
}

#[verifier::ext_equal]
pub struct ConfigView {
    pub role: Seq<char>,
    pub node_config: Seq<char>,
    pub chain_id: Seq<char>,
    pub server_peer: Seq<char>,
    pub node_rpc: Seq<char>,
    pub api: Seq<char>,
    pub database: Seq<char>,
    pub seed: Seq<char>,
    pub miners: Seq<Seq<char>>,
    pub min_fee_zat: u64,
}

impl View for Config {
    type V = ConfigView;

    open spec fn view(&self) -> ConfigView {
        ConfigView {
            role: self.role@,
            node_config: self.node_config@,
            chain_id: self.chain_id@,
            server_peer: self.server_peer@,
            node_rpc: self.node_rpc@,
            api: self.api@,
            database: self.database@,
            seed: self.seed@,
            miners: texts(self.miners@),
            min_fee_zat: self.min_fee_zat,
        }
    }
}

/// The number of members of a configuration: nine, and a tenth where it names the
/// least service fee.
pub open spec fn config_size(value: Json) -> nat {
    let named = match value {
        Json::Array(items) => items.len() != 9,
        _ => crate::json::field(value, "min_fee_zat"@) is Some,
    };
    if named {
        10
    } else {
        9
    }
}

/// The configuration that a JSON value stands for.
pub open spec fn json_config(value: Json) -> Option<ConfigView> {
    let n = config_size(value);
    let role = json_text(member(value, "role"@, 0, n));
    let node_config = json_text(member(value, "node_config"@, 1, n));
    let chain_id = json_text(member(value, "chain_id"@, 2, n));
    let server_peer = json_text(member(value, "server_peer"@, 3, n));
    let node_rpc = json_text(member(value, "node_rpc"@, 4, n));
    let api = json_text(member(value, "api"@, 5, n));
    let database = json_text(member(value, "database"@, 6, n));
    let seed = json_text(member(value, "seed"@, 7, n));
    let miners = member(value, "miners"@, 8, n);
    let fee = if n == 10 {
        json_unsigned(member(value, "min_fee_zat"@, 9, n))
    } else {
        Some(10000u64)
    };
    if crate::json::is_strict_record(value, n) && role is Some && node_config is Some && chain_id is Some
        && server_peer is Some && node_rpc is Some && api is Some && database is Some && seed is Some && miners is Some
        && json_texts(miners->0) is Some && fee is Some {
        Some(
            ConfigView {
                role: role->0,
                node_config: node_config->0,
                chain_id: chain_id->0,
                server_peer: server_peer->0,
                node_rpc: node_rpc->0,
                api: api->0,
                database: database->0,
                seed: seed->0,
                miners: json_texts(miners->0)->0,
                min_fee_zat: fee->0,
            },
        )
    } else {
        None
    }
}

/// The configuration that a file holds.
pub open spec fn config_read(bytes: Seq<u8>) -> Option<ConfigView> {
    match json_read(bytes) {
        Some(value) => json_config(value),
        None => None,
    }
}

fn size_of(value: &Value) -> (size: usize)
    ensures
        size == config_size(json(*value)),
{
    let named = match as_items(value) {
        Some(items) => items.len() != 9,
        None => crate::json::get(value, "min_fee_zat").is_some(),
    };
    if named {
        10
    } else {
        9
    }
}

impl Config {
    /// Reads the configuration from the contents of its file. Unknown members are
    /// not accepted.
    pub fn read(bytes: &[u8]) -> (config: Result<Config, String>)
        ensures
            match config {
                Ok(config) => config_read(bytes@) == Some(config@),
                Err(words) => {
                    &&& config_read(bytes@) is None
                    &&& json_read(bytes@) is Some ==> words@ == "invalid configuration"@
                },
            },
    {
        let value = match read_json(bytes) {
            Ok(value) => value,
            Err(words) => {
                return Err(words);
            },
        };
        let n = size_of(&value);
        if !crate::json::has_only_members(&value, n) {
            return Err("invalid configuration".to_string());
        }
        let role = read_text(get_member(&value, "role", 0, n));
        let node_config = read_text(get_member(&value, "node_config", 1, n));
        let chain_id = read_text(get_member(&value, "chain_id", 2, n));
        let server_peer = read_text(get_member(&value, "server_peer", 3, n));
        let node_rpc = read_text(get_member(&value, "node_rpc", 4, n));
        let api = read_text(get_member(&value, "api", 5, n));
        let database = read_text(get_member(&value, "database", 6, n));
        let seed = read_text(get_member(&value, "seed", 7, n));
        let miners = match get_member(&value, "miners", 8, n) {
            Some(miners) => read_texts(miners),
            None => None,
        };
        let fee = if n == 10 {
            read_unsigned(get_member(&value, "min_fee_zat", 9, n))
        } else {
            Some(min_fee())
        };
        let names = (role, node_config, chain_id, server_peer, node_rpc);
        match (names, api, database, seed, miners, fee) {
            (
                (Some(role), Some(node_config), Some(chain_id), Some(server_peer), Some(node_rpc)),
                Some(api),
                Some(database),
                Some(seed),
                Some(miners),
                Some(min_fee_zat),
            ) => Ok(
                Config {
                    role,
                    node_config,
                    chain_id,
                    server_peer,
                    node_rpc,
                    api,
                    database,
                    seed,
                    miners,
                    min_fee_zat,
                },
            ),
            _ => Err("invalid configuration".to_string()),
        }
    }

    /// What a node does, if its role is known.
    pub fn role(&self) -> (role: Option<Role>)
        ensures
            role == known_role(self@.role),
    {
        if same_text(self.role.as_str(), "server") {
            Some(Role::Server)
        } else if same_text(self.role.as_str(), "miner") {
            Some(Role::Miner)
        } else if same_text(self.role.as_str(), "plain") {
            Some(Role::Plain)
        } else {
            None
        }
    }
}

/// What a node does beside following the chain.
#[derive(Debug, PartialEq, Eq, Structural, Clone, Copy)]
pub enum Role {
    /// It accepts payments.
    Server,
    /// It mines, and puts accepted payments first.
    Miner,
    /// Nothing.
    Plain,
}

/// The role with a name.
pub open spec fn known_role(name: Seq<char>) -> Option<Role> {
    if name == "server"@ {
        Some(Role::Server)
    } else if name == "miner"@ {
        Some(Role::Miner)
    } else if name == "plain"@ {
        Some(Role::Plain)
    } else {
        None
    }
}

} // verus!
