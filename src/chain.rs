use vstd::prelude::*;
use vstd::string::*;

verus! {

/// The chains whose indexers can be ingested.
#[derive(Clone, Copy, Debug, PartialEq, Eq, Structural)]
pub enum Chain {
    EthereumMainnet,
    EthereumGoerli,
    OptimismMainnet,
    FantomMainnet,
    FantomTestnet,
}

/// The chain that a trigger request names, if it is a supported one.
pub open spec fn chain_named(name: Seq<char>) -> Option<Chain> {
    if name == "ethereum_mainnet"@ {
        Some(Chain::EthereumMainnet)
    } else if name == "ethereum_goerli"@ {
        Some(Chain::EthereumGoerli)
    } else if name == "optimism_mainnet"@ {
        Some(Chain::OptimismMainnet)
    } else if name == "fantom_mainnet"@ {
        Some(Chain::FantomMainnet)
    } else if name == "fantom_testnet"@ {
        Some(Chain::FantomTestnet)
    } else {
        None
    }
}

/// The chain identifier that records of `c` are tagged with.
pub open spec fn chain_id_of(c: Chain) -> Seq<char> {
    match c {
        Chain::EthereumMainnet => "1"@,
        Chain::EthereumGoerli => "5"@,
        Chain::OptimismMainnet => "10"@,
        Chain::FantomMainnet => "250"@,
        Chain::FantomTestnet => "4002"@,
    }
}

/// The configuration variable that holds the indexer endpoint of `c`.
pub open spec fn endpoint_var_of(c: Chain) -> Seq<char> {
    match c {
        Chain::EthereumMainnet => "SUBGRAPH_ETHEREUM_MAINNET_API"@,
        Chain::EthereumGoerli => "SUBGRAPH_ETHEREUM_GOERLI_API"@,
        Chain::OptimismMainnet => "SUBGRAPH_OPTIMISM_MAINNET_API"@,
        Chain::FantomMainnet => "SUBGRAPH_FANTOM_MAINNET_API"@,
        Chain::FantomTestnet => "SUBGRAPH_FANTOM_TESTNET_API"@,
    }
}

/// The chain's name in words.
pub open spec fn label_of(c: Chain) -> Seq<char> {
    match c {
        Chain::EthereumMainnet => "ethereum mainnet"@,
        Chain::EthereumGoerli => "ethereum goerli"@,
        Chain::OptimismMainnet => "optimism mainnet"@,
        Chain::FantomMainnet => "fantom mainnet"@,
        Chain::FantomTestnet => "fantom testnet"@,
    }
}

impl Chain {
    /// Recognises a chain by the name used in trigger requests.
    pub fn from_name(name: &str) -> (r: Option<Chain>)
        ensures
            r == chain_named(name@),
    {
        let s = String::from_str(name);
        if s == String::from_str("ethereum_mainnet") {
            Some(Chain::EthereumMainnet)
        } else if s == String::from_str("ethereum_goerli") {
            Some(Chain::EthereumGoerli)
        } else if s == String::from_str("optimism_mainnet") {
            Some(Chain::OptimismMainnet)
        } else if s == String::from_str("fantom_mainnet") {
            Some(Chain::FantomMainnet)
        } else if s == String::from_str("fantom_testnet") {
            Some(Chain::FantomTestnet)
        } else {
            None
        }
    }

    pub fn chain_id(&self) -> (r: String)
        ensures
            r@ == chain_id_of(*self),
    {
        match self {
            Chain::EthereumMainnet => String::from_str("1"),
            Chain::EthereumGoerli => String::from_str("5"),
            Chain::OptimismMainnet => String::from_str("10"),
            Chain::FantomMainnet => String::from_str("250"),
            Chain::FantomTestnet => String::from_str("4002"),
        }
    }

    pub fn endpoint_var(&self) -> (r: String)
        ensures
            r@ == endpoint_var_of(*self),
    {
        match self {
            Chain::EthereumMainnet => String::from_str("SUBGRAPH_ETHEREUM_MAINNET_API"),
            Chain::EthereumGoerli => String::from_str("SUBGRAPH_ETHEREUM_GOERLI_API"),
            Chain::OptimismMainnet => String::from_str("SUBGRAPH_OPTIMISM_MAINNET_API"),
            Chain::FantomMainnet => String::from_str("SUBGRAPH_FANTOM_MAINNET_API"),
            Chain::FantomTestnet => String::from_str("SUBGRAPH_FANTOM_TESTNET_API"),
        }
    }

    pub fn label(&self) -> (r: String)
        ensures
            r@ == label_of(*self),
    {
        match self {
            Chain::EthereumMainnet => String::from_str("ethereum mainnet"),
            Chain::EthereumGoerli => String::from_str("ethereum goerli"),
            Chain::OptimismMainnet => String::from_str("optimism mainnet"),
            Chain::FantomMainnet => String::from_str("fantom mainnet"),
            Chain::FantomTestnet => String::from_str("fantom testnet"),
        }
    }
}

} // verus!
