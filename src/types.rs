use vstd::prelude::*;

verus! {

/// A bucket of not-yet-minted items whose ids start with `prefix`.
#[derive(Debug)]
pub struct RemainingToken {
    pub prefix: String,
    pub count: u64,
}

impl RemainingToken {
    /// A field-by-field copy.
    pub fn duplicate(&self) -> (r: RemainingToken)
        ensures
            r == *self,
    {
        RemainingToken { prefix: self.prefix.clone(), count: self.count }
    }
}

/// The asset in which the mint price is paid.
#[derive(Debug)]
pub enum AssetInfo {
    Token { contract_addr: String },
    NativeToken { denom: String },
}

impl AssetInfo {
    pub fn duplicate(&self) -> (r: AssetInfo)
        ensures
            r == *self,
    {
        match self {
            AssetInfo::Token { contract_addr } => AssetInfo::Token {
                contract_addr: contract_addr.clone(),
            },
            AssetInfo::NativeToken { denom } => AssetInfo::NativeToken { denom: denom.clone() },
        }
    }
}

/// An amount of an asset.
#[derive(Debug)]
pub struct Asset {
    pub info: AssetInfo,
    pub amount: u128,
}

impl Asset {
    pub fn duplicate(&self) -> (r: Asset)
        ensures
            r == *self,
    {
        Asset { info: self.info.duplicate(), amount: self.amount }
    }
}

/// Native funds attached to a request.
#[derive(Debug)]
pub struct Coin {
    pub denom: String,
    pub amount: u128,
}

/// One in 10^18: the scale of a fee rate held as an integer.
pub const FEE_SCALE: u128 = 1_000_000_000_000_000_000;

/// Contract configuration. `protocol_fee` is a fraction held as an integer
/// over `FEE_SCALE`.
#[derive(Debug)]
pub struct Config {
    pub owner: String,
    pub creator: String,
    pub token_addr: String,
    pub protocol_fee: u128,
    pub mint_asset: Asset,
    pub collector: String,
    pub enable_whitelist: bool,
    pub total_supply: u128,
    pub total_token_count: u128,
    pub is_open: bool,
    pub round: u64,
}

/// Remaining mint allowance of `addr` in `round`.
#[derive(Debug)]
pub struct Whitelist {
    pub addr: String,
    pub round: u64,
    pub count: u64,
}

impl Whitelist {
    pub fn duplicate(&self) -> (r: Whitelist)
        ensures
            r == *self,
    {
        Whitelist { addr: self.addr.clone(), round: self.round, count: self.count }
    }
}

/// Parameters of a new candy machine; addresses are already validated.
#[derive(Debug)]
pub struct InstantiateMsg {
    pub token_addr: String,
    pub creator: String,
    pub mint_asset: Asset,
    pub protocol_fee: u128,
    pub enable_whitelist: bool,
    pub collector: String,
    pub total_supply: u128,
    pub total_token_count: u128,
}

#[derive(Debug)]
pub enum ExecuteMsg {
    SetConfig { is_open: bool, enable_whitelist: bool, round: u64 },
    SetNftAddress { addr: String },
    Mint {},
    UpdateWhitelist { register_addr: String, count: u64, round: u64, is_delist: Option<bool> },
    SetRandomSeed { seeds: Vec<RemainingToken> },
}

#[derive(Debug)]
pub enum QueryMsg {
    Config {},
    WhitelistSingle { addr: String },
    WhitelistAddress { addr: String, round: u64 },
    Seed {},
}

#[derive(Debug)]
pub struct ConfigResponse {
    pub owner: String,
    pub token_addr: String,
    pub mint_asset: Asset,
    pub round: u64,
    pub protocol_fee: u128,
    pub creator: String,
    pub collector: String,
    pub total_token_count: u128,
    pub enable_whitelist: bool,
    pub total_supply: u128,
    pub is_open: bool,
}

#[derive(Debug)]
pub struct MigrateMsg {}

/// Block context that feeds the entropy source.
#[derive(Debug)]
pub struct BlockInfo {
    pub height: u64,
    /// Block time in nanoseconds since the epoch.
    pub time_nanos: u64,
    /// Index of the transaction in the block, where there is one.
    pub tx_index: Option<u32>,
}

#[derive(Debug, Clone, Copy, PartialEq, Eq, Structural)]
pub enum ContractError {
    Unauthorized,
    NotWhitelisted,
    MintingClosed,
    InsufficientPayment,
    NoInventoryRemaining,
    IndexOutOfRange,
    PrefixNotFound,
    AddressNotFound,
}

} // verus!
