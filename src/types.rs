//! Command-line settings, chains, and the choice of what one run does.

use vstd::prelude::*;
use vstd::string::StrSliceExecFns;

verus! {

/// The settings of one run, as read from the command line.
#[derive(Clone, Debug)]
pub struct CommandlineArgs {
    /// Target contract address to interact with.
    pub contract_address: String,
    /// Which chain to work with.
    pub chain: String,
    /// Name of the contract method to call, or of the plain RPC query.
    pub fn_name: String,
    /// Make a plain RPC query instead of a contract call.
    pub rpc_eth: bool,
    /// Declared return type of the method.
    pub fn_ret_type: Option<String>,
    /// The method changes chain state.
    pub ensure_setter: bool,
    /// Parameter texts for the method.
    pub params: Vec<String>,
    /// Only estimate the gas that the setter would use.
    pub dry_run_estimate_gas: bool,
    /// Sender address used for the gas estimate.
    pub estimate_gas_from_addr: Option<String>,
    /// Number of block confirmations to wait for after a setter call.
    pub block_confirmations: u64,
    /// File of extra ABI entries.
    pub abi_filepath: Option<String>,
}

/// Chain type.
#[derive(Clone, Copy, Debug, PartialEq, Eq, Structural)]
pub enum ChainType {
    /// BSC - Binance Smart Chain
    BSC,
    /// Ethereum
    Ethereum,
    /// Polygon
    Polygon,
}

/// Return types that a read query can decode.
#[derive(Clone, Copy, Debug, PartialEq, Eq, Structural)]
pub enum ReturnType {
    String,
    U256,
}

/// What one run does; exactly one of these.
#[derive(Clone, Copy, Debug, PartialEq, Eq, Structural)]
pub enum ExecutionMode {
    /// Estimate the gas of a setter call without sending it.
    GasEstimate,
    /// A setter through plain RPC, which is not supported: nothing is done.
    Unsupported,
    /// Send a signed state-changing transaction.
    WriteTransaction,
    /// Query the native balance of the target address.
    RawBalanceQuery,
    /// Call a read-only method and decode its result.
    ReadQuery,
}

/// Settings that conflict or lack a required value, found before any network access.
#[derive(Clone, Copy, Debug, PartialEq, Eq, Structural)]
pub enum ConfigError {
    /// A dry run was asked for a call that is not marked as a setter.
    DryRunRequiresSetter,
    /// A dry run was asked without a sender address for the estimate.
    MissingGasFromAddress,
    /// A read query was asked without a supported return type.
    MissingReturnType,
}

/// The decision table, first match wins.
pub open spec fn mode_of(
    is_setter: bool,
    is_dry_run: bool,
    is_raw_rpc: bool,
    has_return_type: bool,
    has_gas_from: bool,
) -> Result<ExecutionMode, ConfigError> {
    if is_dry_run {
        if !is_setter {
            Err(ConfigError::DryRunRequiresSetter)
        } else if !has_gas_from {
            Err(ConfigError::MissingGasFromAddress)
        } else {
            Ok(ExecutionMode::GasEstimate)
        }
    } else if is_setter && is_raw_rpc {
        Ok(ExecutionMode::Unsupported)
    } else if is_setter {
        Ok(ExecutionMode::WriteTransaction)
    } else if is_raw_rpc {
        Ok(ExecutionMode::RawBalanceQuery)
    } else if has_return_type {
        Ok(ExecutionMode::ReadQuery)
    } else {
        Err(ConfigError::MissingReturnType)
    }
}

/// Picks what a run does from its flags, in a fixed order of precedence:
/// dry run, setter through plain RPC, setter, plain RPC, read query.
pub fn select_mode(
    is_setter: bool,
    is_dry_run: bool,
    is_raw_rpc: bool,
    has_return_type: bool,
    has_gas_from: bool,
) -> (r: Result<ExecutionMode, ConfigError>)
    ensures
        r == mode_of(is_setter, is_dry_run, is_raw_rpc, has_return_type, has_gas_from),
        is_dry_run && !is_setter ==> r == Err::<ExecutionMode, ConfigError>(
            ConfigError::DryRunRequiresSetter,
        ),
        !is_setter && !is_dry_run && !is_raw_rpc && !has_return_type ==> r == Err::<
            ExecutionMode,
            ConfigError,
        >(ConfigError::MissingReturnType),
{
    if is_dry_run {
        if !is_setter {
            Err(ConfigError::DryRunRequiresSetter)
        } else if !has_gas_from {
            Err(ConfigError::MissingGasFromAddress)
        } else {
            Ok(ExecutionMode::GasEstimate)
        }
    } else if is_setter && is_raw_rpc {
        Ok(ExecutionMode::Unsupported)
    } else if is_setter {
        Ok(ExecutionMode::WriteTransaction)
    } else if is_raw_rpc {
        Ok(ExecutionMode::RawBalanceQuery)
    } else if has_return_type {
        Ok(ExecutionMode::ReadQuery)
    } else {
        Err(ConfigError::MissingReturnType)
    }
}

/// `c` is the lower-case letter `lower`, in either case, or equal to it.
pub open spec fn same_ignoring_case(c: char, lower: char) -> bool {
    c == lower || ('a' <= lower && lower <= 'z' && c as u32 + 32 == lower as u32)
}

pub open spec fn equal_ignoring_case(s: Seq<char>, lower: Seq<char>) -> bool {
    s.len() == lower.len() && forall|i: int|
        0 <= i < s.len() ==> #[trigger] same_ignoring_case(s[i], lower[i])
}

fn text_equal_ignoring_case(s: &str, lower: &str) -> (r: bool)
    ensures
        r == equal_ignoring_case(s@, lower@),
{
    let n = s.unicode_len();
    if n != lower.unicode_len() {
        return false;
    }
    let mut i: usize = 0;
    while i < n
        invariant
            n == s@.len() == lower@.len(),
            0 <= i <= n,
            forall|j: int| 0 <= j < i ==> #[trigger] same_ignoring_case(s@[j], lower@[j]),
        decreases n - i,
    {
        let c = s.get_char(i);
        let l = lower.get_char(i);
        if !(c == l || ('a' <= l && l <= 'z' && (c as u32) + 32 == l as u32)) {
            assert(!same_ignoring_case(s@[i as int], lower@[i as int]));
            return false;
        }
        i = i + 1;
    }
    true
}

fn text_equal(s: &str, t: &str) -> (r: bool)
    ensures
        r == (s@ == t@),
{
    let n = s.unicode_len();
    if n != t.unicode_len() {
        return false;
    }
    let mut i: usize = 0;
    while i < n
        invariant
            n == s@.len() == t@.len(),
            0 <= i <= n,
            forall|j: int| 0 <= j < i ==> s@[j] == t@[j],
        decreases n - i,
    {
        if s.get_char(i) != t.get_char(i) {
            return false;
        }
        i = i + 1;
    }
    assert(s@ =~= t@);
    true
}

/// The chain named by `name`, ignoring case.
pub open spec fn chain_of(name: Seq<char>) -> Option<ChainType> {
    if equal_ignoring_case(name, seq!['b', 's', 'c']) {
        Some(ChainType::BSC)
    } else if equal_ignoring_case(name, seq!['e', 't', 'h', 'e', 'r', 'e', 'u', 'm']) {
        Some(ChainType::Ethereum)
    } else if equal_ignoring_case(name, seq!['p', 'o', 'l', 'y', 'g', 'o', 'n']) {
        Some(ChainType::Polygon)
    } else {
        None
    }
}

/// Reads a chain from its name: `bsc`, `ethereum` or `polygon`, in any case.
pub fn parse_chain(name: &str) -> (r: Option<ChainType>)
    ensures
        r == chain_of(name@),
{
    proof {
        reveal_strlit("bsc");
        reveal_strlit("ethereum");
        reveal_strlit("polygon");
        assert("bsc"@ =~= seq!['b', 's', 'c']);
        assert("ethereum"@ =~= seq!['e', 't', 'h', 'e', 'r', 'e', 'u', 'm']);
        assert("polygon"@ =~= seq!['p', 'o', 'l', 'y', 'g', 'o', 'n']);
    }
    if text_equal_ignoring_case(name, "bsc") {
        Some(ChainType::BSC)
    } else if text_equal_ignoring_case(name, "ethereum") {
        Some(ChainType::Ethereum)
    } else if text_equal_ignoring_case(name, "polygon") {
        Some(ChainType::Polygon)
    } else {
        None
    }
}

/// The return type named by `name`: exactly `String` or `U256`.
pub open spec fn return_type_of(name: Seq<char>) -> Option<ReturnType> {
    if name == seq!['S', 't', 'r', 'i', 'n', 'g'] {
        Some(ReturnType::String)
    } else if name == seq!['U', '2', '5', '6'] {
        Some(ReturnType::U256)
    } else {
        None
    }
}

/// Reads a declared return type from its name: `String` or `U256`.
pub fn parse_return_type(name: &str) -> (r: Option<ReturnType>)
    ensures
        r == return_type_of(name@),
{
    proof {
        reveal_strlit("String");
        reveal_strlit("U256");
        assert("String"@ =~= seq!['S', 't', 'r', 'i', 'n', 'g']);
        assert("U256"@ =~= seq!['U', '2', '5', '6']);
    }
    if text_equal(name, "String") {
        Some(ReturnType::String)
    } else if text_equal(name, "U256") {
        Some(ReturnType::U256)
    } else {
        None
    }
}

/// Whether a plain RPC query names the one query there is: the balance.
pub fn is_balance_query(fn_name: &str) -> (r: bool)
    ensures
        r == (fn_name@ == seq!['b', 'a', 'l', 'a', 'n', 'c', 'e']),
{
    proof {
        reveal_strlit("balance");
        assert("balance"@ =~= seq!['b', 'a', 'l', 'a', 'n', 'c', 'e']);
    }
    text_equal(fn_name, "balance")
}

/// Get unit string from the specified `ChainType`.
pub fn unit_str(chain: ChainType) -> (r: &'static str)
    ensures
        chain == ChainType::BSC ==> r@ == "BNB"@,
        chain == ChainType::Ethereum ==> r@ == "ETH"@,
        chain == ChainType::Polygon ==> r@ == "MATIC"@,
{
    match chain {
        ChainType::BSC => "BNB",
        ChainType::Ethereum => "ETH",
        ChainType::Polygon => "MATIC",
    }
}

/// The RPC endpoint of a chain.
pub fn rpc_endpoint(chain: ChainType) -> (r: &'static str)
    ensures
        chain == ChainType::BSC ==> r@ == "https://bsc-dataseed.binance.org/"@,
        chain == ChainType::Ethereum ==> r@ == "https://rpc.ankr.com/eth"@,
        chain == ChainType::Polygon ==> r@ == "https://polygon-rpc.com/"@,
{
    match chain {
        ChainType::BSC => "https://bsc-dataseed.binance.org/",
        ChainType::Ethereum => "https://rpc.ankr.com/eth",
        ChainType::Polygon => "https://polygon-rpc.com/",
    }
}

impl CommandlineArgs {
    /// The chain that the settings name.
    pub fn chain_type(&self) -> (r: Option<ChainType>)
        ensures
            r == chain_of(self.chain@),
    {
        parse_chain(self.chain.as_str())
    }

    /// The declared return type, when one is given and supported.
    pub fn return_type(&self) -> (r: Option<ReturnType>)
        ensures
            r == (match self.fn_ret_type {
                Some(t) => return_type_of(t@),
                None => None,
            }),
    {
        match &self.fn_ret_type {
            Some(t) => parse_return_type(t.as_str()),
            None => None,
        }
    }

    /// What a run with these settings does.
    pub fn execution_mode(&self) -> (r: Result<ExecutionMode, ConfigError>)
        ensures
            r == mode_of(
                self.ensure_setter,
                self.dry_run_estimate_gas,
                self.rpc_eth,
                (match self.fn_ret_type {
                    Some(t) => return_type_of(t@),
                    None => None,
                }) is Some,
                self.estimate_gas_from_addr is Some,
            ),
    {
        let ret = self.return_type();
        select_mode(
            self.ensure_setter,
            self.dry_run_estimate_gas,
            self.rpc_eth,
            ret.is_some(),
            self.estimate_gas_from_addr.is_some(),
        )
    }
}

} // verus!
