//! Parameter-type inference and execution-mode selection for a command-line
//! runner of smart-contract methods on EVM-compatible chains.

pub mod calldata;
pub mod classify;
pub mod encode;
pub mod timing;
pub mod types;

pub use calldata::parse_256_method_arguments;
pub use classify::{
    parse_param_type, validate_address_format, validate_decimal_format,
    validate_hexadecimal_format, validate_octal_format, FnParamType,
};
pub use encode::{
    encode_param, gas_estimate_call, get_address_from_str, is_eoa_code, prepare_params,
    u256_to_decimal, Address, EncodingError, GasEstimateCall, GasEstimateError, ParamValue,
    Uint256,
};
pub use timing::measure_start;
pub use types::{
    is_balance_query, parse_chain, parse_return_type, rpc_endpoint, select_mode, unit_str,
    ChainType, CommandlineArgs, ConfigError, ExecutionMode, ReturnType,
};
