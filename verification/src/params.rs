//! The arguments of the ledger commands, as plain data.

use vstd::prelude::*;

verus! {

/// A 32-byte account address.
#[derive(Debug, Clone, Copy, PartialEq, Eq)]
pub struct Pubkey {
    /// The bytes of the address.
    pub bytes: [u8; 32],
}

/// Closes the account of an operator that may claim protocol fees.
#[derive(Debug, Clone, Copy)]
pub struct CloseClaimFeeOperatorParams {
    /// The operator.
    pub operator: Pubkey,
}

/// Closes a preset parameter account.
#[derive(Debug, Clone, Copy)]
pub struct ClosePresetAccountParams {
    /// The preset parameter account.
    pub preset_parameter: Pubkey,
}

/// Creates the account of an operator that may claim protocol fees.
#[derive(Debug, Clone, Copy)]
pub struct CreateClaimFeeOperatorParams {
    /// The operator.
    pub operator: Pubkey,
}

/// Creates a preset parameter account.
#[derive(Debug, Clone, Copy)]
pub struct InitPresetParameters {
    /// The ladder step, in basis points.
    pub bin_step: u16,
    /// The base factor of the fee.
    pub base_factor: u16,
    /// The filter period of the volatility accumulator.
    pub filter_period: u16,
    /// The decay period of the volatility accumulator.
    pub decay_period: u16,
    /// The factor by which volatility decays.
    pub reduction_factor: u16,
    /// The weight of volatility in the variable fee.
    pub variable_fee_control: u32,
    /// The cap of the volatility accumulator.
    pub max_volatility_accumulator: u32,
    /// The share of the fee that goes to the protocol, in basis points.
    pub protocol_share: u16,
    /// The power-of-ten factor of the base fee.
    pub base_fee_power_factor: u8,
}

/// Sets up a reward of a pair.
#[derive(Debug, Clone, Copy)]
pub struct InitializeRewardParams {
    /// The pair.
    pub lb_pair: Pubkey,
    /// The mint of the reward token.
    pub reward_mint: Pubkey,
    /// The index of the reward.
    pub reward_index: u64,
    /// How long the reward runs.
    pub reward_duration: u64,
    /// Who funds the reward.
    pub funder: Pubkey,
}

/// Creates the badge of a token mint.
#[derive(Debug, Clone, Copy)]
pub struct InitializeTokenBadgeParams {
    /// The mint.
    pub mint: Pubkey,
}

/// Sets the point at which a pair becomes active.
#[derive(Debug, Clone, Copy)]
pub struct SetActivationPointParam {
    /// The pair.
    pub lb_pair: Pubkey,
    /// The activation point.
    pub activation_point: u64,
}

/// Sets the duration before activation.
#[derive(Debug, Clone, Copy)]
pub struct SetPreactivationDurationParam {
    /// The pair.
    pub lb_pair: Pubkey,
    /// The duration.
    pub pre_activation_duration: u16,
}

/// Sets the address that may swap before activation.
#[derive(Debug, Clone, Copy)]
pub struct SetPreactivationSwapAddressParam {
    /// The pair.
    pub lb_pair: Pubkey,
    /// The address.
    pub pre_activation_swap_address: Pubkey,
}

/// Sets the status of a pair.
#[derive(Debug, Clone, Copy)]
pub struct SetPairStatusParams {
    /// The pair.
    pub lb_pair: Pubkey,
    /// The status code.
    pub pair_status: u8,
}

/// Changes the base fee of a pair.
#[derive(Debug, Clone, Copy)]
pub struct UpdateBaseFeeParams {
    /// The pair.
    pub lb_pair: Pubkey,
    /// The new base fee, in basis points.
    pub base_fee_bps: u16,
}

/// Changes how long a reward runs.
#[derive(Debug, Clone, Copy)]
pub struct UpdateRewardDurationParams {
    /// The pair.
    pub lb_pair: Pubkey,
    /// The index of the reward.
    pub reward_index: u64,
    /// The new duration.
    pub reward_duration: u64,
}

/// Changes who funds a reward.
#[derive(Debug, Clone, Copy)]
pub struct UpdateRewardFunderParams {
    /// The pair.
    pub lb_pair: Pubkey,
    /// The index of the reward.
    pub reward_index: u64,
    /// The new funder.
    pub funder: Pubkey,
}

/// Withdraws the protocol fee of a pair.
#[derive(Debug, Clone, Copy)]
pub struct WithdrawProtocolFeeParams {
    /// The pair.
    pub lb_pair: Pubkey,
}

/// Claims the fees of a position.
#[derive(Debug, Clone, Copy)]
pub struct ClaimFeeParams {
    /// The position.
    pub position: Pubkey,
}

/// Claims a reward of a position.
#[derive(Debug, Clone, Copy)]
pub struct ClaimRewardParams {
    /// The pair.
    pub lb_pair: Pubkey,
    /// The index of the reward.
    pub reward_index: u64,
    /// The position.
    pub position: Pubkey,
}

/// Closes a position.
#[derive(Debug, Clone, Copy)]
pub struct ClosePositionParams {
    /// The position.
    pub position: Pubkey,
}

/// Funds a reward.
#[derive(Debug, Clone, Copy)]
pub struct FundRewardParams {
    /// The pair.
    pub lb_pair: Pubkey,
    /// The index of the reward.
    pub reward_index: u64,
    /// The amount to add.
    pub funding_amount: u64,
}

/// Lists the positions of an owner in a pair.
#[derive(Debug, Clone, Copy)]
pub struct GetAllPositionsParams {
    /// The pair.
    pub lb_pair: Pubkey,
    /// The owner.
    pub owner: Pubkey,
}

/// Lengthens the oracle of a pair.
#[derive(Debug, Clone, Copy)]
pub struct IncreaseOracleLengthParams {
    /// The pair.
    pub lb_pair: Pubkey,
    /// The number of samples to add.
    pub length_to_add: u64,
}

/// Creates a bin array.
#[derive(Debug, Clone, Copy)]
pub struct InitBinArrayParams {
    /// The index of the bin array.
    pub bin_array_index: i64,
    /// The pair.
    pub lb_pair: Pubkey,
}

/// Creates a position.
#[derive(Debug, Clone, Copy)]
pub struct InitPositionParams {
    /// The pair.
    pub lb_pair: Pubkey,
    /// The lowest bin of the position.
    pub lower_bin_id: i32,
    /// The number of bins of the position.
    pub width: i32,
}

/// Shows a position.
#[derive(Debug, Clone, Copy)]
pub struct ShowPositionParams {
    /// The position.
    pub position: Pubkey,
}

/// Swaps a given amount in.
#[derive(Debug, Clone, Copy)]
pub struct SwapExactInParams {
    /// The pair.
    pub lb_pair: Pubkey,
    /// The amount that goes in.
    pub amount_in: u64,
    /// Whether the base token is sold for the quote token.
    pub swap_for_y: bool,
}

/// Swaps for a given amount out.
#[derive(Debug, Clone, Copy)]
pub struct SwapExactOutParams {
    /// The pair.
    pub lb_pair: Pubkey,
    /// The amount that comes out.
    pub amount_out: u64,
    /// Whether the base token is sold for the quote token.
    pub swap_for_y: bool,
}

} // verus!
