use vstd::prelude::*;

verus! {

/// The closed set of error kinds that any operation of the engine can
/// return. Every operation fails fast with exactly one of these on the
/// first failing check; nothing is retried or recovered internally.
#[derive(Clone, Copy, Debug, PartialEq, Eq, Structural)]
pub enum ContractError {
    // Input validation
    InvalidAmount,
    InvalidTimelock,
    InvalidSecretHash,
    InvalidAddress,
    // Swap state
    SwapNotFound,
    SwapAlreadyExists,
    SwapAlreadyCompleted,
    SwapAlreadyRefunded,
    SwapExpired,
    InvalidSwapState,
    // Secret and proof
    InvalidSecret,
    SecretAlreadyUsed,
    InvalidMerkleProof,
    // Partial fills
    PartialFillsNotEnabled,
    InvalidFillAmount,
    ExceedsSwapAmount,
    // Authorization
    Unauthorized,
    UnauthorizedRefund,
    NotActiveResolver,
    // Timelocks
    TimelockNotExpired,
    TimelockTooShort,
    TimelockTooLong,
    // Resolvers
    ResolverNotFound,
    ResolverAlreadyRegistered,
    InsufficientStake,
    ResolverNotActive,
    // Tokens
    InsufficientBalance,
    TransferFailed,
    TokenNotSupported,
    // System
    ContractPaused,
    SystemError,
    StorageError,
    CalculationOverflow,
}

/// The stable numeric code of each error kind, kept as an external
/// contract for callers that parse codes rather than names.
pub open spec fn error_code(e: ContractError) -> u32 {
    match e {
        ContractError::InvalidAmount => 1,
        ContractError::InvalidTimelock => 2,
        ContractError::InvalidSecretHash => 3,
        ContractError::InvalidAddress => 4,
        ContractError::SwapNotFound => 10,
        ContractError::SwapAlreadyExists => 11,
        ContractError::SwapAlreadyCompleted => 12,
        ContractError::SwapAlreadyRefunded => 13,
        ContractError::SwapExpired => 14,
        ContractError::InvalidSwapState => 15,
        ContractError::InvalidSecret => 20,
        ContractError::SecretAlreadyUsed => 21,
        ContractError::InvalidMerkleProof => 22,
        ContractError::PartialFillsNotEnabled => 30,
        ContractError::InvalidFillAmount => 31,
        ContractError::ExceedsSwapAmount => 32,
        ContractError::Unauthorized => 40,
        ContractError::UnauthorizedRefund => 41,
        ContractError::NotActiveResolver => 42,
        ContractError::TimelockNotExpired => 50,
        ContractError::TimelockTooShort => 51,
        ContractError::TimelockTooLong => 52,
        ContractError::ResolverNotFound => 60,
        ContractError::ResolverAlreadyRegistered => 61,
        ContractError::InsufficientStake => 62,
        ContractError::ResolverNotActive => 63,
        ContractError::InsufficientBalance => 70,
        ContractError::TransferFailed => 71,
        ContractError::TokenNotSupported => 72,
        ContractError::ContractPaused => 80,
        ContractError::SystemError => 81,
        ContractError::StorageError => 82,
        ContractError::CalculationOverflow => 83,
    }
}

/// Critical errors signal a fault of the system itself rather than a
/// caller mistake; they are the ones worth alerting on.
pub open spec fn is_critical_spec(e: ContractError) -> bool {
    e == ContractError::SystemError || e == ContractError::StorageError
        || e == ContractError::CalculationOverflow
}

/// User errors are rejections of malformed input, reported before any
/// state is touched.
pub open spec fn is_user_error_spec(e: ContractError) -> bool {
    e == ContractError::InvalidAmount || e == ContractError::InvalidTimelock
        || e == ContractError::InvalidSecretHash || e == ContractError::InvalidAddress
        || e == ContractError::InvalidSecret || e == ContractError::InvalidFillAmount
}

impl ContractError {
    /// The stable numeric code of this error kind.
    pub fn code(&self) -> (r: u32)
        ensures
            r == error_code(*self),
    {
        match self {
            ContractError::InvalidAmount => 1,
            ContractError::InvalidTimelock => 2,
            ContractError::InvalidSecretHash => 3,
            ContractError::InvalidAddress => 4,
            ContractError::SwapNotFound => 10,
            ContractError::SwapAlreadyExists => 11,
            ContractError::SwapAlreadyCompleted => 12,
            ContractError::SwapAlreadyRefunded => 13,
            ContractError::SwapExpired => 14,
            ContractError::InvalidSwapState => 15,
            ContractError::InvalidSecret => 20,
            ContractError::SecretAlreadyUsed => 21,
            ContractError::InvalidMerkleProof => 22,
            ContractError::PartialFillsNotEnabled => 30,
            ContractError::InvalidFillAmount => 31,
            ContractError::ExceedsSwapAmount => 32,
            ContractError::Unauthorized => 40,
            ContractError::UnauthorizedRefund => 41,
            ContractError::NotActiveResolver => 42,
            ContractError::TimelockNotExpired => 50,
            ContractError::TimelockTooShort => 51,
            ContractError::TimelockTooLong => 52,
            ContractError::ResolverNotFound => 60,
            ContractError::ResolverAlreadyRegistered => 61,
            ContractError::InsufficientStake => 62,
            ContractError::ResolverNotActive => 63,
            ContractError::InsufficientBalance => 70,
            ContractError::TransferFailed => 71,
            ContractError::TokenNotSupported => 72,
            ContractError::ContractPaused => 80,
            ContractError::SystemError => 81,
            ContractError::StorageError => 82,
            ContractError::CalculationOverflow => 83,
        }
    }

    /// Whether this error is critical (a system fault, not a user mistake).
    pub fn is_critical(&self) -> (r: bool)
        ensures
            r == is_critical_spec(*self),
    {
        matches!(
            self,
            ContractError::SystemError
                | ContractError::StorageError
                | ContractError::CalculationOverflow
        )
    }

    /// Whether this error rejects malformed caller input.
    pub fn is_user_error(&self) -> (r: bool)
        ensures
            r == is_user_error_spec(*self),
    {
        matches!(
            self,
            ContractError::InvalidAmount
                | ContractError::InvalidTimelock
                | ContractError::InvalidSecretHash
                | ContractError::InvalidAddress
                | ContractError::InvalidSecret
                | ContractError::InvalidFillAmount
        )
    }

    /// A human-readable description of this error kind.
    pub fn error_message(&self) -> (r: &'static str)
        ensures
            r@ == error_message_spec(*self),
    {
        match self {
            ContractError::InvalidAmount => "Amount must be positive",
            ContractError::InvalidTimelock => "Timelock must be between min and max values",
            ContractError::InvalidSecretHash => "Secret hash cannot be empty",
            ContractError::InvalidAddress => "Invalid address provided",
            ContractError::SwapNotFound => "Swap does not exist",
            ContractError::SwapAlreadyExists => "Swap already exists",
            ContractError::SwapAlreadyCompleted => "Swap already completed",
            ContractError::SwapAlreadyRefunded => "Swap already refunded",
            ContractError::SwapExpired => "Swap has expired",
            ContractError::InvalidSwapState => "Invalid swap state for this operation",
            ContractError::InvalidSecret => "Invalid secret provided",
            ContractError::SecretAlreadyUsed => "Secret has already been used",
            ContractError::InvalidMerkleProof => "Invalid Merkle proof",
            ContractError::PartialFillsNotEnabled => "Partial fills not enabled for this swap",
            ContractError::InvalidFillAmount => "Fill amount must be positive",
            ContractError::ExceedsSwapAmount => "Fill amount exceeds remaining swap amount",
            ContractError::Unauthorized => "Unauthorized operation",
            ContractError::UnauthorizedRefund => "Only initiator can refund",
            ContractError::NotActiveResolver => "Not an active resolver",
            ContractError::TimelockNotExpired => "Timelock has not expired",
            ContractError::TimelockTooShort => "Timelock too short",
            ContractError::TimelockTooLong => "Timelock too long",
            ContractError::ResolverNotFound => "Resolver not found",
            ContractError::ResolverAlreadyRegistered => "Resolver already registered",
            ContractError::InsufficientStake => "Insufficient stake amount",
            ContractError::ResolverNotActive => "Resolver is not active",
            ContractError::InsufficientBalance => "Insufficient token balance",
            ContractError::TransferFailed => "Token transfer failed",
            ContractError::TokenNotSupported => "Token not supported",
            ContractError::ContractPaused => "Contract is paused",
            ContractError::SystemError => "System error occurred",
            ContractError::StorageError => "Storage error occurred",
            ContractError::CalculationOverflow => "Calculation overflow",
        }
    }
}

/// The description text of each error kind.
pub open spec fn error_message_spec(e: ContractError) -> Seq<char> {
    match e {
        ContractError::InvalidAmount => "Amount must be positive"@,
        ContractError::InvalidTimelock => "Timelock must be between min and max values"@,
        ContractError::InvalidSecretHash => "Secret hash cannot be empty"@,
        ContractError::InvalidAddress => "Invalid address provided"@,
        ContractError::SwapNotFound => "Swap does not exist"@,
        ContractError::SwapAlreadyExists => "Swap already exists"@,
        ContractError::SwapAlreadyCompleted => "Swap already completed"@,
        ContractError::SwapAlreadyRefunded => "Swap already refunded"@,
        ContractError::SwapExpired => "Swap has expired"@,
        ContractError::InvalidSwapState => "Invalid swap state for this operation"@,
        ContractError::InvalidSecret => "Invalid secret provided"@,
        ContractError::SecretAlreadyUsed => "Secret has already been used"@,
        ContractError::InvalidMerkleProof => "Invalid Merkle proof"@,
        ContractError::PartialFillsNotEnabled => "Partial fills not enabled for this swap"@,
        ContractError::InvalidFillAmount => "Fill amount must be positive"@,
        ContractError::ExceedsSwapAmount => "Fill amount exceeds remaining swap amount"@,
        ContractError::Unauthorized => "Unauthorized operation"@,
        ContractError::UnauthorizedRefund => "Only initiator can refund"@,
        ContractError::NotActiveResolver => "Not an active resolver"@,
        ContractError::TimelockNotExpired => "Timelock has not expired"@,
        ContractError::TimelockTooShort => "Timelock too short"@,
        ContractError::TimelockTooLong => "Timelock too long"@,
        ContractError::ResolverNotFound => "Resolver not found"@,
        ContractError::ResolverAlreadyRegistered => "Resolver already registered"@,
        ContractError::InsufficientStake => "Insufficient stake amount"@,
        ContractError::ResolverNotActive => "Resolver is not active"@,
        ContractError::InsufficientBalance => "Insufficient token balance"@,
        ContractError::TransferFailed => "Token transfer failed"@,
        ContractError::TokenNotSupported => "Token not supported"@,
        ContractError::ContractPaused => "Contract is paused"@,
        ContractError::SystemError => "System error occurred"@,
        ContractError::StorageError => "Storage error occurred"@,
        ContractError::CalculationOverflow => "Calculation overflow"@,
    }
}

} // verus!
