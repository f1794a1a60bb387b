use vstd::prelude::*;

verus! {

/// What can go wrong in the ledger's operations.
#[derive(Debug, Clone, Copy, PartialEq, Eq, Structural)]
pub enum ChainError {
    /// The sender's spendable outputs add up to less than the amount asked.
    InsufficientFunds,
    /// A transaction that an input refers to is absent or has an empty id.
    MissingPrevTransaction,
    /// An input refers to an output that its source transaction does not have.
    MissingPrevOutput,
    /// No ledger exists yet.
    NoLedgerFound,
    /// A ledger exists already.
    LedgerAlreadyExists,
    /// An address does not decode: bad character, length, version or checksum.
    CorruptAddress,
    /// The canonical encoding of a value could not be produced.
    Serialization,
    /// The system clock reads earlier than the epoch.
    Clock,
    /// No nonce in the whole range gave a hash that meets the target.
    NonceExhausted,
    /// The operating system supplied no random bytes.
    NoEntropy,
    /// The blocks read from the store do not form a ledger.
    CorruptStore,
    /// The head stands at the greatest height there is.
    HeightExhausted,
    /// A signature is to be made with a secret key of fewer than 64 bytes.
    InvalidKey,
}

impl ChainError {
    /// A short description of the error.
    pub fn message(&self) -> (r: &'static str)
        ensures
            r@ == self.message_spec(),
    {
        match self {
            ChainError::InsufficientFunds => "not enough balance",
            ChainError::MissingPrevTransaction => "previous transaction is not correct",
            ChainError::MissingPrevOutput => "previous output does not exist",
            ChainError::NoLedgerFound => "no existing blockchain found",
            ChainError::LedgerAlreadyExists => "blockchain already exists",
            ChainError::CorruptAddress => "address is corrupt",
            ChainError::Serialization => "value could not be encoded",
            ChainError::Clock => "system clock is before the epoch",
            ChainError::NonceExhausted => "no nonce meets the target",
            ChainError::NoEntropy => "no random bytes available",
            ChainError::CorruptStore => "stored blocks do not form a ledger",
            ChainError::HeightExhausted => "the ledger cannot grow higher",
            ChainError::InvalidKey => "the secret key is too short",
        }
    }

    pub open spec fn message_spec(&self) -> Seq<char> {
        match self {
            ChainError::InsufficientFunds => "not enough balance"@,
            ChainError::MissingPrevTransaction => "previous transaction is not correct"@,
            ChainError::MissingPrevOutput => "previous output does not exist"@,
            ChainError::NoLedgerFound => "no existing blockchain found"@,
            ChainError::LedgerAlreadyExists => "blockchain already exists"@,
            ChainError::CorruptAddress => "address is corrupt"@,
            ChainError::Serialization => "value could not be encoded"@,
            ChainError::Clock => "system clock is before the epoch"@,
            ChainError::NonceExhausted => "no nonce meets the target"@,
            ChainError::NoEntropy => "no random bytes available"@,
            ChainError::CorruptStore => "stored blocks do not form a ledger"@,
            ChainError::HeightExhausted => "the ledger cannot grow higher"@,
            ChainError::InvalidKey => "the secret key is too short"@,
        }
    }
}

} // verus!
