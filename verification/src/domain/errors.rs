use vstd::prelude::*;

verus! {

/// Why the aggregator could not make progress.
#[derive(Debug)]
pub enum AggregatorError {
    /// The block at this slot could not be processed. It is asked for again
    /// in the next round unless a higher slot of the same round was processed.
    FailedToProcessBlock(u64),
    /// The RPC client itself failed, with its message.
    FailedSolanaRpcClient(String),
    /// A notification could not be delivered.
    FailedToNotifyNotifier(NotifierError),
    /// The blockchain client could not answer.
    FailedBcClient(BcClientError),
}

/// Why the blockchain client could not answer, with the underlying message.
#[derive(Debug)]
pub enum BcClientError {
    FailedToGetCurrentSlot(String),
    FailedToGetBlocks(String),
    FailedToGetBlock(String),
}

/// Why the store could not do what was asked.
#[derive(Debug, PartialEq, Eq, Structural)]
pub enum DataStorageError {
    FailedToStoreTransaction,
    FailedToStoreAccount,
    /// No transaction with the requested id is stored.
    TransactionNotFound,
}

/// Why a notification could not be delivered.
#[derive(Debug, PartialEq, Eq, Structural)]
pub enum NotifierError {
    FailedToNotifyTransaction,
    FailedToNotifyAccount,
}

impl From<NotifierError> for AggregatorError {
    fn from(err: NotifierError) -> (wrapped: AggregatorError)
        ensures
            wrapped == AggregatorError::FailedToNotifyNotifier(err),
    {
        AggregatorError::FailedToNotifyNotifier(err)
    }
}

impl vstd::std_specs::convert::FromSpecImpl<NotifierError> for AggregatorError {
    open spec fn obeys_from_spec() -> bool {
        true
    }

    open spec fn from_spec(err: NotifierError) -> AggregatorError {
        AggregatorError::FailedToNotifyNotifier(err)
    }
}

impl From<BcClientError> for AggregatorError {
    fn from(err: BcClientError) -> (wrapped: AggregatorError)
        ensures
            wrapped == AggregatorError::FailedBcClient(err),
    {
        AggregatorError::FailedBcClient(err)
    }
}

impl vstd::std_specs::convert::FromSpecImpl<BcClientError> for AggregatorError {
    open spec fn obeys_from_spec() -> bool {
        true
    }

    open spec fn from_spec(err: BcClientError) -> AggregatorError {
        AggregatorError::FailedBcClient(err)
    }
}

} // verus!
