//! The records of the input stream.

use vstd::prelude::*;

verus! {

/// The metadata every record carries: the client whose account it concerns
/// and the stream-wide identifier of the transaction it refers to.
#[derive(Clone, Copy, Debug, PartialEq, Eq, Structural)]
pub struct TxRecordMetadata {
    client_id: u16,
    tx_id: u32,
}

impl TxRecordMetadata {
    /// The identifier of the account the record concerns.
    pub closed spec fn spec_client_id(&self) -> u16 {
        self.client_id
    }

    /// The identifier of the transaction the record refers to, unique across
    /// the whole engine rather than per client.
    pub closed spec fn spec_tx_id(&self) -> u32 {
        self.tx_id
    }

    pub fn new(client_id: u16, tx_id: u32) -> (metadata: TxRecordMetadata)
        ensures
            metadata.spec_client_id() == client_id,
            metadata.spec_tx_id() == tx_id,
    {
        TxRecordMetadata { client_id, tx_id }
    }

    #[verifier::when_used_as_spec(spec_client_id)]
    pub fn client_id(&self) -> (client_id: u16)
        ensures
            client_id == self.spec_client_id(),
    {
        self.client_id
    }

    #[verifier::when_used_as_spec(spec_tx_id)]
    pub fn tx_id(&self) -> (tx_id: u32)
        ensures
            tx_id == self.spec_tx_id(),
    {
        self.tx_id
    }
}

/// One record of the input stream.  Deposits and withdrawals carry an
/// amount: an integer count of the smallest unit of the fixed-precision
/// decimal currency.
#[derive(Clone, Copy, Debug, PartialEq, Eq, Structural)]
pub enum TxRecord {
    DEPOSIT(TxRecordMetadata, i64),
    WITHDRAWAL(TxRecordMetadata, i64),
    DISPUTE(TxRecordMetadata),
    RESOLVE(TxRecordMetadata),
    CHARGEBACK(TxRecordMetadata),
}

impl TxRecord {
    /// The metadata of the record, whichever kind it is.
    pub open spec fn spec_metadata(&self) -> TxRecordMetadata {
        match self {
            TxRecord::DEPOSIT(metadata, _) => *metadata,
            TxRecord::WITHDRAWAL(metadata, _) => *metadata,
            TxRecord::DISPUTE(metadata) => *metadata,
            TxRecord::RESOLVE(metadata) => *metadata,
            TxRecord::CHARGEBACK(metadata) => *metadata,
        }
    }

    pub fn record_metadata(&self) -> (metadata: &TxRecordMetadata)
        ensures
            *metadata == self.spec_metadata(),
    {
        match self {
            TxRecord::DEPOSIT(metadata, _) => metadata,
            TxRecord::WITHDRAWAL(metadata, _) => metadata,
            TxRecord::DISPUTE(metadata) => metadata,
            TxRecord::RESOLVE(metadata) => metadata,
            TxRecord::CHARGEBACK(metadata) => metadata,
        }
    }
}

} // verus!
