//! One command transaction, as the sequence of USB transfers that carries it.
//!
//! A [`Transaction`] performs no I/O itself. It names the next transfer to make, takes the
//! outcome of that transfer, and in the end gives the bytes received or the failure.

use crate::command::{Request, RequestView};
use crate::error::Error;
use crate::transport::control_request_type;
use vstd::prelude::*;

verus! {

/// The interface that is claimed around every transaction.
pub const INTERFACE: u8 = 0;

/// Address of the bulk endpoint that carries request payloads to the target.
pub const BULK_OUT_ENDPOINT: u8 = 0x02;

/// Address of the bulk endpoint that carries response payloads from the target.
pub const BULK_IN_ENDPOINT: u8 = 0x81;

/// The `bmRequestType` of a command's control transfer: host to device, vendor, device.
pub const CONTROL_REQUEST_TYPE: u8 = 0x40;

/// Timeout for every single USB transfer, in milliseconds.
pub const TIMEOUT_MILLIS: u64 = 500;

/// One USB transfer that the transport is asked to make.
#[derive(Debug, Clone, Copy, PartialEq, Eq, Structural)]
pub enum Transfer {
    /// Claim exclusive access to an interface.
    ClaimInterface { interface: u8 },
    /// A control transfer without payload.
    WriteControl { request_type: u8, request: u8, value: u16, index: u16 },
    /// Send the transaction's payload to a bulk endpoint.
    WriteBulk { endpoint: u8 },
    /// Receive up to `length` bytes from a bulk endpoint.
    ReadBulk { endpoint: u8, length: usize },
    /// Give the interface back.
    ReleaseInterface { interface: u8 },
}

/// How far a transaction has come.
#[derive(Debug, Clone, Copy, PartialEq, Eq)]
pub enum Stage {
    /// The interface is to be claimed.
    Claim,
    /// The command is to be sent.
    Control,
    /// The payload is to be sent.
    BulkOut,
    /// The response is to be received.
    BulkIn,
    /// The interface is to be released.
    Release,
    /// Every transfer succeeded.
    Complete,
    /// A transfer failed with the given error; nothing was attempted after it.
    Failed(rusb::Error),
}

/// A [`Transaction`] as a mathematical value.
pub struct TransactionState {
    pub request: RequestView,
    pub stage: Stage,
    pub received: Seq<u8>,
}

/// The stage that follows the control transfer of `request`.
pub open spec fn stage_after_control(request: RequestView) -> Stage {
    if request.payload.len() > 0 {
        Stage::BulkOut
    } else {
        stage_after_payload(request)
    }
}

/// The stage that follows the outbound payload of `request`.
pub open spec fn stage_after_payload(request: RequestView) -> Stage {
    if request.response_length > 0 {
        Stage::BulkIn
    } else {
        Stage::Release
    }
}

/// The transfers of a transaction for `request` in which nothing fails, in order.
pub open spec fn plan(request: RequestView) -> Seq<Transfer> {
    let claim = seq![
        Transfer::ClaimInterface { interface: INTERFACE },
        Transfer::WriteControl {
            request_type: CONTROL_REQUEST_TYPE,
            request: request.command.spec_opcode(),
            value: 0,
            index: 0,
        },
    ];
    let write = if request.payload.len() > 0 {
        seq![Transfer::WriteBulk { endpoint: BULK_OUT_ENDPOINT }]
    } else {
        seq![]
    };
    let read = if request.response_length > 0 {
        seq![Transfer::ReadBulk { endpoint: BULK_IN_ENDPOINT, length: request.response_length }]
    } else {
        seq![]
    };
    claim + write + read + seq![Transfer::ReleaseInterface { interface: INTERFACE }]
}

impl TransactionState {
    /// The state in which nothing has been transferred yet.
    pub open spec fn start(request: RequestView) -> TransactionState {
        TransactionState { request, stage: Stage::Claim, received: Seq::empty() }
    }

    /// The transfer to make in this state; `None` once the transaction has ended.
    pub open spec fn next_transfer(self) -> Option<Transfer> {
        match self.stage {
            Stage::Claim => Some(Transfer::ClaimInterface { interface: INTERFACE }),
            Stage::Control => Some(
                Transfer::WriteControl {
                    request_type: CONTROL_REQUEST_TYPE,
                    request: self.request.command.spec_opcode(),
                    value: 0,
                    index: 0,
                },
            ),
            Stage::BulkOut => Some(Transfer::WriteBulk { endpoint: BULK_OUT_ENDPOINT }),
            Stage::BulkIn => Some(
                Transfer::ReadBulk {
                    endpoint: BULK_IN_ENDPOINT,
                    length: self.request.response_length,
                },
            ),
            Stage::Release => Some(Transfer::ReleaseInterface { interface: INTERFACE }),
            Stage::Complete => None,
            Stage::Failed(_) => None,
        }
    }

    /// Whether the transaction has ended, in success or in failure.
    pub open spec fn finished(self) -> bool {
        self.stage is Complete || self.stage is Failed
    }

    /// The state after the pending transfer ended with `outcome`. The bytes of a successful
    /// outcome count only for the inbound bulk transfer, and only as far as they were asked
    /// for. A state that has ended stays as it is.
    pub open spec fn record(self, outcome: Result<Seq<u8>, rusb::Error>) -> TransactionState {
        if self.finished() {
            self
        } else {
            match outcome {
                Err(error) => TransactionState { stage: Stage::Failed(error), ..self },
                Ok(data) => match self.stage {
                    Stage::Claim => TransactionState { stage: Stage::Control, ..self },
                    Stage::Control => TransactionState {
                        stage: stage_after_control(self.request),
                        ..self
                    },
                    Stage::BulkOut => TransactionState {
                        stage: stage_after_payload(self.request),
                        ..self
                    },
                    Stage::BulkIn => TransactionState {
                        stage: Stage::Release,
                        received: if data.len() <= self.request.response_length {
                            data
                        } else {
                            data.take(self.request.response_length as int)
                        },
                        ..self
                    },
                    _ => TransactionState { stage: Stage::Complete, ..self },
                },
            }
        }
    }

    /// What the transaction has come to: nothing while transfers are pending, the bytes
    /// received once all succeeded, the transport's error once one failed.
    pub open spec fn result(self) -> Option<Result<Seq<u8>, Error>> {
        match self.stage {
            Stage::Complete => Some(Ok(self.received)),
            Stage::Failed(error) => Some(Err(Error::IoError(error))),
            _ => None,
        }
    }

    /// The transfers that remain if every one of them succeeds.
    pub open spec fn remaining(self) -> Seq<Transfer> {
        match self.stage {
            Stage::Claim => plan(self.request),
            Stage::Control => plan(self.request).skip(1),
            Stage::BulkOut => plan(self.request).skip(2),
            Stage::BulkIn => if self.request.payload.len() > 0 {
                plan(self.request).skip(3)
            } else {
                plan(self.request).skip(2)
            },
            Stage::Release => seq![Transfer::ReleaseInterface { interface: INTERFACE }],
            _ => seq![],
        }
    }

    /// Whether the stage is one that a transaction for its request can be in.
    pub open spec fn reachable(self) -> bool {
        &&& self.stage is BulkOut ==> self.request.payload.len() > 0
        &&& self.stage is BulkIn ==> self.request.response_length > 0
    }
}

/// The outcome of a transfer with the received bytes as a sequence.
pub open spec fn outcome_view(outcome: Result<Vec<u8>, rusb::Error>) -> Result<
    Seq<u8>,
    rusb::Error,
> {
    match outcome {
        Ok(data) => Ok(data@),
        Err(error) => Err(error),
    }
}

/// The result of a transaction with the received bytes as a sequence.
pub open spec fn result_view(result: Option<Result<Vec<u8>, Error>>) -> Option<
    Result<Seq<u8>, Error>,
> {
    match result {
        Some(Ok(data)) => Some(Ok(data@)),
        Some(Err(error)) => Some(Err(error)),
        None => None,
    }
}

/// One command transaction in progress.
#[derive(Debug)]
pub struct Transaction {
    request: Request,
    stage: Stage,
    received: Vec<u8>,
}

impl View for Transaction {
    type V = TransactionState;

    closed spec fn view(&self) -> TransactionState {
        TransactionState {
            request: self.request@,
            stage: self.stage,
            received: self.received@,
        }
    }
}

impl Transaction {
    /// Starts a transaction for `request`. Nothing is transferred yet.
    pub fn new(request: Request) -> (transaction: Transaction)
        ensures
            transaction@ == TransactionState::start(request@),
    {
        Transaction { request, stage: Stage::Claim, received: Vec::new() }
    }

    /// The transfer that the transport has to make next; `None` once the transaction has
    /// ended.
    pub fn next_transfer(&self) -> (transfer: Option<Transfer>)
        ensures
            transfer == self@.next_transfer(),
    {
        match self.stage {
            Stage::Claim => Some(Transfer::ClaimInterface { interface: INTERFACE }),
            Stage::Control => Some(
                Transfer::WriteControl {
                    request_type: control_request_type(),
                    request: self.request.command.opcode(),
                    value: 0,
                    index: 0,
                },
            ),
            Stage::BulkOut => Some(Transfer::WriteBulk { endpoint: BULK_OUT_ENDPOINT }),
            Stage::BulkIn => Some(
                Transfer::ReadBulk {
                    endpoint: BULK_IN_ENDPOINT,
                    length: self.request.response_length,
                },
            ),
            Stage::Release => Some(Transfer::ReleaseInterface { interface: INTERFACE }),
            Stage::Complete => None,
            Stage::Failed(_) => None,
        }
    }

    /// The bytes that a [`Transfer::WriteBulk`] of this transaction sends.
    pub fn payload(&self) -> (payload: &[u8])
        ensures
            payload@ == self@.request.payload,
    {
        self.request.payload.as_slice()
    }

    /// Takes the outcome of the transfer that [`Transaction::next_transfer`] named: the bytes
    /// received (none but for an inbound bulk transfer), or the transport's error.
    pub fn record(&mut self, outcome: Result<Vec<u8>, rusb::Error>)
        ensures
            final(self)@ == old(self)@.record(outcome_view(outcome)),
    {
        match self.stage {
            Stage::Complete => {},
            Stage::Failed(_) => {},
            stage => match outcome {
                Err(error) => {
                    self.stage = Stage::Failed(error);
                },
                Ok(data) => match stage {
                    Stage::Claim => {
                        self.stage = Stage::Control;
                    },
                    Stage::Control => {
                        if self.request.payload.len() > 0 {
                            self.stage = Stage::BulkOut;
                        } else if self.request.response_length > 0 {
                            self.stage = Stage::BulkIn;
                        } else {
                            self.stage = Stage::Release;
                        }
                    },
                    Stage::BulkOut => {
                        if self.request.response_length > 0 {
                            self.stage = Stage::BulkIn;
                        } else {
                            self.stage = Stage::Release;
                        }
                    },
                    Stage::BulkIn => {
                        let ghost sent = data@;
                        let mut data = data;
                        data.truncate(self.request.response_length);
                        assert(data@ =~= old(self)@.record(Ok(sent)).received);
                        self.received = data;
                        self.stage = Stage::Release;
                    },
                    _ => {
                        self.stage = Stage::Complete;
                    },
                },
            },
        }
    }

    /// Ends the transaction: `None` while transfers are pending, the bytes received once all
    /// of them succeeded, [`Error::IoError`] with the transport's error once one failed.
    pub fn finish(self) -> (result: Option<Result<Vec<u8>, Error>>)
        ensures
            result_view(result) == self@.result(),
    {
        match self.stage {
            Stage::Complete => Some(Ok(self.received)),
            Stage::Failed(error) => Some(Err(Error::IoError(error))),
            _ => None,
        }
    }
}

/// A transaction in which no transfer fails makes exactly the transfers of its plan, in
/// order: claim, command, payload if there is one, response if one is expected, release.
pub proof fn lemma_transfers_follow_plan(state: TransactionState, data: Seq<u8>)
    requires
        state.reachable(),
        !state.finished(),
    ensures
        state.next_transfer() == Some(state.remaining()[0]),
        state.record(Ok(data)).reachable(),
        state.record(Ok(data)).remaining() == state.remaining().skip(1),
        state.record(Ok(data)).finished() <==> state.remaining().len() == 1,
        TransactionState::start(state.request).remaining() == plan(state.request),
{
    let next = state.record(Ok(data));
    assert(next.remaining() =~= state.remaining().skip(1));
}

/// A failed transfer ends the transaction at once: no transfer follows it, not even the
/// release of the interface, and the result is the transport's error.
pub proof fn lemma_failure_ends_transaction(
    state: TransactionState,
    error: rusb::Error,
    later: Result<Seq<u8>, rusb::Error>,
)
    requires
        !state.finished(),
    ensures
        state.record(Err(error)).next_transfer() is None,
        state.record(Err(error)).result() == Some(Err::<Seq<u8>, Error>(Error::IoError(error))),
        state.record(Err(error)).record(later) == state.record(Err(error)),
{
}

/// A transaction yields a result exactly when no transfer is pending, and then stays as it
/// is whatever is recorded.
pub proof fn lemma_finished_is_final(state: TransactionState, later: Result<Seq<u8>, rusb::Error>)
    ensures
        state.finished() <==> state.next_transfer() is None,
        state.finished() <==> state.result() is Some,
        state.finished() ==> state.record(later) == state,
{
}

} // verus!
