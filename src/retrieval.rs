//! Decisions of piece retrieval: which key a storage tier is asked under,
//! what a lookup does with each peer's answer, which tier's result wins an
//! attempt, and when retrying stops. The network calls, timeouts, sleeps and
//! the backoff between attempts are made by the caller.

use std::sync::atomic::{AtomicBool, Ordering};
use vstd::prelude::*;

verus! {

/// Initial delay between two attempts, in milliseconds.
pub const GET_PIECE_INITIAL_INTERVAL_MS: u64 = 1000;

/// Largest delay between two attempts, in milliseconds.
pub const GET_PIECE_MAX_INTERVAL_MS: u64 = 5000;

/// Delay before archival storage is asked, so that a fast cache wins, in
/// milliseconds.
pub const GET_PIECE_ARCHIVAL_STORAGE_DELAY_MS: u64 = 2000;

/// Time allowed to one lookup in one tier, in milliseconds.
pub const GET_PIECE_TIMEOUT_MS: u64 = 5000;

/// Storage tier that a lookup asks.
#[derive(Debug, Clone, Copy, PartialEq, Eq)]
pub enum StorageType {
    /// Piece cache: fast, asked first.
    Cache,
    /// Archival storage: slower, asked after a delay.
    ArchivalStorage,
}

/// Code of the multihash under which a tier's providers announce a piece.
#[derive(Debug, Clone, Copy, PartialEq, Eq)]
pub enum MultihashCode {
    /// Key of the piece cache.
    PieceIndex,
    /// Key of archival storage.
    Sector,
}

/// The multihash code of a tier.
pub open spec fn code_of(storage_type: StorageType) -> MultihashCode {
    match storage_type {
        StorageType::Cache => MultihashCode::PieceIndex,
        StorageType::ArchivalStorage => MultihashCode::Sector,
    }
}

impl From<StorageType> for MultihashCode {
    fn from(storage_type: StorageType) -> (r: MultihashCode)
        ensures
            r == code_of(storage_type),
    {
        match storage_type {
            StorageType::Cache => MultihashCode::PieceIndex,
            StorageType::ArchivalStorage => MultihashCode::Sector,
        }
    }
}

impl vstd::std_specs::convert::FromSpecImpl<StorageType> for MultihashCode {
    open spec fn obeys_from_spec() -> bool {
        true
    }

    open spec fn from_spec(v: StorageType) -> MultihashCode {
        code_of(v)
    }
}

/// Error of retrieving a piece.
#[derive(Debug, Clone, Copy, PartialEq, Eq)]
pub enum RetrievalError {
    /// Retrieval was cancelled: permanent, no further attempt is made.
    Cancelled,
    /// No tier produced the piece in this attempt: another attempt follows.
    NotFound,
}

impl RetrievalError {
    /// Whether the error ends retrying.
    pub fn is_permanent(&self) -> (r: bool)
        ensures
            r == (*self == RetrievalError::Cancelled),
    {
        match self {
            RetrievalError::Cancelled => true,
            RetrievalError::NotFound => false,
        }
    }
}

/// What one peer answered to a request for a piece.
#[derive(Debug, Clone, PartialEq, Eq)]
pub enum PeerResponse {
    /// The peer sent the piece.
    Piece(Vec<u8>),
    /// The peer has no such piece.
    Empty,
    /// The request failed.
    Failed,
}

/// What a lookup does next.
#[derive(Debug, Clone, PartialEq, Eq)]
pub enum LookupStep {
    /// Hand the piece to the validator, whose answer ends the lookup.
    Validate(Vec<u8>),
    /// The lookup ends with this piece.
    Accept(Vec<u8>),
    /// Ask the next provider; when none is left the lookup finds nothing.
    NextPeer,
}

/// What a lookup does with a peer's response, with or without a validator.
pub open spec fn lookup_step_spec(has_validator: bool, response: PeerResponse) -> LookupStep {
    match response {
        PeerResponse::Piece(p) => if has_validator {
            LookupStep::Validate(p)
        } else {
            LookupStep::Accept(p)
        },
        _ => LookupStep::NextPeer,
    }
}

/// The first found piece among the tiers' outcomes, in the order they came.
pub open spec fn first_found(outcomes: Seq<Option<Vec<u8>>>) -> Option<Vec<u8>>
    decreases outcomes.len(),
{
    if outcomes.len() == 0 {
        None
    } else {
        match outcomes[0] {
            Some(p) => Some(p),
            None => first_found(outcomes.drop_first()),
        }
    }
}

/// Piece provider with cancellation and an optional piece validator.
pub struct PieceProvider<'a, N, PV> {
    dsn_node: &'a N,
    piece_validator: Option<PV>,
    cancelled: &'a AtomicBool,
}

impl<'a, N, PV> PieceProvider<'a, N, PV> {
    /// The node through which pieces are asked for.
    pub closed spec fn node(&self) -> &'a N {
        self.dsn_node
    }

    /// The validator, if any.
    pub closed spec fn validator(&self) -> Option<PV> {
        self.piece_validator
    }

    /// The cancellation flag.
    pub closed spec fn flag(&self) -> &'a AtomicBool {
        self.cancelled
    }

    /// A provider asking through `dsn_node`, validating with `piece_validator`
    /// if given, and stopping once `cancelled` is set.
    pub fn new(dsn_node: &'a N, piece_validator: Option<PV>, cancelled: &'a AtomicBool) -> (r: Self)
        ensures
            r.node() == dsn_node,
            r.validator() == piece_validator,
            r.flag() == cancelled,
    {
        Self { dsn_node, piece_validator, cancelled }
    }

    /// The node through which pieces are asked for.
    pub fn dsn_node(&self) -> (r: &'a N)
        ensures
            r == self.node(),
    {
        self.dsn_node
    }

    /// The validator, if any.
    pub fn piece_validator(&self) -> (r: &Option<PV>)
        ensures
            *r == self.validator(),
    {
        &self.piece_validator
    }

    /// Whether pieces are validated before they are accepted.
    pub fn has_validator(&self) -> (r: bool)
        ensures
            r == self.validator().is_some(),
    {
        self.piece_validator.is_some()
    }

    /// The outcome of the cancellation check, given the flag's value.
    pub fn cancellation_result(cancelled: bool) -> (r: Result<(), RetrievalError>)
        ensures
            cancelled ==> r == Err::<(), RetrievalError>(RetrievalError::Cancelled),
            !cancelled ==> r == Ok::<(), RetrievalError>(()),
    {
        if cancelled {
            Err(RetrievalError::Cancelled)
        } else {
            Ok(())
        }
    }

    /// Reads the cancellation flag, with acquire ordering, and fails with the
    /// permanent `Cancelled` error if it is set. Made before every attempt.
    pub fn check_cancellation(&self) -> (r: Result<(), RetrievalError>)
        ensures
            r == Ok::<(), RetrievalError>(()) || r == Err::<(), RetrievalError>(
                RetrievalError::Cancelled,
            ),
    {
        let cancelled = self.cancelled.load(Ordering::Acquire);
        Self::cancellation_result(cancelled)
    }

    /// What a lookup does with one peer's response: a piece goes to the
    /// validator if there is one, and is accepted as it is otherwise; an empty
    /// response or a failed request moves on to the next peer.
    pub fn lookup_step(&self, response: PeerResponse) -> (r: LookupStep)
        ensures
            r == lookup_step_spec(self.validator().is_some(), response),
    {
        match response {
            PeerResponse::Piece(p) => if self.piece_validator.is_some() {
                LookupStep::Validate(p)
            } else {
                LookupStep::Accept(p)
            },
            PeerResponse::Empty => LookupStep::NextPeer,
            PeerResponse::Failed => LookupStep::NextPeer,
        }
    }
}

/// Delay in milliseconds before a tier is asked: archival storage waits so
/// that the cache is preferred when it answers fast.
pub fn start_delay_ms(storage_type: StorageType) -> (r: u64)
    ensures
        storage_type == StorageType::Cache ==> r == 0,
        storage_type == StorageType::ArchivalStorage ==> r == GET_PIECE_ARCHIVAL_STORAGE_DELAY_MS,
{
    match storage_type {
        StorageType::Cache => 0,
        StorageType::ArchivalStorage => GET_PIECE_ARCHIVAL_STORAGE_DELAY_MS,
    }
}

/// The result of one attempt from the tiers' outcomes, in the order they
/// finished (`None` for a lookup that found nothing or timed out): the first
/// piece found wins; with none, the attempt fails with `NotFound` and is
/// retried.
pub fn attempt_result(outcomes: Vec<Option<Vec<u8>>>) -> (r: Result<Vec<u8>, RetrievalError>)
    ensures
        first_found(outcomes@) matches Some(p) ==> r == Ok::<Vec<u8>, RetrievalError>(p),
        first_found(outcomes@) is None ==> r == Err::<Vec<u8>, RetrievalError>(
            RetrievalError::NotFound,
        ),
{
    let mut rest = outcomes;
    while rest.len() > 0
        invariant
            first_found(outcomes@) == first_found(rest@),
        decreases rest@.len(),
    {
        let ghost before = rest@;
        let head = rest.remove(0);
        assert(rest@ =~= before.drop_first());
        if let Some(p) = head {
            return Ok(p);
        }
    }
    Err(RetrievalError::NotFound)
}

} // verus!
