//! Plotting of one sector: each slot's piece is fetched, its record is
//! encoded with one-time pads, and the encoded pieces are appended in slot
//! order; the sector's metadata record follows once every slot is done.

use crate::encoding::{encode_record, encoded, lemma_encoding_is_involution, pads_view};
use parity_scale_codec::Encode;
use vstd::prelude::*;

verus! {

/// Factor by which pieces are replicated when a piece count is turned into
/// segment indices.
pub const REPLICATION_FACTOR: u64 = 2;

/// Protocol parameters that plotting reads.
#[derive(Debug, Clone, Copy, PartialEq, Eq)]
pub struct FarmerProtocolInfo {
    /// Size of a record in bytes; never zero.
    pub record_size: u32,
    /// Size of a recorded history segment; never zero.
    pub recorded_history_segment_size: u32,
    /// Width in bits of an encoding chunk.
    pub space_l: u32,
    /// Number of pieces in the history so far; never zero.
    pub total_pieces: u64,
    /// Segments after which a sector expires.
    pub sector_expiration: u64,
}

/// Outcome of plotting that is not an error.
#[derive(Debug, Clone, Copy, PartialEq, Eq)]
pub enum PlottingStatus {
    /// Sector was plotted successfully.
    PlottedSuccessfully,
    /// Plotting was interrupted by shutdown.
    Interrupted,
}

/// Error of plotting.
#[derive(Debug, Clone, PartialEq, Eq)]
pub enum PlottingError {
    /// The piece could not be retrieved.
    FailedToRetrievePiece {
        /// Index of the piece.
        piece_index: u64,
        /// What the getter reported.
        error: String,
    },
    /// No piece with this index was found.
    PieceNotFound {
        /// Index of the piece.
        piece_index: u64,
    },
    /// The piece has the wrong size or its witness does not decode: the
    /// source of pieces is broken and plotting must not go on.
    InvalidPiece {
        /// Index of the piece.
        piece_index: u64,
    },
}

/// Metadata record written after a sector's pieces.
#[derive(Debug, Clone, Copy, PartialEq, Eq)]
pub struct SectorMetadata {
    /// Number of pieces in the history when the sector was plotted.
    pub total_pieces: u64,
    /// Segment index at which the sector expires.
    pub expires_at: u64,
}

/// The eight bytes of `v`, least significant first.
pub open spec fn le_bytes(v: u64) -> Seq<u8> {
    Seq::new(8, |i: int| ((v >> ((8 * i) as u64)) & 0xffu64) as u8)
}

/// Relies on `parity_scale_codec::Encode` for `u64`, which writes
/// `to_le_bytes`.
#[verifier::external_body]
fn scale_encode_u64(v: u64) -> (r: Vec<u8>)
    ensures
        r@ == le_bytes(v),
{
    v.encode()
}

/// The bytes of a metadata record: both fields in order, each as eight
/// little-endian bytes.
pub open spec fn metadata_bytes(m: SectorMetadata) -> Seq<u8> {
    le_bytes(m.total_pieces) + le_bytes(m.expires_at)
}

impl SectorMetadata {
    /// The record's fixed binary encoding.
    pub fn encode(&self) -> (r: Vec<u8>)
        ensures
            r@ == metadata_bytes(*self),
    {
        let mut out = scale_encode_u64(self.total_pieces);
        let mut tail = scale_encode_u64(self.expires_at);
        out.append(&mut tail);
        out
    }
}

/// The segment index at which a sector plotted now expires.
pub open spec fn expires_at_spec(info: FarmerProtocolInfo) -> int {
    info.total_pieces as int / info.recorded_history_segment_size as int / info.record_size as int
        * REPLICATION_FACTOR + info.sector_expiration
}

/// The segment index at which a sector plotted now expires.
pub fn sector_expires_at(info: &FarmerProtocolInfo) -> (r: u64)
    requires
        info.record_size > 0,
        info.recorded_history_segment_size > 0,
        expires_at_spec(*info) <= u64::MAX,
    ensures
        r == expires_at_spec(*info),
{
    let segments = info.total_pieces / (info.recorded_history_segment_size as u64)
        / (info.record_size as u64);
    assert(segments <= info.total_pieces) by (nonlinear_arith)
        requires
            segments == info.total_pieces as int / info.recorded_history_segment_size as int
                / info.record_size as int,
            info.record_size > 0,
            info.recorded_history_segment_size > 0,
    ;
    segments * REPLICATION_FACTOR + info.sector_expiration
}

/// Whether `block` is what plotting writes for `slot`: the slot's piece index
/// from `di`, the piece that `gp` returned for it, of `piece_size` bytes, and
/// its record encoded with the pads that `dp` derived from its witness.
pub open spec fn slot_block<DI, GP, DP>(
    di: DI,
    gp: GP,
    dp: DP,
    info: FarmerProtocolInfo,
    piece_size: nat,
    slot: u64,
    block: Seq<u8>,
) -> bool where
    DI: Fn(u64) -> u64,
    GP: Fn(u64) -> Result<Option<Vec<u8>>, String>,
    DP: Fn(u64, Vec<u8>) -> Option<Vec<Vec<u8>>>,
 {
    exists|idx: u64, p: Vec<u8>, w: Vec<u8>, pads: Vec<Vec<u8>>|
        #[trigger] di.ensures((slot,), idx) && #[trigger] gp.ensures(
            (idx,),
            Ok::<Option<Vec<u8>>, String>(Some(p)),
        ) && p@.len() == piece_size && w@ == p@.subrange(info.record_size as int, p@.len() as int)
            && #[trigger] dp.ensures((idx, w), Some(pads)) && block == encoded(
            p@,
            info.record_size as nat,
            info.space_l as nat,
            pads_view(pads@),
        )
}

/// Whether `sector` holds, after `start` bytes, exactly `k` blocks of
/// `piece_size` bytes, block `s` being what plotting writes for slot `s`.
pub open spec fn sector_filled<DI, GP, DP>(
    di: DI,
    gp: GP,
    dp: DP,
    info: FarmerProtocolInfo,
    piece_size: nat,
    sector: Seq<u8>,
    start: nat,
    k: nat,
) -> bool where
    DI: Fn(u64) -> u64,
    GP: Fn(u64) -> Result<Option<Vec<u8>>, String>,
    DP: Fn(u64, Vec<u8>) -> Option<Vec<Vec<u8>>>,
 {
    &&& sector.len() == start + k * piece_size
    &&& forall|s: int|
        0 <= s < k ==> slot_block(
            di,
            gp,
            dp,
            info,
            piece_size,
            s as u64,
            #[trigger] sector.subrange(start + s * piece_size, start + s * piece_size + piece_size),
        )
}

/// Whether `e` is the error that plotting reports for `slot`, and was caused
/// there: the getter failed or found nothing for the slot's piece index, or
/// returned a piece whose size is not `piece_size` or whose witness (the bytes
/// after the record) `dp` could not turn into pads.
pub open spec fn slot_error<DI, GP, DP>(
    di: DI,
    gp: GP,
    dp: DP,
    info: FarmerProtocolInfo,
    piece_size: nat,
    slot: u64,
    e: PlottingError,
) -> bool where
    DI: Fn(u64) -> u64,
    GP: Fn(u64) -> Result<Option<Vec<u8>>, String>,
    DP: Fn(u64, Vec<u8>) -> Option<Vec<Vec<u8>>>,
 {
    exists|idx: u64|
        #[trigger] di.ensures((slot,), idx) && match e {
            PlottingError::FailedToRetrievePiece { piece_index, error } => piece_index == idx
                && gp.ensures((idx,), Err::<Option<Vec<u8>>, String>(error)),
            PlottingError::PieceNotFound { piece_index } => piece_index == idx && gp.ensures(
                (idx,),
                Ok::<Option<Vec<u8>>, String>(None),
            ),
            PlottingError::InvalidPiece { piece_index } => piece_index == idx && exists|p: Vec<u8>|
                #[trigger] gp.ensures((idx,), Ok::<Option<Vec<u8>>, String>(Some(p))) && (p@.len()
                    != piece_size || exists|w: Vec<u8>|
                    w@ == p@.subrange(info.record_size as int, p@.len() as int) && #[trigger] dp.ensures(
                        (idx, w),
                        None::<Vec<Vec<u8>>>,
                    )),
        }
}

/// A block that plotting wrote for a slot keeps the fetched piece's witness
/// bytes, and encoding it again with the same pads gives back the fetched
/// piece.
pub proof fn lemma_plotted_block_restores_piece<DI, GP, DP>(
    di: DI,
    gp: GP,
    dp: DP,
    info: FarmerProtocolInfo,
    piece_size: nat,
    slot: u64,
    block: Seq<u8>,
) where
    DI: Fn(u64) -> u64,
    GP: Fn(u64) -> Result<Option<Vec<u8>>, String>,
    DP: Fn(u64, Vec<u8>) -> Option<Vec<Vec<u8>>>,

    requires
        info.record_size <= piece_size,
        slot_block(di, gp, dp, info, piece_size, slot, block),
    ensures
        exists|idx: u64, p: Vec<u8>, pads: Vec<Vec<u8>>|
            #[trigger] di.ensures((slot,), idx) && #[trigger] gp.ensures(
                (idx,),
                Ok::<Option<Vec<u8>>, String>(Some(p)),
            ) && block.subrange(info.record_size as int, block.len() as int) == p@.subrange(
                info.record_size as int,
                p@.len() as int,
            ) && #[trigger] encoded(
                block,
                info.record_size as nat,
                info.space_l as nat,
                pads_view(pads@),
            ) == p@,
{
    let (idx, p, w, pads) = choose|idx: u64, p: Vec<u8>, w: Vec<u8>, pads: Vec<Vec<u8>>|
        #[trigger] di.ensures((slot,), idx) && #[trigger] gp.ensures(
            (idx,),
            Ok::<Option<Vec<u8>>, String>(Some(p)),
        ) && p@.len() == piece_size && w@ == p@.subrange(info.record_size as int, p@.len() as int)
            && #[trigger] dp.ensures((idx, w), Some(pads)) && block == encoded(
            p@,
            info.record_size as nat,
            info.space_l as nat,
            pads_view(pads@),
        );
    lemma_encoding_is_involution(
        p@,
        info.record_size as nat,
        info.space_l as nat,
        pads_view(pads@),
    );
    assert(block.subrange(info.record_size as int, block.len() as int) =~= p@.subrange(
        info.record_size as int,
        p@.len() as int,
    ));
}

/// Copies `bytes[from..]` into a new vector.
fn tail_of(bytes: &Vec<u8>, from: usize) -> (r: Vec<u8>)
    requires
        from <= bytes@.len(),
    ensures
        r@ == bytes@.subrange(from as int, bytes@.len() as int),
{
    let mut out: Vec<u8> = Vec::new();
    let mut i: usize = from;
    while i < bytes.len()
        invariant
            from <= i <= bytes@.len(),
            out@ == bytes@.subrange(from as int, i as int),
        decreases bytes@.len() - i,
    {
        out.push(bytes[i]);
        i = i + 1;
        assert(out@ =~= bytes@.subrange(from as int, i as int));
    }
    out
}

proof fn lemma_block_bounds(s: int, k: int, ps: int)
    requires
        0 <= s < k,
        ps >= 0,
    ensures
        s * ps + ps <= k * ps,
        0 <= s * ps,
{
    assert(s * ps + ps <= k * ps) by (nonlinear_arith)
        requires
            0 <= s < k,
            ps >= 0,
    ;
    assert(0 <= s * ps) by (nonlinear_arith)
        requires
            0 <= s,
            ps >= 0,
    ;
}

/// Plots one sector of `plot_sector_size / piece_size` slots into `sector`,
/// then its metadata record into `sector_metadata`.
///
/// Slot by slot, in order: if `shutting_down` answers `true`, stops with
/// `Interrupted`; else takes the slot's piece index from
/// `derive_piece_index`, fetches the piece with `get_piece`, derives the
/// chunk pads from the witness that follows the record with `derive_pads`,
/// encodes the record and appends the piece to `sector`. A failed fetch,
/// a missing piece, and a piece of the wrong size or with a witness that
/// does not decode each stop plotting with an error. The metadata record is
/// written only when every slot is done.
pub fn plot_sector<SD, DI, GP, DP>(
    derive_piece_index: &DI,
    get_piece: &GP,
    derive_pads: &DP,
    shutting_down: &SD,
    farmer_protocol_info: &FarmerProtocolInfo,
    plot_sector_size: u64,
    piece_size: usize,
    sector: &mut Vec<u8>,
    sector_metadata: &mut Vec<u8>,
) -> (r: Result<PlottingStatus, PlottingError>) where
    SD: Fn() -> bool,
    DI: Fn(u64) -> u64,
    GP: Fn(u64) -> Result<Option<Vec<u8>>, String>,
    DP: Fn(u64, Vec<u8>) -> Option<Vec<Vec<u8>>>,

    requires
        shutting_down.requires(()),
        forall|s: u64| derive_piece_index.requires((s,)),
        forall|i: u64| get_piece.requires((i,)),
        forall|i: u64, w: Vec<u8>| derive_pads.requires((i, w)),
        farmer_protocol_info.record_size > 0,
        farmer_protocol_info.recorded_history_segment_size > 0,
        expires_at_spec(*farmer_protocol_info) <= u64::MAX,
        0 < piece_size,
        farmer_protocol_info.record_size <= piece_size,
        piece_size * 8 + 8 <= usize::MAX,
        old(sector)@.len() + plot_sector_size <= usize::MAX,
    ensures
        final(sector)@.subrange(0, old(sector)@.len() as int) == old(sector)@,
        plot_sector_size as usize / piece_size == 0 ==> r == Ok::<PlottingStatus, PlottingError>(
            PlottingStatus::PlottedSuccessfully,
        ),
        ({
            let info = *farmer_protocol_info;
            let cap = (plot_sector_size as usize / piece_size) as nat;
            let start = old(sector)@.len();
            let bytes = final(sector)@;
            match r {
                Ok(PlottingStatus::PlottedSuccessfully) => sector_filled(
                    *derive_piece_index,
                    *get_piece,
                    *derive_pads,
                    info,
                    piece_size as nat,
                    bytes,
                    start,
                    cap,
                ) && final(sector_metadata)@ == old(sector_metadata)@ + metadata_bytes(
                    SectorMetadata {
                        total_pieces: info.total_pieces,
                        expires_at: expires_at_spec(info) as u64,
                    },
                ),
                Ok(PlottingStatus::Interrupted) => final(sector_metadata)@ == old(
                    sector_metadata,
                )@ && shutting_down.ensures((), true) && exists|k: nat|
                    k < cap && #[trigger] sector_filled(
                        *derive_piece_index,
                        *get_piece,
                        *derive_pads,
                        info,
                        piece_size as nat,
                        bytes,
                        start,
                        k,
                    ),
                Err(e) => final(sector_metadata)@ == old(sector_metadata)@ && exists|k: nat|
                    k < cap && #[trigger] sector_filled(
                        *derive_piece_index,
                        *get_piece,
                        *derive_pads,
                        info,
                        piece_size as nat,
                        bytes,
                        start,
                        k,
                    ) && slot_error(
                        *derive_piece_index,
                        *get_piece,
                        *derive_pads,
                        info,
                        piece_size as nat,
                        k as u64,
                        e,
                    ),
            }
        }),
{
    let info = *farmer_protocol_info;
    let expires_at = sector_expires_at(&info);
    let capacity = plot_sector_size as usize / piece_size;
    let record_size = info.record_size as usize;
    let ghost start = sector@.len();
    let ghost ps = piece_size as nat;
    assert(capacity * piece_size <= plot_sector_size) by (nonlinear_arith)
        requires
            capacity == plot_sector_size as usize / piece_size,
            piece_size > 0,
    ;
    let mut slot: usize = 0;
    while slot < capacity
        invariant
            shutting_down.requires(()),
            forall|s: u64| derive_piece_index.requires((s,)),
            forall|i: u64| get_piece.requires((i,)),
            forall|i: u64, w: Vec<u8>| derive_pads.requires((i, w)),
            info == *farmer_protocol_info,
            record_size == info.record_size,
            0 < piece_size,
            record_size <= piece_size,
            piece_size * 8 + 8 <= usize::MAX,
            capacity == plot_sector_size as usize / piece_size,
            capacity * piece_size <= plot_sector_size,
            start + plot_sector_size <= usize::MAX,
            0 <= slot <= capacity,
            start == old(sector)@.len(),
            ps == piece_size as nat,
            sector@.subrange(0, start as int) == old(sector)@,
            sector_metadata@ == old(sector_metadata)@,
            sector_filled(
                *derive_piece_index,
                *get_piece,
                *derive_pads,
                info,
                ps,
                sector@,
                start,
                slot as nat,
            ),
        decreases capacity - slot,
    {
        if shutting_down() {
            return Ok(PlottingStatus::Interrupted);
        }
        let piece_index = derive_piece_index(slot as u64);
        let fetched = get_piece(piece_index);
        let mut piece = match fetched {
            Err(error) => {
                return Err(PlottingError::FailedToRetrievePiece { piece_index, error });
            },
            Ok(None) => {
                return Err(PlottingError::PieceNotFound { piece_index });
            },
            Ok(Some(piece)) => piece,
        };
        if piece.len() != piece_size {
            return Err(PlottingError::InvalidPiece { piece_index });
        }
        let witness = tail_of(&piece, record_size);
        let ghost w = witness;
        let pads = match derive_pads(piece_index, witness) {
            None => {
                return Err(PlottingError::InvalidPiece { piece_index });
            },
            Some(pads) => pads,
        };
        let ghost p = piece;
        encode_record(&mut piece, record_size, info.space_l as usize, &pads);
        let ghost block = piece@;
        let ghost before = sector@;
        assert(slot_block(
            *derive_piece_index,
            *get_piece,
            *derive_pads,
            info,
            ps,
            slot as u64,
            block,
        ));
        proof {
            lemma_block_bounds(slot as int, capacity as int, piece_size as int);
        }
        sector.append(&mut piece);
        proof {
            let bytes = sector@;
            assert(bytes.len() == start + (slot + 1) * ps) by (nonlinear_arith)
                requires
                    bytes.len() == before.len() + ps,
                    before.len() == start + slot * ps,
            ;
            assert forall|s: int| 0 <= s < slot + 1 implies slot_block(
                *derive_piece_index,
                *get_piece,
                *derive_pads,
                info,
                ps,
                s as u64,
                #[trigger] bytes.subrange(start + s * ps, start + s * ps + ps),
            ) by {
                lemma_block_bounds(s, slot as int + 1, ps as int);
                if s < slot {
                    lemma_block_bounds(s, slot as int, ps as int);
                    assert(bytes.subrange(start + s * ps, start + s * ps + ps) =~= before.subrange(
                        start + s * ps,
                        start + s * ps + ps,
                    ));
                } else {
                    assert(bytes.subrange(start + s * ps, start + s * ps + ps) =~= block);
                }
            }
            assert(bytes.subrange(0, start as int) =~= before.subrange(0, start as int));
        }
        slot = slot + 1;
    }
    let metadata = SectorMetadata { total_pieces: info.total_pieces, expires_at };
    let mut encoded_metadata = metadata.encode();
    sector_metadata.append(&mut encoded_metadata);
    Ok(PlottingStatus::PlottedSuccessfully)
}

} // verus!
