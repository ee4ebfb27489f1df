use farmer_core::plotting::{
    plot_sector, sector_expires_at, FarmerProtocolInfo, PlottingError, PlottingStatus,
    SectorMetadata,
};
use std::cell::RefCell;
use std::sync::atomic::{AtomicBool, Ordering};

const PIECE_SIZE: usize = 8;

fn info() -> FarmerProtocolInfo {
    FarmerProtocolInfo {
        record_size: 4,
        recorded_history_segment_size: 10,
        space_l: 8,
        total_pieces: 1000,
        sector_expiration: 100,
    }
}

fn piece_for(index: u64) -> Vec<u8> {
    vec![index as u8; PIECE_SIZE]
}

fn encoded_piece_for(index: u64) -> Vec<u8> {
    let b = index as u8;
    vec![!b, !b, !b, !b, b, b, b, b]
}

fn index_of(slot: u64) -> u64 {
    slot * 7 + 3
}

fn all_ones_pads(_index: u64, witness: Vec<u8>) -> Option<Vec<Vec<u8>>> {
    assert_eq!(witness.len(), PIECE_SIZE - 4);
    Some(vec![vec![0xFFu8]; 4])
}

fn expected_metadata() -> Vec<u8> {
    let mut m = 1000u64.to_le_bytes().to_vec();
    m.extend_from_slice(&150u64.to_le_bytes());
    m
}

#[test]
fn expiry_applies_replication_factor() {
    assert_eq!(sector_expires_at(&info()), 150);
}

#[test]
fn metadata_encoding_is_little_endian_fields_in_order() {
    let m = SectorMetadata { total_pieces: 1000, expires_at: 150 };
    assert_eq!(m.encode(), expected_metadata());
    let m = SectorMetadata { total_pieces: 0x0102030405060708, expires_at: 1 };
    assert_eq!(
        m.encode(),
        vec![8, 7, 6, 5, 4, 3, 2, 1, 1, 0, 0, 0, 0, 0, 0, 0]
    );
}

#[test]
fn plots_every_slot_in_order_then_metadata() {
    let flag = AtomicBool::new(false);
    let fetched: RefCell<Vec<u64>> = RefCell::new(Vec::new());
    let get_piece = |i: u64| -> Result<Option<Vec<u8>>, String> {
        fetched.borrow_mut().push(i);
        Ok(Some(piece_for(i)))
    };
    let mut sector = Vec::new();
    let mut metadata = Vec::new();
    let r = plot_sector(
        &index_of, &get_piece, &all_ones_pads, &|| flag.load(Ordering::Acquire), &info(), 3 * PIECE_SIZE as u64 + 5,
        PIECE_SIZE, &mut sector, &mut metadata,
    );
    assert_eq!(r, Ok(PlottingStatus::PlottedSuccessfully));
    assert_eq!(*fetched.borrow(), vec![3, 10, 17]);
    let mut expected = encoded_piece_for(3);
    expected.extend(encoded_piece_for(10));
    expected.extend(encoded_piece_for(17));
    assert_eq!(sector, expected);
    assert_eq!(metadata, expected_metadata());
}

#[test]
fn same_inputs_fetch_same_indices() {
    let flag = AtomicBool::new(false);
    let mut runs: Vec<Vec<u64>> = Vec::new();
    for _ in 0..2 {
        let fetched: RefCell<Vec<u64>> = RefCell::new(Vec::new());
        let get_piece = |i: u64| -> Result<Option<Vec<u8>>, String> {
            fetched.borrow_mut().push(i);
            Ok(Some(piece_for(i)))
        };
        let mut sector = Vec::new();
        let mut metadata = Vec::new();
        let r = plot_sector(
            &index_of, &get_piece, &all_ones_pads, &|| flag.load(Ordering::Acquire), &info(), 4 * PIECE_SIZE as u64,
            PIECE_SIZE, &mut sector, &mut metadata,
        );
        assert_eq!(r, Ok(PlottingStatus::PlottedSuccessfully));
        runs.push(fetched.into_inner());
    }
    assert_eq!(runs[0].len(), 4);
    assert_eq!(runs[0], runs[1]);
}

#[test]
fn empty_sector_writes_only_metadata() {
    let flag = AtomicBool::new(true);
    let get_piece = |_i: u64| -> Result<Option<Vec<u8>>, String> { panic!("no slot to fetch") };
    let mut sector = Vec::new();
    let mut metadata = Vec::new();
    let r = plot_sector(
        &index_of, &get_piece, &all_ones_pads, &|| flag.load(Ordering::Acquire), &info(), PIECE_SIZE as u64 - 1,
        PIECE_SIZE, &mut sector, &mut metadata,
    );
    assert_eq!(r, Ok(PlottingStatus::PlottedSuccessfully));
    assert!(sector.is_empty());
    assert_eq!(metadata, expected_metadata());
}

#[test]
fn shutdown_before_slot_two_keeps_two_pieces() {
    let flag = AtomicBool::new(false);
    let get_piece = |i: u64| -> Result<Option<Vec<u8>>, String> {
        if i == index_of(1) {
            flag.store(true, Ordering::Release);
        }
        Ok(Some(piece_for(i)))
    };
    let mut sector = Vec::new();
    let mut metadata = Vec::new();
    let r = plot_sector(
        &index_of, &get_piece, &all_ones_pads, &|| flag.load(Ordering::Acquire), &info(), 5 * PIECE_SIZE as u64,
        PIECE_SIZE, &mut sector, &mut metadata,
    );
    assert_eq!(r, Ok(PlottingStatus::Interrupted));
    let mut expected = encoded_piece_for(3);
    expected.extend(encoded_piece_for(10));
    assert_eq!(sector, expected);
    assert!(metadata.is_empty());
}

#[test]
fn shutdown_before_first_slot_writes_nothing() {
    let flag = AtomicBool::new(true);
    let get_piece = |_i: u64| -> Result<Option<Vec<u8>>, String> { panic!("must not fetch") };
    let mut sector = vec![9u8];
    let mut metadata = Vec::new();
    let r = plot_sector(
        &index_of, &get_piece, &all_ones_pads, &|| flag.load(Ordering::Acquire), &info(), 5 * PIECE_SIZE as u64,
        PIECE_SIZE, &mut sector, &mut metadata,
    );
    assert_eq!(r, Ok(PlottingStatus::Interrupted));
    assert_eq!(sector, vec![9u8]);
    assert!(metadata.is_empty());
}

#[test]
fn missing_piece_halts_plotting() {
    let flag = AtomicBool::new(false);
    let calls = RefCell::new(0u32);
    let get_piece = |i: u64| -> Result<Option<Vec<u8>>, String> {
        *calls.borrow_mut() += 1;
        if i == index_of(1) { Ok(None) } else { Ok(Some(piece_for(i))) }
    };
    let mut sector = Vec::new();
    let mut metadata = Vec::new();
    let r = plot_sector(
        &index_of, &get_piece, &all_ones_pads, &|| flag.load(Ordering::Acquire), &info(), 4 * PIECE_SIZE as u64,
        PIECE_SIZE, &mut sector, &mut metadata,
    );
    assert_eq!(r, Err(PlottingError::PieceNotFound { piece_index: 10 }));
    assert_eq!(*calls.borrow(), 2);
    assert_eq!(sector, encoded_piece_for(3));
    assert!(metadata.is_empty());
}

#[test]
fn failed_fetch_halts_plotting() {
    let flag = AtomicBool::new(false);
    let get_piece = |_i: u64| -> Result<Option<Vec<u8>>, String> { Err("network down".to_string()) };
    let mut sector = Vec::new();
    let mut metadata = Vec::new();
    let r = plot_sector(
        &index_of, &get_piece, &all_ones_pads, &|| flag.load(Ordering::Acquire), &info(), 4 * PIECE_SIZE as u64,
        PIECE_SIZE, &mut sector, &mut metadata,
    );
    assert_eq!(
        r,
        Err(PlottingError::FailedToRetrievePiece { piece_index: 3, error: "network down".to_string() })
    );
    assert!(sector.is_empty());
    assert!(metadata.is_empty());
}

#[test]
fn piece_of_wrong_size_is_invalid() {
    let flag = AtomicBool::new(false);
    let get_piece = |_i: u64| -> Result<Option<Vec<u8>>, String> { Ok(Some(vec![0u8; 3])) };
    let mut sector = Vec::new();
    let mut metadata = Vec::new();
    let r = plot_sector(
        &index_of, &get_piece, &all_ones_pads, &|| flag.load(Ordering::Acquire), &info(), 4 * PIECE_SIZE as u64,
        PIECE_SIZE, &mut sector, &mut metadata,
    );
    assert_eq!(r, Err(PlottingError::InvalidPiece { piece_index: 3 }));
    assert!(metadata.is_empty());
}

#[test]
fn undecodable_witness_is_invalid() {
    let flag = AtomicBool::new(false);
    let get_piece = |i: u64| -> Result<Option<Vec<u8>>, String> { Ok(Some(piece_for(i))) };
    let no_pads = |_i: u64, _w: Vec<u8>| -> Option<Vec<Vec<u8>>> { None };
    let mut sector = Vec::new();
    let mut metadata = Vec::new();
    let r = plot_sector(
        &index_of, &get_piece, &no_pads, &|| flag.load(Ordering::Acquire), &info(), 4 * PIECE_SIZE as u64,
        PIECE_SIZE, &mut sector, &mut metadata,
    );
    assert_eq!(r, Err(PlottingError::InvalidPiece { piece_index: 3 }));
    assert!(sector.is_empty());
    assert!(metadata.is_empty());
}

#[test]
fn plotting_plotted_pieces_again_restores_them() {
    let flag = AtomicBool::new(false);
    let get_piece = |i: u64| -> Result<Option<Vec<u8>>, String> { Ok(Some(piece_for(i))) };
    let mut first = Vec::new();
    let mut first_metadata = Vec::new();
    let r = plot_sector(
        &index_of, &get_piece, &all_ones_pads, &|| flag.load(Ordering::Acquire), &info(),
        3 * PIECE_SIZE as u64, PIECE_SIZE, &mut first, &mut first_metadata,
    );
    assert_eq!(r, Ok(PlottingStatus::PlottedSuccessfully));

    let plotted = first.clone();
    let get_plotted = |i: u64| -> Result<Option<Vec<u8>>, String> {
        let slot = ((i - 3) / 7) as usize;
        Ok(Some(plotted[slot * PIECE_SIZE..(slot + 1) * PIECE_SIZE].to_vec()))
    };
    let mut second = Vec::new();
    let mut second_metadata = Vec::new();
    let r = plot_sector(
        &index_of, &get_plotted, &all_ones_pads, &|| flag.load(Ordering::Acquire), &info(),
        3 * PIECE_SIZE as u64, PIECE_SIZE, &mut second, &mut second_metadata,
    );
    assert_eq!(r, Ok(PlottingStatus::PlottedSuccessfully));
    let mut pieces = piece_for(3);
    pieces.extend(piece_for(10));
    pieces.extend(piece_for(17));
    assert_eq!(second, pieces);
    assert_eq!(second_metadata, first_metadata);
}
