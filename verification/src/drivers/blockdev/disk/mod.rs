//! Disks: ATA drives and their DMA transfers.
use vstd::prelude::*;

pub mod ata;
pub mod dma;

verus! {

/// Initialisation that needs no memory allocation.
pub fn init_stage1() {
    ata::init_stage1();
    dma::init_stage1();
}

/// Initialisation of the DMA part of the disks, which needs no hardware access.
pub fn init_stage2() {
    dma::init_stage2();
}

} // verus!
