//! The adjacency of the vanilla overworld map slots, used by tooling that
//! reasons about which areas can be seen next to each other. The pairs are
//! hardware-format facts, keyed by vanilla map slot index.

use vstd::prelude::*;

verus! {

/// The neighbor lists of all vanilla top-level map slots, as
/// (slot, neighbor slots) pairs: distinct slot keys below 0xA0 in strictly
/// ascending order.
#[verifier::rlimit(100)]
pub fn get_area_neighbors() -> (r: Vec<(usize, Vec<usize>)>)
    ensures
        r@.len() == 82,
        forall|i: int, j: int| 0 <= i < j < r@.len() ==> (#[trigger] r@[i]).0 < (#[trigger] r@[j]).0,
        forall|i: int| 0 <= i < r@.len() ==> (#[trigger] r@[i]).0 < 0xA0,
{
    let table: Vec<(usize, Vec<usize>)> = vec![
        (0x00, vec![0x02, 0x10, 0x11, 0x80]),
        (0x02, vec![0x00, 0x0A]),
        (0x03, vec![0x05]),
        (0x05, vec![0x03, 0x07]),
        (0x07, vec![0x05]),
        (0x0A, vec![0x02, 0x12]),
        (0x0F, vec![0x81, 0x17]),
        (0x10, vec![0x00, 0x18]),
        (0x11, vec![0x00, 0x12, 0x18]),
        (0x12, vec![0x0A, 0x11, 0x13, 0x1A]),
        (0x13, vec![0x12, 0x14]),
        (0x14, vec![0x13, 0x15]),
        (0x15, vec![0x14, 0x16, 0x1D]),
        (0x16, vec![0x15, 0x17]),
        (0x17, vec![0x0F, 0x16]),
        (0x18, vec![0x10, 0x11, 0x22, 0x29]),
        (0x1A, vec![0x12, 0x1B]),
        (0x1B, vec![0x1A, 0x25, 0x2B, 0x2C]),
        (0x1D, vec![0x15, 0x25]),
        (0x1E, vec![0x2E, 0x2F]),
        (0x22, vec![0x18]),
        (0x25, vec![0x1B, 0x1D, 0x2D]),
        (0x28, vec![0x29]),
        (0x29, vec![0x18, 0x28, 0x2A]),
        (0x2A, vec![0x29, 0x32]),
        (0x2B, vec![0x1B, 0x2C, 0x33]),
        (0x2C, vec![0x1B, 0x2B, 0x2D, 0x34]),
        (0x2D, vec![0x25, 0x2C, 0x2E, 0x35]),
        (0x2E, vec![0x1E, 0x2D, 0x35]),
        (0x2F, vec![0x1E]),
        (0x30, vec![0x3A]),
        (0x32, vec![0x2A, 0x33]),
        (0x33, vec![0x2B, 0x32, 0x34, 0x3B]),
        (0x34, vec![0x2C, 0x33, 0x3C]),
        (0x35, vec![0x2D, 0x2E, 0x3C, 0x3F]),
        (0x37, vec![0x3F]),
        (0x3A, vec![0x30, 0x3B]),
        (0x3B, vec![0x33, 0x3A, 0x3C]),
        (0x3C, vec![0x34, 0x3B, 0x35]),
        (0x3F, vec![0x35, 0x37]),
        (0x40, vec![0x42, 0x50, 0x51]),
        (0x42, vec![0x40, 0x4A]),
        (0x43, vec![0x45]),
        (0x45, vec![0x43, 0x47]),
        (0x47, vec![0x45]),
        (0x4A, vec![0x42, 0x52]),
        (0x4F, vec![0x57]),
        (0x50, vec![0x40, 0x58]),
        (0x51, vec![0x40, 0x52, 0x58]),
        (0x52, vec![0x4A, 0x51, 0x53, 0x5A]),
        (0x53, vec![0x52, 0x54]),
        (0x54, vec![0x53, 0x55]),
        (0x55, vec![0x54, 0x56, 0x5D]),
        (0x56, vec![0x55, 0x57]),
        (0x57, vec![0x4F, 0x56]),
        (0x58, vec![0x50, 0x51, 0x62, 0x69]),
        (0x5A, vec![0x52]),
        (0x5B, vec![0x65, 0x6B, 0x6C]),
        (0x5D, vec![0x55, 0x65]),
        (0x5E, vec![0x6E, 0x6F]),
        (0x62, vec![0x58]),
        (0x65, vec![0x5B, 0x5D, 0x6D]),
        (0x68, vec![0x69]),
        (0x69, vec![0x58, 0x68, 0x6A]),
        (0x6A, vec![0x69, 0x72]),
        (0x6B, vec![0x5B, 0x6C, 0x73]),
        (0x6C, vec![0x5B, 0x6B, 0x6D, 0x74]),
        (0x6D, vec![0x65, 0x6C, 0x6E, 0x75]),
        (0x6E, vec![0x5E, 0x6D, 0x75]),
        (0x6F, vec![0x5E]),
        (0x70, vec![]),
        (0x72, vec![0x6A, 0x73]),
        (0x73, vec![0x6B, 0x72, 0x74, 0x7B]),
        (0x74, vec![0x6C, 0x73, 0x7C]),
        (0x75, vec![0x6D, 0x6E, 0x7C, 0x7F]),
        (0x77, vec![0x7F]),
        (0x7A, vec![0x7B]),
        (0x7B, vec![0x73, 0x7A, 0x7C]),
        (0x7C, vec![0x74, 0x7B, 0x75]),
        (0x7F, vec![0x75, 0x77]),
        (0x80, vec![0x00]),
        (0x81, vec![0x0F]),
    ];
    table
}

} // verus!
