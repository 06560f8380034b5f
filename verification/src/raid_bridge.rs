//! The layout of a loopback RAID-Z2/Z3 set: how many disk files it needs
//! (the data disks and the parity disks of the level) and how large each
//! one is (one chunk per stripe, plus one spare chunk), and the names of
//! the files. Creating the files and the parity arithmetic are left to the
//! RAID crate that the caller uses.

use vstd::prelude::*;
use vstd::string::StringExecFns;

use crate::text::{decimal_text, u64_to_decimal};

verus! {

/// The number of disk files and the size of each, in bytes.
pub fn loopback_layout(num_data_disks: usize, parity_disks: usize, chunk_size: usize, stripe_count: u64) -> (r: (
    usize,
    u64,
))
    requires
        num_data_disks + parity_disks <= usize::MAX,
        stripe_count < u64::MAX,
        chunk_size * (stripe_count + 1) <= u64::MAX,
    ensures
        r.0 == num_data_disks + parity_disks,
        r.1 == chunk_size * (stripe_count + 1),
{
    let total_disks = num_data_disks + parity_disks;
    let disk_size = chunk_size as u64 * (stripe_count + 1);
    (total_disks, disk_size)
}

/// The file name of disk `i` of the set: `d` followed by its number.
pub fn disk_file_name(i: usize) -> (name: String)
    ensures
        name@ == "d"@ + decimal_text(i as nat),
{
    let mut name = "d".to_owned();
    let digits = u64_to_decimal(i as u64);
    name.append(digits.as_str());
    name
}

} // verus!
