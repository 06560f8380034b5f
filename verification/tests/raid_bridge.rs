use rs_smarttcp::raid_bridge::{disk_file_name, loopback_layout};

#[test]
fn z2_with_four_data_disks_uses_six_files_of_five_chunks() {
    assert_eq!(loopback_layout(4, 2, 4096, 4), (6, 4096 * 5));
}

#[test]
fn z3_adds_three_parity_disks() {
    assert_eq!(loopback_layout(4, 3, 512, 0), (7, 512));
}

#[test]
fn disk_files_are_numbered_from_d0() {
    assert_eq!(disk_file_name(0), "d0");
    assert_eq!(disk_file_name(12), "d12");
}
