use nebulabrot::colour::{
    apply_all, colour_function, gb, id, permute_channels, rb, rg, str_to_perm, ColourStrategy,
    Transposition,
};
use nebulabrot::dump::{buffer_from_bytes, buffer_to_bytes};
use nebulabrot::histogram::{channel_maxima, commit_trajectory, iteration_limit, new_buffer};

#[test]
fn new_buffer_is_zeroed() {
    let buf = new_buffer(4);
    assert_eq!(buf.len(), 12);
    assert!(buf.iter().all(|&c| c == 0));
}

#[test]
fn commit_credits_channels_by_threshold() {
    let mut buf = new_buffer(6);
    let trajectory: Vec<usize> = vec![2, 2, 5];
    let thresholds: Vec<usize> = vec![1, 5, 10];
    commit_trajectory(&mut buf, &trajectory, 3, &thresholds);
    // Channel 0 (threshold 1 < escape count 3) gets nothing.
    assert_eq!(buf[3 * 2 + 0], 0);
    assert_eq!(buf[3 * 5 + 0], 0);
    // Channels 1 and 2 are credited once per recorded visit.
    assert_eq!(buf[3 * 2 + 1], 2);
    assert_eq!(buf[3 * 2 + 2], 2);
    assert_eq!(buf[3 * 5 + 1], 1);
    assert_eq!(buf[3 * 5 + 2], 1);
    // Unvisited pixels stay zero.
    assert_eq!(buf[0], 0);
    assert_eq!(buf[3 * 4 + 1], 0);
}

#[test]
fn commit_only_raises_counters() {
    let mut buf = new_buffer(3);
    let thresholds: Vec<usize> = vec![4, 8, 16];
    commit_trajectory(&mut buf, &vec![0, 1, 1], 2, &thresholds);
    let before = buf.clone();
    commit_trajectory(&mut buf, &vec![1, 2], 7, &thresholds);
    for k in 0..buf.len() {
        assert!(buf[k] >= before[k]);
    }
}

#[test]
fn commit_first_step_escape_counts_once() {
    // A 4x4 raster; a point outside the escape radius leaves on the first
    // step, having visited only its own cell; every channel whose threshold
    // admits the count is credited exactly once.
    let mut buf = new_buffer(16);
    let trajectory: Vec<usize> = vec![0];
    let thresholds: Vec<usize> = vec![10, 10, 10];
    commit_trajectory(&mut buf, &trajectory, 0, &thresholds);
    assert_eq!(buf[0], 1);
    assert_eq!(buf[1], 1);
    assert_eq!(buf[2], 1);
    for k in 3..48 {
        assert_eq!(buf[k], 0);
    }
}

#[test]
fn channel_maxima_per_channel() {
    let buf: Vec<u32> = vec![5, 0, 7, 3, 9, 7];
    let maxima = channel_maxima(&buf);
    assert_eq!(maxima, vec![5, 9, 7]);
}

#[test]
fn channel_maxima_zero_buffer() {
    let buf = new_buffer(5);
    let maxima = channel_maxima(&buf);
    assert_eq!(maxima, vec![0, 0, 0]);
}

#[test]
fn iteration_limit_is_largest_threshold() {
    assert_eq!(iteration_limit(&vec![10000, 1000000, 100000]), 1000000);
    assert_eq!(iteration_limit(&vec![7, 7, 7]), 7);
}

#[test]
fn dump_round_trip_restores_buffer() {
    let buf: Vec<u32> = vec![0, 1, 258, 65536, u32::MAX, 16];
    let bytes = buffer_to_bytes(&buf);
    assert_eq!(bytes.len(), 24);
    let restored = buffer_from_bytes(&bytes, 2).expect("well-formed dump");
    assert_eq!(restored, buf);
}

#[test]
fn dump_layout_is_little_endian() {
    let bytes = buffer_to_bytes(&vec![0x01020304]);
    assert_eq!(bytes, vec![4, 3, 2, 1]);
}

#[test]
fn dump_wrong_length_is_rejected() {
    let bytes = vec![0u8; 11];
    assert!(buffer_from_bytes(&bytes, 1).is_none());
    let bytes = vec![0u8; 12];
    let restored = buffer_from_bytes(&bytes, 1).expect("well-formed dump");
    assert_eq!(restored, vec![0, 0, 0]);
}

#[test]
fn transpositions_move_positions() {
    assert_eq!(id(0), 0);
    assert_eq!(id(5), 5);
    assert_eq!(rg(0), 1);
    assert_eq!(rg(1), 0);
    assert_eq!(rg(2), 2);
    assert_eq!(rb(0), 2);
    assert_eq!(rb(1), 1);
    assert_eq!(rb(2), 0);
    assert_eq!(gb(0), 0);
    assert_eq!(gb(1), 2);
    assert_eq!(gb(2), 1);
}

#[test]
fn str_to_perm_by_name() {
    assert_eq!(str_to_perm("RG"), Transposition::SwapRG);
    assert_eq!(str_to_perm("RB"), Transposition::SwapRB);
    assert_eq!(str_to_perm("GB"), Transposition::SwapGB);
    assert_eq!(str_to_perm(""), Transposition::Identity);
    assert_eq!(str_to_perm("rg"), Transposition::Identity);
    assert_eq!(str_to_perm("BR"), Transposition::Identity);
}

#[test]
fn apply_all_composes_in_order() {
    let ps = vec![Transposition::SwapRG, Transposition::SwapRB];
    assert_eq!(apply_all(&ps, 0), 1);
    assert_eq!(apply_all(&ps, 1), 2);
    assert_eq!(apply_all(&ps, 2), 0);
}

#[test]
fn permute_rg_swaps_every_triple() {
    let mut data: Vec<u8> = vec![1, 2, 3, 4, 5, 6];
    permute_channels(&mut data, &vec![Transposition::SwapRG]);
    assert_eq!(data, vec![2, 1, 3, 5, 4, 6]);
}

#[test]
fn permute_rg_twice_is_identity() {
    let mut data: Vec<u8> = vec![9, 8, 7, 1, 2, 3];
    permute_channels(&mut data, &vec![Transposition::SwapRG, Transposition::SwapRG]);
    assert_eq!(data, vec![9, 8, 7, 1, 2, 3]);
}

#[test]
fn permute_composition_realizes_cycle() {
    let mut data: Vec<u8> = vec![1, 2, 3];
    permute_channels(&mut data, &vec![Transposition::SwapRG, Transposition::SwapRB]);
    assert_eq!(data, vec![3, 1, 2]);
}

#[test]
fn permute_empty_list_is_identity() {
    let mut data: Vec<u8> = vec![1, 2, 3];
    permute_channels(&mut data, &vec![]);
    assert_eq!(data, vec![1, 2, 3]);
}

#[test]
fn colour_function_by_name() {
    assert_eq!(colour_function("atan_scaled"), ColourStrategy::AtanScaled);
    assert_eq!(colour_function("linear_capped"), ColourStrategy::LinearCapped);
    assert_eq!(colour_function(""), ColourStrategy::AtanScaled);
    assert_eq!(colour_function("no_such_strategy"), ColourStrategy::AtanScaled);
}

#[test]
fn colour_function_ignores_case() {
    assert_eq!(colour_function("LINEAR_CAPPED"), ColourStrategy::LinearCapped);
    assert_eq!(colour_function("Linear_Capped"), ColourStrategy::LinearCapped);
    assert_eq!(colour_function("ATAN_SCALED"), ColourStrategy::AtanScaled);
}
