use transfer_manager::error::{ErrorKind, TransferError};
use transfer_manager::planner::{plan, plan_for, PartSpec, PlannerConfig};
use transfer_manager::types::SizeHint;

const MIB: u64 = 1024 * 1024;
const GIB: u64 = 1024 * MIB;

fn limits() -> PlannerConfig {
    PlannerConfig {
        min_part_size: 8 * MIB,
        max_part_size: 5 * GIB,
        max_parts: 10000,
        target_part_count_hint: None,
    }
}

fn assert_tiles(parts: &[PartSpec], total_size: u64) {
    assert!(!parts.is_empty());
    let mut expected_offset = 0u64;
    let mut sum = 0u64;
    for (index, part) in parts.iter().enumerate() {
        assert_eq!(part.part_number as usize, index + 1);
        assert_eq!(part.offset, expected_offset);
        expected_offset += part.length;
        sum += part.length;
    }
    assert_eq!(sum, total_size);
}

#[test]
fn empty_object_is_one_simple_empty_part() {
    let layout = plan(0, &limits()).unwrap();
    assert!(layout.is_simple());
    assert_eq!(layout.total_size(), 0);
    assert_eq!(
        layout.parts().as_slice(),
        &[PartSpec { part_number: 1, offset: 0, length: 0 }]
    );
}

#[test]
fn hundred_mebibytes_take_thirteen_parts() {
    let layout = plan(100 * MIB, &limits()).unwrap();
    assert!(!layout.is_simple());
    let parts = layout.parts();
    assert_eq!(parts.len(), 13);
    for part in &parts[..12] {
        assert_eq!(part.length, 8 * MIB);
    }
    assert_eq!(parts[12].length, 4 * MIB);
    assert_eq!(parts[12].offset, 96 * MIB);
    assert_tiles(parts, 100 * MIB);
}

#[test]
fn object_of_minimum_size_is_simple() {
    let layout = plan(8 * MIB, &limits()).unwrap();
    assert!(layout.is_simple());
    assert_eq!(
        layout.parts().as_slice(),
        &[PartSpec { part_number: 1, offset: 0, length: 8 * MIB }]
    );
}

#[test]
fn one_byte_over_the_minimum_is_multipart() {
    let layout = plan(8 * MIB + 1, &limits()).unwrap();
    assert!(!layout.is_simple());
    assert_eq!(
        layout.parts().as_slice(),
        &[
            PartSpec { part_number: 1, offset: 0, length: 8 * MIB },
            PartSpec { part_number: 2, offset: 8 * MIB, length: 1 },
        ]
    );
}

#[test]
fn part_size_grows_to_keep_the_count_within_max_parts() {
    let config = PlannerConfig {
        min_part_size: 10,
        max_part_size: 1000,
        max_parts: 4,
        target_part_count_hint: Some(2),
    };
    // ceil(101 / 4) = 26 bytes per part, ceil(101 / 26) = 4 parts.
    let layout = plan(101, &config).unwrap();
    let lengths: Vec<u64> = layout.parts().iter().map(|p| p.length).collect();
    assert_eq!(lengths, vec![26, 26, 26, 23]);
    assert_tiles(layout.parts(), 101);
}

#[test]
fn largest_supported_object_uses_every_part_at_full_size() {
    let config = PlannerConfig {
        min_part_size: 10,
        max_part_size: 100,
        max_parts: 5,
        target_part_count_hint: None,
    };
    let layout = plan(500, &config).unwrap();
    let lengths: Vec<u64> = layout.parts().iter().map(|p| p.length).collect();
    assert_eq!(lengths, vec![100, 100, 100, 100, 100]);
}

#[test]
fn object_past_the_part_limits_is_unsupported() {
    let config = PlannerConfig {
        min_part_size: 10,
        max_part_size: 100,
        max_parts: 5,
        target_part_count_hint: None,
    };
    assert_eq!(
        plan(501, &config).unwrap_err(),
        TransferError { kind: ErrorKind::SizeUnsupported, part_number: None }
    );
}

#[test]
fn contradictory_limits_are_refused() {
    for config in [
        PlannerConfig { min_part_size: 0, max_part_size: 10, max_parts: 5, target_part_count_hint: None },
        PlannerConfig { min_part_size: 20, max_part_size: 10, max_parts: 5, target_part_count_hint: None },
        PlannerConfig { min_part_size: 5, max_part_size: 10, max_parts: 0, target_part_count_hint: None },
    ] {
        assert!(!config.is_valid());
        assert_eq!(
            plan(7, &config).unwrap_err(),
            TransferError { kind: ErrorKind::InvalidConfiguration, part_number: None }
        );
    }
}

#[test]
fn planning_twice_gives_the_same_plan() {
    for total in [0, 1, 8 * MIB, 8 * MIB + 1, 100 * MIB, 5 * GIB + 17] {
        let first = plan(total, &limits()).unwrap();
        let second = plan(total, &limits()).unwrap();
        assert_eq!(first.parts(), second.parts());
        assert_eq!(first.is_simple(), second.is_simple());
        assert_eq!(first.total_size(), second.total_size());
    }
}

#[test]
fn plans_tile_their_objects_and_respect_the_limits() {
    let config = PlannerConfig {
        min_part_size: 7,
        max_part_size: 64,
        max_parts: 9,
        target_part_count_hint: None,
    };
    for total in 0..=(64 * 9) {
        let layout = plan(total, &config).unwrap();
        let parts = layout.parts();
        assert_tiles(parts, total);
        assert!(parts.len() <= 9);
        let last = parts.len() - 1;
        for part in &parts[..last] {
            assert!(part.length >= 7 && part.length <= 64);
        }
        assert!(parts[last].length <= 64);
        if total > 0 {
            assert!(parts[last].length > 0);
        }
        // Every part but the last has the same length.
        for part in &parts[..last] {
            assert_eq!(part.length, parts[0].length);
        }
    }
}

#[test]
fn huge_object_with_huge_limits_does_not_overflow() {
    let config = PlannerConfig {
        min_part_size: 1,
        max_part_size: u64::MAX,
        max_parts: 3,
        target_part_count_hint: None,
    };
    let layout = plan(u64::MAX, &config).unwrap();
    let parts = layout.parts();
    assert_eq!(parts.len(), 3);
    assert_eq!(parts[0].length, u64::MAX / 3);
    assert_tiles(parts, u64::MAX);
}

#[test]
fn plan_for_a_hint_uses_its_upper_bound() {
    let exact = plan_for(&SizeHint::exact(100 * MIB), &limits()).unwrap();
    assert_eq!(exact.total_size(), 100 * MIB);
    assert_eq!(exact.part_count(), 13);
    let bounded = plan_for(&SizeHint::bounded(1, 20 * MIB).unwrap(), &limits()).unwrap();
    assert_eq!(bounded.total_size(), 20 * MIB);
    assert_eq!(bounded.part_count(), 3);
}

#[test]
fn plan_for_an_unbounded_hint_is_refused() {
    assert_eq!(
        plan_for(&SizeHint::at_least(0), &limits()).unwrap_err(),
        TransferError { kind: ErrorKind::InvalidConfiguration, part_number: None }
    );
}
