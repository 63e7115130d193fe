use lib::materialization::{
    begin_materialization_pass, next_materialization_action, record_materialization_consumption, MaterializationAction,
};
use lib::weight::Weight;

fn wg(r: u64, p: u64) -> Weight {
    Weight::from_parts(r, p)
}

#[test]
fn pass_rotates_from_cursor_and_reserves_minimums() {
    let minimums = [wg(1, 1), wg(2, 2), wg(3, 3)];
    let mut pass = begin_materialization_pass(1, wg(50, 80), wg(100, 100), &minimums).unwrap();
    assert!(pass.reserve_all_families);
    assert_eq!(
        next_materialization_action(&pass, &minimums, true),
        MaterializationAction::Serve { family: 1, budget: wg(46, 76) }
    );
    record_materialization_consumption(&mut pass, wg(10, 10));
    assert_eq!(
        next_materialization_action(&pass, &minimums, true),
        MaterializationAction::Serve { family: 2, budget: wg(39, 69) }
    );
    record_materialization_consumption(&mut pass, wg(5, 5));
    assert_eq!(
        next_materialization_action(&pass, &minimums, true),
        MaterializationAction::Serve { family: 0, budget: wg(35, 65) }
    );
    record_materialization_consumption(&mut pass, wg(0, 0));
    assert_eq!(
        next_materialization_action(&pass, &minimums, true),
        MaterializationAction::Serve { family: 1, budget: wg(35, 65) }
    );
    record_materialization_consumption(&mut pass, wg(35, 0));
    assert_eq!(
        next_materialization_action(&pass, &minimums, true),
        MaterializationAction::Finish { consumed: wg(50, 15), next_cursor: 2 }
    );
}

#[test]
fn pass_without_room_for_minimums_gives_all_remaining() {
    let minimums = [wg(10, 10), wg(10, 10), wg(10, 10)];
    let mut pass = begin_materialization_pass(2, wg(25, 25), wg(100, 100), &minimums).unwrap();
    assert!(!pass.reserve_all_families);
    assert_eq!(
        next_materialization_action(&pass, &minimums, false),
        MaterializationAction::Serve { family: 2, budget: wg(25, 25) }
    );
    record_materialization_consumption(&mut pass, wg(25, 25));
    record_materialization_consumption(&mut pass, wg(0, 0));
    record_materialization_consumption(&mut pass, wg(0, 0));
    assert_eq!(
        next_materialization_action(&pass, &minimums, true),
        MaterializationAction::Finish { consumed: wg(25, 25), next_cursor: 0 }
    );
    assert!(begin_materialization_pass(3, wg(1, 1), wg(1, 1), &minimums).is_none());
}
