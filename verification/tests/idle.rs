use lib::idle::{
    idle_cleanup_charge, idle_deadline_budget, idle_materialization_budget, idle_service_budget, idle_total,
    on_idle_budget, BlockResourceView, IdleBudget,
};
use lib::weight::Weight;

fn wi(r: u64, p: u64) -> Weight {
    Weight::from_parts(r, p)
}

#[test]
fn idle_envelope_is_capped_by_reserve_and_control() {
    assert_eq!(
        on_idle_budget(wi(500, 500), wi(100, 200), None, wi(5, 5), wi(3, 3), wi(2, 2)),
        Some(IdleBudget { available: wi(100, 200), control_available: wi(100, 200), fixed: wi(10, 10), legacy: true })
    );
    let usable = BlockResourceView { usable: true, control_remaining: Some(wi(40, 300)) };
    assert_eq!(
        on_idle_budget(wi(500, 500), wi(100, 200), Some(usable), wi(5, 5), wi(3, 3), wi(2, 2)),
        Some(IdleBudget { available: wi(100, 200), control_available: wi(40, 200), fixed: wi(7, 7), legacy: false })
    );
    let halted = BlockResourceView { usable: false, control_remaining: Some(wi(40, 300)) };
    assert_eq!(on_idle_budget(wi(500, 500), wi(100, 200), Some(halted), wi(5, 5), wi(3, 3), wi(2, 2)), None);
    assert_eq!(on_idle_budget(wi(9, 500), wi(100, 200), None, wi(5, 5), wi(3, 3), wi(2, 2)), None);
}

#[test]
fn idle_stages_share_the_envelope() {
    let b = on_idle_budget(wi(100, 100), wi(100, 100), None, wi(5, 5), wi(3, 3), wi(2, 2)).unwrap();
    let cleanup = idle_cleanup_charge(b, true, true, wi(20, 20));
    assert_eq!(cleanup, wi(20, 20));
    assert_eq!(idle_cleanup_charge(b, true, false, wi(20, 20)), wi(0, 0));
    assert_eq!(idle_cleanup_charge(b, true, true, wi(91, 1)), wi(0, 0));
    assert_eq!(idle_materialization_budget(b, cleanup), wi(70, 70));
    assert_eq!(idle_deadline_budget(b, cleanup, wi(30, 10)), wi(40, 60));
    let (housekeeping, service) = idle_service_budget(b, cleanup, wi(30, 10), wi(40, 5));
    assert_eq!(housekeeping, wi(100, 45));
    assert_eq!(service, wi(0, 55));
    assert_eq!(idle_total(housekeeping, wi(0, 55)), wi(100, 100));
}
