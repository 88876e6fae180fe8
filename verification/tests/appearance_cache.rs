use photo_engine::appearance_cache::{AppearancePlan, AppearanceStats, CacheKeys};

fn keys(filters: u64, masks: u64) -> CacheKeys {
    CacheKeys { filter_signature: filters, mask_signature: masks }
}

fn counts(s: &AppearanceStats) -> (u64, u64) {
    (s.misses, s.hits)
}

#[test]
fn first_lookup_misses_then_hits_without_recomputing() {
    let mut stats = AppearanceStats::default();
    let k = keys(10, 0);
    let first = stats.plan_appearance(None, false, k);
    assert_eq!(first, AppearancePlan { reuse_appearance: false, run_chain: true, combine_cover: true });
    assert_eq!(counts(&stats), (1, 0));
    assert_eq!((stats.preview_rebuilds, stats.thumb_rebuilds), (1, 1));
    let second = stats.plan_appearance(Some(k), true, k);
    assert_eq!(second, AppearancePlan { reuse_appearance: true, run_chain: false, combine_cover: false });
    assert_eq!(counts(&stats), (1, 1));
    assert_eq!((stats.preview_rebuilds, stats.thumb_rebuilds), (1, 1));
}

#[test]
fn mask_change_recombines_without_running_the_chain() {
    let mut stats = AppearanceStats::default();
    let before = keys(10, 0);
    stats.plan_appearance(None, false, before);
    let after = keys(10, 77);
    let plan = stats.plan_appearance(Some(before), true, after);
    assert!(!plan.run_chain);
    assert!(plan.combine_cover);
    assert!(!plan.reuse_appearance);
    assert_eq!(counts(&stats), (1, 1));
    assert_eq!((stats.preview_rebuilds, stats.thumb_rebuilds), (2, 2));
    stats.plan_appearance(Some(after), true, after);
    assert_eq!((stats.preview_rebuilds, stats.thumb_rebuilds), (2, 2));
}

#[test]
fn parameter_change_is_one_more_miss() {
    let mut stats = AppearanceStats::default();
    stats.plan_appearance(None, false, keys(10, 0));
    let plan = stats.plan_appearance(Some(keys(10, 0)), true, keys(20, 0));
    assert!(plan.run_chain);
    assert!(!plan.combine_cover);
    assert_eq!(counts(&stats), (2, 0));
    stats.plan_appearance(Some(keys(20, 0)), true, keys(20, 0));
    assert_eq!(counts(&stats), (2, 1));
}

#[test]
fn replaced_source_runs_the_chain_again() {
    let mut stats = AppearanceStats::default();
    stats.plan_appearance(None, false, keys(5, 5));
    let plan = stats.plan_appearance(Some(keys(5, 5)), false, keys(5, 5));
    assert!(plan.run_chain);
    assert!(!plan.reuse_appearance);
    assert_eq!(counts(&stats), (2, 0));
}

#[test]
fn counters_wrap() {
    let mut stats = AppearanceStats { hits: u64::MAX, misses: 0, preview_rebuilds: 0, thumb_rebuilds: 0 };
    stats.plan_appearance(Some(keys(1, 1)), true, keys(1, 1));
    assert_eq!(stats.hits, 0);
}
