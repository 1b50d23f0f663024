use rand_explorer::distribution::{weight_tokens, DistributionKind};
use rand_explorer::engine::EngineKind;
use rand_explorer::tabs::{
    code_example, live_refresh_due, ActiveTab, DISTRIBUTION_EXAMPLE, ENGINE_EXAMPLE,
    RAND_COOKBOOK_EXAMPLE, RANGE_EXAMPLE, SEQUENCE_EXAMPLE, SYSTEM_EXAMPLE,
};

#[test]
fn engine_kinds_in_selector_order() {
    assert_eq!(
        EngineKind::all(),
        &[
            EngineKind::ThreadRng,
            EngineKind::StdRng,
            EngineKind::SmallRng,
            EngineKind::ChaCha8,
            EngineKind::ChaCha20,
            EngineKind::Pcg64,
        ]
    );
}

#[test]
fn distribution_kinds_in_selector_order() {
    assert_eq!(
        DistributionKind::all(),
        &[
            DistributionKind::Standard,
            DistributionKind::Uniform,
            DistributionKind::Bernoulli,
            DistributionKind::Normal,
            DistributionKind::Exponential,
            DistributionKind::Poisson,
            DistributionKind::WeightedIndex,
        ]
    );
}

#[test]
fn distribution_default_and_labels() {
    assert_eq!(DistributionKind::default(), DistributionKind::Normal);
    for kind in DistributionKind::all() {
        assert_eq!(kind.label(), format!("{kind:?}"));
    }
    let with_density: Vec<_> = DistributionKind::all().iter().filter(|k| k.has_density()).collect();
    assert_eq!(
        with_density,
        vec![
            &DistributionKind::Standard,
            &DistributionKind::Uniform,
            &DistributionKind::Normal,
            &DistributionKind::Exponential,
        ]
    );
}

#[test]
fn tabs_and_labels() {
    let labels: Vec<&str> = ActiveTab::all().iter().map(|t| t.label()).collect();
    assert_eq!(
        labels,
        vec!["Primitives", "Ranges", "Distributions", "Sequences", "RNG Engines", "System"]
    );
}

#[test]
fn code_examples_per_tab() {
    assert_eq!(code_example(ActiveTab::Primitives), ("Primitive generation", RAND_COOKBOOK_EXAMPLE));
    assert_eq!(code_example(ActiveTab::Ranges), ("Range generation", RANGE_EXAMPLE));
    assert_eq!(
        code_example(ActiveTab::Distributions),
        ("Distribution sampling", DISTRIBUTION_EXAMPLE)
    );
    assert_eq!(code_example(ActiveTab::Sequences), ("Sequence operations", SEQUENCE_EXAMPLE));
    assert_eq!(code_example(ActiveTab::Engines), ("Deterministic RNG", ENGINE_EXAMPLE));
    assert_eq!(code_example(ActiveTab::System), ("Build information", SYSTEM_EXAMPLE));
    assert!(RAND_COOKBOOK_EXAMPLE.contains("nums.shuffle(&mut rng);"));
    assert!(ENGINE_EXAMPLE.starts_with("use rand::{Rng, SeedableRng};"));
}

#[test]
fn live_refresh_only_on_shown_tab_after_interval() {
    let due = live_refresh_due(ActiveTab::Primitives, true, 250, 250, true, 100, 1000);
    assert!(due.primitives);
    assert!(!due.ranges);
    let due = live_refresh_due(ActiveTab::Primitives, true, 250, 249, false, 100, 1000);
    assert!(!due.primitives);
    let due = live_refresh_due(ActiveTab::Primitives, false, 250, 10_000, false, 100, 1000);
    assert!(!due.primitives);
    let due = live_refresh_due(ActiveTab::Ranges, true, 250, 10_000, true, 100, 100);
    assert!(!due.primitives);
    assert!(due.ranges);
    let due = live_refresh_due(ActiveTab::Ranges, true, 250, 10_000, false, 100, 100);
    assert!(!due.ranges);
    let due = live_refresh_due(ActiveTab::System, true, 0, 0, true, 0, 0);
    assert!(!due.primitives && !due.ranges);
}

#[test]
fn weight_tokens_split_at_commas_and_trim() {
    assert_eq!(weight_tokens("1,2,3,4"), vec!["1", "2", "3", "4"]);
    assert_eq!(weight_tokens(" 1 , 2.5,\t3 ,"), vec!["1", "2.5", "3", ""]);
    assert_eq!(weight_tokens(""), vec![""]);
    assert_eq!(weight_tokens(",,"), vec!["", "", ""]);
    let input = " a ,b,, c";
    let expected: Vec<String> = input.split(',').map(|s| s.trim().to_string()).collect();
    assert_eq!(weight_tokens(input), expected);
}
