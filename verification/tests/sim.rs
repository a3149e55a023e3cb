use skyweb::crawler::LinkEdge;
use skyweb::layout::Layout;
use skyweb::layout::LayoutConfig;
use skyweb::layout::Phase;
use skyweb::layout::TickAction;
use skyweb::layout::DEFAULT_CENTER_STRENGTH_BITS;
use skyweb::layout::DEFAULT_CHARGE_BITS;
use skyweb::layout::DEFAULT_ITERATIONS_PER_TICK;
use skyweb::layout::DEFAULT_LINK_DISTANCE_BITS;
use skyweb::layout::ORIGIN_BITS;

fn positions(l: &Layout) -> Vec<(u64, u64)> {
    (0..l.nodes.len()).map(|i| l.position(i)).collect()
}

#[test]
fn default_config_matches_the_documented_tunables() {
    let c = LayoutConfig::default();
    assert_eq!(f64::from_bits(c.charge_bits), -30.0);
    assert_eq!(f64::from_bits(c.link_distance_bits), 30.0);
    assert!(c.link_strength_bits.is_none());
    assert_eq!(f64::from_bits(c.center_strength_bits), 1.0);
    assert_eq!(c.iterations_per_tick, 5);
    assert!(!c.paused);
    assert_eq!(c.charge_bits, DEFAULT_CHARGE_BITS);
    assert_eq!(c.link_distance_bits, DEFAULT_LINK_DISTANCE_BITS);
    assert_eq!(c.center_strength_bits, DEFAULT_CENTER_STRENGTH_BITS);
    assert_eq!(c.iterations_per_tick, DEFAULT_ITERATIONS_PER_TICK);
}

#[test]
fn build_fixes_exactly_the_root_at_the_origin() {
    let l = Layout::build(4, LayoutConfig::default());
    assert_eq!(l.nodes.len(), 4);
    for (i, node) in l.nodes.iter().enumerate() {
        assert_eq!(node.fixed, i == 3);
        assert_eq!(node.x_bits, ORIGIN_BITS);
        assert_eq!(node.y_bits, ORIGIN_BITS);
    }
    // One spoke from the root to every node.
    assert_eq!(l.links.len(), 4);
    for (i, edge) in l.links.iter().enumerate() {
        assert_eq!(edge.source, 3);
        assert_eq!(edge.target, i);
    }
}

#[test]
fn paused_tick_any_number_of_times_is_bit_identical() {
    let mut config = LayoutConfig::default();
    config.paused = true;
    let mut l = Layout::build(3, config);
    let before = positions(&l);
    for _ in 0..10 {
        assert!(matches!(l.tick(), TickAction::Idle));
        assert_eq!(positions(&l), before);
    }
}

#[test]
fn running_tick_asks_for_the_configured_iterations() {
    let mut l = Layout::build(2, LayoutConfig::default());
    match l.tick() {
        TickAction::Run { iterations } => assert_eq!(iterations, 5),
        TickAction::Idle => panic!("an unpaused simulation must run"),
    }
    assert!(matches!(l.phase, Phase::Running));
}

#[test]
fn converged_simulation_ignores_ticks_until_rebuilt() {
    let mut l = Layout::build(2, LayoutConfig::default());
    l.tick();
    l.set_converged();
    assert!(matches!(l.tick(), TickAction::Idle));
    assert!(matches!(l.phase, Phase::Converged));
    l.rebuild(LayoutConfig::default());
    assert!(matches!(l.phase, Phase::Built));
    assert!(matches!(l.tick(), TickAction::Run { .. }));
}

#[test]
fn rebuild_preserves_positions_and_the_anchored_root() {
    let mut l = Layout::build(3, LayoutConfig::default());
    l.tick();
    let advanced = vec![
        (f64::to_bits(1.5), f64::to_bits(-2.25)),
        (f64::to_bits(-0.75), f64::to_bits(4.0)),
        (f64::to_bits(9.0), f64::to_bits(9.0)), // ignored: the root is fixed
    ];
    l.apply_positions(&advanced);
    assert_eq!(l.position(0), (f64::to_bits(1.5), f64::to_bits(-2.25)));
    assert_eq!(l.position(2), (ORIGIN_BITS, ORIGIN_BITS));

    let before = positions(&l);
    let mut config = LayoutConfig::default();
    config.charge_bits = f64::to_bits(-60.0);
    l.rebuild(config);

    assert_eq!(positions(&l), before);
    assert_eq!(l.position(2), (ORIGIN_BITS, ORIGIN_BITS));
    assert!(l.nodes[2].fixed);
    assert!(!l.nodes[0].fixed);
    assert!(matches!(l.phase, Phase::Built));
}

#[test]
fn dragging_moves_a_free_node_only() {
    let mut l = Layout::build(3, LayoutConfig::default());
    l.set_position(1, f64::to_bits(7.0), f64::to_bits(-7.0));
    assert_eq!(l.position(1), (f64::to_bits(7.0), f64::to_bits(-7.0)));
    assert_eq!(l.position(0), (ORIGIN_BITS, ORIGIN_BITS));
    // A rebuild keeps the dragged position too.
    let before = positions(&l);
    l.rebuild(LayoutConfig::default());
    assert_eq!(positions(&l), before);
}

#[test]
fn line_indices_skip_the_root_spokes() {
    let mut l = Layout::build(3, LayoutConfig::default());
    let new_links = vec![
        LinkEdge { source: 0, target: 1 },
        LinkEdge { source: 1, target: 0 },
    ];
    l.add_links(&new_links);
    assert_eq!(l.links.len(), 5);
    assert_eq!(l.line_indices(), vec![0, 1, 1, 0]);
}

#[test]
fn needs_rebuild_exactly_on_force_parameter_changes() {
    let base = LayoutConfig::default();

    let mut same = base;
    same.paused = true;
    same.iterations_per_tick = 9;
    assert!(!base.needs_rebuild(&same));

    let mut charged = base;
    charged.charge_bits = f64::to_bits(-31.0);
    assert!(base.needs_rebuild(&charged));

    let mut stretched = base;
    stretched.link_distance_bits = f64::to_bits(45.0);
    assert!(base.needs_rebuild(&stretched));

    let mut strengthened = base;
    strengthened.link_strength_bits = Some(f64::to_bits(0.5));
    assert!(base.needs_rebuild(&strengthened));

    let mut centered = base;
    centered.center_strength_bits = f64::to_bits(2.0);
    assert!(base.needs_rebuild(&centered));
}
