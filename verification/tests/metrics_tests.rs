use matrix_engine::{AmapMetrics, MetricsError};

#[test]
fn fresh_counters_render_as_zeroes() {
    let m = AmapMetrics::new(&["calls", "cells"]);
    assert_eq!(m.render(), "calls:0\ncells:0\n");
}

#[test]
fn duplicate_names_declare_one_counter() {
    let m = AmapMetrics::new(&["calls", "cells", "calls"]);
    assert_eq!(m.render(), "calls:0\ncells:0\n");
}

#[test]
fn increments_land_on_the_named_counter() {
    let mut m = AmapMetrics::new(&["calls", "cells"]);
    assert_eq!(m.inc("cells"), Ok(()));
    assert_eq!(m.inc("cells"), Ok(()));
    assert_eq!(m.inc("calls"), Ok(()));
    assert_eq!(m.render(), "calls:1\ncells:2\n");
}

#[test]
fn an_undeclared_name_is_reported_and_changes_nothing() {
    let mut m = AmapMetrics::new(&["calls"]);
    assert_eq!(m.inc("cels"), Err(MetricsError::KeyNotFound));
    assert_eq!(m.render(), "calls:0\n");
}

#[test]
fn an_empty_declaration_renders_nothing() {
    let m = AmapMetrics::new(&[]);
    assert_eq!(m.render(), "");
}
