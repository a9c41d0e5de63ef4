use gsw::storage::retention::{add_column_outcome, column_already_present, prune_plan, step_done, Step};

#[test]
fn prune_plan_rules() {
    let plan = prune_plan(1, 2, 10_000);
    assert_eq!(plan.cutoff_epoch, Some(6_400));
    assert_eq!(plan.max_rows_per_service, Some(2));
    let plan = prune_plan(0, 0, 10_000);
    assert_eq!(plan.cutoff_epoch, None);
    assert_eq!(plan.max_rows_per_service, None);
    assert_eq!(prune_plan(5, 1, 100).cutoff_epoch, Some(0));
}

#[test]
fn schema_and_step_outcomes() {
    assert!(column_already_present("duplicate column name: pid"));
    assert!(!column_already_present("no such table"));
    assert_eq!(add_column_outcome(Err("duplicate column name: pid".into())), Ok(()));
    assert_eq!(add_column_outcome(Err("disk I/O error".into())), Err("disk I/O error".into()));
    assert_eq!(step_done(Step::Done), Ok(()));
    assert_eq!(
        step_done(Step::Row),
        Err("SQLite returned a row where completion was expected".into())
    );
}
