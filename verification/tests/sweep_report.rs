use mdbench::report::{header_line, record_line};
use mdbench::sweep::{sweep_plan, TimingRecord};

#[test]
fn sweep_covers_every_size_in_ascending_order() {
    // The default configuration: increments of 250 up to 5000, one run each,
    // gives exactly 20 records with ascending particle counts.
    let plan = sweep_plan(250, 5000, 1);
    assert_eq!(plan.len(), 20);
    for (k, n) in plan.iter().enumerate() {
        assert_eq!(*n, 250 * (k + 1));
    }
    assert_eq!(plan[0], 250);
    assert_eq!(plan[19], 5000);
}

#[test]
fn sweep_repeats_each_size_runs_times() {
    let plan = sweep_plan(300, 1000, 2);
    assert_eq!(plan, vec![300, 300, 600, 600, 900, 900]);
}

#[test]
fn sweep_truncates_at_the_maximum() {
    assert_eq!(sweep_plan(250, 5100, 1).len(), 20);
    assert_eq!(sweep_plan(7, 20, 1), vec![7, 14]);
    assert_eq!(sweep_plan(30, 20, 1), vec![]);
}

#[test]
fn sweep_with_zero_step_or_zero_runs_is_empty() {
    assert_eq!(sweep_plan(0, 5000, 1), vec![]);
    assert_eq!(sweep_plan(250, 5000, 0), vec![]);
}

#[test]
fn header_line_matches_the_file_format() {
    assert_eq!(header_line(), "nb_atoms,runtime_micros\n");
}

#[test]
fn record_line_renders_count_comma_micros() {
    let rec = TimingRecord { nb_atoms: 250, runtime_micros: 17 };
    assert_eq!(record_line(&rec), "250,17\n");
}

#[test]
fn record_line_renders_zero_and_large_values() {
    let zero = TimingRecord { nb_atoms: 0, runtime_micros: 0 };
    assert_eq!(record_line(&zero), "0,0\n");
    let big = TimingRecord {
        nb_atoms: 5000,
        runtime_micros: 340282366920938463463374607431768211455,
    };
    assert_eq!(
        record_line(&big),
        "5000,340282366920938463463374607431768211455\n"
    );
    let ten = TimingRecord { nb_atoms: 10, runtime_micros: 100 };
    assert_eq!(record_line(&ten), "10,100\n");
}
