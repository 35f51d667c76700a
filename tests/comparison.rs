use sightglass_compare::{all_groups, compare, GroupKey, Measurement, Phase};

fn measurement(engine: &str, flags: &str, wasm: &str, phase: Phase, count: u64) -> Measurement {
    Measurement {
        arch: "x86_64".to_string(),
        engine: engine.to_string(),
        engine_flags: flags.to_string(),
        wasm: wasm.to_string(),
        process: 1,
        iteration: 0,
        phase,
        event: "cycles".to_string(),
        count,
    }
}

fn control_and_feature() -> Vec<Measurement> {
    let mut ms = Vec::new();
    for _ in 0..3 {
        ms.push(measurement("feature", "", "benchmark.wasm", Phase::Execution, 110));
        ms.push(measurement("control", "", "benchmark.wasm", Phase::Execution, 100));
    }
    ms
}

#[test]
fn control_and_feature_are_paired() {
    let cs = compare(&control_and_feature()).unwrap();
    assert_eq!(cs.len(), 1);
    let c = &cs[0];
    assert_eq!(c.arch, "x86_64");
    assert_eq!(c.wasm, "benchmark.wasm");
    assert_eq!(c.phase, Phase::Execution);
    assert_eq!(c.event, "cycles");
    assert_eq!(c.a_engine, "control");
    assert_eq!(c.b_engine, "feature");
    assert_eq!(c.a_counts, vec![100, 100, 100]);
    assert_eq!(c.b_counts, vec![110, 110, 110]);
}

#[test]
fn one_comparison_per_group() {
    let mut ms = control_and_feature();
    ms.push(measurement("control", "", "other.wasm", Phase::Compilation, 5));
    ms.push(measurement("feature", "", "other.wasm", Phase::Compilation, 7));
    ms.push(measurement("control", "", "benchmark.wasm", Phase::Compilation, 9));
    ms.push(measurement("feature", "", "benchmark.wasm", Phase::Compilation, 8));
    let cs = compare(&ms).unwrap();
    assert_eq!(cs.len(), 3);
    assert_eq!(cs[1].wasm, "other.wasm");
    assert_eq!(cs[1].a_counts, vec![5]);
    assert_eq!(cs[1].b_counts, vec![7]);
    assert_eq!(cs[2].phase, Phase::Compilation);
    assert_eq!(cs[2].wasm, "benchmark.wasm");
}

#[test]
fn flags_tell_engines_apart() {
    let ms = vec![
        measurement("engine.so", "-O2", "b.wasm", Phase::Execution, 3),
        measurement("engine.so", "", "b.wasm", Phase::Execution, 4),
    ];
    let cs = compare(&ms).unwrap();
    assert_eq!(cs[0].a_flags, "");
    assert_eq!(cs[0].a_counts, vec![4]);
    assert_eq!(cs[0].b_flags, "-O2");
    assert_eq!(cs[0].b_counts, vec![3]);
}

#[test]
fn one_engine_is_refused() {
    let ms = vec![
        measurement("control", "", "b.wasm", Phase::Execution, 3),
        measurement("control", "", "b.wasm", Phase::Execution, 4),
    ];
    let e = compare(&ms).unwrap_err();
    assert_eq!(e.engines, 1);
    assert_eq!(e.wasm, "b.wasm");
}

#[test]
fn three_engines_are_refused() {
    let ms = vec![
        measurement("a", "", "b.wasm", Phase::Execution, 3),
        measurement("b", "", "b.wasm", Phase::Execution, 4),
        measurement("c", "", "b.wasm", Phase::Execution, 5),
    ];
    let e = compare(&ms).unwrap_err();
    assert_eq!(e.engines, 3);
    assert_eq!(e.phase, Phase::Execution);
}

#[test]
fn no_measurements_no_comparisons() {
    assert_eq!(compare(&Vec::new()).unwrap().len(), 0);
}

#[test]
fn groups_are_distinct_and_ordered_by_first_sight() {
    let mut ms = control_and_feature();
    ms.push(measurement("control", "", "other.wasm", Phase::Execution, 5));
    let keys = all_groups(&ms);
    assert_eq!(keys.len(), 2);
    assert_eq!(keys[0].wasm.as_deref(), Some("benchmark.wasm"));
    assert_eq!(keys[1].wasm.as_deref(), Some("other.wasm"));
    assert!(keys[1].matches(&ms[6]));
    assert!(!keys[0].matches(&ms[6]));
}

#[test]
fn key_fields_left_unset_match_anything() {
    let m = measurement("control", "", "b.wasm", Phase::Execution, 1);
    assert!(GroupKey::any().matches(&m));
    let mut k = GroupKey::any();
    k.phase = Some(Phase::Compilation);
    assert!(!k.matches(&m));
    k.phase = Some(Phase::Execution);
    k.event = Some("cycles".to_string());
    assert!(k.matches(&m));
    assert!(GroupKey::of(&m).matches(&m));
}

#[test]
fn engine_and_flags_pair() {
    let m = measurement("control.so", "--opt", "b.wasm", Phase::Execution, 1);
    assert_eq!(m.engine_and_flags(), ("control.so", "--opt"));
}

#[test]
fn phases_parse_ignoring_case() {
    assert_eq!(Phase::parse("execution"), Ok(Phase::Execution));
    assert_eq!(Phase::parse("Compilation"), Ok(Phase::Compilation));
    assert_eq!(Phase::parse("INSTANTIATION"), Ok(Phase::Instantiation));
    assert!(Phase::parse("run").is_err());
    assert!(Phase::parse("").is_err());
    assert!(Phase::parse("executions").is_err());
    assert_eq!("Execution".parse::<Phase>(), Ok(Phase::Execution));
}

#[test]
fn phase_names() {
    assert_eq!(Phase::Execution.as_str(), "execution");
    assert_eq!(Phase::Instantiation.as_str(), "instantiation");
    assert_eq!(Phase::Compilation.title(), "Compilation");
    assert_eq!(Phase::Execution.title(), "Execution");
}
