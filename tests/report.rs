use sightglass_compare::{
    delta_line, engine_label, entry_heading, find_summary, no_difference_line, rank_order,
    shared_prefix_end, speedup_line, summary_line, trim_shared_prefix, Phase, Rank, Summary,
};

fn rank(significant: bool, speedup: u64) -> Rank {
    Rank { significant, speedup }
}

#[test]
fn significant_entries_come_first() {
    let ranks = vec![rank(false, 9), rank(true, 1), rank(false, 3), rank(true, 5)];
    assert_eq!(rank_order(&ranks), vec![3, 1, 0, 2]);
}

#[test]
fn equal_ranks_keep_their_order() {
    let ranks = vec![rank(true, 2), rank(false, 2), rank(true, 2), rank(true, 7), rank(false, 2)];
    assert_eq!(rank_order(&ranks), vec![3, 0, 2, 1, 4]);
}

#[test]
fn ranking_nothing() {
    assert_eq!(rank_order(&Vec::new()), Vec::<usize>::new());
}

#[test]
fn shared_path_is_trimmed() {
    let (a, b) = trim_shared_prefix("/build/control/engine.so", "/build/feature/engine.so");
    assert_eq!(a, "control/engine.so");
    assert_eq!(b, "feature/engine.so");
    assert_eq!(shared_prefix_end("/build/control", "/build/feature"), 7);
}

#[test]
fn prefix_names_stay_whole() {
    let (a, b) = trim_shared_prefix("engine", "engine.so");
    assert_eq!(a, "engine");
    assert_eq!(b, "engine.so");
    assert_eq!(shared_prefix_end("same", "same"), 0);
}

#[test]
fn trimming_counts_characters() {
    let (a, b) = trim_shared_prefix("/µs/a", "/µs/b");
    assert_eq!(a, "a");
    assert_eq!(b, "b");
}

#[test]
fn labels_join_name_and_flags() {
    assert_eq!(engine_label("control.so", ""), "control.so");
    assert_eq!(engine_label("", "-O2"), "-O2");
    assert_eq!(engine_label("control.so", "-O2"), "control.so -O2");
    assert_eq!(engine_label("", ""), "");
}

#[test]
fn heading_names_phase_event_and_program() {
    assert_eq!(
        entry_heading(Phase::Execution, "cycles", "benchmark.wasm"),
        "execution :: cycles :: benchmark.wasm"
    );
}

fn summary(engine: &str, phase: Phase, min: u64) -> Summary {
    Summary {
        arch: "x86_64".to_string(),
        engine: engine.to_string(),
        engine_flags: String::new(),
        wasm: "benchmark.wasm".to_string(),
        phase,
        event: "cycles".to_string(),
        min,
        max: min + 10,
        median: min + 5,
    }
}

#[test]
fn summaries_are_found_by_engine_and_group() {
    let ss = vec![
        summary("control.so", Phase::Compilation, 1),
        summary("control.so", Phase::Execution, 2),
        summary("feature.so", Phase::Execution, 3),
    ];
    let s = |x: &str| x.to_string();
    let i = find_summary(&ss, &s("feature.so"), &s(""), &s("benchmark.wasm"), Phase::Execution, &s("cycles"));
    assert_eq!(i.unwrap(), 2);
    let i = find_summary(&ss, &s("control.so"), &s(""), &s("benchmark.wasm"), Phase::Execution, &s("cycles"));
    assert_eq!(i.unwrap(), 1);
    let e = find_summary(&ss, &s("feature.so"), &s("-O2"), &s("benchmark.wasm"), Phase::Execution, &s("cycles"))
        .unwrap_err();
    assert_eq!(e.engine_flags, "-O2");
    assert_eq!(e.engine, "feature.so");
}

#[test]
fn summary_line_prints_min_mean_max_and_name() {
    let mut s = summary("control.so", Phase::Execution, 100);
    s.max = 1234;
    assert_eq!(summary_line(&s, "100.00", "control.so"), "  [100 100.00 1234] control.so");
    s.min = 0;
    s.max = 18446744073709551615;
    assert_eq!(summary_line(&s, "7.50", ""), "  [0 7.50 18446744073709551615] ");
}

#[test]
fn speedup_sentence() {
    assert_eq!(
        speedup_line("control.so", "", "1.08", "1.12", "feature.so", "-O2"),
        "  control.so is 1.08x to 1.12x faster than feature.so -O2!"
    );
    assert_eq!(speedup_line("", "-O1", "2.00", "2.00", "", "-O2"), "  -O1 is 2.00x to 2.00x faster than -O2!");
}

#[test]
fn delta_and_no_difference_lines() {
    assert_eq!(delta_line("10.00", "0.00", "95"), "  Δ = 10.00 ± 0.00 (confidence = 95%)");
    assert_eq!(no_difference_line(), "  No difference in performance.");
}
