use lingo::backends::{App, BatchBuildResults, BuildSystem, Outcome};

fn app(name: &str, kind: BuildSystem) -> App {
    App {
        name: String::from(name),
        build_system: kind,
        main_reactor: String::from(name),
    }
}

#[test]
fn empty_ledger_renders_nothing() {
    let led = BatchBuildResults::new();
    assert_eq!(led.len(), 0);
    assert_eq!(led.render_results(), "");
}

#[test]
fn for_apps_seeds_success_placeholders() {
    let apps = vec![app("a", BuildSystem::LFC), app("b", BuildSystem::CMake)];
    let led = BatchBuildResults::for_apps(&apps);
    assert_eq!(led.len(), 2);
    assert_eq!(led.render_results(), "- a: Success\n- b: Success\n");
}

#[test]
fn record_result_keeps_order_and_message() {
    let mut led = BatchBuildResults::new();
    led.record_result(app("z", BuildSystem::LFC), Outcome::Success);
    led.record_result(app("a", BuildSystem::LFC), Outcome::Failure(String::from("boom")));
    assert_eq!(led.render_results(), "- z: Success\n- a: Error: boom\n");
}

#[test]
fn append_merges_disjoint_ledgers_sorted_by_name() {
    let mut first = BatchBuildResults::new();
    first.record_result(app("d", BuildSystem::LFC), Outcome::Failure(String::from("no source")));
    first.record_result(app("b", BuildSystem::LFC), Outcome::Success);
    let mut second = BatchBuildResults::new();
    second.record_result(app("c", BuildSystem::CMake), Outcome::Success);
    second.record_result(app("a", BuildSystem::CMake), Outcome::Success);
    first.append(second);
    assert_eq!(first.len(), 4);
    assert_eq!(
        first.render_results(),
        "- a: Success\n- b: Success\n- c: Success\n- d: Error: no source\n"
    );
}

#[test]
fn append_empty_ledger_keeps_entries() {
    let mut led = BatchBuildResults::for_apps(&vec![app("a", BuildSystem::LFC)]);
    led.append(BatchBuildResults::new());
    assert_eq!(led.render_results(), "- a: Success\n");
}

#[test]
fn map_replaces_success_outcomes() {
    let apps = vec![app("a", BuildSystem::LFC), app("b", BuildSystem::LFC)];
    let led = BatchBuildResults::for_apps(&apps).map(|a: &App| {
        if a.name == "a" {
            Outcome::Success
        } else {
            Outcome::Failure(String::from("stage failed"))
        }
    });
    assert_eq!(led.render_results(), "- a: Success\n- b: Error: stage failed\n");
}

#[test]
fn map_does_not_invoke_transform_on_failed_entries() {
    let mut led = BatchBuildResults::new();
    led.record_result(app("a", BuildSystem::LFC), Outcome::Success);
    led.record_result(app("b", BuildSystem::LFC), Outcome::Failure(String::from("first")));
    let calls = std::cell::Cell::new(0usize);
    let led = led.map(|_a: &App| {
        calls.set(calls.get() + 1);
        Outcome::Failure(String::from("second"))
    });
    assert_eq!(calls.get(), 1);
    assert_eq!(led.render_results(), "- a: Error: second\n- b: Error: first\n");
}

#[test]
fn par_map_does_not_invoke_transform_on_failed_entries() {
    let mut led = BatchBuildResults::new();
    led.record_result(app("a", BuildSystem::LFC), Outcome::Success);
    led.record_result(app("b", BuildSystem::LFC), Outcome::Failure(String::from("first")));
    let calls = std::sync::atomic::AtomicUsize::new(0);
    let led = led.par_map(|_a: &App| {
        calls.fetch_add(1, std::sync::atomic::Ordering::SeqCst);
        Outcome::Failure(String::from("second"))
    });
    assert_eq!(calls.load(std::sync::atomic::Ordering::SeqCst), 1);
    assert_eq!(led.render_results(), "- a: Error: second\n- b: Error: first\n");
}

#[test]
fn par_map_is_outcome_equivalent_to_map() {
    let stage = |a: &App| {
        if a.name.len() > 1 {
            Outcome::Failure(String::from("name too long"))
        } else {
            Outcome::Success
        }
    };
    let apps = vec![
        app("a", BuildSystem::LFC),
        app("bb", BuildSystem::LFC),
        app("c", BuildSystem::CMake),
    ];
    let sequential = BatchBuildResults::for_apps(&apps).map(stage);
    let parallel = BatchBuildResults::for_apps(&apps).par_map(stage);
    assert_eq!(sequential.render_results(), parallel.render_results());
    assert_eq!(
        sequential.render_results(),
        "- a: Success\n- bb: Error: name too long\n- c: Success\n"
    );
}

#[test]
fn append_keeps_entries_with_equal_names() {
    let mut first = BatchBuildResults::new();
    first.record_result(app("a", BuildSystem::LFC), Outcome::Success);
    let mut second = BatchBuildResults::new();
    second.record_result(app("a", BuildSystem::CMake), Outcome::Failure(String::from("dup")));
    first.append(second);
    assert_eq!(first.len(), 2);
    let report = first.render_results();
    assert!(report.contains("- a: Success\n"));
    assert!(report.contains("- a: Error: dup\n"));
}

#[test]
fn outcome_reports_success() {
    assert!(Outcome::Success.is_success());
    assert!(!Outcome::Failure(String::from("e")).is_success());
}
