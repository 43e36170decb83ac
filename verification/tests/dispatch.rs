use lingo::backends::{
    execute_command, App, BatchBackend, BatchBuildResults, BatchLingoCommand, BuildCommandOptions,
    BuildProfile, BuildSystem, CommandSpec, DispatchError, Outcome,
};

fn app(name: &str, kind: BuildSystem) -> App {
    App {
        name: String::from(name),
        build_system: kind,
        main_reactor: String::from(name),
    }
}

fn build_task() -> CommandSpec {
    CommandSpec::Build(BuildCommandOptions {
        profile: BuildProfile::Release,
        compile_target_code: false,
        lfc_exec_path: String::from("lfc"),
    })
}

/// A backend that records the applications handed to it and succeeds on
/// every one.
struct RecordingBackend {
    seen: Vec<String>,
}

impl RecordingBackend {
    fn new() -> Self {
        RecordingBackend { seen: Vec::new() }
    }
}

impl BatchBackend for RecordingBackend {
    fn execute_command(&mut self, command: BatchLingoCommand) -> BatchBuildResults {
        for a in &command.apps {
            self.seen.push(a.name.clone());
        }
        command.new_results()
    }
}

/// A backend that fails every application with a fixed message.
struct FailingBackend {
    message: &'static str,
}

impl BatchBackend for FailingBackend {
    fn execute_command(&mut self, command: BatchLingoCommand) -> BatchBuildResults {
        let message = self.message;
        command
            .new_results()
            .map(|_a: &App| Outcome::Failure(String::from(message)))
    }
}

#[test]
fn partition_routes_each_app_to_its_backend_exactly_once() {
    let command = BatchLingoCommand {
        apps: vec![
            app("a", BuildSystem::LFC),
            app("b", BuildSystem::CMake),
            app("c", BuildSystem::LFC),
        ],
        task: build_task(),
    };
    let mut lfc = RecordingBackend::new();
    let mut cmake = RecordingBackend::new();
    let result = execute_command(command, &mut lfc, &mut cmake).unwrap();
    assert_eq!(lfc.seen, vec![String::from("a"), String::from("c")]);
    assert_eq!(cmake.seen, vec![String::from("b")]);
    assert_eq!(
        result.render_results(),
        "- a: Success\n- b: Success\n- c: Success\n"
    );
}

#[test]
fn empty_partition_leaves_its_backend_uninvoked() {
    let command = BatchLingoCommand {
        apps: vec![app("a", BuildSystem::LFC)],
        task: build_task(),
    };
    let mut lfc = RecordingBackend::new();
    let mut cmake = RecordingBackend::new();
    let result = execute_command(command, &mut lfc, &mut cmake).unwrap();
    assert_eq!(lfc.seen, vec![String::from("a")]);
    assert!(cmake.seen.is_empty());
    assert_eq!(result.render_results(), "- a: Success\n");
}

#[test]
fn unimplemented_kind_fails_the_whole_batch() {
    let command = BatchLingoCommand {
        apps: vec![
            app("a", BuildSystem::LFC),
            app("b", BuildSystem::Cargo),
            app("c", BuildSystem::CMake),
        ],
        task: build_task(),
    };
    let mut lfc = RecordingBackend::new();
    let mut cmake = RecordingBackend::new();
    let result = execute_command(command, &mut lfc, &mut cmake);
    assert!(matches!(
        result,
        Err(DispatchError::MissingBackend(BuildSystem::Cargo))
    ));
    // fatal, not partial: no backend ran, no per-application entry exists
    assert!(lfc.seen.is_empty());
    assert!(cmake.seen.is_empty());
}

#[test]
fn mixed_success_and_failure_report_is_sorted_and_exact() {
    let command = BatchLingoCommand {
        apps: vec![
            app("a", BuildSystem::LFC),
            app("b", BuildSystem::CMake),
            app("c", BuildSystem::LFC),
        ],
        task: build_task(),
    };
    let mut lfc = RecordingBackend::new();
    let mut cmake = FailingBackend { message: "missing source" };
    let result = execute_command(command, &mut lfc, &mut cmake).unwrap();
    assert_eq!(
        result.render_results(),
        "- a: Success\n- b: Error: missing source\n- c: Success\n"
    );
}

#[test]
fn clean_succeeds_with_or_without_prior_build() {
    let mut lfc = RecordingBackend::new();
    let mut cmake = RecordingBackend::new();

    // clean with no prior build: artifacts absent, still a success
    let clean_only = BatchLingoCommand {
        apps: vec![app("a", BuildSystem::LFC)],
        task: CommandSpec::Clean,
    };
    let first = execute_command(clean_only, &mut lfc, &mut cmake).unwrap();
    assert_eq!(first.render_results(), "- a: Success\n");

    // build, then clean again: the report is the same
    let build = BatchLingoCommand {
        apps: vec![app("a", BuildSystem::LFC)],
        task: build_task(),
    };
    execute_command(build, &mut lfc, &mut cmake).unwrap();
    let clean_after = BatchLingoCommand {
        apps: vec![app("a", BuildSystem::LFC)],
        task: CommandSpec::Clean,
    };
    let second = execute_command(clean_after, &mut lfc, &mut cmake).unwrap();
    assert_eq!(second.render_results(), "- a: Success\n");
}

#[test]
fn with_apps_rescopes_keeping_the_task() {
    let command = BatchLingoCommand {
        apps: vec![app("a", BuildSystem::LFC), app("b", BuildSystem::CMake)],
        task: CommandSpec::Update,
    };
    let sub = command.with_apps(vec![app("b", BuildSystem::CMake)]);
    assert_eq!(sub.apps.len(), 1);
    assert_eq!(sub.apps[0].name, "b");
    assert!(matches!(sub.task, CommandSpec::Update));
}
