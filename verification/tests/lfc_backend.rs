use lingo::backends::lfc::LFC;
use lingo::backends::{App, BuildSystem};
use lingo::order::str_le;

#[test]
fn from_target_keeps_the_application() {
    let app = App {
        name: String::from("sensor"),
        build_system: BuildSystem::LFC,
        main_reactor: String::from("Main"),
    };
    let backend = LFC::from_target(&app);
    assert_eq!(backend.target().name, "sensor");
    assert_eq!(backend.target().main_reactor, "Main");
}

#[test]
fn update_is_a_successful_no_op() {
    let app = App {
        name: String::from("sensor"),
        build_system: BuildSystem::LFC,
        main_reactor: String::from("Main"),
    };
    assert!(LFC::from_target(&app).update().is_success());
}

#[test]
fn build_command_args_point_at_the_main_reactor() {
    let app = App {
        name: String::from("sensor"),
        build_system: BuildSystem::LFC,
        main_reactor: String::from("MainReactor"),
    };
    let args = LFC::from_target(&app).build_command_args();
    assert_eq!(
        args,
        vec![
            String::from("--output"),
            String::from("./"),
            String::from("./src/MainReactor.lf"),
        ]
    );
}

#[test]
fn artifact_dirs_list_every_generated_directory() {
    assert_eq!(
        LFC::artifact_dirs(),
        vec![
            String::from("./bin"),
            String::from("./include"),
            String::from("./src-gen"),
            String::from("./lib64"),
            String::from("./share"),
            String::from("./build"),
        ]
    );
}

#[test]
fn string_order_is_lexicographic_by_code_point() {
    assert!(str_le("a", "b"));
    assert!(!str_le("b", "a"));
    assert!(str_le("a", "a"));
    assert!(str_le("a", "ab"));
    assert!(!str_le("ab", "a"));
    assert!(str_le("", "a"));
    assert!(str_le("B", "a"));
    assert!(!str_le("a", "B"));
    assert!(str_le("z", "\u{e9}"));
    assert!(!str_le("\u{e9}", "z"));
}
