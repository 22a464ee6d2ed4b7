use java_runtimes::error::ErrorKind;
use java_runtimes::observation::Observation;
use java_runtimes::observation::RunOutcome;
use java_runtimes::JavaRuntime;

const BANNER: &str = "java version \"17.0.4.1\" 2022-08-18 LTS\n\
Java(TM) SE Runtime Environment (build 17.0.4.1+1-LTS-2)\n\
Java HotSpot(TM) 64-Bit Server VM (build 17.0.4.1+1-LTS-2, mixed mode, sharing)\n";

fn exited(success: bool, diagnostics: &[u8]) -> RunOutcome {
    RunOutcome::Exited {
        success,
        diagnostics: diagnostics.to_vec(),
    }
}

fn file_at(canonical: &str, run: RunOutcome) -> Observation {
    Observation {
        is_file: true,
        canonical: Some(canonical.to_string()),
        run,
    }
}

#[test]
fn a_launcher_that_reports_a_version_is_a_runtime() {
    let seen = file_at("/opt/jdk-17/bin/java", exited(true, BANNER.as_bytes()));
    let runtime = JavaRuntime::from_executable("linux", "/opt/jdk-17/bin/java", &seen).unwrap();
    assert_eq!(runtime.get_os(), "linux");
    assert_eq!(runtime.get_executable(), "/opt/jdk-17/bin/java");
    assert_eq!(runtime.get_version_string(), "17.0.4.1");
}

#[test]
fn a_runtime_keeps_the_path_as_given_not_the_canonical_one() {
    let seen = file_at("/opt/jdk-17/bin/java", exited(true, BANNER.as_bytes()));
    let runtime = JavaRuntime::from_executable("linux", "../current/bin/java", &seen).unwrap();
    assert_eq!(runtime.get_executable(), "../current/bin/java");
    let runtime = JavaRuntime::from_executable("linux", "/usr/bin/java", &seen).unwrap();
    assert_eq!(runtime.get_executable(), "/usr/bin/java");
}

#[test]
fn a_runtime_is_tagged_with_the_host() {
    let seen = file_at("/opt/jdk-17/bin/java", exited(true, BANNER.as_bytes()));
    let runtime = JavaRuntime::from_executable("macos", "/opt/jdk-17/bin/java", &seen).unwrap();
    assert_eq!(runtime.get_os(), "macos");
    assert!(runtime.is_same_os("macos"));
}

#[test]
fn a_windows_launcher_is_java_exe() {
    let seen = file_at(
        "\\\\?\\C:\\Program Files\\Java\\jdk-17\\bin\\java.exe",
        exited(true, BANNER.as_bytes()),
    );
    let path = "C:\\Program Files\\Java\\jdk-17\\bin\\java.exe";
    let runtime = JavaRuntime::from_executable("windows", path, &seen).unwrap();
    assert_eq!(runtime.get_os(), "windows");
    assert_eq!(runtime.get_executable(), path);
    assert!(JavaRuntime::from_executable("linux", path, &seen).is_err());
}

#[test]
fn a_path_without_a_file_does_not_look_like_a_launcher() {
    let seen = Observation {
        is_file: false,
        canonical: None,
        run: RunOutcome::NotRun,
    };
    assert!(!JavaRuntime::looks_like_java_executable_file("linux", &seen));
    let e = JavaRuntime::from_executable("linux", "/nowhere/bin/java", &seen).unwrap_err();
    assert!(
        matches!(&e.kind, ErrorKind::LooksNotLikeJavaExecutableFile(p) if p == "/nowhere/bin/java")
    );
}

#[test]
fn a_directory_does_not_look_like_a_launcher() {
    let seen = Observation {
        is_file: false,
        canonical: Some("/opt/odd/bin/java".to_string()),
        run: RunOutcome::NotRun,
    };
    assert!(!JavaRuntime::looks_like_java_executable_file("linux", &seen));
    let e = JavaRuntime::from_executable("linux", "/opt/odd/bin/java", &seen).unwrap_err();
    assert!(matches!(e.kind, ErrorKind::LooksNotLikeJavaExecutableFile(_)));
}

#[test]
fn a_file_outside_bin_does_not_look_like_a_launcher() {
    let seen = file_at("/opt/jdk-17/lib/java", RunOutcome::NotRun);
    assert!(!JavaRuntime::looks_like_java_executable_file("linux", &seen));
    let e = JavaRuntime::from_executable("linux", "/opt/jdk-17/lib/java", &seen).unwrap_err();
    assert!(
        matches!(&e.kind, ErrorKind::LooksNotLikeJavaExecutableFile(p) if p == "/opt/jdk-17/lib/java")
    );
}

#[test]
fn a_file_of_another_name_does_not_look_like_a_launcher() {
    let seen = file_at("/opt/jdk-17/bin/javac", RunOutcome::NotRun);
    assert!(!JavaRuntime::looks_like_java_executable_file("linux", &seen));
    let seen = file_at("/opt/jdk-17/bin/java.exe", RunOutcome::NotRun);
    assert!(!JavaRuntime::looks_like_java_executable_file("linux", &seen));
    let seen = file_at("C:\\jdk\\bin\\java", RunOutcome::NotRun);
    assert!(!JavaRuntime::looks_like_java_executable_file("windows", &seen));
}

#[test]
fn a_file_that_cannot_be_resolved_does_not_look_like_a_launcher() {
    let seen = Observation {
        is_file: true,
        canonical: None,
        run: RunOutcome::NotRun,
    };
    assert!(!JavaRuntime::looks_like_java_executable_file("linux", &seen));
}

#[test]
fn the_shape_is_that_of_the_canonical_path() {
    let seen = file_at("/opt/jdk-17/bin/java", RunOutcome::NotRun);
    assert!(JavaRuntime::looks_like_java_executable_file("linux", &seen));
    // a link named otherwise, to a launcher
    let seen = file_at("/opt/jdk-17/bin/java", exited(true, b"\"17.0.4.1\""));
    assert!(JavaRuntime::from_executable("linux", "/usr/local/java-link", &seen).is_ok());
    // a link named java in bin, to something else
    let seen = file_at("/usr/share/scripts/run.sh", exited(true, b"\"17.0.4.1\""));
    assert!(JavaRuntime::from_executable("linux", "/usr/bin/java", &seen).is_err());
}

#[test]
fn a_path_that_does_not_fit_is_rejected_whatever_a_run_gave() {
    let seen = file_at("/opt/jdk-17/lib/java", exited(true, BANNER.as_bytes()));
    let e = JavaRuntime::from_executable("linux", "/opt/jdk-17/lib/java", &seen).unwrap_err();
    assert!(matches!(e.kind, ErrorKind::LooksNotLikeJavaExecutableFile(_)));
    let seen = file_at("/opt/jdk-17/lib/java", RunOutcome::SpawnFailed("x".to_string()));
    let e = JavaRuntime::from_executable("linux", "/opt/jdk-17/lib/java", &seen).unwrap_err();
    assert!(matches!(e.kind, ErrorKind::LooksNotLikeJavaExecutableFile(_)));
}

#[test]
fn a_launcher_that_cannot_be_started_fails_with_the_host_s_message() {
    let seen = file_at(
        "/opt/jdk-17/bin/java",
        RunOutcome::SpawnFailed("Permission denied (os error 13)".to_string()),
    );
    let e = JavaRuntime::from_executable("linux", "/opt/jdk-17/bin/java", &seen).unwrap_err();
    assert!(
        matches!(&e.kind, ErrorKind::JavaOutputFailed(m) if m == "Permission denied (os error 13)")
    );
}

#[test]
fn a_launcher_that_ends_in_failure_fails_the_version_query() {
    let seen = file_at("/opt/jdk-17/bin/java", exited(false, BANNER.as_bytes()));
    let e = JavaRuntime::from_executable("linux", "/opt/jdk-17/bin/java", &seen).unwrap_err();
    assert!(
        matches!(&e.kind, ErrorKind::GettingJavaVersionFailed(p) if p == "/opt/jdk-17/bin/java")
    );
}

#[test]
fn a_launcher_that_was_not_run_fails_the_version_query() {
    let seen = file_at("/opt/jdk-17/bin/java", RunOutcome::NotRun);
    let e = JavaRuntime::from_executable("linux", "/opt/jdk-17/bin/java", &seen).unwrap_err();
    assert!(
        matches!(&e.kind, ErrorKind::GettingJavaVersionFailed(p) if p == "/opt/jdk-17/bin/java")
    );
}

#[test]
fn a_launcher_that_reports_no_version_fails() {
    let seen = file_at("/opt/jdk-17/bin/java", exited(true, b"Usage: java [options]"));
    let e = JavaRuntime::from_executable("linux", "/opt/jdk-17/bin/java", &seen).unwrap_err();
    assert!(matches!(e.kind, ErrorKind::NoJavaVersionStringFound));
    let seen = file_at("/opt/jdk-17/bin/java", exited(true, b""));
    let e = JavaRuntime::from_executable("linux", "/opt/jdk-17/bin/java", &seen).unwrap_err();
    assert!(matches!(e.kind, ErrorKind::NoJavaVersionStringFound));
}

#[test]
fn bytes_that_are_no_text_do_not_fail_a_probe() {
    let mut diagnostics: Vec<u8> = vec![0xff, 0xfe, 0x80];
    diagnostics.extend_from_slice(b" java version \"17.0.4.1\" ");
    diagnostics.extend_from_slice(&[0xc3, 0x28, 0xf0, 0x9f]);
    let seen = file_at("/opt/jdk-17/bin/java", exited(true, &diagnostics));
    let runtime = JavaRuntime::from_executable("linux", "/opt/jdk-17/bin/java", &seen).unwrap();
    assert_eq!(runtime.get_version_string(), "17.0.4.1");
}

#[test]
fn bytes_that_are_no_text_inside_a_token_break_it() {
    let mut diagnostics: Vec<u8> = b"\"17.0".to_vec();
    diagnostics.push(0xff);
    diagnostics.extend_from_slice(b".4\"");
    let seen = file_at("/opt/jdk-17/bin/java", exited(true, &diagnostics));
    let e = JavaRuntime::from_executable("linux", "/opt/jdk-17/bin/java", &seen).unwrap_err();
    assert!(matches!(e.kind, ErrorKind::NoJavaVersionStringFound));
}

#[test]
fn text_in_several_bytes_a_character_is_decoded() {
    let diagnostics = "versi\u{00f3}n de java \"1.8.0_333\" \u{2713}".as_bytes().to_vec();
    let seen = file_at("/opt/jdk/bin/java", exited(true, &diagnostics));
    let runtime = JavaRuntime::from_executable("linux", "/opt/jdk/bin/java", &seen).unwrap();
    assert_eq!(runtime.get_version_string(), "1.8.0_333");
}

#[test]
fn an_update_takes_the_new_version() {
    let mut runtime = JavaRuntime::new("linux", "/opt/jdk/bin/java", "17.0.4.1").unwrap();
    let seen = file_at("/opt/jdk/bin/java", exited(true, b"java version \"21.0.3\""));
    runtime.update("linux", &seen).unwrap();
    assert_eq!(runtime.get_version_string(), "21.0.3");
    assert_eq!(runtime.get_os(), "linux");
    assert_eq!(runtime.get_executable(), "/opt/jdk/bin/java");
}

#[test]
fn an_update_keeps_the_runtime_s_own_os() {
    let mut runtime = JavaRuntime::new("freebsd", "/opt/jdk/bin/java", "17.0.4.1").unwrap();
    let seen = file_at("/opt/jdk/bin/java", exited(true, b"java version \"21.0.3\""));
    runtime.update("linux", &seen).unwrap();
    assert_eq!(runtime.get_os(), "freebsd");
    assert_eq!(runtime.get_version_string(), "21.0.3");
}

#[test]
fn a_failed_update_changes_nothing() {
    let mut runtime = JavaRuntime::new("linux", "/opt/jdk/bin/java", "17.0.4.1").unwrap();

    let seen = file_at("/opt/jdk/bin/java", exited(false, b"java version \"21.0.3\""));
    let e = runtime.update("linux", &seen).unwrap_err();
    assert!(matches!(&e.kind, ErrorKind::GettingJavaVersionFailed(p) if p == "/opt/jdk/bin/java"));
    assert_eq!(runtime.get_version_string(), "17.0.4.1");

    let seen = file_at("/opt/jdk/bin/java", exited(true, b"no version"));
    let e = runtime.update("linux", &seen).unwrap_err();
    assert!(matches!(e.kind, ErrorKind::NoJavaVersionStringFound));
    assert_eq!(runtime.get_version_string(), "17.0.4.1");

    let seen = file_at("/opt/jdk/bin/java", RunOutcome::SpawnFailed("gone".to_string()));
    let e = runtime.update("linux", &seen).unwrap_err();
    assert!(matches!(&e.kind, ErrorKind::JavaOutputFailed(m) if m == "gone"));
    assert_eq!(runtime.get_version_string(), "17.0.4.1");

    let seen = Observation {
        is_file: false,
        canonical: None,
        run: RunOutcome::NotRun,
    };
    let e = runtime.update("linux", &seen).unwrap_err();
    assert!(
        matches!(&e.kind, ErrorKind::LooksNotLikeJavaExecutableFile(p) if p == "/opt/jdk/bin/java")
    );
    assert_eq!(runtime.get_version_string(), "17.0.4.1");
    assert_eq!(runtime.get_os(), "linux");
    assert_eq!(runtime.get_executable(), "/opt/jdk/bin/java");
}

#[test]
fn a_runtime_is_available_where_its_probe_succeeds_on_its_own_os() {
    let runtime = JavaRuntime::new("linux", "/opt/jdk/bin/java", "17.0.4.1").unwrap();
    let good = file_at("/opt/jdk/bin/java", exited(true, b"java version \"17.0.4.1\""));
    assert!(runtime.is_available("linux", &good));
    assert!(!runtime.is_available("macos", &good));
    let bad = file_at("/opt/jdk/bin/java", exited(false, b""));
    assert!(!runtime.is_available("linux", &bad));
    let gone = Observation {
        is_file: false,
        canonical: None,
        run: RunOutcome::NotRun,
    };
    assert!(!runtime.is_available("linux", &gone));
}

#[test]
fn probing_twice_gives_the_same_runtime() {
    let seen = file_at("/opt/jdk/bin/java", exited(true, b"java version \"17.0.4.1\""));
    let later = file_at("/opt/jdk/bin/java", exited(true, b"java version \"17.0.5\""));
    let first = JavaRuntime::from_executable("linux", "/opt/jdk/bin/java", &seen).unwrap();
    let second = JavaRuntime::from_executable("linux", "/opt/jdk/bin/java", &later).unwrap();
    assert_eq!(first, second);
    assert_eq!(first.get_version_string(), "17.0.4.1");
    assert_eq!(second.get_version_string(), "17.0.5");
}
