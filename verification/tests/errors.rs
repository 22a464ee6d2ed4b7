use java_runtimes::error::Error;
use java_runtimes::error::ErrorKind;

#[test]
fn message_of_an_invalid_working_directory() {
    let e = Error::new(ErrorKind::InvalidWorkDir);
    assert_eq!(e.to_string(), "Java home directory not found");
}

#[test]
fn message_of_a_missing_version() {
    let e = Error::new(ErrorKind::NoJavaVersionStringFound);
    assert_eq!(e.to_string(), "Invalid version string");
}

#[test]
fn message_of_a_path_without_the_shape() {
    let e = Error::new(ErrorKind::LooksNotLikeJavaExecutableFile(
        "/usr/lib/java".to_string(),
    ));
    assert_eq!(
        e.to_string(),
        "Path looks not like a Java executable file [**/bin/java(.exe)] : /usr/lib/java"
    );
}

#[test]
fn message_of_a_failed_start() {
    let e = Error::new(ErrorKind::JavaOutputFailed(
        "Permission denied (os error 13)".to_string(),
    ));
    assert_eq!(
        e.to_string(),
        "Failed to read Java output: Permission denied (os error 13)"
    );
}

#[test]
fn message_of_a_failed_version_query() {
    let e = Error::new(ErrorKind::GettingJavaVersionFailed(
        "/jdk/bin/java".to_string(),
    ));
    assert_eq!(e.to_string(), "Failed to get Java version: /jdk/bin/java");
}

#[test]
fn an_error_keeps_its_kind() {
    let e = Error::new(ErrorKind::GettingJavaVersionFailed("p".to_string()));
    assert!(matches!(&e.kind, ErrorKind::GettingJavaVersionFailed(p) if p == "p"));
    assert_eq!(
        format!("{:?}", e),
        "Error { kind: GettingJavaVersionFailed(\"p\") }"
    );
}
