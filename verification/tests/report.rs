use des_kernel::report::CreateAttempt;
use des_kernel::report::CreateResolution;
use des_kernel::report::ReporterConfiguration;
use std::path::PathBuf;

fn configuration(prefix: &str, directory: &str, overwrite: bool) -> ReporterConfiguration {
    ReporterConfiguration::new(prefix.to_string(), PathBuf::from(directory), overwrite)
}

#[test]
fn new_configuration_holds_its_parts() {
    let made = configuration("run1_", "/data/reports", true);
    assert_eq!(made.file_prefix, "run1_");
    assert_eq!(made.output_directory, PathBuf::from("/data/reports"));
    assert!(made.overwrite);
    let plain = configuration("", ".", false);
    assert_eq!(plain.file_prefix, "");
    assert_eq!(plain.output_directory, PathBuf::from("."));
    assert!(!plain.overwrite);
}

#[test]
fn plain_configuration_has_no_prefix_and_does_not_overwrite() {
    let plain = ReporterConfiguration::in_directory(PathBuf::from("/data/reports"));
    assert_eq!(plain.file_prefix, "");
    assert_eq!(plain.output_directory, PathBuf::from("/data/reports"));
    assert!(!plain.overwrite);
    assert_eq!(plain.generate_filename("incidence"), PathBuf::from("/data/reports/incidence.csv"));
}

#[test]
fn basename_is_prefix_then_report_name() {
    assert_eq!(configuration("run1_", "/data", false).basename("incidence"), "run1_incidence");
    assert_eq!(configuration("", "/data", false).basename("incidence"), "incidence");
    assert_eq!(configuration("run1_", "/data", false).basename(""), "run1_");
}

#[test]
fn filename_is_basename_in_the_directory_with_csv_extension() {
    assert_eq!(
        configuration("run1_", "/data/reports", false).generate_filename("incidence"),
        PathBuf::from("/data/reports/run1_incidence.csv")
    );
    assert_eq!(
        configuration("", "out", false).generate_filename("deaths"),
        PathBuf::from("out/deaths.csv")
    );
}

#[test]
fn extension_of_the_basename_is_replaced() {
    assert_eq!(
        configuration("v1.2_", "out", false).generate_filename("incidence"),
        PathBuf::from("out/v1.csv")
    );
    assert_eq!(
        configuration("", "out", false).generate_filename("deaths.txt"),
        PathBuf::from("out/deaths.csv")
    );
}

#[test]
fn absolute_basename_replaces_the_directory() {
    assert_eq!(
        configuration("/var/run1_", "out", false).generate_filename("deaths"),
        PathBuf::from("/var/run1_deaths.csv")
    );
}

#[test]
fn created_file_is_written_to() {
    for overwrite in [false, true] {
        assert_eq!(
            configuration("", ".", overwrite).resolve_create(CreateAttempt::Created),
            CreateResolution::Proceed
        );
    }
}

#[test]
fn existing_file_is_overwritten_only_on_request() {
    assert_eq!(
        configuration("", ".", true).resolve_create(CreateAttempt::AlreadyExists),
        CreateResolution::Overwrite
    );
    assert_eq!(
        configuration("", ".", false).resolve_create(CreateAttempt::AlreadyExists),
        CreateResolution::RefuseExisting
    );
}

#[test]
fn failed_attempt_fails() {
    for overwrite in [false, true] {
        assert_eq!(
            configuration("", ".", overwrite).resolve_create(CreateAttempt::Failed),
            CreateResolution::Fail
        );
    }
}
