use canopus::projects::{
    check_project_save, summarize_project_names, validate_project_names, Project, ProjectConfig,
    ProjectValidationSummary, PROJECT_NAME_ERROR,
};

fn project(name: &str) -> Project {
    Project { name: name.to_string(), service_ids: vec![] }
}

fn config(names: &[&str]) -> ProjectConfig {
    ProjectConfig { projects: names.iter().map(|name| project(name)).collect() }
}

#[test]
fn proj004_none_is_reserved() {
    let err = validate_project_names(&[project("__none__")]).unwrap_err();
    assert_eq!(err.code, "PROJ004");
    assert!(err.message.contains("__none__"));
}

#[test]
fn proj004_new_is_reserved() {
    let err = validate_project_names(&[project("__new__")]).unwrap_err();
    assert_eq!(err.code, "PROJ004");
    assert!(err.message.contains("__new__"));
}

#[test]
fn proj004_trimmed_spaces_detected() {
    let err = validate_project_names(&[project("  __none__  ")]).unwrap_err();
    assert_eq!(err.code, "PROJ004");
}

#[test]
fn proj004_valid_name_accepted() {
    validate_project_names(&[project("my-project")]).expect("valid name must pass");
}

#[test]
fn proj004_blank_name_rejected() {
    let err = validate_project_names(&[project("   ")]).unwrap_err();
    assert_eq!(err.code, "PROJ004");
    assert!(err.message.contains("Blank project name"));
}

#[test]
fn proj004_empty_name_rejected() {
    let err = validate_project_names(&[project("")]).unwrap_err();
    assert_eq!(err.code, "PROJ004");
    assert!(err.message.contains("Blank project name"));
}

#[test]
fn proj004_second_project_reserved() {
    let err = validate_project_names(&[project("valid"), project("__new__")]).unwrap_err();
    assert_eq!(err.code, "PROJ004");
}

#[test]
fn proj004_exact_duplicate_rejected() {
    let err = validate_project_names(&[project("alpha"), project("alpha")]).unwrap_err();
    assert_eq!(err.code, "PROJ004");
    assert!(err.message.contains("Duplicate project name"));
}

#[test]
fn proj004_case_only_duplicate_rejected() {
    let err = validate_project_names(&[project("Alpha"), project(" alpha ")]).unwrap_err();
    assert_eq!(err.code, "PROJ004");
    assert!(err.message.contains("alpha"));
}

#[test]
fn summarize_project_names_counts_invalid_entries() {
    let summary = summarize_project_names(&[
        project("   "),
        project("__none__"),
        project("Alpha"),
        project(" alpha "),
    ]);

    assert_eq!(summary.blank_names, 1);
    assert_eq!(summary.reserved_names, 1);
    assert_eq!(summary.duplicate_names, 1);
    assert_eq!(summary.score(), 3);
}

#[test]
fn validate_project_save_allows_corrective_save_from_reserved_legacy_config() {
    let legacy = config(&["__none__", "valid"]);
    let repaired = config(&["fixed", "valid"]);
    check_project_save(&repaired, &legacy)
        .expect("repairing reserved project name should be allowed");
}

#[test]
fn validate_project_save_rejects_non_corrective_save_from_reserved_legacy_config() {
    let legacy = config(&["__none__", "valid"]);
    let still_invalid = config(&["__none__", "valid", "another"]);
    let err = check_project_save(&still_invalid, &legacy)
        .expect_err("save that leaves invalidity unchanged should fail");
    assert_eq!(err.code, "PROJ004");
}

#[test]
fn validate_project_save_allows_duplicate_repair() {
    let legacy = config(&["Alpha", " alpha "]);
    let repaired = config(&["Alpha", "beta"]);
    check_project_save(&repaired, &legacy)
        .expect("repairing duplicate project names should be allowed");
}

#[test]
fn validate_project_save_allows_incremental_fix_when_other_error_categories_remain() {
    let legacy = config(&["__none__", "Alpha", " alpha "]);
    let repaired = config(&["__none__", "beta"]);
    check_project_save(&repaired, &legacy).expect(
        "repair that reduces invalidity without worsening any category should be allowed",
    );
}

#[test]
fn validate_project_save_allows_partial_fix_that_keeps_other_error_types_unchanged() {
    let legacy = config(&["__none__", "Alpha", " alpha "]);
    let partial_fix = config(&["__new__", "beta"]);
    check_project_save(&partial_fix, &legacy).expect(
        "save that improves one invalidity category without worsening others should be allowed",
    );
}

#[test]
fn validate_project_save_rejects_fix_that_introduces_new_error_category() {
    let legacy = config(&["Alpha", " alpha "]);
    let introduces_reserved = config(&["__none__", "beta"]);
    let err = check_project_save(&introduces_reserved, &legacy)
        .expect_err("save that introduces reserved name should fail");
    assert_eq!(err.code, "PROJ004");
}

#[test]
fn project_name_messages_are_exact() {
    let err = validate_project_names(&[project("ok"), project("  __new__ ")]).unwrap_err();
    assert_eq!(err.code, PROJECT_NAME_ERROR);
    assert_eq!(err.message, "Reserved project name '__new__' is not allowed");

    let err = validate_project_names(&[project("Beta"), project("BETA")]).unwrap_err();
    assert_eq!(err.message, "Duplicate project name 'BETA' is not allowed");

    let err = validate_project_names(&[project("x"), project("\t")]).unwrap_err();
    assert_eq!(err.message, "Blank project name is not allowed");
}

#[test]
fn first_problem_wins_over_later_ones() {
    let err = validate_project_names(&[project("a"), project("A"), project("")]).unwrap_err();
    assert!(err.message.starts_with("Duplicate"));
}

#[test]
fn blank_names_are_not_counted_as_duplicates() {
    let summary = summarize_project_names(&[project(""), project("  "), project("x")]);
    assert_eq!(
        summary,
        ProjectValidationSummary { blank_names: 2, reserved_names: 0, duplicate_names: 0 }
    );
    let summary = summarize_project_names(&[project("__none__"), project("__NONE__")]);
    assert_eq!(
        summary,
        ProjectValidationSummary { blank_names: 0, reserved_names: 1, duplicate_names: 1 }
    );
}

#[test]
fn corrective_needs_strict_improvement() {
    let a = ProjectValidationSummary { blank_names: 1, reserved_names: 1, duplicate_names: 0 };
    assert!(!a.is_corrective_from(a));
    let b = ProjectValidationSummary { blank_names: 0, reserved_names: 1, duplicate_names: 0 };
    assert!(b.is_corrective_from(a));
    let c = ProjectValidationSummary { blank_names: 0, reserved_names: 0, duplicate_names: 1 };
    assert!(!c.is_corrective_from(a));
}

#[test]
fn valid_save_accepted_regardless_of_existing() {
    let existing = config(&[]);
    check_project_save(&config(&["one", "two"]), &existing).expect("valid config is accepted");
    let err = check_project_save(&config(&["", "two"]), &existing).unwrap_err();
    assert_eq!(err.message, "Blank project name is not allowed");
}
