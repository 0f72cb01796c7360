use rtk::gradle::{
    choose_gradle_executable, detect_task_type, ensure_console_plain, gradle_executable_candidates,
    TaskType,
};

fn one(arg: &str) -> Vec<String> {
    vec![arg.to_string()]
}

#[test]
fn test_detect_compile_kotlin() {
    let args = one(":backend:backend-payments:compileKotlin");
    assert_eq!(detect_task_type(&args), TaskType::Compile);
}

#[test]
fn test_detect_compile_test_kotlin() {
    let args = one(":backend:backend-payments:compileTestKotlin");
    assert_eq!(detect_task_type(&args), TaskType::Compile);
}

#[test]
fn test_detect_compile_classes() {
    let args = one(":backend:backend-payments:testClasses");
    assert_eq!(detect_task_type(&args), TaskType::Compile);
}

#[test]
fn test_detect_test() {
    let args = one(":backend:backend-payments:test");
    assert_eq!(detect_task_type(&args), TaskType::Test);
}

#[test]
fn test_detect_integration_test() {
    let args = one(":backend:backend-payments:integrationTest");
    assert_eq!(detect_task_type(&args), TaskType::IntegrationTest);
}

#[test]
fn test_detect_component_test() {
    let args = one(":backend:backend-payments:componentTest");
    assert_eq!(detect_task_type(&args), TaskType::IntegrationTest);
}

#[test]
fn test_detect_detekt() {
    let args = one(":backend:backend-payments:detekt");
    assert_eq!(detect_task_type(&args), TaskType::Detekt);
}

#[test]
fn test_detect_detekt_main() {
    let args = one(":backend:backend-payments:detektMain");
    assert_eq!(detect_task_type(&args), TaskType::Detekt);
}

#[test]
fn test_detect_health() {
    let args = one(":backend:backend-payments:projectHealth");
    assert_eq!(detect_task_type(&args), TaskType::Health);
}

#[test]
fn test_detect_proto_build() {
    let args = one(":backend:backend-payments-api:buildProtos");
    assert_eq!(detect_task_type(&args), TaskType::Proto);
}

#[test]
fn test_detect_proto_generate() {
    let args = one(":backend:backend-payments-api:generateProtos");
    assert_eq!(detect_task_type(&args), TaskType::Proto);
}

#[test]
fn test_detect_deps() {
    let args = one(":backend:backend-payments:dependencies");
    assert_eq!(detect_task_type(&args), TaskType::Deps);
}

#[test]
fn test_detect_generic_unknown_task() {
    let args = one(":backend:backend-payments:assemble");
    assert_eq!(detect_task_type(&args), TaskType::Generic);
}

#[test]
fn test_detect_generic_no_task() {
    let args: Vec<String> = vec!["--help".to_string()];
    assert_eq!(detect_task_type(&args), TaskType::Generic);
}

#[test]
fn test_detect_skips_flags() {
    let args = vec![
        "--continue".to_string(),
        ":backend:backend-payments:test".to_string(),
        "--info".to_string(),
    ];
    assert_eq!(detect_task_type(&args), TaskType::Test);
}

#[test]
fn test_detect_multiple_same_type_returns_single() {
    let args = vec![
        ":backend:backend-payments:test".to_string(),
        ":backend:backend-orders:test".to_string(),
    ];
    assert_eq!(detect_task_type(&args), TaskType::Test);
}

#[test]
fn test_detect_multiple_different_types_returns_generic() {
    let args = vec![
        ":backend:backend-payments:test".to_string(),
        ":backend:backend-payments:detekt".to_string(),
    ];
    assert_eq!(detect_task_type(&args), TaskType::Generic);
}

#[test]
fn test_detect_empty_args_generic() {
    let args: Vec<String> = vec![];
    assert_eq!(detect_task_type(&args), TaskType::Generic);
}

#[test]
fn test_detect_bare_task_names() {
    assert_eq!(detect_task_type(&one("test")), TaskType::Test);
    assert_eq!(detect_task_type(&one("compileJava")), TaskType::Compile);
    assert_eq!(detect_task_type(&one("extractIncludeProto")), TaskType::Proto);
    assert_eq!(detect_task_type(&one(":app:")), TaskType::Generic);
    assert_eq!(detect_task_type(&one("-test")), TaskType::Generic);
}

#[test]
fn test_detect_order_independent_on_values() {
    let a = vec![":a:test".to_string(), "--info".to_string()];
    let b = vec![":b:detekt".to_string()];
    let ab: Vec<String> = a.iter().chain(b.iter()).cloned().collect();
    let ba: Vec<String> = b.iter().chain(a.iter()).cloned().collect();
    assert_eq!(detect_task_type(&ab), detect_task_type(&ba));
    assert_eq!(detect_task_type(&ab), TaskType::Generic);
}

#[test]
fn test_detect_flag_insertion_keeps_type() {
    let plain = vec![":a:compileKotlin".to_string(), ":b:testClasses".to_string()];
    let flagged = vec![
        ":a:compileKotlin".to_string(),
        "--test".to_string(),
        ":b:testClasses".to_string(),
    ];
    assert_eq!(detect_task_type(&plain), TaskType::Compile);
    assert_eq!(detect_task_type(&flagged), TaskType::Compile);
}

#[test]
fn test_console_plain_injected_when_missing() {
    let args = vec![":app:test".to_string()];
    let result = ensure_console_plain(&args);
    assert_eq!(result, vec![":app:test", "--console", "plain"]);
}

#[test]
fn test_console_plain_not_duplicated() {
    let args = vec!["--console".to_string(), "rich".to_string(), ":app:test".to_string()];
    let result = ensure_console_plain(&args);
    assert_eq!(result, args);
}

#[test]
fn test_console_plain_already_plain_not_duplicated() {
    let args = vec!["--console".to_string(), "plain".to_string(), ":app:test".to_string()];
    let result = ensure_console_plain(&args);
    assert_eq!(result, args);
}

#[test]
fn test_console_equals_form_not_duplicated() {
    let args = vec!["--console=plain".to_string(), ":app:test".to_string()];
    let result = ensure_console_plain(&args);
    assert_eq!(result, args);
}

#[test]
fn test_console_plain_idempotent_on_values() {
    let args = vec![":app:build".to_string(), "--consoles".to_string()];
    let once = ensure_console_plain(&args);
    assert_eq!(once, vec![":app:build", "--consoles", "--console", "plain"]);
    assert_eq!(ensure_console_plain(&once), once);
}

#[test]
fn test_gradle_executable_candidates() {
    assert_eq!(
        gradle_executable_candidates(),
        vec!["./gradlew", "../gradlew", "../../gradlew", "../../../gradlew"]
    );
}

#[test]
fn test_choose_gradle_executable() {
    assert_eq!(choose_gradle_executable(&[true, true, false, false]), "./gradlew");
    assert_eq!(choose_gradle_executable(&[false, false, true, true]), "../../gradlew");
    assert_eq!(choose_gradle_executable(&[false, false, false, true]), "../../../gradlew");
    assert_eq!(choose_gradle_executable(&[false, false, false, false]), "gradle");
    assert_eq!(choose_gradle_executable(&[]), "gradle");
    assert_eq!(choose_gradle_executable(&[false, false, false, false, true]), "gradle");
}
