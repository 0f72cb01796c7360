use rtk::gradle::{compile, deps, detekt, health, proto, test_filter};

// --- compile ---

#[test]
fn test_matches_compile_kotlin() {
    assert!(compile::matches_task("compileKotlin"));
}

#[test]
fn test_matches_compile_test_kotlin() {
    assert!(compile::matches_task("compileTestKotlin"));
}

#[test]
fn test_matches_compile_integration_test_kotlin() {
    assert!(compile::matches_task("compileIntegrationTestKotlin"));
}

#[test]
fn test_matches_compile_java() {
    assert!(compile::matches_task("compileJava"));
}

#[test]
fn test_matches_classes() {
    assert!(compile::matches_task("testClasses"));
    assert!(compile::matches_task("integrationTestClasses"));
}

#[test]
fn test_matches_android_variant_compile() {
    assert!(compile::matches_task("compileDebugKotlin"));
    assert!(compile::matches_task("compileReleaseJava"));
}

#[test]
fn compile_test_no_match_test() {
    assert!(!compile::matches_task("test"));
}

#[test]
fn test_no_match_detekt() {
    assert!(!compile::matches_task("detekt"));
}

#[test]
fn test_compile_matches_ignore_case() {
    assert!(compile::matches_task("COMPILEKOTLIN"));
    assert!(compile::matches_task("TestCLASSES"));
    assert!(!compile::matches_task("compile"));
    assert!(!compile::matches_task("compileScala"));
}

#[test]
fn test_filter_compile_passes_through() {
    assert_eq!(compile::filter_compile("e: error\nline 2"), "e: error\nline 2");
}

// --- deps ---

#[test]
fn test_deps_matches_task() {
    assert!(deps::matches_task("dependencies"));
    assert!(!deps::matches_task("Dependencies"));
    assert!(!deps::matches_task("dependencies2"));
}

#[test]
fn test_filter_deps_passes_through() {
    assert_eq!(deps::filter_deps("+--- a:b:1.0\n"), "+--- a:b:1.0\n");
}

// --- detekt ---

#[test]
fn test_matches_detekt() {
    assert!(detekt::matches_task("detekt"));
}

#[test]
fn test_matches_detekt_main() {
    assert!(detekt::matches_task("detektMain"));
}

#[test]
fn test_matches_detekt_test() {
    assert!(detekt::matches_task("detektTest"));
}

#[test]
fn test_matches_detekt_case_insensitive() {
    assert!(detekt::matches_task("Detekt"));
    assert!(detekt::matches_task("DetektMain"));
}

#[test]
fn detekt_test_no_match_test() {
    assert!(!detekt::matches_task("test"));
}

#[test]
fn detekt_test_no_match_compile() {
    assert!(!detekt::matches_task("compileKotlin"));
}

#[test]
fn test_filter_detekt_passes_through() {
    assert_eq!(detekt::filter_detekt("x"), "x");
}

// --- health ---

#[test]
fn test_health_matches_task() {
    assert!(health::matches_task("projectHealth"));
    assert!(health::matches_task("projectHealthReport"));
    assert!(!health::matches_task("ProjectHealth"));
    assert!(!health::matches_task("health"));
}

#[test]
fn test_filter_health_passes_through() {
    assert_eq!(health::filter_health(""), "");
}

// --- proto ---

#[test]
fn test_matches_build_protos() {
    assert!(proto::matches_task("buildProtos"));
}

#[test]
fn test_matches_generate_protos() {
    assert!(proto::matches_task("generateProtos"));
}

#[test]
fn test_matches_contains_proto() {
    assert!(proto::matches_task("extractProto"));
    assert!(proto::matches_task("generateTestProto"));
}

#[test]
fn test_matches_proto_case_insensitive() {
    assert!(proto::matches_task("BuildProtos"));
    assert!(proto::matches_task("GenerateProtos"));
}

#[test]
fn proto_test_no_match_test() {
    assert!(!proto::matches_task("test"));
}

#[test]
fn proto_test_no_match_compile() {
    assert!(!proto::matches_task("compileKotlin"));
}

#[test]
fn test_filter_proto_passes_through() {
    assert_eq!(proto::filter_proto("a\n\nb"), "a\n\nb");
}

// --- test_filter ---

#[test]
fn test_matches_test() {
    assert!(test_filter::matches_test_task("test"));
}

#[test]
fn test_filter_test_no_match_compile() {
    assert!(!test_filter::matches_test_task("compileTestKotlin"));
}

#[test]
fn test_matches_integration_test() {
    assert!(test_filter::matches_integration_task("integrationTest"));
}

#[test]
fn test_matches_component_test() {
    assert!(test_filter::matches_integration_task("componentTest"));
}

#[test]
fn test_integration_no_match_test() {
    assert!(!test_filter::matches_integration_task("test"));
}

#[test]
fn test_filter_test_passes_through() {
    assert_eq!(test_filter::filter_test("FAILED", true), "FAILED");
    assert_eq!(test_filter::filter_test("FAILED", false), "FAILED");
}
