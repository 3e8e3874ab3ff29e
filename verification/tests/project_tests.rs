use kotlin_analyzer::cli::parse_log_file;
use kotlin_analyzer::cli::parse_log_level;
use kotlin_analyzer::config::Config;
use kotlin_analyzer::project::absolutize_paths;
use kotlin_analyzer::project::build_manual_model;
use kotlin_analyzer::project::build_maven_model;
use kotlin_analyzer::project::build_stdlib_model;
use kotlin_analyzer::project::detect_build_system;
use kotlin_analyzer::project::filter_existing;
use kotlin_analyzer::project::find_gradle_wrapper;
use kotlin_analyzer::project::find_project_root;
use kotlin_analyzer::project::gradle_failure;
use kotlin_analyzer::project::maven_failure;
use kotlin_analyzer::project::parse_gradle_output;
use kotlin_analyzer::project::parse_maven_classpath;
use kotlin_analyzer::project::resolve_project;
use kotlin_analyzer::project::BuildMarkers;
use kotlin_analyzer::project::BuildSystem;
use kotlin_analyzer::project::ProjectModel;
use kotlin_analyzer::project::ResolutionStep;
use kotlin_analyzer::errors::ProjectError;

fn no_markers() -> BuildMarkers {
    BuildMarkers {
        build_gradle_kts: false,
        build_gradle: false,
        settings_gradle_kts: false,
        settings_gradle: false,
        pom_xml: false,
        manual_config: false,
        git_dir: false,
    }
}

#[test]
fn detect_gradle_kts() {
    let m = BuildMarkers { build_gradle_kts: true, ..no_markers() };
    assert_eq!(detect_build_system(&m), BuildSystem::Gradle);
}

#[test]
fn detect_gradle_groovy() {
    let m = BuildMarkers { build_gradle: true, ..no_markers() };
    assert_eq!(detect_build_system(&m), BuildSystem::Gradle);
}

#[test]
fn detect_maven() {
    let m = BuildMarkers { pom_xml: true, ..no_markers() };
    assert_eq!(detect_build_system(&m), BuildSystem::Maven);
}

#[test]
fn detect_no_build_system() {
    assert_eq!(detect_build_system(&no_markers()), BuildSystem::Absent);
}

#[test]
fn parse_gradle_output_parses_all_sections() {
    let output = r#"
---KOTLIN-ANALYZER-START---
SOURCE_ROOT=/project/src/main/kotlin
CLASSPATH=/lib/kotlin-stdlib-2.1.20.jar
CLASSPATH=/lib/kotlinx-coroutines-core-1.8.0.jar
COMPILER_FLAG=-Xcontext-parameters
KOTLIN_VERSION=2.1.20
---KOTLIN-ANALYZER-END---
"#;
    let config = Config::default();
    let model = parse_gradle_output(output, "/project", &config).unwrap();
    assert_eq!(model.source_roots.len(), 1);
    assert_eq!(model.classpath.len(), 2);
    assert_eq!(model.compiler_flags, vec!["-Xcontext-parameters"]);
    assert_eq!(model.kotlin_version, Some("2.1.20".into()));
}

#[test]
fn parse_gradle_output_merges_config_flags() {
    let output = r#"
---KOTLIN-ANALYZER-START---
COMPILER_FLAG=-Xcontext-parameters
---KOTLIN-ANALYZER-END---
"#;
    let config = Config {
        compiler_flags: vec![
            "-Xcontext-parameters".into(), // duplicate
            "-Xmulti-dollar-interpolation".into(),
        ],
        ..Config::default()
    };
    let model = parse_gradle_output(output, "/project", &config).unwrap();
    assert_eq!(model.compiler_flags.len(), 2);
}

#[test]
fn no_build_system_model() {
    let model = ProjectModel::no_build_system("/project".into());
    assert_eq!(model.build_system, BuildSystem::Absent);
    assert!(model.classpath.is_empty());
}

#[test]
fn manual_config_overrides_detection() {
    // even with a gradle build file present, the manual file wins
    let markers = BuildMarkers { build_gradle_kts: true, manual_config: true, ..no_markers() };
    assert_eq!(resolve_project(true, &markers), ResolutionStep::UseManualConfig);

    let config = Config::default();
    let model = build_manual_model(
        "/project",
        Vec::new(),
        Vec::new(),
        vec!["-Xcontext-parameters".into()],
        Some("2.1.20".into()),
        None,
        &config,
    );
    assert_eq!(model.compiler_flags, vec!["-Xcontext-parameters"]);
    assert_eq!(model.kotlin_version, Some("2.1.20".into()));
}

#[test]
fn manual_config_relative_paths() {
    let resolved = absolutize_paths("/project", &vec!["src".into(), "/abs/lib".into()]);
    assert_eq!(resolved, vec!["/project/src".to_string(), "/abs/lib".to_string()]);
    // only the entries that exist on disk survive
    let kept = filter_existing(resolved, &vec![true, false]);
    assert_eq!(kept, vec!["/project/src".to_string()]);
}

#[test]
fn manual_config_merges_lsp_flags() {
    let config = Config {
        compiler_flags: vec!["-Xmulti-dollar-interpolation".into()],
        ..Config::default()
    };
    let model = build_manual_model(
        "/project",
        Vec::new(),
        Vec::new(),
        vec!["-Xcontext-parameters".into()],
        None,
        None,
        &config,
    );
    assert_eq!(model.compiler_flags.len(), 2);
}

#[test]
fn parse_gradle_output_multi_module() {
    let output = r#"
---KOTLIN-ANALYZER-START---
SOURCE_ROOT=/project/common/src/main/kotlin
CLASSPATH=/lib/spring-context.jar
COMPILER_FLAG=-Xcontext-parameters
---KOTLIN-ANALYZER-END---
---KOTLIN-ANALYZER-START---
SOURCE_ROOT=/project/app/src/main/kotlin
CLASSPATH=/lib/spring-boot-starter-web.jar
KOTLIN_VERSION=2.1.20
---KOTLIN-ANALYZER-END---
"#;
    let config = Config::default();
    let model = parse_gradle_output(output, "/project", &config).unwrap();
    assert_eq!(model.source_roots.len(), 2);
    assert_eq!(model.classpath.len(), 2);
    assert_eq!(model.compiler_flags, vec!["-Xcontext-parameters"]);
    assert_eq!(model.kotlin_version, Some("2.1.20".into()));
}

#[test]
fn parse_gradle_output_with_errors() {
    let output = r#"
---KOTLIN-ANALYZER-START---
SOURCE_ROOT=/project/src/main/kotlin
CLASSPATH_ERROR=Cannot resolve configuration 'compileClasspath'
KOTLIN_VERSION_ERROR=Could not resolve buildscript classpath
COMPILER_FLAG=-Xcontext-parameters
---KOTLIN-ANALYZER-END---
"#;
    let config = Config::default();
    let model = parse_gradle_output(output, "/project", &config).unwrap();
    assert_eq!(model.source_roots.len(), 1);
    assert!(model.classpath.is_empty());
    assert_eq!(model.compiler_flags, vec!["-Xcontext-parameters"]);
    assert_eq!(model.kotlin_version, None);
}

#[test]
fn parse_gradle_output_multi_module_compose_and_generated() {
    let output = r#"
---KOTLIN-ANALYZER-START---
SOURCE_ROOT=/project/app/src/main/kotlin
HAS_COMPOSE=true
---KOTLIN-ANALYZER-END---
---KOTLIN-ANALYZER-START---
SOURCE_ROOT=/project/lib/src/main/kotlin
GENERATED_SOURCE_ROOT=/project/lib/build/generated/ksp/main/kotlin
---KOTLIN-ANALYZER-END---
"#;
    let config = Config::default();
    let model = parse_gradle_output(output, "/project", &config).unwrap();
    assert_eq!(model.source_roots.len(), 2);
    assert!(model.has_compose);
    assert_eq!(model.generated_source_roots.len(), 1);
}

#[test]
fn resolver_tagged_output_literal() {
    // the tagged-output scenario: two classpath entries, one build
    // flag, and a version, merged with two configured flags
    let output = "---KOTLIN-ANALYZER-START---\nSOURCE_ROOT=/p/src\nCLASSPATH=/l/a.jar\nCLASSPATH=/l/b.jar\nCOMPILER_FLAG=-Xflag\nKOTLIN_VERSION=1.2.3\n---KOTLIN-ANALYZER-END---\n";
    let config = Config {
        compiler_flags: vec!["-Xflag".into(), "-Xother".into()],
        ..Config::default()
    };
    let model = parse_gradle_output(output, "/p", &config).unwrap();
    assert_eq!(model.source_roots, vec!["/p/src".to_string()]);
    assert_eq!(model.classpath, vec!["/l/a.jar".to_string(), "/l/b.jar".to_string()]);
    assert_eq!(model.compiler_flags, vec!["-Xflag".to_string(), "-Xother".to_string()]);
    assert_eq!(model.kotlin_version, Some("1.2.3".into()));
}

#[test]
fn parse_gradle_output_twice_gives_equal_models() {
    let output = "---KOTLIN-ANALYZER-START---\nCOMPILER_FLAG=-Xflag\nSOURCE_ROOT=/p/src\n---KOTLIN-ANALYZER-END---\n";
    let config = Config { compiler_flags: vec!["-Xflag".into()], ..Config::default() };
    let m1 = parse_gradle_output(output, "/p", &config).unwrap();
    let m2 = parse_gradle_output(output, "/p", &config).unwrap();
    assert_eq!(m1.source_roots, m2.source_roots);
    assert_eq!(m1.classpath, m2.classpath);
    assert_eq!(m1.compiler_flags, m2.compiler_flags);
    assert_eq!(m1.kotlin_version, m2.kotlin_version);
}

#[test]
fn find_project_root_from_source_dir() {
    // markers of src/main/kotlin/com/example, then of each parent up
    // to the root that holds the build file
    let ancestors = vec![
        no_markers(),
        no_markers(),
        no_markers(),
        no_markers(),
        BuildMarkers { build_gradle_kts: true, ..no_markers() },
    ];
    assert_eq!(find_project_root(&ancestors), Some(4));
}

#[test]
fn find_project_root_already_at_root() {
    let ancestors = vec![BuildMarkers { build_gradle_kts: true, ..no_markers() }];
    assert_eq!(find_project_root(&ancestors), Some(0));
}

#[test]
fn find_project_root_git_fallback() {
    let ancestors = vec![no_markers(), BuildMarkers { git_dir: true, ..no_markers() }];
    assert_eq!(find_project_root(&ancestors), Some(1));
}

#[test]
fn find_project_root_no_marker() {
    // without any markers the caller keeps the starting path
    let ancestors = vec![no_markers(), no_markers(), no_markers()];
    assert_eq!(find_project_root(&ancestors), None);
}

#[test]
fn find_project_root_settings_gradle() {
    let ancestors = vec![
        no_markers(),
        no_markers(),
        no_markers(),
        BuildMarkers { settings_gradle_kts: true, ..no_markers() },
    ];
    assert_eq!(find_project_root(&ancestors), Some(3));
}

#[test]
fn resolution_order_without_manual_config() {
    assert_eq!(
        resolve_project(false, &BuildMarkers { build_gradle: true, ..no_markers() }),
        ResolutionStep::RunGradle
    );
    assert_eq!(
        resolve_project(false, &BuildMarkers { pom_xml: true, ..no_markers() }),
        ResolutionStep::RunMaven
    );
    assert_eq!(resolve_project(false, &no_markers()), ResolutionStep::StdlibOnly);
}

#[test]
fn maven_classpath_splits_and_drops_empties() {
    let stdout = "/lib/a.jar:/lib/b.jar\n\n/lib/c.jar:\n";
    let entries = parse_maven_classpath(stdout);
    assert_eq!(
        entries,
        vec!["/lib/a.jar".to_string(), "/lib/b.jar".to_string(), "/lib/c.jar".to_string()]
    );
}

#[test]
fn maven_model_uses_existing_source_roots() {
    let config = Config::default();
    let model = build_maven_model("/project", vec!["/lib/a.jar".into()], true, false, &config);
    assert_eq!(model.build_system, BuildSystem::Maven);
    assert_eq!(model.source_roots, vec!["/project/src/main/kotlin".to_string()]);
    assert_eq!(model.classpath, vec!["/lib/a.jar".to_string()]);
}

#[test]
fn stdlib_model_scans_conventional_directories() {
    let config = Config { compiler_flags: vec!["-Xflag".into()], ..Config::default() };
    let model = build_stdlib_model("/project", &vec![false, false, true], &config);
    assert_eq!(model.build_system, BuildSystem::Absent);
    assert_eq!(model.source_roots, vec!["/project/src".to_string()]);
    assert_eq!(model.compiler_flags, vec!["-Xflag".to_string()]);
    assert!(model.classpath.is_empty());
}

#[test]
fn gradle_wrapper_choice() {
    assert_eq!(find_gradle_wrapper("/p", true, false), "/p/gradlew");
    assert_eq!(find_gradle_wrapper("/p", true, true), "/p/gradlew.bat");
    assert_eq!(find_gradle_wrapper("/p", false, false), "gradle");
}

#[test]
fn build_tool_failures_carry_truncated_stderr() {
    let e = gradle_failure("exit status: 1", "boom");
    assert!(matches!(e, ProjectError::GradleFailed(m) if m == "Gradle exited with exit status: 1: boom"));
    let long = "x".repeat(600);
    let e2 = maven_failure("exit status: 2", &long);
    match e2 {
        ProjectError::ClasspathExtraction(m) => {
            assert_eq!(m, format!("Maven exited with exit status: 2: {}", "x".repeat(500)));
        }
        other => panic!("expected ClasspathExtraction, got {:?}", other),
    }
}

#[test]
fn log_level_parsing() {
    let args: Vec<String> = vec!["prog".into(), "--log-level".into(), "debug".into()];
    assert_eq!(parse_log_level(&args), "debug");
    let args2: Vec<String> = vec!["prog".into(), "--log-level=trace".into()];
    assert_eq!(parse_log_level(&args2), "trace");
    let args3: Vec<String> = vec!["prog".into()];
    assert_eq!(parse_log_level(&args3), "info");
    let args4: Vec<String> = vec!["prog".into(), "--log-level".into()];
    assert_eq!(parse_log_level(&args4), "info");
}

#[test]
fn log_file_parsing() {
    let args: Vec<String> = vec!["prog".into(), "--log-file".into(), "/tmp/kt.log".into()];
    assert_eq!(parse_log_file(&args), Some("/tmp/kt.log".to_string()));
    let args2: Vec<String> = vec!["prog".into(), "--log-file=/var/l.log".into()];
    assert_eq!(parse_log_file(&args2), Some("/var/l.log".to_string()));
    let args3: Vec<String> = vec!["prog".into()];
    assert_eq!(parse_log_file(&args3), None);
    let args4: Vec<String> = vec!["prog".into(), "--log-file".into()];
    assert_eq!(parse_log_file(&args4), None);
}

#[test]
fn parse_gradle_output_dedupes_flags_across_blocks() {
    let output = r#"
---KOTLIN-ANALYZER-START---
COMPILER_FLAG=-Xcontext-parameters
COMPILER_FLAG=-Xjsr305=strict
---KOTLIN-ANALYZER-END---
---KOTLIN-ANALYZER-START---
COMPILER_FLAG=-Xcontext-parameters
---KOTLIN-ANALYZER-END---
"#;
    let config = Config::default();
    let model = parse_gradle_output(output, "/project", &config).unwrap();
    assert_eq!(
        model.compiler_flags,
        vec!["-Xcontext-parameters".to_string(), "-Xjsr305=strict".to_string()]
    );
}
