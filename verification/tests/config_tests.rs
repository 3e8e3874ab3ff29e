use kotlin_analyzer::config::Config;
use kotlin_analyzer::config::FormattingTool;
use kotlin_analyzer::config::TraceLevel;

#[test]
fn test_default_config() {
    let config = Config::default();
    assert!(config.java_home.is_none());
    assert!(config.compiler_flags.is_empty());
    assert_eq!(config.formatting_tool, FormattingTool::Ktfmt);
    assert_eq!(config.formatting_style, "google");
    assert_eq!(config.sidecar_max_memory, "512m");
    assert_eq!(config.trace_server, TraceLevel::Off);
}

#[test]
fn default_formatting_tool_and_trace_level() {
    assert_eq!(FormattingTool::default(), FormattingTool::Ktfmt);
    assert_eq!(TraceLevel::default(), TraceLevel::Off);
}
