use vstd::prelude::*;

verus! {

/// User-facing configuration of the server.
#[derive(Debug, Clone, PartialEq)]
pub struct Config {
    pub java_home: Option<String>,
    pub compiler_flags: Vec<String>,
    pub formatting_tool: FormattingTool,
    pub formatting_style: String,
    pub sidecar_max_memory: String,
    pub trace_server: TraceLevel,
}

#[derive(Debug, Clone, Copy, PartialEq, Eq, Structural)]
pub enum FormattingTool {
    Ktfmt,
    Ktlint,
    Disabled,
}

#[derive(Debug, Clone, Copy, PartialEq, Eq, Structural)]
pub enum TraceLevel {
    Off,
    Messages,
    Verbose,
}

impl Default for Config {
    /// The configuration used until the editor supplies one.
    fn default() -> (c: Config)
        ensures
            c.java_home is None,
            c.compiler_flags@.len() == 0,
            c.formatting_tool == FormattingTool::Ktfmt,
            c.formatting_style@ == "google"@,
            c.sidecar_max_memory@ == "512m"@,
            c.trace_server == TraceLevel::Off,
    {
        Config {
            java_home: None,
            compiler_flags: Vec::new(),
            formatting_tool: FormattingTool::Ktfmt,
            formatting_style: String::from_str("google"),
            sidecar_max_memory: String::from_str("512m"),
            trace_server: TraceLevel::Off,
        }
    }
}

impl Default for FormattingTool {
    fn default() -> (t: FormattingTool)
        ensures
            t == FormattingTool::Ktfmt,
    {
        FormattingTool::Ktfmt
    }
}

impl Default for TraceLevel {
    fn default() -> (t: TraceLevel)
        ensures
            t == TraceLevel::Off,
    {
        TraceLevel::Off
    }
}

} // verus!
