//! The command line: global flags and the subcommands.
use vstd::prelude::*;

verus! {

/// The parsed command line.
pub struct Cli {
    pub command: Option<Commands>,
    /// Enable verbose logging
    pub verbose: bool,
    /// Enable debug logging
    pub debug: bool,
    /// Enable trace logging
    pub trace: bool,
    /// Output in JSON format
    pub json: bool,
    /// Output in YAML format
    pub yaml: bool,
    /// Generate AI-friendly report with root-cause hints and remediation suggestions
    pub llm: bool,
}

/// The subcommands.
#[derive(Clone, Copy, PartialEq, Eq, Structural, Debug)]
pub enum Commands {
    /// Validate AI/ML stacks
    Ai,
    /// Display high-level system summary
    Summary,
    /// Detailed hardware diagnostics
    Hardware,
    /// Doctor mode for analyzing issues
    Doctor,
    /// Display network diagnostics
    Network,
    /// Launch the interactive colorful terminal dashboard
    Dashboard,
    /// Run all core diagnostic collectors
    All,
    /// Show top CPU/memory-consuming processes, optionally for N seconds
    Top { monitor_secs: Option<u64> },
    /// Show network packet statistics sampled over a window
    Packets { interval_secs: Option<u64> },
    /// List connected USB devices
    Usb,
    /// Inspect one process in detail
    Pidstat { pid: u32, duration_secs: u64 },
}

/// The output format asked for by the global flags.
#[derive(Clone, Copy, PartialEq, Eq, Structural, Debug)]
pub enum OutputFormat {
    Json,
    Yaml,
    Llm,
    Terminal,
}

impl Cli {
    /// `--json` wins over `--yaml`, which wins over `--llm`; the coloured
    /// terminal view otherwise.
    pub fn output_format(&self) -> (f: OutputFormat)
        ensures
            f == (if self.json {
                OutputFormat::Json
            } else if self.yaml {
                OutputFormat::Yaml
            } else if self.llm {
                OutputFormat::Llm
            } else {
                OutputFormat::Terminal
            }),
    {
        if self.json {
            OutputFormat::Json
        } else if self.yaml {
            OutputFormat::Yaml
        } else if self.llm {
            OutputFormat::Llm
        } else {
            OutputFormat::Terminal
        }
    }
}

} // verus!
