//! Doctor mode: which probes of the machine to run, in which order, the
//! issues that their results point to, and the Markdown report of them.
//!
//! The probes themselves (looking up programs on the PATH, running them,
//! resolving names, opening sockets) are done by the caller: it asks
//! `DoctorProbes::next_probe` what to find out next, records the answer
//! with `DoctorProbes::answer`, and when nothing is left asks for the issues.
use vstd::prelude::*;

use crate::text::{
    chars_of, contains, contains_str, dec, escape_free, lemma_dec_escape_free,
    lemma_escape_free_concat, push_all, push_decimal, push_str, string_of, trim, trimmed,
};

verus! {

/// How serious an issue is.
#[allow(non_camel_case_types)]
#[derive(Clone, Copy, PartialEq, Eq, Structural, Debug)]
pub enum Severity {
    INFO,
    WARNING,
    ERROR,
    CRITICAL,
}

impl Severity {
    /// The name printed for the severity.
    pub open spec fn name_text(self) -> Seq<char> {
        match self {
            Severity::INFO => "INFO"@,
            Severity::WARNING => "WARNING"@,
            Severity::ERROR => "ERROR"@,
            Severity::CRITICAL => "CRITICAL"@,
        }
    }

    /// The name printed for the severity (what `Display` prints).
    pub fn as_str(&self) -> (s: &'static str)
        ensures
            s@ == self.name_text(),
    {
        match self {
            Severity::INFO => "INFO",
            Severity::WARNING => "WARNING",
            Severity::ERROR => "ERROR",
            Severity::CRITICAL => "CRITICAL",
        }
    }

    /// The icon shown before an issue of this severity.
    pub fn icon(&self) -> (s: &'static str)
        ensures
            s@ == (match self {
                Severity::CRITICAL => "🚨"@,
                Severity::ERROR => "❌"@,
                Severity::WARNING => "⚠️ "@,
                Severity::INFO => "ℹ️ "@,
            }),
    {
        match self {
            Severity::CRITICAL => "🚨",
            Severity::ERROR => "❌",
            Severity::WARNING => "⚠️ ",
            Severity::INFO => "ℹ️ ",
        }
    }
}

/// A problem found on the machine, with its likely cause and a fix.
pub struct DiagnosticIssue {
    pub id: String,
    pub severity: Severity,
    pub title: String,
    pub description: String,
    pub probable_cause: String,
    pub remediation: String,
}

/// The text of an issue.
pub struct IssueView {
    pub id: Seq<char>,
    pub severity: Severity,
    pub title: Seq<char>,
    pub description: Seq<char>,
    pub probable_cause: Seq<char>,
    pub remediation: Seq<char>,
}

impl View for DiagnosticIssue {
    type V = IssueView;

    open spec fn view(&self) -> IssueView {
        IssueView {
            id: self.id@,
            severity: self.severity,
            title: self.title@,
            description: self.description@,
            probable_cause: self.probable_cause@,
            remediation: self.remediation@,
        }
    }
}

/// The issues that doctor mode knows.
#[derive(Clone, Copy, PartialEq, Eq, Structural, Debug)]
pub enum IssueKind {
    MissingCompiler,
    MissingRust,
    DockerPermissionDenied,
    MissingDocker,
    MissingCudaNvcc,
    PytorchCpuOnlyWithGpu,
    OllamaServiceStopped,
    DnsResolutionFailure,
    NetworkFullyOffline,
}

/// The text of each issue; the Ollama one names the address that could not
/// be reached.
pub open spec fn issue_view(kind: IssueKind, ollama_host: Seq<char>) -> IssueView {
    match kind {
        IssueKind::MissingCompiler => IssueView {
            id: "missing_compiler"@,
            severity: Severity::CRITICAL,
            title: "C/C++ Compiler Not Found"@,
            description: "No native compiler (gcc/clang) was detected on the system PATH."@,
            probable_cause: "Development essential packages are not installed on this host."@,
            remediation: "Install development tools: 'sudo apt install build-essential' (Debian/Ubuntu) or 'sudo dnf groupinstall \"Development Tools\"' (RedHat/Fedora)."@,
        },
        IssueKind::MissingRust => IssueView {
            id: "missing_rust"@,
            severity: Severity::INFO,
            title: "Rust Compiler (rustc) Not Found"@,
            description: "Rust compiler and cargo are missing from your system PATH."@,
            probable_cause: "Rust toolchain is either not installed or not active in the current shell environment."@,
            remediation: "Install Rust via rustup: 'curl --proto \"=https\" --tlsv1.2 -sSf https://sh.rustup.rs | sh' and source ~/.cargo/env"@,
        },
        IssueKind::DockerPermissionDenied => IssueView {
            id: "docker_permission_denied"@,
            severity: Severity::ERROR,
            title: "Docker Socket Permission Denied"@,
            description: "Docker command-line tool is installed, but your current user cannot access /var/run/docker.sock."@,
            probable_cause: "Your user is not a member of the 'docker' system group."@,
            remediation: "Add your user to the docker group: 'sudo usermod -aG docker $USER' and restart your session."@,
        },
        IssueKind::MissingDocker => IssueView {
            id: "missing_docker"@,
            severity: Severity::INFO,
            title: "Docker Container Runtime Missing"@,
            description: "No local docker or podman execution binary detected."@,
            probable_cause: "Container tooling is not configured or installed on this workstation."@,
            remediation: "Install Docker Engine from: https://docs.docker.com/engine/install/"@,
        },
        IssueKind::MissingCudaNvcc => IssueView {
            id: "missing_cuda_nvcc"@,
            severity: Severity::WARNING,
            title: "CUDA Compiler (NVCC) Not in PATH"@,
            description: "NVIDIA driver is active, but CUDA Compiler (nvcc) is not accessible."@,
            probable_cause: "CUDA Toolkit is either not installed, or /usr/local/cuda/bin is missing from your PATH environment variable."@,
            remediation: "Add CUDA to PATH: 'export PATH=/usr/local/cuda/bin:$PATH' and 'export LD_LIBRARY_PATH=/usr/local/cuda/lib64:$LD_LIBRARY_PATH' in ~/.bashrc or ~/.zshrc."@,
        },
        IssueKind::PytorchCpuOnlyWithGpu => IssueView {
            id: "pytorch_cpu_only_with_gpu"@,
            severity: Severity::ERROR,
            title: "PyTorch Using CPU on GPU Host"@,
            description: "An NVIDIA GPU and driver are present, but PyTorch is running in CPU-only mode."@,
            probable_cause: "PyTorch was installed without CUDA acceleration support (likely via standard pip install of default CPU wheels)."@,
            remediation: "Reinstall PyTorch with CUDA: 'pip3 install torch torchvision --index-url https://download.pytorch.org/whl/cu121'"@,
        },
        IssueKind::OllamaServiceStopped => IssueView {
            id: "ollama_service_stopped"@,
            severity: Severity::WARNING,
            title: "Ollama Local Service Stopped"@,
            description: "Ollama CLI is installed, but the local background server on "@ + ollama_host
                + " is unreachable."@,
            probable_cause: "Ollama background service is either stopped or has not been started yet."@,
            remediation: "Start the Ollama background service: 'systemctl start ollama' (Linux) or run the 'ollama serve' command manually."@,
        },
        IssueKind::DnsResolutionFailure => IssueView {
            id: "dns_resolution_failure"@,
            severity: Severity::ERROR,
            title: "DNS Resolution Fails"@,
            description: "IP routing is online, but hostname resolution is currently failing on this machine."@,
            probable_cause: "Configured local DNS nameservers (in /etc/resolv.conf) are unresponsive or misconfigured."@,
            remediation: "Check your DNS settings or temporarily add Google DNS to '/etc/resolv.conf': 'nameserver 8.8.8.8'"@,
        },
        IssueKind::NetworkFullyOffline => IssueView {
            id: "network_fully_offline"@,
            severity: Severity::ERROR,
            title: "Host System Fully Offline"@,
            description: "Cannot connect to external IPs or resolve domain names."@,
            probable_cause: "Network interface is disconnected, Wi-Fi is disabled, or gateway routing is down."@,
            remediation: "Verify physical connections, run 'ping -c 3 192.168.1.1' to check your local gateway, or run 'ip route' to verify interfaces."@,
        },
    }
}

/// The issue of the given kind.
pub fn make_issue(kind: IssueKind, ollama_host: &str) -> (r: DiagnosticIssue)
    ensures
        r@ == issue_view(kind, ollama_host@),
{
    match kind {
        IssueKind::MissingCompiler => DiagnosticIssue {
            id: "missing_compiler".to_owned(),
            severity: Severity::CRITICAL,
            title: "C/C++ Compiler Not Found".to_owned(),
            description: "No native compiler (gcc/clang) was detected on the system PATH.".to_owned(),
            probable_cause: "Development essential packages are not installed on this host.".to_owned(),
            remediation: "Install development tools: 'sudo apt install build-essential' (Debian/Ubuntu) or 'sudo dnf groupinstall \"Development Tools\"' (RedHat/Fedora).".to_owned(),
        },
        IssueKind::MissingRust => DiagnosticIssue {
            id: "missing_rust".to_owned(),
            severity: Severity::INFO,
            title: "Rust Compiler (rustc) Not Found".to_owned(),
            description: "Rust compiler and cargo are missing from your system PATH.".to_owned(),
            probable_cause: "Rust toolchain is either not installed or not active in the current shell environment.".to_owned(),
            remediation: "Install Rust via rustup: 'curl --proto \"=https\" --tlsv1.2 -sSf https://sh.rustup.rs | sh' and source ~/.cargo/env".to_owned(),
        },
        IssueKind::DockerPermissionDenied => DiagnosticIssue {
            id: "docker_permission_denied".to_owned(),
            severity: Severity::ERROR,
            title: "Docker Socket Permission Denied".to_owned(),
            description: "Docker command-line tool is installed, but your current user cannot access /var/run/docker.sock.".to_owned(),
            probable_cause: "Your user is not a member of the 'docker' system group.".to_owned(),
            remediation: "Add your user to the docker group: 'sudo usermod -aG docker $USER' and restart your session.".to_owned(),
        },
        IssueKind::MissingDocker => DiagnosticIssue {
            id: "missing_docker".to_owned(),
            severity: Severity::INFO,
            title: "Docker Container Runtime Missing".to_owned(),
            description: "No local docker or podman execution binary detected.".to_owned(),
            probable_cause: "Container tooling is not configured or installed on this workstation.".to_owned(),
            remediation: "Install Docker Engine from: https://docs.docker.com/engine/install/".to_owned(),
        },
        IssueKind::MissingCudaNvcc => DiagnosticIssue {
            id: "missing_cuda_nvcc".to_owned(),
            severity: Severity::WARNING,
            title: "CUDA Compiler (NVCC) Not in PATH".to_owned(),
            description: "NVIDIA driver is active, but CUDA Compiler (nvcc) is not accessible.".to_owned(),
            probable_cause: "CUDA Toolkit is either not installed, or /usr/local/cuda/bin is missing from your PATH environment variable.".to_owned(),
            remediation: "Add CUDA to PATH: 'export PATH=/usr/local/cuda/bin:$PATH' and 'export LD_LIBRARY_PATH=/usr/local/cuda/lib64:$LD_LIBRARY_PATH' in ~/.bashrc or ~/.zshrc.".to_owned(),
        },
        IssueKind::PytorchCpuOnlyWithGpu => DiagnosticIssue {
            id: "pytorch_cpu_only_with_gpu".to_owned(),
            severity: Severity::ERROR,
            title: "PyTorch Using CPU on GPU Host".to_owned(),
            description: "An NVIDIA GPU and driver are present, but PyTorch is running in CPU-only mode.".to_owned(),
            probable_cause: "PyTorch was installed without CUDA acceleration support (likely via standard pip install of default CPU wheels).".to_owned(),
            remediation: "Reinstall PyTorch with CUDA: 'pip3 install torch torchvision --index-url https://download.pytorch.org/whl/cu121'".to_owned(),
        },
        IssueKind::OllamaServiceStopped => {
            let mut d: Vec<char> = Vec::new();
            push_str(&mut d, "Ollama CLI is installed, but the local background server on ");
            push_str(&mut d, ollama_host);
            push_str(&mut d, " is unreachable.");
            DiagnosticIssue {
                id: "ollama_service_stopped".to_owned(),
                severity: Severity::WARNING,
                title: "Ollama Local Service Stopped".to_owned(),
                description: string_of(&d),
                probable_cause: "Ollama background service is either stopped or has not been started yet.".to_owned(),
                remediation: "Start the Ollama background service: 'systemctl start ollama' (Linux) or run the 'ollama serve' command manually.".to_owned(),
            }
        },
        IssueKind::DnsResolutionFailure => DiagnosticIssue {
            id: "dns_resolution_failure".to_owned(),
            severity: Severity::ERROR,
            title: "DNS Resolution Fails".to_owned(),
            description: "IP routing is online, but hostname resolution is currently failing on this machine.".to_owned(),
            probable_cause: "Configured local DNS nameservers (in /etc/resolv.conf) are unresponsive or misconfigured.".to_owned(),
            remediation: "Check your DNS settings or temporarily add Google DNS to '/etc/resolv.conf': 'nameserver 8.8.8.8'".to_owned(),
        },
        IssueKind::NetworkFullyOffline => DiagnosticIssue {
            id: "network_fully_offline".to_owned(),
            severity: Severity::ERROR,
            title: "Host System Fully Offline".to_owned(),
            description: "Cannot connect to external IPs or resolve domain names.".to_owned(),
            probable_cause: "Network interface is disconnected, Wi-Fi is disabled, or gateway routing is down.".to_owned(),
            remediation: "Verify physical connections, run 'ping -c 3 192.168.1.1' to check your local gateway, or run 'ip route' to verify interfaces.".to_owned(),
        },
    }
}

/// The outcome of running a program: it could not be started, or it
/// finished with a status and output.
pub enum CommandRun {
    Failed,
    Finished { success: bool, stdout: String, stderr: String },
}

/// The probes of doctor mode, in the order in which they are run.
#[derive(Clone, Copy, PartialEq, Eq, Structural, Debug)]
pub enum Probe {
    /// Is `gcc` on the PATH?
    Gcc,
    /// Is `clang` on the PATH? (asked only without `gcc`)
    Clang,
    /// Is `rustc` on the PATH?
    Rustc,
    /// Is `docker` on the PATH?
    Docker,
    /// Run `docker ps` (only with `docker`).
    DockerPs,
    /// Is `nvidia-smi` on the PATH?
    NvidiaSmi,
    /// Is `nvcc` on the PATH? (only with `nvidia-smi`)
    Nvcc,
    /// Does `/usr/local/cuda/bin/nvcc` exist? (only with `nvidia-smi` and
    /// without `nvcc` on the PATH)
    NvccDefaultPath,
    /// Run `python3 -c "import torch; print(torch.cuda.is_available())"`
    /// (only with `nvidia-smi`).
    TorchCuda,
    /// Is `ollama` on the PATH?
    Ollama,
    /// The address of the Ollama service (only with `ollama`): the
    /// configured one or `127.0.0.1:11434` (see `ollama_address`).
    OllamaHost,
    /// Does a TCP connection to that address open within 200 ms? (only with
    /// `ollama`)
    OllamaPort,
    /// Does `github.com:80` resolve?
    Dns,
    /// Does a TCP connection to `8.8.8.8:53` open within a second? (only
    /// when the name did not resolve)
    DirectIp,
}

/// An answer to a probe.
pub enum ProbeAnswer {
    /// The answer to a yes/no probe.
    Found(bool),
    /// The outcome of a probe that runs a program.
    Ran(CommandRun),
    /// The address asked for by `Probe::OllamaHost`.
    Address(String),
}

/// The answers so far; `None` is a probe not (yet) run.
pub struct DoctorProbes {
    pub has_gcc: Option<bool>,
    pub has_clang: Option<bool>,
    pub has_rustc: Option<bool>,
    pub has_docker: Option<bool>,
    pub docker_ps: Option<CommandRun>,
    pub has_nvidia_smi: Option<bool>,
    pub has_nvcc: Option<bool>,
    pub nvcc_default_path: Option<bool>,
    pub torch_cuda: Option<CommandRun>,
    pub has_ollama: Option<bool>,
    pub ollama_host: Option<String>,
    pub ollama_port_open: Option<bool>,
    pub dns_resolves: Option<bool>,
    pub direct_ip_reachable: Option<bool>,
}

impl DoctorProbes {
    /// No probe run yet.
    pub fn new() -> (p: DoctorProbes)
        ensures
            p.open_count() == 14,
    {
        reveal(DoctorProbes::open_count);
        DoctorProbes {
            has_gcc: None,
            has_clang: None,
            has_rustc: None,
            has_docker: None,
            docker_ps: None,
            has_nvidia_smi: None,
            has_nvcc: None,
            nvcc_default_path: None,
            torch_cuda: None,
            has_ollama: None,
            ollama_host: None,
            ollama_port_open: None,
            dns_resolves: None,
            direct_ip_reachable: None,
        }
    }

    /// Whether the probe has been answered.
    pub open spec fn answered(&self, q: Probe) -> bool {
        match q {
            Probe::Gcc => self.has_gcc is Some,
            Probe::Clang => self.has_clang is Some,
            Probe::Rustc => self.has_rustc is Some,
            Probe::Docker => self.has_docker is Some,
            Probe::DockerPs => self.docker_ps is Some,
            Probe::NvidiaSmi => self.has_nvidia_smi is Some,
            Probe::Nvcc => self.has_nvcc is Some,
            Probe::NvccDefaultPath => self.nvcc_default_path is Some,
            Probe::TorchCuda => self.torch_cuda is Some,
            Probe::Ollama => self.has_ollama is Some,
            Probe::OllamaHost => self.ollama_host is Some,
            Probe::OllamaPort => self.ollama_port_open is Some,
            Probe::Dns => self.dns_resolves is Some,
            Probe::DirectIp => self.direct_ip_reachable is Some,
        }
    }

    /// The number of probes not answered yet.
    #[verifier::opaque]
    pub open spec fn open_count(&self) -> nat {
        (if self.has_gcc is None { 1nat } else { 0nat })
            + (if self.has_clang is None { 1nat } else { 0nat })
            + (if self.has_rustc is None { 1nat } else { 0nat })
            + (if self.has_docker is None { 1nat } else { 0nat })
            + (if self.docker_ps is None { 1nat } else { 0nat })
            + (if self.has_nvidia_smi is None { 1nat } else { 0nat })
            + (if self.has_nvcc is None { 1nat } else { 0nat })
            + (if self.nvcc_default_path is None { 1nat } else { 0nat })
            + (if self.torch_cuda is None { 1nat } else { 0nat })
            + (if self.has_ollama is None { 1nat } else { 0nat })
            + (if self.ollama_host is None { 1nat } else { 0nat })
            + (if self.ollama_port_open is None { 1nat } else { 0nat })
            + (if self.dns_resolves is None { 1nat } else { 0nat })
            + (if self.direct_ip_reachable is None { 1nat } else { 0nat })
    }

    /// The next probe to run, or `None` when the answers so far decide every
    /// check. Probes are asked in the order of `Probe`, each only when the
    /// answers before it call for it.
    pub open spec fn next_probe_spec(&self) -> Option<Probe> {
        if self.has_gcc is None {
            Some(Probe::Gcc)
        } else if self.has_gcc == Some(false) && self.has_clang is None {
            Some(Probe::Clang)
        } else if self.has_rustc is None {
            Some(Probe::Rustc)
        } else if self.has_docker is None {
            Some(Probe::Docker)
        } else if self.has_docker == Some(true) && self.docker_ps is None {
            Some(Probe::DockerPs)
        } else if self.has_nvidia_smi is None {
            Some(Probe::NvidiaSmi)
        } else if self.has_nvidia_smi == Some(true) && self.has_nvcc is None {
            Some(Probe::Nvcc)
        } else if self.has_nvidia_smi == Some(true) && self.has_nvcc == Some(false)
            && self.nvcc_default_path is None {
            Some(Probe::NvccDefaultPath)
        } else if self.has_nvidia_smi == Some(true) && self.torch_cuda is None {
            Some(Probe::TorchCuda)
        } else if self.has_ollama is None {
            Some(Probe::Ollama)
        } else if self.has_ollama == Some(true) && self.ollama_host is None {
            Some(Probe::OllamaHost)
        } else if self.has_ollama == Some(true) && self.ollama_port_open is None {
            Some(Probe::OllamaPort)
        } else if self.dns_resolves is None {
            Some(Probe::Dns)
        } else if self.dns_resolves == Some(false) && self.direct_ip_reachable is None {
            Some(Probe::DirectIp)
        } else {
            None
        }
    }

    /// The next probe to run (see `next_probe_spec`); it is always one not
    /// answered yet.
    pub fn next_probe(&self) -> (q: Option<Probe>)
        ensures
            q == self.next_probe_spec(),
            q matches Some(p) ==> !self.answered(p),
    {
        if self.has_gcc.is_none() {
            Some(Probe::Gcc)
        } else if self.has_gcc == Some(false) && self.has_clang.is_none() {
            Some(Probe::Clang)
        } else if self.has_rustc.is_none() {
            Some(Probe::Rustc)
        } else if self.has_docker.is_none() {
            Some(Probe::Docker)
        } else if self.has_docker == Some(true) && self.docker_ps.is_none() {
            Some(Probe::DockerPs)
        } else if self.has_nvidia_smi.is_none() {
            Some(Probe::NvidiaSmi)
        } else if self.has_nvidia_smi == Some(true) && self.has_nvcc.is_none() {
            Some(Probe::Nvcc)
        } else if self.has_nvidia_smi == Some(true) && self.has_nvcc == Some(false)
            && self.nvcc_default_path.is_none() {
            Some(Probe::NvccDefaultPath)
        } else if self.has_nvidia_smi == Some(true) && self.torch_cuda.is_none() {
            Some(Probe::TorchCuda)
        } else if self.has_ollama.is_none() {
            Some(Probe::Ollama)
        } else if self.has_ollama == Some(true) && self.ollama_host.is_none() {
            Some(Probe::OllamaHost)
        } else if self.has_ollama == Some(true) && self.ollama_port_open.is_none() {
            Some(Probe::OllamaPort)
        } else if self.dns_resolves.is_none() {
            Some(Probe::Dns)
        } else if self.dns_resolves == Some(false) && self.direct_ip_reachable.is_none() {
            Some(Probe::DirectIp)
        } else {
            None
        }
    }

    /// The answer fits the probe: a yes/no for a lookup, a program outcome
    /// for a run, an address for the Ollama host.
    pub open spec fn fits(q: Probe, a: ProbeAnswer) -> bool {
        match q {
            Probe::DockerPs | Probe::TorchCuda => a is Ran,
            Probe::OllamaHost => a is Address,
            _ => a is Found,
        }
    }

    /// Records the answer to a probe; every other answer stays as it was.
    pub fn answer(&mut self, q: Probe, a: ProbeAnswer)
        ensures
            *final(self) == with_answer(*old(self), q, a),
    {
        reveal(with_answer);
        match a {
            ProbeAnswer::Found(b) => match q {
                Probe::Gcc => self.has_gcc = Some(b),
                Probe::Clang => self.has_clang = Some(b),
                Probe::Rustc => self.has_rustc = Some(b),
                Probe::Docker => self.has_docker = Some(b),
                Probe::NvidiaSmi => self.has_nvidia_smi = Some(b),
                Probe::Nvcc => self.has_nvcc = Some(b),
                Probe::NvccDefaultPath => self.nvcc_default_path = Some(b),
                Probe::Ollama => self.has_ollama = Some(b),
                Probe::OllamaPort => self.ollama_port_open = Some(b),
                Probe::Dns => self.dns_resolves = Some(b),
                Probe::DirectIp => self.direct_ip_reachable = Some(b),
                _ => {},
            },
            ProbeAnswer::Ran(run) => match q {
                Probe::DockerPs => self.docker_ps = Some(run),
                Probe::TorchCuda => self.torch_cuda = Some(run),
                _ => {},
            },
            ProbeAnswer::Address(host) => match q {
                Probe::OllamaHost => self.ollama_host = Some(host),
                _ => {},
            },
        }
    }
}

/// The answers after recording `a` as the answer to `q`; an answer that
/// does not fit the probe (see `DoctorProbes::fits`) changes nothing.
#[verifier::opaque]
pub open spec fn with_answer(p: DoctorProbes, q: Probe, a: ProbeAnswer) -> DoctorProbes {
    match a {
        ProbeAnswer::Found(b) => match q {
            Probe::Gcc => DoctorProbes { has_gcc: Some(b), ..p },
            Probe::Clang => DoctorProbes { has_clang: Some(b), ..p },
            Probe::Rustc => DoctorProbes { has_rustc: Some(b), ..p },
            Probe::Docker => DoctorProbes { has_docker: Some(b), ..p },
            Probe::NvidiaSmi => DoctorProbes { has_nvidia_smi: Some(b), ..p },
            Probe::Nvcc => DoctorProbes { has_nvcc: Some(b), ..p },
            Probe::NvccDefaultPath => DoctorProbes { nvcc_default_path: Some(b), ..p },
            Probe::Ollama => DoctorProbes { has_ollama: Some(b), ..p },
            Probe::OllamaPort => DoctorProbes { ollama_port_open: Some(b), ..p },
            Probe::Dns => DoctorProbes { dns_resolves: Some(b), ..p },
            Probe::DirectIp => DoctorProbes { direct_ip_reachable: Some(b), ..p },
            _ => p,
        },
        ProbeAnswer::Ran(run) => match q {
            Probe::DockerPs => DoctorProbes { docker_ps: Some(run), ..p },
            Probe::TorchCuda => DoctorProbes { torch_cuda: Some(run), ..p },
            _ => p,
        },
        ProbeAnswer::Address(host) => match q {
            Probe::OllamaHost => DoctorProbes { ollama_host: Some(host), ..p },
            _ => p,
        },
    }
}

proof fn lemma_next_is_open(p: DoctorProbes)
    ensures
        p.next_probe_spec() matches Some(q) ==> !p.answered(q),
{
}

proof fn lemma_answer_has_gcc(p: DoctorProbes, b: bool)
    requires
        p.has_gcc is None,
    ensures
        with_answer(p, Probe::Gcc, ProbeAnswer::Found(b)).answered(Probe::Gcc),
        with_answer(p, Probe::Gcc, ProbeAnswer::Found(b)).open_count() + 1 == p.open_count(),
{
    reveal(with_answer);
    reveal(DoctorProbes::open_count);
}

proof fn lemma_answer_has_clang(p: DoctorProbes, b: bool)
    requires
        p.has_clang is None,
    ensures
        with_answer(p, Probe::Clang, ProbeAnswer::Found(b)).answered(Probe::Clang),
        with_answer(p, Probe::Clang, ProbeAnswer::Found(b)).open_count() + 1 == p.open_count(),
{
    reveal(with_answer);
    reveal(DoctorProbes::open_count);
}

proof fn lemma_answer_has_rustc(p: DoctorProbes, b: bool)
    requires
        p.has_rustc is None,
    ensures
        with_answer(p, Probe::Rustc, ProbeAnswer::Found(b)).answered(Probe::Rustc),
        with_answer(p, Probe::Rustc, ProbeAnswer::Found(b)).open_count() + 1 == p.open_count(),
{
    reveal(with_answer);
    reveal(DoctorProbes::open_count);
}

proof fn lemma_answer_has_docker(p: DoctorProbes, b: bool)
    requires
        p.has_docker is None,
    ensures
        with_answer(p, Probe::Docker, ProbeAnswer::Found(b)).answered(Probe::Docker),
        with_answer(p, Probe::Docker, ProbeAnswer::Found(b)).open_count() + 1 == p.open_count(),
{
    reveal(with_answer);
    reveal(DoctorProbes::open_count);
}

proof fn lemma_answer_docker_ps(p: DoctorProbes, run: CommandRun)
    requires
        p.docker_ps is None,
    ensures
        with_answer(p, Probe::DockerPs, ProbeAnswer::Ran(run)).answered(Probe::DockerPs),
        with_answer(p, Probe::DockerPs, ProbeAnswer::Ran(run)).open_count() + 1 == p.open_count(),
{
    reveal(with_answer);
    reveal(DoctorProbes::open_count);
}

proof fn lemma_answer_has_nvidia_smi(p: DoctorProbes, b: bool)
    requires
        p.has_nvidia_smi is None,
    ensures
        with_answer(p, Probe::NvidiaSmi, ProbeAnswer::Found(b)).answered(Probe::NvidiaSmi),
        with_answer(p, Probe::NvidiaSmi, ProbeAnswer::Found(b)).open_count() + 1 == p.open_count(),
{
    reveal(with_answer);
    reveal(DoctorProbes::open_count);
}

proof fn lemma_answer_has_nvcc(p: DoctorProbes, b: bool)
    requires
        p.has_nvcc is None,
    ensures
        with_answer(p, Probe::Nvcc, ProbeAnswer::Found(b)).answered(Probe::Nvcc),
        with_answer(p, Probe::Nvcc, ProbeAnswer::Found(b)).open_count() + 1 == p.open_count(),
{
    reveal(with_answer);
    reveal(DoctorProbes::open_count);
}

proof fn lemma_answer_nvcc_default_path(p: DoctorProbes, b: bool)
    requires
        p.nvcc_default_path is None,
    ensures
        with_answer(p, Probe::NvccDefaultPath, ProbeAnswer::Found(b)).answered(Probe::NvccDefaultPath),
        with_answer(p, Probe::NvccDefaultPath, ProbeAnswer::Found(b)).open_count() + 1 == p.open_count(),
{
    reveal(with_answer);
    reveal(DoctorProbes::open_count);
}

proof fn lemma_answer_torch_cuda(p: DoctorProbes, run: CommandRun)
    requires
        p.torch_cuda is None,
    ensures
        with_answer(p, Probe::TorchCuda, ProbeAnswer::Ran(run)).answered(Probe::TorchCuda),
        with_answer(p, Probe::TorchCuda, ProbeAnswer::Ran(run)).open_count() + 1 == p.open_count(),
{
    reveal(with_answer);
    reveal(DoctorProbes::open_count);
}

proof fn lemma_answer_has_ollama(p: DoctorProbes, b: bool)
    requires
        p.has_ollama is None,
    ensures
        with_answer(p, Probe::Ollama, ProbeAnswer::Found(b)).answered(Probe::Ollama),
        with_answer(p, Probe::Ollama, ProbeAnswer::Found(b)).open_count() + 1 == p.open_count(),
{
    reveal(with_answer);
    reveal(DoctorProbes::open_count);
}

proof fn lemma_answer_ollama_host(p: DoctorProbes, host: String)
    requires
        p.ollama_host is None,
    ensures
        with_answer(p, Probe::OllamaHost, ProbeAnswer::Address(host)).answered(Probe::OllamaHost),
        with_answer(p, Probe::OllamaHost, ProbeAnswer::Address(host)).open_count() + 1 == p.open_count(),
{
    reveal(with_answer);
    reveal(DoctorProbes::open_count);
}

proof fn lemma_answer_ollama_port_open(p: DoctorProbes, b: bool)
    requires
        p.ollama_port_open is None,
    ensures
        with_answer(p, Probe::OllamaPort, ProbeAnswer::Found(b)).answered(Probe::OllamaPort),
        with_answer(p, Probe::OllamaPort, ProbeAnswer::Found(b)).open_count() + 1 == p.open_count(),
{
    reveal(with_answer);
    reveal(DoctorProbes::open_count);
}

proof fn lemma_answer_dns_resolves(p: DoctorProbes, b: bool)
    requires
        p.dns_resolves is None,
    ensures
        with_answer(p, Probe::Dns, ProbeAnswer::Found(b)).answered(Probe::Dns),
        with_answer(p, Probe::Dns, ProbeAnswer::Found(b)).open_count() + 1 == p.open_count(),
{
    reveal(with_answer);
    reveal(DoctorProbes::open_count);
}

proof fn lemma_answer_direct_ip_reachable(p: DoctorProbes, b: bool)
    requires
        p.direct_ip_reachable is None,
    ensures
        with_answer(p, Probe::DirectIp, ProbeAnswer::Found(b)).answered(Probe::DirectIp),
        with_answer(p, Probe::DirectIp, ProbeAnswer::Found(b)).open_count() + 1 == p.open_count(),
{
    reveal(with_answer);
    reveal(DoctorProbes::open_count);
}

proof fn lemma_answer_counts(p: DoctorProbes, q: Probe, a: ProbeAnswer)
    requires
        !p.answered(q),
        DoctorProbes::fits(q, a),
    ensures
        with_answer(p, q, a).answered(q),
        with_answer(p, q, a).open_count() + 1 == p.open_count(),
{
    match a {
        ProbeAnswer::Found(b) => match q {
            Probe::Gcc => lemma_answer_has_gcc(p, b),
            Probe::Clang => lemma_answer_has_clang(p, b),
            Probe::Rustc => lemma_answer_has_rustc(p, b),
            Probe::Docker => lemma_answer_has_docker(p, b),
            Probe::NvidiaSmi => lemma_answer_has_nvidia_smi(p, b),
            Probe::Nvcc => lemma_answer_has_nvcc(p, b),
            Probe::NvccDefaultPath => lemma_answer_nvcc_default_path(p, b),
            Probe::Ollama => lemma_answer_has_ollama(p, b),
            Probe::OllamaPort => lemma_answer_ollama_port_open(p, b),
            Probe::Dns => lemma_answer_dns_resolves(p, b),
            Probe::DirectIp => lemma_answer_direct_ip_reachable(p, b),
            _ => {},
        },
        ProbeAnswer::Ran(run) => match q {
            Probe::DockerPs => lemma_answer_docker_ps(p, run),
            Probe::TorchCuda => lemma_answer_torch_cuda(p, run),
            _ => {},
        },
        ProbeAnswer::Address(host) => match q {
            Probe::OllamaHost => lemma_answer_ollama_host(p, host),
            _ => {},
        },
    }
}

/// Doctor's probing ends: recording a fitting answer to the probe that
/// `next_probe` asks for answers it and leaves one probe fewer unanswered,
/// so after at most 14 answers nothing is asked any more.
pub proof fn law_probing_progresses(p: DoctorProbes, q: Probe, a: ProbeAnswer)
    requires
        p.next_probe_spec() == Some(q),
        DoctorProbes::fits(q, a),
    ensures
        with_answer(p, q, a).answered(q),
        with_answer(p, q, a).open_count() + 1 == p.open_count(),
{
    lemma_next_is_open(p);
    lemma_answer_counts(p, q, a);
}

/// `docker ps` failed with `permission denied` in its error output.
pub open spec fn docker_denied(run: Option<CommandRun>) -> bool {
    match run {
        Some(CommandRun::Finished { success, stdout, stderr }) => !success && contains(
            stderr@,
            "permission denied"@,
        ),
        _ => false,
    }
}

/// The torch probe printed `False` (CUDA not available to PyTorch).
pub open spec fn torch_cpu_only(run: Option<CommandRun>) -> bool {
    match run {
        Some(CommandRun::Finished { success, stdout, stderr }) => contains(trim(stdout@), "False"@),
        _ => false,
    }
}

/// `s` with `k` appended when `c` holds.
pub open spec fn push_if(s: Seq<IssueKind>, c: bool, k: IssueKind) -> Seq<IssueKind> {
    if c {
        s.push(k)
    } else {
        s
    }
}

/// The issues that the answers point to, in this order: compiler, Rust,
/// Docker, CUDA compiler, PyTorch, Ollama, network.
pub open spec fn doctor_kinds(p: DoctorProbes) -> Seq<IssueKind> {
    let s0 = Seq::<IssueKind>::empty();
    let s1 = push_if(
        s0,
        p.has_gcc == Some(false) && p.has_clang == Some(false),
        IssueKind::MissingCompiler,
    );
    let s2 = push_if(s1, p.has_rustc == Some(false), IssueKind::MissingRust);
    let s3 = push_if(
        s2,
        p.has_docker == Some(true) && docker_denied(p.docker_ps),
        IssueKind::DockerPermissionDenied,
    );
    let s4 = push_if(s3, p.has_docker != Some(true), IssueKind::MissingDocker);
    let s5 = push_if(
        s4,
        p.has_nvidia_smi == Some(true) && p.has_nvcc == Some(false) && p.nvcc_default_path
            == Some(false),
        IssueKind::MissingCudaNvcc,
    );
    let s6 = push_if(
        s5,
        p.has_nvidia_smi == Some(true) && torch_cpu_only(p.torch_cuda),
        IssueKind::PytorchCpuOnlyWithGpu,
    );
    let s7 = push_if(
        s6,
        p.has_ollama == Some(true) && p.ollama_port_open != Some(true),
        IssueKind::OllamaServiceStopped,
    );
    let s8 = push_if(
        s7,
        p.dns_resolves == Some(false) && p.direct_ip_reachable == Some(true),
        IssueKind::DnsResolutionFailure,
    );
    push_if(
        s8,
        p.dns_resolves == Some(false) && p.direct_ip_reachable != Some(true),
        IssueKind::NetworkFullyOffline,
    )
}

proof fn lemma_push_if_contains(s: Seq<IssueKind>, c: bool, k: IssueKind, x: IssueKind)
    ensures
        push_if(s, c, k).contains(x) <==> (s.contains(x) || (c && x == k)),
{
    if c {
        if s.push(k).contains(x) && x != k {
            let i = choose|i: int| 0 <= i < s.push(k).len() && s.push(k)[i] == x;
            assert(i < s.len());
            assert(s[i] == x);
        }
        if s.contains(x) {
            let i = choose|i: int| 0 <= i < s.len() && s[i] == x;
            assert(s.push(k)[i] == x);
        }
        if x == k {
            assert(s.push(k)[s.len() as int] == x);
        }
    }
}

/// When doctor mode reports each issue, stated over the probe answers: a
/// compiler is missing when neither gcc nor clang was found; Rust when rustc
/// was not found; the Docker socket is denied when docker was found and
/// `docker ps` failed with `permission denied`; Docker is missing when it was
/// not found; the CUDA compiler is missing only when nvidia-smi was found and
/// nvcc was found neither on the PATH nor at `/usr/local/cuda/bin/nvcc`;
/// PyTorch runs on the CPU when nvidia-smi was found and the torch probe
/// printed `False`; Ollama is stopped when it was found and its port did not
/// open; DNS fails when names do not resolve but 8.8.8.8 answers; the host is
/// offline when names do not resolve and 8.8.8.8 does not answer.
pub proof fn law_doctor_issue_conditions(p: DoctorProbes)
    ensures
        doctor_kinds(p).contains(IssueKind::MissingCompiler) <==> (p.has_gcc == Some(false)
            && p.has_clang == Some(false)),
        doctor_kinds(p).contains(IssueKind::MissingRust) <==> p.has_rustc == Some(false),
        doctor_kinds(p).contains(IssueKind::DockerPermissionDenied) <==> (p.has_docker == Some(true)
            && (match p.docker_ps {
            Some(CommandRun::Finished { success, stdout, stderr }) => !success && contains(
                stderr@,
                "permission denied"@,
            ),
            _ => false,
        })),
        doctor_kinds(p).contains(IssueKind::MissingDocker) <==> p.has_docker != Some(true),
        doctor_kinds(p).contains(IssueKind::MissingCudaNvcc) <==> (p.has_nvidia_smi == Some(true)
            && p.has_nvcc == Some(false) && p.nvcc_default_path == Some(false)),
        doctor_kinds(p).contains(IssueKind::PytorchCpuOnlyWithGpu) <==> (p.has_nvidia_smi == Some(
            true,
        ) && (match p.torch_cuda {
            Some(CommandRun::Finished { success, stdout, stderr }) => contains(
                trim(stdout@),
                "False"@,
            ),
            _ => false,
        })),
        doctor_kinds(p).contains(IssueKind::OllamaServiceStopped) <==> (p.has_ollama == Some(true)
            && p.ollama_port_open != Some(true)),
        doctor_kinds(p).contains(IssueKind::DnsResolutionFailure) <==> (p.dns_resolves == Some(false)
            && p.direct_ip_reachable == Some(true)),
        doctor_kinds(p).contains(IssueKind::NetworkFullyOffline) <==> (p.dns_resolves == Some(false)
            && p.direct_ip_reachable != Some(true)),
{
    let s0 = Seq::<IssueKind>::empty();
    let c1 = p.has_gcc == Some(false) && p.has_clang == Some(false);
    let s1 = push_if(s0, c1, IssueKind::MissingCompiler);
    let c2 = p.has_rustc == Some(false);
    let s2 = push_if(s1, c2, IssueKind::MissingRust);
    let c3 = p.has_docker == Some(true) && docker_denied(p.docker_ps);
    let s3 = push_if(s2, c3, IssueKind::DockerPermissionDenied);
    let c4 = p.has_docker != Some(true);
    let s4 = push_if(s3, c4, IssueKind::MissingDocker);
    let c5 = p.has_nvidia_smi == Some(true) && p.has_nvcc == Some(false) && p.nvcc_default_path
        == Some(false);
    let s5 = push_if(s4, c5, IssueKind::MissingCudaNvcc);
    let c6 = p.has_nvidia_smi == Some(true) && torch_cpu_only(p.torch_cuda);
    let s6 = push_if(s5, c6, IssueKind::PytorchCpuOnlyWithGpu);
    let c7 = p.has_ollama == Some(true) && p.ollama_port_open != Some(true);
    let s7 = push_if(s6, c7, IssueKind::OllamaServiceStopped);
    let c8 = p.dns_resolves == Some(false) && p.direct_ip_reachable == Some(true);
    let s8 = push_if(s7, c8, IssueKind::DnsResolutionFailure);
    let c9 = p.dns_resolves == Some(false) && p.direct_ip_reachable != Some(true);
    let s9 = push_if(s8, c9, IssueKind::NetworkFullyOffline);
    assert(s9 == doctor_kinds(p));
    assert forall|x: IssueKind| #[trigger] s9.contains(x) <==> (
        (c1 && x == IssueKind::MissingCompiler)
        || (c2 && x == IssueKind::MissingRust)
        || (c3 && x == IssueKind::DockerPermissionDenied)
        || (c4 && x == IssueKind::MissingDocker)
        || (c5 && x == IssueKind::MissingCudaNvcc)
        || (c6 && x == IssueKind::PytorchCpuOnlyWithGpu)
        || (c7 && x == IssueKind::OllamaServiceStopped)
        || (c8 && x == IssueKind::DnsResolutionFailure)
        || (c9 && x == IssueKind::NetworkFullyOffline)) by {
        lemma_push_if_contains(s0, c1, IssueKind::MissingCompiler, x);
        lemma_push_if_contains(s1, c2, IssueKind::MissingRust, x);
        lemma_push_if_contains(s2, c3, IssueKind::DockerPermissionDenied, x);
        lemma_push_if_contains(s3, c4, IssueKind::MissingDocker, x);
        lemma_push_if_contains(s4, c5, IssueKind::MissingCudaNvcc, x);
        lemma_push_if_contains(s5, c6, IssueKind::PytorchCpuOnlyWithGpu, x);
        lemma_push_if_contains(s6, c7, IssueKind::OllamaServiceStopped, x);
        lemma_push_if_contains(s7, c8, IssueKind::DnsResolutionFailure, x);
        lemma_push_if_contains(s8, c9, IssueKind::NetworkFullyOffline, x);
    }
    assert(s9.contains(IssueKind::MissingCompiler) == c1);
    assert(s9.contains(IssueKind::MissingRust) == c2);
    assert(s9.contains(IssueKind::DockerPermissionDenied) == c3);
    assert(s9.contains(IssueKind::MissingDocker) == c4);
    assert(s9.contains(IssueKind::MissingCudaNvcc) == c5);
    assert(s9.contains(IssueKind::PytorchCpuOnlyWithGpu) == c6);
    assert(s9.contains(IssueKind::OllamaServiceStopped) == c7);
    assert(s9.contains(IssueKind::DnsResolutionFailure) == c8);
    assert(s9.contains(IssueKind::NetworkFullyOffline) == c9);
}

fn push_kind_if(v: &mut Vec<IssueKind>, c: bool, k: IssueKind)
    ensures
        final(v)@ == push_if(old(v)@, c, k),
{
    if c {
        v.push(k);
    }
}

/// The kinds of the issues that the answers point to.
pub fn doctor_kind_list(p: &DoctorProbes) -> (r: Vec<IssueKind>)
    ensures
        r@ == doctor_kinds(*p),
{
    let mut v: Vec<IssueKind> = Vec::new();
    push_kind_if(
        &mut v,
        p.has_gcc == Some(false) && p.has_clang == Some(false),
        IssueKind::MissingCompiler,
    );
    push_kind_if(&mut v, p.has_rustc == Some(false), IssueKind::MissingRust);
    push_kind_if(
        &mut v,
        p.has_docker == Some(true) && denied_exec(&p.docker_ps),
        IssueKind::DockerPermissionDenied,
    );
    push_kind_if(&mut v, p.has_docker != Some(true), IssueKind::MissingDocker);
    push_kind_if(
        &mut v,
        p.has_nvidia_smi == Some(true) && p.has_nvcc == Some(false) && p.nvcc_default_path
            == Some(false),
        IssueKind::MissingCudaNvcc,
    );
    push_kind_if(
        &mut v,
        p.has_nvidia_smi == Some(true) && cpu_only_exec(&p.torch_cuda),
        IssueKind::PytorchCpuOnlyWithGpu,
    );
    push_kind_if(
        &mut v,
        p.has_ollama == Some(true) && p.ollama_port_open != Some(true),
        IssueKind::OllamaServiceStopped,
    );
    push_kind_if(
        &mut v,
        p.dns_resolves == Some(false) && p.direct_ip_reachable == Some(true),
        IssueKind::DnsResolutionFailure,
    );
    push_kind_if(
        &mut v,
        p.dns_resolves == Some(false) && p.direct_ip_reachable != Some(true),
        IssueKind::NetworkFullyOffline,
    );
    v
}

/// The Ollama address named in the issue text.
pub open spec fn probed_host(p: DoctorProbes) -> Seq<char> {
    match p.ollama_host {
        Some(h) => h@,
        None => Seq::empty(),
    }
}

/// The text of a list of issues.
pub open spec fn issue_views(v: Seq<DiagnosticIssue>) -> Seq<IssueView> {
    Seq::new(v.len(), |i: int| v[i]@)
}

/// The issues of doctor mode.
pub open spec fn doctor_issue_views(p: DoctorProbes) -> Seq<IssueView> {
    doctor_kinds(p).map_values(|k: IssueKind| issue_view(k, probed_host(p)))
}

fn denied_exec(run: &Option<CommandRun>) -> (b: bool)
    ensures
        b == docker_denied(*run),
{
    match run {
        Some(CommandRun::Finished { success, stdout, stderr }) => !*success && contains_str(
            &chars_of(stderr.as_str()),
            "permission denied",
        ),
        _ => false,
    }
}

fn cpu_only_exec(run: &Option<CommandRun>) -> (b: bool)
    ensures
        b == torch_cpu_only(*run),
{
    match run {
        Some(CommandRun::Finished { success, stdout, stderr }) => contains_str(
            &trimmed(&chars_of(stdout.as_str())),
            "False",
        ),
        _ => false,
    }
}

/// The issues found by doctor mode, from the answers to its probes.
pub fn doctor_issues(p: &DoctorProbes) -> (r: Vec<DiagnosticIssue>)
    ensures
        issue_views(r@) == doctor_issue_views(*p),
{
    let host_text: String = match &p.ollama_host {
        Some(h) => h.clone(),
        None => String::new(),
    };
    let host = host_text.as_str();
    proof {
        assert(host@ == probed_host(*p));
    }
    let kinds = doctor_kind_list(p);
    let ghost f = |k: IssueKind| issue_view(k, host@);
    let mut out: Vec<DiagnosticIssue> = Vec::new();
    let mut i: usize = 0;
    while i < kinds.len()
        invariant
            i <= kinds.len(),
            issue_views(out@) == kinds@.take(i as int).map_values(f),
            f == (|k: IssueKind| issue_view(k, host@)),
        decreases kinds.len() - i,
    {
        let issue = make_issue(kinds[i], host);
        let ghost before = out@;
        out.push(issue);
        proof {
            assert(issue_views(out@) =~= issue_views(before).push(issue@));
            assert(kinds@.take(i + 1).map_values(f) =~= kinds@.take(i as int).map_values(f).push(
                f(kinds@[i as int]),
            ));
        }
        i = i + 1;
    }
    proof {
        assert(kinds@.take(kinds.len() as int) == kinds@);
    }
    out
}

/// A number for each issue kind, in the order in which they are reported.
pub open spec fn kind_rank(k: IssueKind) -> int {
    match k {
        IssueKind::MissingCompiler => 0,
        IssueKind::MissingRust => 1,
        IssueKind::DockerPermissionDenied => 2,
        IssueKind::MissingDocker => 3,
        IssueKind::MissingCudaNvcc => 4,
        IssueKind::PytorchCpuOnlyWithGpu => 5,
        IssueKind::OllamaServiceStopped => 6,
        IssueKind::DnsResolutionFailure => 7,
        IssueKind::NetworkFullyOffline => 8,
    }
}

/// Ranks strictly increase along `s`, all below `bound`.
pub open spec fn ranked_below(s: Seq<IssueKind>, bound: int) -> bool {
    &&& forall|i: int, j: int| 0 <= i < j < s.len() ==> kind_rank(s[i]) < kind_rank(s[j])
    &&& forall|i: int| 0 <= i < s.len() ==> kind_rank(#[trigger] s[i]) < bound
}

proof fn lemma_push_if_ranked(s: Seq<IssueKind>, c: bool, k: IssueKind)
    requires
        ranked_below(s, kind_rank(k)),
    ensures
        ranked_below(push_if(s, c, k), kind_rank(k) + 1),
{
}

/// The length and first character of each issue id.
proof fn lemma_id_shape(k: IssueKind, h: Seq<char>)
    ensures
        issue_view(k, h).id.len() == (match k {
            IssueKind::MissingCompiler => 16int,
            IssueKind::MissingRust => 12,
            IssueKind::DockerPermissionDenied => 24,
            IssueKind::MissingDocker => 14,
            IssueKind::MissingCudaNvcc => 17,
            IssueKind::PytorchCpuOnlyWithGpu => 25,
            IssueKind::OllamaServiceStopped => 22,
            IssueKind::DnsResolutionFailure => 22,
            IssueKind::NetworkFullyOffline => 21,
        }),
        issue_view(k, h).id.len() > 0,
        k == IssueKind::OllamaServiceStopped ==> issue_view(k, h).id[0] == 'o',
        k == IssueKind::DnsResolutionFailure ==> issue_view(k, h).id[0] == 'd',
{
    match k {
        IssueKind::MissingCompiler => reveal_strlit("missing_compiler"),
        IssueKind::MissingRust => reveal_strlit("missing_rust"),
        IssueKind::DockerPermissionDenied => reveal_strlit("docker_permission_denied"),
        IssueKind::MissingDocker => reveal_strlit("missing_docker"),
        IssueKind::MissingCudaNvcc => reveal_strlit("missing_cuda_nvcc"),
        IssueKind::PytorchCpuOnlyWithGpu => reveal_strlit("pytorch_cpu_only_with_gpu"),
        IssueKind::OllamaServiceStopped => reveal_strlit("ollama_service_stopped"),
        IssueKind::DnsResolutionFailure => reveal_strlit("dns_resolution_failure"),
        IssueKind::NetworkFullyOffline => reveal_strlit("network_fully_offline"),
    }
}

/// Doctor reports each issue at most once: no two issues of a report share
/// their id.
pub proof fn law_issue_ids_distinct(p: DoctorProbes)
    ensures
        forall|i: int, j: int|
            0 <= i < j < doctor_issue_views(p).len() ==> doctor_issue_views(p)[i].id
                != doctor_issue_views(p)[j].id,
{
    let h = probed_host(p);
    let s0 = Seq::<IssueKind>::empty();
    let c1 = p.has_gcc == Some(false) && p.has_clang == Some(false);
    let s1 = push_if(s0, c1, IssueKind::MissingCompiler);
    lemma_push_if_ranked(s0, c1, IssueKind::MissingCompiler);
    let c2 = p.has_rustc == Some(false);
    let s2 = push_if(s1, c2, IssueKind::MissingRust);
    lemma_push_if_ranked(s1, c2, IssueKind::MissingRust);
    let c3 = p.has_docker == Some(true) && docker_denied(p.docker_ps);
    let s3 = push_if(s2, c3, IssueKind::DockerPermissionDenied);
    lemma_push_if_ranked(s2, c3, IssueKind::DockerPermissionDenied);
    let c4 = p.has_docker != Some(true);
    let s4 = push_if(s3, c4, IssueKind::MissingDocker);
    lemma_push_if_ranked(s3, c4, IssueKind::MissingDocker);
    let c5 = p.has_nvidia_smi == Some(true) && p.has_nvcc == Some(false) && p.nvcc_default_path
        == Some(false);
    let s5 = push_if(s4, c5, IssueKind::MissingCudaNvcc);
    lemma_push_if_ranked(s4, c5, IssueKind::MissingCudaNvcc);
    let c6 = p.has_nvidia_smi == Some(true) && torch_cpu_only(p.torch_cuda);
    let s6 = push_if(s5, c6, IssueKind::PytorchCpuOnlyWithGpu);
    lemma_push_if_ranked(s5, c6, IssueKind::PytorchCpuOnlyWithGpu);
    let c7 = p.has_ollama == Some(true) && p.ollama_port_open != Some(true);
    let s7 = push_if(s6, c7, IssueKind::OllamaServiceStopped);
    lemma_push_if_ranked(s6, c7, IssueKind::OllamaServiceStopped);
    let c8 = p.dns_resolves == Some(false) && p.direct_ip_reachable == Some(true);
    let s8 = push_if(s7, c8, IssueKind::DnsResolutionFailure);
    lemma_push_if_ranked(s7, c8, IssueKind::DnsResolutionFailure);
    let c9 = p.dns_resolves == Some(false) && p.direct_ip_reachable != Some(true);
    let s9 = push_if(s8, c9, IssueKind::NetworkFullyOffline);
    lemma_push_if_ranked(s8, c9, IssueKind::NetworkFullyOffline);
    assert(s9 == doctor_kinds(p));
    let vs = doctor_issue_views(p);
    assert forall|i: int, j: int| 0 <= i < j < vs.len() implies vs[i].id != vs[j].id by {
        let a = s9[i];
        let b = s9[j];
        assert(kind_rank(a) < kind_rank(b));
        lemma_id_shape(a, h);
        lemma_id_shape(b, h);
        assert(vs[i] == issue_view(a, h));
        assert(vs[j] == issue_view(b, h));
        if vs[i].id == vs[j].id {
            assert(vs[i].id[0] == vs[j].id[0]);
        }
    }
}

/// The Markdown block of the `n`-th issue.
pub open spec fn issue_block(n: nat, v: IssueView) -> Seq<char> {
    "## ["@ + dec(n) + "] Issue (Severity: "@ + v.severity.name_text() + "): "@ + v.title
        + "\n- **Description:** "@ + v.description + "\n- **Probable Cause:** "@
        + v.probable_cause + "\n- **Remediation:** "@ + v.remediation + "\n\n"@
}

/// The blocks of the issues, numbered from 1.
pub open spec fn issue_blocks(vs: Seq<IssueView>) -> Seq<char>
    decreases vs.len(),
{
    if vs.len() == 0 {
        Seq::empty()
    } else {
        issue_blocks(vs.drop_last()) + issue_block(vs.len(), vs.last())
    }
}

/// The Markdown report of doctor mode for language models.
pub open spec fn doctor_llm_text(vs: Seq<IssueView>) -> Seq<char> {
    "# System Diagnostic Analysis (LLM-Optimized)\n\n"@ + if vs.len() == 0 {
        "No environmental issues detected. System health check is green.\n"@
    } else {
        issue_blocks(vs)
    }
}

/// The Markdown report of the issues for language models (`--llm`).
pub fn doctor_llm_report(issues: &Vec<DiagnosticIssue>) -> (s: String)
    ensures
        s@ == doctor_llm_text(issue_views(issues@)),
{
    let ghost vs = issue_views(issues@);
    let mut out: Vec<char> = Vec::new();
    push_str(&mut out, "# System Diagnostic Analysis (LLM-Optimized)\n\n");
    if issues.len() == 0 {
        push_str(&mut out, "No environmental issues detected. System health check is green.\n");
        return string_of(&out);
    }
    let ghost head = out@;
    let mut i: usize = 0;
    proof {
        assert(vs.take(0) =~= Seq::<IssueView>::empty());
        assert(out@ =~= head + issue_blocks(vs.take(0)));
    }
    while i < issues.len()
        invariant
            i <= issues.len(),
            vs == issue_views(issues@),
            out@ == head + issue_blocks(vs.take(i as int)),
        decreases issues.len() - i,
    {
        let iss = &issues[i];
        let ghost before = out@;
        push_str(&mut out, "## [");
        push_decimal(&mut out, (i as u128) + 1);
        push_str(&mut out, "] Issue (Severity: ");
        push_str(&mut out, iss.severity.as_str());
        push_str(&mut out, "): ");
        push_str(&mut out, iss.title.as_str());
        push_str(&mut out, "\n- **Description:** ");
        push_str(&mut out, iss.description.as_str());
        push_str(&mut out, "\n- **Probable Cause:** ");
        push_str(&mut out, iss.probable_cause.as_str());
        push_str(&mut out, "\n- **Remediation:** ");
        push_str(&mut out, iss.remediation.as_str());
        push_str(&mut out, "\n\n");
        proof {
            assert(vs.take(i + 1).drop_last() == vs.take(i as int));
            assert(vs.take(i + 1).last() == iss@);
            assert(out@ =~= before + issue_block((i + 1) as nat, iss@));
        }
        i = i + 1;
    }
    proof {
        assert(vs.take(issues.len() as int) == vs);
    }
    string_of(&out)
}

/// Every text of an issue is escape-free.
pub open spec fn issue_escape_free(v: IssueView) -> bool {
    &&& escape_free(v.id)
    &&& escape_free(v.severity.name_text())
    &&& escape_free(v.title)
    &&& escape_free(v.description)
    &&& escape_free(v.probable_cause)
    &&& escape_free(v.remediation)
}

proof fn lemma_literals_escape_free()
    ensures
        escape_free("missing_compiler"@),
        escape_free("C/C++ Compiler Not Found"@),
        escape_free("No native compiler (gcc/clang) was detected on the system PATH."@),
        escape_free("Development essential packages are not installed on this host."@),
        escape_free("Install development tools: 'sudo apt install build-essential' (Debian/Ubuntu) or 'sudo dnf groupinstall \"Development Tools\"' (RedHat/Fedora)."@),
        escape_free("missing_rust"@),
        escape_free("Rust Compiler (rustc) Not Found"@),
        escape_free("Rust compiler and cargo are missing from your system PATH."@),
        escape_free("Rust toolchain is either not installed or not active in the current shell environment."@),
        escape_free("Install Rust via rustup: 'curl --proto \"=https\" --tlsv1.2 -sSf https://sh.rustup.rs | sh' and source ~/.cargo/env"@),
        escape_free("docker_permission_denied"@),
        escape_free("Docker Socket Permission Denied"@),
        escape_free("Docker command-line tool is installed, but your current user cannot access /var/run/docker.sock."@),
        escape_free("Your user is not a member of the 'docker' system group."@),
        escape_free("Add your user to the docker group: 'sudo usermod -aG docker $USER' and restart your session."@),
        escape_free("missing_docker"@),
        escape_free("Docker Container Runtime Missing"@),
        escape_free("No local docker or podman execution binary detected."@),
        escape_free("Container tooling is not configured or installed on this workstation."@),
        escape_free("Install Docker Engine from: https://docs.docker.com/engine/install/"@),
        escape_free("missing_cuda_nvcc"@),
        escape_free("CUDA Compiler (NVCC) Not in PATH"@),
        escape_free("NVIDIA driver is active, but CUDA Compiler (nvcc) is not accessible."@),
        escape_free("CUDA Toolkit is either not installed, or /usr/local/cuda/bin is missing from your PATH environment variable."@),
        escape_free("Add CUDA to PATH: 'export PATH=/usr/local/cuda/bin:$PATH' and 'export LD_LIBRARY_PATH=/usr/local/cuda/lib64:$LD_LIBRARY_PATH' in ~/.bashrc or ~/.zshrc."@),
        escape_free("pytorch_cpu_only_with_gpu"@),
        escape_free("PyTorch Using CPU on GPU Host"@),
        escape_free("An NVIDIA GPU and driver are present, but PyTorch is running in CPU-only mode."@),
        escape_free("PyTorch was installed without CUDA acceleration support (likely via standard pip install of default CPU wheels)."@),
        escape_free("Reinstall PyTorch with CUDA: 'pip3 install torch torchvision --index-url https://download.pytorch.org/whl/cu121'"@),
        escape_free("ollama_service_stopped"@),
        escape_free("Ollama Local Service Stopped"@),
        escape_free("Ollama CLI is installed, but the local background server on "@),
        escape_free(" is unreachable."@),
        escape_free("Ollama background service is either stopped or has not been started yet."@),
        escape_free("Start the Ollama background service: 'systemctl start ollama' (Linux) or run the 'ollama serve' command manually."@),
        escape_free("dns_resolution_failure"@),
        escape_free("DNS Resolution Fails"@),
        escape_free("IP routing is online, but hostname resolution is currently failing on this machine."@),
        escape_free("Configured local DNS nameservers (in /etc/resolv.conf) are unresponsive or misconfigured."@),
        escape_free("Check your DNS settings or temporarily add Google DNS to '/etc/resolv.conf': 'nameserver 8.8.8.8'"@),
        escape_free("network_fully_offline"@),
        escape_free("Host System Fully Offline"@),
        escape_free("Cannot connect to external IPs or resolve domain names."@),
        escape_free("Network interface is disconnected, Wi-Fi is disabled, or gateway routing is down."@),
        escape_free("Verify physical connections, run 'ping -c 3 192.168.1.1' to check your local gateway, or run 'ip route' to verify interfaces."@),
        escape_free("## ["@),
        escape_free("] Issue (Severity: "@),
        escape_free("): "@),
        escape_free("\n- **Description:** "@),
        escape_free("\n- **Probable Cause:** "@),
        escape_free("\n- **Remediation:** "@),
        escape_free("\n\n"@),
        escape_free("# System Diagnostic Analysis (LLM-Optimized)\n\n"@),
        escape_free("No environmental issues detected. System health check is green.\n"@),
        escape_free("INFO"@),
        escape_free("WARNING"@),
        escape_free("ERROR"@),
        escape_free("CRITICAL"@),
{
    reveal_strlit("missing_compiler");
    reveal_strlit("C/C++ Compiler Not Found");
    reveal_strlit("No native compiler (gcc/clang) was detected on the system PATH.");
    reveal_strlit("Development essential packages are not installed on this host.");
    reveal_strlit("Install development tools: 'sudo apt install build-essential' (Debian/Ubuntu) or 'sudo dnf groupinstall \"Development Tools\"' (RedHat/Fedora).");
    reveal_strlit("missing_rust");
    reveal_strlit("Rust Compiler (rustc) Not Found");
    reveal_strlit("Rust compiler and cargo are missing from your system PATH.");
    reveal_strlit("Rust toolchain is either not installed or not active in the current shell environment.");
    reveal_strlit("Install Rust via rustup: 'curl --proto \"=https\" --tlsv1.2 -sSf https://sh.rustup.rs | sh' and source ~/.cargo/env");
    reveal_strlit("docker_permission_denied");
    reveal_strlit("Docker Socket Permission Denied");
    reveal_strlit("Docker command-line tool is installed, but your current user cannot access /var/run/docker.sock.");
    reveal_strlit("Your user is not a member of the 'docker' system group.");
    reveal_strlit("Add your user to the docker group: 'sudo usermod -aG docker $USER' and restart your session.");
    reveal_strlit("missing_docker");
    reveal_strlit("Docker Container Runtime Missing");
    reveal_strlit("No local docker or podman execution binary detected.");
    reveal_strlit("Container tooling is not configured or installed on this workstation.");
    reveal_strlit("Install Docker Engine from: https://docs.docker.com/engine/install/");
    reveal_strlit("missing_cuda_nvcc");
    reveal_strlit("CUDA Compiler (NVCC) Not in PATH");
    reveal_strlit("NVIDIA driver is active, but CUDA Compiler (nvcc) is not accessible.");
    reveal_strlit("CUDA Toolkit is either not installed, or /usr/local/cuda/bin is missing from your PATH environment variable.");
    reveal_strlit("Add CUDA to PATH: 'export PATH=/usr/local/cuda/bin:$PATH' and 'export LD_LIBRARY_PATH=/usr/local/cuda/lib64:$LD_LIBRARY_PATH' in ~/.bashrc or ~/.zshrc.");
    reveal_strlit("pytorch_cpu_only_with_gpu");
    reveal_strlit("PyTorch Using CPU on GPU Host");
    reveal_strlit("An NVIDIA GPU and driver are present, but PyTorch is running in CPU-only mode.");
    reveal_strlit("PyTorch was installed without CUDA acceleration support (likely via standard pip install of default CPU wheels).");
    reveal_strlit("Reinstall PyTorch with CUDA: 'pip3 install torch torchvision --index-url https://download.pytorch.org/whl/cu121'");
    reveal_strlit("ollama_service_stopped");
    reveal_strlit("Ollama Local Service Stopped");
    reveal_strlit("Ollama CLI is installed, but the local background server on ");
    reveal_strlit(" is unreachable.");
    reveal_strlit("Ollama background service is either stopped or has not been started yet.");
    reveal_strlit("Start the Ollama background service: 'systemctl start ollama' (Linux) or run the 'ollama serve' command manually.");
    reveal_strlit("dns_resolution_failure");
    reveal_strlit("DNS Resolution Fails");
    reveal_strlit("IP routing is online, but hostname resolution is currently failing on this machine.");
    reveal_strlit("Configured local DNS nameservers (in /etc/resolv.conf) are unresponsive or misconfigured.");
    reveal_strlit("Check your DNS settings or temporarily add Google DNS to '/etc/resolv.conf': 'nameserver 8.8.8.8'");
    reveal_strlit("network_fully_offline");
    reveal_strlit("Host System Fully Offline");
    reveal_strlit("Cannot connect to external IPs or resolve domain names.");
    reveal_strlit("Network interface is disconnected, Wi-Fi is disabled, or gateway routing is down.");
    reveal_strlit("Verify physical connections, run 'ping -c 3 192.168.1.1' to check your local gateway, or run 'ip route' to verify interfaces.");
    reveal_strlit("## [");
    reveal_strlit("] Issue (Severity: ");
    reveal_strlit("): ");
    reveal_strlit("\n- **Description:** ");
    reveal_strlit("\n- **Probable Cause:** ");
    reveal_strlit("\n- **Remediation:** ");
    reveal_strlit("\n\n");
    reveal_strlit("# System Diagnostic Analysis (LLM-Optimized)\n\n");
    reveal_strlit("No environmental issues detected. System health check is green.\n");
    reveal_strlit("INFO");
    reveal_strlit("WARNING");
    reveal_strlit("ERROR");
    reveal_strlit("CRITICAL");
}

/// The issues of doctor mode hold no terminal escape, as long as the Ollama
/// address that one of them names holds none.
pub proof fn lemma_issue_view_escape_free(k: IssueKind, host: Seq<char>)
    requires
        escape_free(host),
    ensures
        issue_escape_free(issue_view(k, host)),
{
    lemma_literals_escape_free();
    if k == IssueKind::OllamaServiceStopped {
        lemma_escape_free_concat(
            "Ollama CLI is installed, but the local background server on "@,
            host,
        );
        lemma_escape_free_concat(
            "Ollama CLI is installed, but the local background server on "@ + host,
            " is unreachable."@,
        );
    }
}

proof fn lemma_issue_block_escape_free(n: nat, v: IssueView)
    requires
        issue_escape_free(v),
    ensures
        escape_free(issue_block(n, v)),
{
    lemma_literals_escape_free();
    lemma_dec_escape_free(n);
    let t1 = "## ["@ + dec(n);
    lemma_escape_free_concat("## ["@, dec(n));
    let t2 = t1 + "] Issue (Severity: "@;
    lemma_escape_free_concat(t1, "] Issue (Severity: "@);
    let t3 = t2 + v.severity.name_text();
    lemma_escape_free_concat(t2, v.severity.name_text());
    let t4 = t3 + "): "@;
    lemma_escape_free_concat(t3, "): "@);
    let t5 = t4 + v.title;
    lemma_escape_free_concat(t4, v.title);
    let t6 = t5 + "\n- **Description:** "@;
    lemma_escape_free_concat(t5, "\n- **Description:** "@);
    let t7 = t6 + v.description;
    lemma_escape_free_concat(t6, v.description);
    let t8 = t7 + "\n- **Probable Cause:** "@;
    lemma_escape_free_concat(t7, "\n- **Probable Cause:** "@);
    let t9 = t8 + v.probable_cause;
    lemma_escape_free_concat(t8, v.probable_cause);
    let t10 = t9 + "\n- **Remediation:** "@;
    lemma_escape_free_concat(t9, "\n- **Remediation:** "@);
    let t11 = t10 + v.remediation;
    lemma_escape_free_concat(t10, v.remediation);
    lemma_escape_free_concat(t11, "\n\n"@);
}

proof fn lemma_issue_blocks_escape_free(vs: Seq<IssueView>)
    requires
        forall|i: int| 0 <= i < vs.len() ==> issue_escape_free(#[trigger] vs[i]),
    ensures
        escape_free(issue_blocks(vs)),
    decreases vs.len(),
{
    if vs.len() == 0 {
        assert(issue_blocks(vs) =~= Seq::<char>::empty());
    } else {
        lemma_issue_blocks_escape_free(vs.drop_last());
        lemma_issue_block_escape_free(vs.len(), vs.last());
        lemma_escape_free_concat(issue_blocks(vs.drop_last()), issue_block(vs.len(), vs.last()));
    }
}

/// The Markdown report for language models holds no terminal escape
/// sequence when none of the issues' texts holds one.
pub proof fn law_llm_report_escape_free(vs: Seq<IssueView>)
    requires
        forall|i: int| 0 <= i < vs.len() ==> issue_escape_free(#[trigger] vs[i]),
    ensures
        escape_free(doctor_llm_text(vs)),
{
    lemma_literals_escape_free();
    if vs.len() == 0 {
        lemma_escape_free_concat(
            "# System Diagnostic Analysis (LLM-Optimized)\n\n"@,
            "No environmental issues detected. System health check is green.\n"@,
        );
    } else {
        lemma_issue_blocks_escape_free(vs);
        lemma_escape_free_concat(
            "# System Diagnostic Analysis (LLM-Optimized)\n\n"@,
            issue_blocks(vs),
        );
    }
}

/// `doctor --llm` prints no terminal escape sequence: the report that doctor
/// mode makes from any answers holds none, as long as the configured Ollama
/// address holds none.
pub proof fn law_doctor_llm_escape_free(p: DoctorProbes)
    requires
        escape_free(probed_host(p)),
    ensures
        escape_free(doctor_llm_text(doctor_issue_views(p))),
{
    let vs = doctor_issue_views(p);
    assert forall|i: int| 0 <= i < vs.len() implies issue_escape_free(#[trigger] vs[i]) by {
        lemma_issue_view_escape_free(doctor_kinds(p)[i], probed_host(p));
    }
    law_llm_report_escape_free(vs);
}

} // verus!
