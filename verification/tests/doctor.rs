use devinspect::collectors::doctor::{
    doctor_issues, doctor_kind_list, doctor_llm_report, make_issue, CommandRun, DiagnosticIssue,
    DoctorProbes, IssueKind, Probe, ProbeAnswer, Severity,
};

fn run(answer: impl Fn(Probe) -> ProbeAnswer) -> (Vec<Probe>, DoctorProbes) {
    let mut p = DoctorProbes::new();
    let mut asked = Vec::new();
    while let Some(q) = p.next_probe() {
        asked.push(q);
        p.answer(q, answer(q));
    }
    (asked, p)
}

fn finished(success: bool, stdout: &str, stderr: &str) -> ProbeAnswer {
    ProbeAnswer::Ran(CommandRun::Finished {
        success,
        stdout: stdout.to_string(),
        stderr: stderr.to_string(),
    })
}

fn ids(issues: &[DiagnosticIssue]) -> Vec<&str> {
    issues.iter().map(|i| i.id.as_str()).collect()
}

#[test]
fn a_healthy_machine_asks_few_probes_and_has_no_issue() {
    let (asked, p) = run(|q| match q {
        Probe::Gcc | Probe::Rustc | Probe::Docker | Probe::Dns => ProbeAnswer::Found(true),
        Probe::DockerPs => finished(true, "CONTAINER ID", ""),
        _ => ProbeAnswer::Found(false),
    });
    assert_eq!(
        asked,
        vec![Probe::Gcc, Probe::Rustc, Probe::Docker, Probe::DockerPs, Probe::NvidiaSmi, Probe::Ollama, Probe::Dns]
    );
    assert!(doctor_issues(&p).is_empty());
    assert_eq!(
        doctor_llm_report(&doctor_issues(&p)),
        "# System Diagnostic Analysis (LLM-Optimized)\n\nNo environmental issues detected. System health check is green.\n"
    );
}

#[test]
fn a_broken_machine_asks_every_probe() {
    let (asked, p) = run(|q| match q {
        Probe::Docker | Probe::NvidiaSmi | Probe::Ollama | Probe::DirectIp => ProbeAnswer::Found(true),
        Probe::DockerPs => finished(false, "", "Got permission denied while trying to connect"),
        Probe::TorchCuda => finished(true, "False\n", ""),
        Probe::OllamaHost => ProbeAnswer::Address("10.0.0.5:11434".to_string()),
        _ => ProbeAnswer::Found(false),
    });
    assert_eq!(
        asked,
        vec![
            Probe::Gcc,
            Probe::Clang,
            Probe::Rustc,
            Probe::Docker,
            Probe::DockerPs,
            Probe::NvidiaSmi,
            Probe::Nvcc,
            Probe::NvccDefaultPath,
            Probe::TorchCuda,
            Probe::Ollama,
            Probe::OllamaHost,
            Probe::OllamaPort,
            Probe::Dns,
            Probe::DirectIp,
        ]
    );
    let issues = doctor_issues(&p);
    assert_eq!(
        ids(&issues),
        vec![
            "missing_compiler",
            "missing_rust",
            "docker_permission_denied",
            "missing_cuda_nvcc",
            "pytorch_cpu_only_with_gpu",
            "ollama_service_stopped",
            "dns_resolution_failure",
        ]
    );
    assert_eq!(
        issues[5].description,
        "Ollama CLI is installed, but the local background server on 10.0.0.5:11434 is unreachable."
    );
    assert_eq!(issues[0].severity, Severity::CRITICAL);
    assert_eq!(issues[1].severity, Severity::INFO);
}

#[test]
fn offline_without_docker() {
    let (_, p) = run(|q| match q {
        Probe::Gcc | Probe::Rustc => ProbeAnswer::Found(true),
        _ => ProbeAnswer::Found(false),
    });
    assert_eq!(doctor_kind_list(&p), vec![IssueKind::MissingDocker, IssueKind::NetworkFullyOffline]);
}

#[test]
fn clang_is_enough_and_nvcc_default_path_counts() {
    let (asked, p) = run(|q| match q {
        Probe::Clang | Probe::Rustc | Probe::NvidiaSmi | Probe::NvccDefaultPath | Probe::Dns => {
            ProbeAnswer::Found(true)
        }
        Probe::TorchCuda => ProbeAnswer::Ran(CommandRun::Failed),
        _ => ProbeAnswer::Found(false),
    });
    assert!(asked.contains(&Probe::Clang));
    assert_eq!(doctor_kind_list(&p), vec![IssueKind::MissingDocker]);
}

#[test]
fn docker_ps_failing_for_other_reasons_is_no_issue() {
    let (_, p) = run(|q| match q {
        Probe::Gcc | Probe::Rustc | Probe::Docker | Probe::Dns => ProbeAnswer::Found(true),
        Probe::DockerPs => finished(false, "", "Cannot connect to the Docker daemon"),
        _ => ProbeAnswer::Found(false),
    });
    assert!(doctor_kind_list(&p).is_empty());
}

#[test]
fn answers_that_do_not_fit_change_nothing() {
    let mut p = DoctorProbes::new();
    p.answer(Probe::Gcc, ProbeAnswer::Address("x".to_string()));
    assert_eq!(p.next_probe(), Some(Probe::Gcc));
    p.answer(Probe::Gcc, ProbeAnswer::Found(true));
    assert_eq!(p.next_probe(), Some(Probe::Rustc));
}

#[test]
fn llm_report_numbers_the_issues() {
    let issues = vec![
        make_issue(IssueKind::MissingRust, ""),
        make_issue(IssueKind::DnsResolutionFailure, ""),
    ];
    let report = doctor_llm_report(&issues);
    let expected = "# System Diagnostic Analysis (LLM-Optimized)\n\n\
## [1] Issue (Severity: INFO): Rust Compiler (rustc) Not Found\n\
- **Description:** Rust compiler and cargo are missing from your system PATH.\n\
- **Probable Cause:** Rust toolchain is either not installed or not active in the current shell environment.\n\
- **Remediation:** Install Rust via rustup: 'curl --proto \"=https\" --tlsv1.2 -sSf https://sh.rustup.rs | sh' and source ~/.cargo/env\n\n\
## [2] Issue (Severity: ERROR): DNS Resolution Fails\n\
- **Description:** IP routing is online, but hostname resolution is currently failing on this machine.\n\
- **Probable Cause:** Configured local DNS nameservers (in /etc/resolv.conf) are unresponsive or misconfigured.\n\
- **Remediation:** Check your DNS settings or temporarily add Google DNS to '/etc/resolv.conf': 'nameserver 8.8.8.8'\n\n";
    assert_eq!(report, expected);
}

#[test]
fn severity_names_and_icons() {
    assert_eq!(Severity::CRITICAL.as_str(), "CRITICAL");
    assert_eq!(Severity::WARNING.as_str(), "WARNING");
    assert_eq!(Severity::CRITICAL.icon(), "🚨");
    assert_eq!(Severity::INFO.icon(), "ℹ️ ");
}

#[test]
fn reports_for_language_models_hold_no_escapes() {
    let (_, p) = run(|q| match q {
        Probe::Docker | Probe::NvidiaSmi | Probe::Ollama => ProbeAnswer::Found(true),
        Probe::DockerPs => finished(false, "", "permission denied"),
        Probe::TorchCuda => finished(true, "False", ""),
        Probe::OllamaHost => ProbeAnswer::Address("127.0.0.1:11434".to_string()),
        _ => ProbeAnswer::Found(false),
    });
    let issues = doctor_issues(&p);
    assert_eq!(issues.len(), 7);
    let report = doctor_llm_report(&issues);
    assert!(!report.contains('\u{1b}'));
    let mut seen = ids(&issues);
    seen.sort();
    seen.dedup();
    assert_eq!(seen.len(), issues.len());
}
