use devinspect::collectors::ai::{
    ai_llm_report, ai_llm_report_with, build_ai_report, command_output, cudnn_from_header_list,
    parse_cudnn_header, parse_nvcc_release, parse_nvidia_smi, parse_ollama_version,
    parse_onnx_probe, parse_python_version, parse_tensorflow_probe, parse_torch_probe, AiAnswer, AiProbe,
    AiProbes,
};

fn lines(v: &[&str]) -> Vec<String> {
    v.iter().map(|s| s.to_string()).collect()
}

#[test]
fn what_a_program_printed() {
    assert_eq!(command_output(true, "  Python 3.11.4\n", ""), Some("Python 3.11.4".to_string()));
    assert_eq!(command_output(false, "", " err \n"), Some("err".to_string()));
    assert_eq!(command_output(false, "out", "err"), Some("out".to_string()));
    assert_eq!(command_output(true, " \n", "\t"), None);
}

#[test]
fn version_parsers() {
    assert_eq!(parse_python_version("Python 3.10.12"), "3.10.12");
    assert_eq!(
        parse_nvcc_release("Cuda compilation tools, release 12.2, V12.2.140"),
        Some("12.2".to_string())
    );
    assert_eq!(parse_nvcc_release("release 12.2 without comma"), None);
    assert_eq!(parse_nvcc_release("no version"), None);
    assert_eq!(parse_ollama_version("ollama version is 0.1.32"), "0.1.32");
    assert_eq!(parse_ollama_version("ollama version 0.1.30"), "0.1.30");
}

#[test]
fn nvidia_smi_versions() {
    let out = "Mon Jan  1 00:00:00 2024\n+----+\n| NVIDIA-SMI 535.129.03             Driver Version: 535.129.03   CUDA Version: 12.2     |\n";
    assert_eq!(
        parse_nvidia_smi(out),
        (Some("535.129.03".to_string()), Some("12.2".to_string()))
    );
    assert_eq!(parse_nvidia_smi("Driver Version: 1.0 only"), (None, None));
}

#[test]
fn cudnn_header_versions() {
    let header = lines(&[
        "#ifndef CUDNN_VERSION_H_",
        "#define CUDNN_MAJOR 8",
        "#define CUDNN_MINOR 9",
        "#define CUDNN_PATCHLEVEL 2",
        "#define CUDNN_VERSION (CUDNN_MAJOR * 1000 + CUDNN_MINOR * 100 + CUDNN_PATCHLEVEL)",
    ]);
    assert_eq!(parse_cudnn_header(&header), Some("8.9.2".to_string()));
    assert_eq!(parse_cudnn_header(&lines(&["#define CUDNN_MAJOR 8"])), None);
    let first_without = Some(lines(&["nothing"]));
    assert_eq!(
        cudnn_from_header_list(&vec![None, first_without, Some(header)]),
        Some("8.9.2".to_string())
    );
}

#[test]
fn python_probe_answers() {
    assert_eq!(
        parse_torch_probe("OK|2.1.0+cu121|True|12.1"),
        Some(("2.1.0+cu121".to_string(), true, "12.1".to_string()))
    );
    assert_eq!(parse_torch_probe("OK|2.1.0|False"), None);
    assert_eq!(parse_torch_probe("Traceback (most recent call last):"), None);
    assert_eq!(parse_tensorflow_probe("OK|2.15.0|False"), Some(("2.15.0".to_string(), false)));
    assert_eq!(
        parse_onnx_probe("OK|1.16.3|CUDAExecutionProvider, CPUExecutionProvider"),
        Some((
            "1.16.3".to_string(),
            vec!["CUDAExecutionProvider".to_string(), "CPUExecutionProvider".to_string()]
        ))
    );
}

fn probe_all(answer: impl Fn(AiProbe) -> Option<String>) -> (Vec<AiProbe>, AiProbes) {
    let mut p = AiProbes::new();
    let mut asked = Vec::new();
    while let Some(q) = p.next_probe() {
        asked.push(q);
        let a = match q {
            AiProbe::NvccDefaultExists
            | AiProbe::CudnnLibrary(_)
            | AiProbe::TensorRtLibrary(_)
            | AiProbe::OllamaReachable
            | AiProbe::LlamaInPath(_) => AiAnswer::Exists(answer(q).is_some()),
            AiProbe::CudnnHeader(_) => {
                AiAnswer::Lines(answer(q).map(|s| s.lines().map(|l| l.to_string()).collect()))
            }
            AiProbe::OllamaHost => AiAnswer::Address(answer(q).unwrap_or_default()),
            _ => AiAnswer::Printed(answer(q)),
        };
        p.answer(q, a);
    }
    (asked, p)
}

#[test]
fn a_bare_machine() {
    let (asked, p) = probe_all(|q| match q {
        AiProbe::OllamaHost => Some("127.0.0.1:11434".to_string()),
        _ => None,
    });
    assert_eq!(
        asked,
        vec![
            AiProbe::Python3Version,
            AiProbe::PythonVersion,
            AiProbe::NvccVersion,
            AiProbe::NvccDefaultExists,
            AiProbe::NvidiaSmi,
            AiProbe::CudnnHeader(0),
            AiProbe::CudnnHeader(1),
            AiProbe::CudnnHeader(2),
            AiProbe::CudnnLibrary(0),
            AiProbe::CudnnLibrary(1),
            AiProbe::TrtexecVersion,
            AiProbe::TensorRtLibrary(0),
            AiProbe::TensorRtLibrary(1),
            AiProbe::OllamaVersion,
            AiProbe::OllamaHost,
            AiProbe::OllamaReachable,
            AiProbe::TorchProbe,
            AiProbe::TensorFlowProbe,
            AiProbe::OnnxProbe,
            AiProbe::LlamaCliVersion,
            AiProbe::LlamaServerVersion,
            AiProbe::LlamaInPath(0),
            AiProbe::LlamaInPath(1),
            AiProbe::LlamaInPath(2),
        ]
    );
    let r = build_ai_report(&p);
    assert!(!r.python.installed && !r.cuda.installed && !r.cudnn.installed);
    assert!(!r.tensorrt.installed && !r.ollama.installed && !r.pytorch.installed);
    assert!(!r.tensorflow.installed && !r.onnxruntime.installed && !r.llamacpp.installed);
    assert_eq!(
        ai_llm_report(&r),
        "# AI/ML Diagnostic Report (LLM-Optimized)\n\n\
- Python: installed=false, version=None\n\
- CUDA: installed=false, nvcc=None, driver=None, max_cuda=None\n\
- cuDNN: installed=false, version=None\n\
- TensorRT: installed=false, version=None\n\
- Ollama: installed=false, version=None, running=false\n\
- PyTorch: installed=false, version=None, cuda_available=false, torch_cuda_ver=None\n\
- TensorFlow: installed=false, version=None, gpu_available=false\n\
- ONNX Runtime: installed=false, version=None, providers=[]\n\
- llama.cpp: installed=false, version=None\n"
    );
}

#[test]
fn a_full_stack() {
    let header = "#define CUDNN_MAJOR 9\n#define CUDNN_MINOR 1\n#define CUDNN_PATCHLEVEL 0\n";
    let (asked, p) = probe_all(|q| match q {
        AiProbe::Python3Version => Some("Python 3.12.1".to_string()),
        AiProbe::NvccVersion => Some("nvcc: NVIDIA (R) Cuda compiler driver\nCuda compilation tools, release 12.4, V12.4.131".to_string()),
        AiProbe::NvidiaSmi => Some("| NVIDIA-SMI 550.54.14   Driver Version: 550.54.14   CUDA Version: 12.4 |".to_string()),
        AiProbe::CudnnHeader(1) => Some(header.to_string()),
        AiProbe::TrtexecVersion => Some("TensorRT v8601".to_string()),
        AiProbe::OllamaVersion => Some("ollama version is 0.3.6".to_string()),
        AiProbe::OllamaHost => Some("127.0.0.1:11434".to_string()),
        AiProbe::OllamaReachable => Some(String::new()),
        AiProbe::TorchProbe => Some("OK|2.3.0|True|12.1".to_string()),
        AiProbe::TensorFlowProbe => Some("OK|2.16.1|True".to_string()),
        AiProbe::OnnxProbe => Some("OK|1.18.0|CUDAExecutionProvider,CPUExecutionProvider".to_string()),
        AiProbe::LlamaCliVersion => None,
        AiProbe::LlamaServerVersion => Some("version: 3000 (abc)".to_string()),
        _ => None,
    });
    assert!(!asked.contains(&AiProbe::PythonVersion));
    assert!(!asked.contains(&AiProbe::NvccDefaultExists));
    assert!(!asked.contains(&AiProbe::CudnnHeader(2)));
    assert!(!asked.contains(&AiProbe::CudnnLibrary(0)));
    assert!(!asked.contains(&AiProbe::TensorRtLibrary(0)));
    assert!(!asked.contains(&AiProbe::LlamaInPath(0)));
    let r = build_ai_report(&p);
    assert_eq!(r.python.version.as_deref(), Some("3.12.1"));
    assert_eq!(r.cuda.nvcc_version.as_deref(), Some("12.4"));
    assert_eq!(r.cuda.driver_version.as_deref(), Some("550.54.14"));
    assert_eq!(r.cuda.max_supported_cuda.as_deref(), Some("12.4"));
    assert_eq!(r.cudnn.version.as_deref(), Some("9.1.0"));
    assert_eq!(r.tensorrt.version.as_deref(), Some("TensorRT v8601"));
    assert!(r.ollama.installed && r.ollama.service_running);
    assert_eq!(r.pytorch.cuda_available, Some(true));
    assert_eq!(r.tensorflow.gpu_available, Some(true));
    assert_eq!(r.llamacpp.version.as_deref(), Some("version: 3000 (abc)"));
    let report = ai_llm_report(&r);
    assert!(report.contains("- ONNX Runtime: installed=true, version=1.18.0, providers=[\"CUDAExecutionProvider\", \"CPUExecutionProvider\"]\n"));
    assert!(report.contains("- PyTorch: installed=true, version=2.3.0, cuda_available=true, torch_cuda_ver=12.1\n"));
}

#[test]
fn library_fallbacks() {
    let (_, p) = probe_all(|q| match q {
        AiProbe::NvccDefaultExists => Some(String::new()),
        AiProbe::NvccDefaultVersion => None,
        AiProbe::CudnnLibrary(1) => Some(String::new()),
        AiProbe::TensorRtLibrary(0) => Some(String::new()),
        AiProbe::OllamaHost => Some("127.0.0.1:11434".to_string()),
        AiProbe::OllamaReachable => Some(String::new()),
        AiProbe::LlamaInPath(1) => Some(String::new()),
        _ => None,
    });
    let r = build_ai_report(&p);
    assert!(r.cuda.installed);
    assert_eq!(r.cuda.nvcc_version, None);
    assert_eq!(r.cudnn.version.as_deref(), Some("Detected (Shared Library present)"));
    assert_eq!(r.tensorrt.version.as_deref(), Some("Detected (libnvinfer present)"));
    assert!(r.ollama.installed && r.ollama.version.is_none());
    assert_eq!(r.llamacpp.version.as_deref(), Some("Installed (binary in PATH)"));
}

#[test]
fn llm_report_with_given_providers() {
    let (_, p) = probe_all(|q| match q {
        AiProbe::OllamaHost => Some("h".to_string()),
        _ => None,
    });
    let r = build_ai_report(&p);
    let s = ai_llm_report_with(&r, "<providers>");
    assert!(s.contains("providers=<providers>\n"));
    assert!(s.starts_with("# AI/ML Diagnostic Report (LLM-Optimized)\n\n- Python: installed=false"));
}

#[test]
fn ai_answers_that_do_not_fit_change_nothing() {
    let mut p = AiProbes::new();
    p.answer(AiProbe::Python3Version, AiAnswer::Exists(true));
    assert_eq!(p.next_probe(), Some(AiProbe::Python3Version));
    p.answer(AiProbe::Python3Version, AiAnswer::Printed(None));
    assert_eq!(p.next_probe(), Some(AiProbe::PythonVersion));
}

#[test]
fn ai_report_for_language_models_holds_no_escapes() {
    let (_, p) = probe_all(|q| match q {
        AiProbe::Python3Version => Some("Python 3.12.1".to_string()),
        AiProbe::OllamaHost => Some("127.0.0.1:11434".to_string()),
        AiProbe::OnnxProbe => Some("OK|1.18.0|CPUExecutionProvider".to_string()),
        _ => None,
    });
    let report = ai_llm_report(&build_ai_report(&p));
    assert!(!report.contains('\u{1b}'));
    assert!(report.contains("- Python: installed=true, version=3.12.1\n"));
}

#[test]
fn escapes_in_provider_names_are_rendered_harmless() {
    let (_, p) = probe_all(|q| match q {
        AiProbe::OllamaHost => Some("127.0.0.1:11434".to_string()),
        AiProbe::OnnxProbe => Some("OK|1.18.0|Bad\u{1b}[31mProvider".to_string()),
        _ => None,
    });
    let report = ai_llm_report(&build_ai_report(&p));
    assert!(!report.contains('\u{1b}'));
    assert!(report.contains("providers=[\"Bad\\u{1b}[31mProvider\"]\n"));
}
