//! AI/ML stack validation: reading the versions that the tools print, the
//! order in which the tools are probed, and the report built from the
//! answers.
use vstd::prelude::*;

use crate::text::{
    chars_of, contains, escape_free, lemma_escape_free_concat, contains_str, eq_str, find, find_exec, lines, lines_exec, push_all,
    push_str, remove_all, remove_all_exec, slice_of, split_on, split_on_exec, starts_with,
    starts_with_str, string_of, trim, trim_start, trim_bounds, trimmed, views, words, words_exec,
};

verus! {

/// Python interpreter.
pub struct PythonInfo {
    pub installed: bool,
    pub version: Option<String>,
}

/// NVIDIA driver and CUDA toolkit.
pub struct CudaInfo {
    pub installed: bool,
    pub nvcc_version: Option<String>,
    pub driver_version: Option<String>,
    pub max_supported_cuda: Option<String>,
}

/// cuDNN library.
pub struct CudnnInfo {
    pub installed: bool,
    pub version: Option<String>,
}

/// TensorRT.
pub struct TensorRtInfo {
    pub installed: bool,
    pub version: Option<String>,
}

/// Ollama and its local service.
pub struct OllamaInfo {
    pub installed: bool,
    pub version: Option<String>,
    pub service_running: bool,
}

/// PyTorch.
pub struct PyTorchInfo {
    pub installed: bool,
    pub version: Option<String>,
    pub cuda_available: Option<bool>,
    pub cuda_version: Option<String>,
}

/// TensorFlow.
pub struct TensorFlowInfo {
    pub installed: bool,
    pub version: Option<String>,
    pub gpu_available: Option<bool>,
}

/// ONNX Runtime.
pub struct OnnxRuntimeInfo {
    pub installed: bool,
    pub version: Option<String>,
    pub providers: Vec<String>,
}

/// llama.cpp.
pub struct LlamaCppInfo {
    pub installed: bool,
    pub version: Option<String>,
}

/// Everything that AI/ML validation found.
pub struct AiDiagnosticReport {
    pub python: PythonInfo,
    pub cuda: CudaInfo,
    pub cudnn: CudnnInfo,
    pub tensorrt: TensorRtInfo,
    pub ollama: OllamaInfo,
    pub pytorch: PyTorchInfo,
    pub tensorflow: TensorFlowInfo,
    pub onnxruntime: OnnxRuntimeInfo,
    pub llamacpp: LlamaCppInfo,
}

/// The text of an optional string.
pub open spec fn opt_text(o: Option<String>) -> Option<Seq<char>> {
    match o {
        Some(s) => Some(s@),
        None => None,
    }
}

fn opt_string(o: Option<Vec<char>>) -> (r: Option<String>)
    ensures
        opt_text(r) == (match o {
            Some(v) => Some(v@),
            None => None,
        }),
{
    match o {
        Some(v) => Some(string_of(&v)),
        None => None,
    }
}

// ---------------------------------------------------------------------------
// What a probed program printed
// ---------------------------------------------------------------------------
/// What a program printed, as AI validation reads it: its trimmed standard
/// output if not empty, else its trimmed error output if not empty, else
/// nothing.
pub open spec fn command_output_text(stdout: Seq<char>, stderr: Seq<char>) -> Option<Seq<char>> {
    if trim(stdout).len() > 0 {
        Some(trim(stdout))
    } else if trim(stderr).len() > 0 {
        Some(trim(stderr))
    } else {
        None
    }
}

/// What a program that finished printed (see `command_output_text`); the
/// exit status does not matter.
pub fn command_output(success: bool, stdout: &str, stderr: &str) -> (r: Option<String>)
    ensures
        opt_text(r) == command_output_text(stdout@, stderr@),
{
    let out = trimmed(&chars_of(stdout));
    let err = trimmed(&chars_of(stderr));
    if success && out.len() > 0 {
        Some(string_of(&out))
    } else if out.len() > 0 {
        Some(string_of(&out))
    } else if err.len() > 0 {
        Some(string_of(&err))
    } else {
        None
    }
}

/// `Python 3.10.12` → `3.10.12`.
pub open spec fn python_version_text(out: Seq<char>) -> Seq<char> {
    trim(remove_all(out, "Python "@))
}

/// The Python version in the output of `python3 --version`.
pub fn parse_python_version(out: &str) -> (s: String)
    ensures
        s@ == python_version_text(out@),
{
    let v = remove_all_exec(&chars_of(out), &chars_of("Python "));
    string_of(&trimmed(&v))
}

/// The version after `release ` up to the next comma in `nvcc --version`
/// (`... release 12.2, V12.2.140` → `12.2`).
pub open spec fn nvcc_release_text(out: Seq<char>) -> Option<Seq<char>> {
    match find(out, "release "@) {
        Some(i) => {
            let part = out.skip(i + 8);
            match find(part, ","@) {
                Some(c) => Some(trim(part.take(c))),
                None => None,
            }
        },
        None => None,
    }
}

/// The CUDA release that `nvcc --version` prints.
pub fn parse_nvcc_release(out: &str) -> (r: Option<String>)
    ensures
        opt_text(r) == nvcc_release_text(out@),
{
    let v = chars_of(out);
    let i = match find_exec(&v, &chars_of("release ")) {
        Some(i) => i,
        None => return None,
    };
    proof {
        reveal_strlit("release ");
        assert("release "@.len() == 8);
        crate::text::lemma_find_is(v@, "release "@);
        assert(crate::text::occurs_at(v@, "release "@, i as int));
    }
    assert(i + 8 <= v.len());
    let part = slice_of(&v, i + 8, v.len());
    proof {
        assert(part@ == v@.skip(i + 8));
    }
    let c = match find_exec(&part, &chars_of(",")) {
        Some(c) => c,
        None => return None,
    };
    proof {
        reveal_strlit(",");
        crate::text::lemma_find_is(part@, ","@);
    }
    let (a, b) = trim_bounds(&part, 0, c);
    proof {
        assert(part@.subrange(0, c as int) == part@.take(c as int));
    }
    Some(string_of(&slice_of(&part, a, b)))
}

/// The word that follows `marker` in `line`: the text after the marker,
/// without leading whitespace, up to the next space.
pub open spec fn word_after(line: Seq<char>, marker: Seq<char>) -> Option<Seq<char>> {
    match find(line, marker) {
        Some(i) => {
            let part = trim_start(line.skip(i + marker.len()));
            match find(part, " "@) {
                Some(e) => Some(trim(part.take(e))),
                None => Some(trim(part)),
            }
        },
        None => None,
    }
}

fn word_after_exec(line: &Vec<char>, marker: &str) -> (r: Option<Vec<char>>)
    ensures
        r matches Some(w) ==> word_after(line@, marker@) == Some(w@),
        r is None ==> word_after(line@, marker@) is None,
{
    let m = chars_of(marker);
    let i = match find_exec(line, &m) {
        Some(i) => i,
        None => return None,
    };
    proof {
        crate::text::lemma_find_is(line@, m@);
        assert(crate::text::occurs_at(line@, m@, i as int));
    }
    assert(i + m.len() <= line.len());
    let (a, _b) = trim_bounds(line, i + m.len(), line.len());
    let part = slice_of(line, a, line.len());
    proof {
        assert(line@.subrange((i + m.len()) as int, line.len() as int) == line@.skip(
            i + m.len(),
        ));
    }
    match find_exec(&part, &chars_of(" ")) {
        Some(e) => {
            proof {
                reveal_strlit(" ");
                crate::text::lemma_find_is(part@, " "@);
            }
            let (x, y) = trim_bounds(&part, 0, e);
            proof {
                assert(part@.subrange(0, e as int) == part@.take(e as int));
            }
            Some(slice_of(&part, x, y))
        },
        None => Some(trimmed(&part)),
    }
}

/// The driver version and the highest CUDA version that the driver
/// supports, from the first line of `nvidia-smi` that names both
/// (`Driver Version: 535.129.03   CUDA Version: 12.2`).
pub open spec fn smi_versions_from(ls: Seq<Seq<char>>) -> (Option<Seq<char>>, Option<Seq<char>>)
    decreases ls.len(),
{
    if ls.len() == 0 {
        (None, None)
    } else if contains(ls[0], "Driver Version:"@) && contains(ls[0], "CUDA Version:"@) {
        (word_after(ls[0], "Driver Version:"@), word_after(ls[0], "CUDA Version:"@))
    } else {
        smi_versions_from(ls.drop_first())
    }
}

/// The driver and CUDA versions in the output of `nvidia-smi`.
pub fn parse_nvidia_smi(out: &str) -> (r: (Option<String>, Option<String>))
    ensures
        (opt_text(r.0), opt_text(r.1)) == smi_versions_from(lines(out@)),
{
    let ls = lines_exec(&chars_of(out));
    let ghost lv = views(ls@);
    let mut i: usize = 0;
    proof {
        assert(lv.skip(0) == lv);
    }
    while i < ls.len()
        invariant
            i <= ls.len(),
            lv == views(ls@),
            lv == lines(out@),
            smi_versions_from(lv) == smi_versions_from(lv.skip(i as int)),
        decreases ls.len() - i,
    {
        let ghost rest = lv.skip(i as int);
        proof {
            assert(rest[0] == ls[i as int]@);
            assert(rest.drop_first() == lv.skip(i + 1));
        }
        if contains_str(&ls[i], "Driver Version:") && contains_str(&ls[i], "CUDA Version:") {
            let d = word_after_exec(&ls[i], "Driver Version:");
            let c = word_after_exec(&ls[i], "CUDA Version:");
            return (opt_string(d), opt_string(c));
        }
        i = i + 1;
    }
    (None, None)
}

/// The cuDNN version defined in `cudnn_version.h` lines, from the three
/// defines `CUDNN_MAJOR`, `CUDNN_MINOR`, `CUDNN_PATCHLEVEL` (a line with one
/// define is not searched for the next ones); `None` unless all three are
/// there.
pub open spec fn cudnn_version_text(ls: Seq<Seq<char>>) -> Option<Seq<char>> {
    let major = cudnn_field(ls, 0);
    let minor = cudnn_field(ls, 1);
    let patch = cudnn_field(ls, 2);
    match (major, minor, patch) {
        (Some(a), Some(b), Some(c)) => Some(a + "."@ + b + "."@ + c),
        _ => None,
    }
}

/// The define that a line sets: 0 for `#define CUDNN_MAJOR`, 1 for
/// `#define CUDNN_MINOR`, 2 for `#define CUDNN_PATCHLEVEL`, tested in that
/// order, 3 for none.
pub open spec fn cudnn_line_kind(l: Seq<char>) -> int {
    if contains(l, "#define CUDNN_MAJOR"@) {
        0
    } else if contains(l, "#define CUDNN_MINOR"@) {
        1
    } else if contains(l, "#define CUDNN_PATCHLEVEL"@) {
        2
    } else {
        3
    }
}

/// The value of define `k`: the last word of the last line that sets it.
pub open spec fn cudnn_field(ls: Seq<Seq<char>>, k: int) -> Option<Seq<char>>
    decreases ls.len(),
{
    if ls.len() == 0 {
        None
    } else if cudnn_line_kind(ls.last()) == k {
        if words(ls.last()).len() > 0 {
            Some(words(ls.last()).last())
        } else {
            None
        }
    } else {
        cudnn_field(ls.drop_last(), k)
    }
}

fn line_kind_exec(l: &Vec<char>) -> (k: usize)
    ensures
        k == cudnn_line_kind(l@),
{
    if contains_str(l, "#define CUDNN_MAJOR") {
        0
    } else if contains_str(l, "#define CUDNN_MINOR") {
        1
    } else if contains_str(l, "#define CUDNN_PATCHLEVEL") {
        2
    } else {
        3
    }
}

/// The text held by a list of strings.
pub open spec fn texts(v: Seq<String>) -> Seq<Seq<char>> {
    Seq::new(v.len(), |i: int| v[i]@)
}

/// The cuDNN version `MAJOR.MINOR.PATCHLEVEL` defined by the lines of a
/// `cudnn_version.h` header.
pub fn parse_cudnn_header(lines: &Vec<String>) -> (r: Option<String>)
    ensures
        opt_text(r) == cudnn_version_text(texts(lines@)),
{
    let ghost lv = texts(lines@);
    let mut major: Option<Vec<char>> = None;
    let mut minor: Option<Vec<char>> = None;
    let mut patch: Option<Vec<char>> = None;
    let mut i: usize = 0;
    while i < lines.len()
        invariant
            i <= lines.len(),
            lv == texts(lines@),
            (match major {
                Some(v) => Some(v@),
                None => None,
            }) == cudnn_field(lv.take(i as int), 0),
            (match minor {
                Some(v) => Some(v@),
                None => None,
            }) == cudnn_field(lv.take(i as int), 1),
            (match patch {
                Some(v) => Some(v@),
                None => None,
            }) == cudnn_field(lv.take(i as int), 2),
        decreases lines.len() - i,
    {
        proof {
            assert(lv.take(i + 1).drop_last() == lv.take(i as int));
            assert(lv.take(i + 1).last() == lines[i as int]@);
        }
        let l = chars_of(lines[i].as_str());
        let k = line_kind_exec(&l);
        if k < 3 {
            let w = words_exec(&l);
            let val: Option<Vec<char>> = if w.len() > 0 {
                proof {
                    assert(views(w@)[w.len() - 1] == w[w.len() - 1]@);
                }
                Some(slice_of(&w[w.len() - 1], 0, w[w.len() - 1].len()))
            } else {
                None
            };
            proof {
                if w.len() > 0 {
                    assert(w[w.len() - 1]@.subrange(0, w[w.len() - 1]@.len() as int)
                        == w[w.len() - 1]@);
                }
            }
            if k == 0 {
                major = val;
            } else if k == 1 {
                minor = val;
            } else {
                patch = val;
            }
        }
        i = i + 1;
    }
    proof {
        assert(lv.take(lines.len() as int) == lv);
    }
    match (major, minor, patch) {
        (Some(a), Some(b), Some(c)) => {
            let mut out: Vec<char> = Vec::new();
            push_all(&mut out, &a);
            push_str(&mut out, ".");
            push_all(&mut out, &b);
            push_str(&mut out, ".");
            push_all(&mut out, &c);
            Some(string_of(&out))
        },
        _ => None,
    }
}

/// `ollama version is 0.1.32` or `ollama version 0.1.32` → `0.1.32`.
pub open spec fn ollama_version_text(out: Seq<char>) -> Seq<char> {
    trim(remove_all(remove_all(out, "ollama version is"@), "ollama version"@))
}

/// The Ollama version in the output of `ollama --version`.
pub fn parse_ollama_version(out: &str) -> (s: String)
    ensures
        s@ == ollama_version_text(out@),
{
    let a = remove_all_exec(&chars_of(out), &chars_of("ollama version is"));
    let b = remove_all_exec(&a, &chars_of("ollama version"));
    string_of(&trimmed(&b))
}

/// The `|`-separated fields of a probe's answer `OK|...`, or `None` when it
/// does not start with `OK|` or has fewer than `n` fields.
pub open spec fn probe_fields(out: Seq<char>, n: int) -> Option<Seq<Seq<char>>> {
    if starts_with(out, "OK|"@) && split_on(out, '|').len() >= n {
        Some(split_on(out, '|'))
    } else {
        None
    }
}

fn probe_fields_exec(out: &str, n: usize) -> (r: Option<Vec<Vec<char>>>)
    ensures
        r matches Some(v) ==> probe_fields(out@, n as int) == Some(views(v@)),
        r is None ==> probe_fields(out@, n as int) is None,
{
    let v = chars_of(out);
    if !starts_with_str(&v, "OK|") {
        return None;
    }
    let parts = split_on_exec(&v, '|');
    if parts.len() < n {
        return None;
    }
    Some(parts)
}

/// What the PyTorch probe printed: version, whether CUDA is available (the
/// third field is `True`), CUDA version.
pub open spec fn torch_probe_text(out: Seq<char>) -> Option<(Seq<char>, bool, Seq<char>)> {
    match probe_fields(out, 4) {
        Some(p) => Some((p[1], p[2] == "True"@, p[3])),
        None => None,
    }
}

/// Reads `OK|version|cuda available|cuda version` from the PyTorch probe.
pub fn parse_torch_probe(out: &str) -> (r: Option<(String, bool, String)>)
    ensures
        r matches Some((v, c, cv)) ==> torch_probe_text(out@) == Some((v@, c, cv@)),
        r is None ==> torch_probe_text(out@) is None,
{
    match probe_fields_exec(out, 4) {
        Some(p) => {
            proof {
                assert(views(p@)[1] == p[1]@);
                assert(views(p@)[2] == p[2]@);
                assert(views(p@)[3] == p[3]@);
            }
            Some((string_of(&p[1]), eq_str(&p[2], "True"), string_of(&p[3])))
        },
        None => None,
    }
}

/// What the TensorFlow probe printed: version, whether a GPU is visible.
pub open spec fn tensorflow_probe_text(out: Seq<char>) -> Option<(Seq<char>, bool)> {
    match probe_fields(out, 3) {
        Some(p) => Some((p[1], p[2] == "True"@)),
        None => None,
    }
}

/// Reads `OK|version|gpu available` from the TensorFlow probe.
pub fn parse_tensorflow_probe(out: &str) -> (r: Option<(String, bool)>)
    ensures
        r matches Some((v, g)) ==> tensorflow_probe_text(out@) == Some((v@, g)),
        r is None ==> tensorflow_probe_text(out@) is None,
{
    match probe_fields_exec(out, 3) {
        Some(p) => {
            proof {
                assert(views(p@)[1] == p[1]@);
                assert(views(p@)[2] == p[2]@);
            }
            Some((string_of(&p[1]), eq_str(&p[2], "True")))
        },
        None => None,
    }
}

/// What the ONNX Runtime probe printed: version, and the execution
/// providers (the comma-separated third field, each trimmed).
pub open spec fn onnx_probe_text(out: Seq<char>) -> Option<(Seq<char>, Seq<Seq<char>>)> {
    match probe_fields(out, 3) {
        Some(p) => Some((p[1], split_on(p[2], ',').map_values(|s: Seq<char>| trim(s)))),
        None => None,
    }
}

/// Reads `OK|version|provider,provider,...` from the ONNX Runtime probe.
pub fn parse_onnx_probe(out: &str) -> (r: Option<(String, Vec<String>)>)
    ensures
        r matches Some((v, ps)) ==> onnx_probe_text(out@) == Some((v@, texts(ps@))),
        r is None ==> onnx_probe_text(out@) is None,
{
    match probe_fields_exec(out, 3) {
        Some(p) => {
            proof {
                assert(views(p@)[1] == p[1]@);
                assert(views(p@)[2] == p[2]@);
            }
            let pieces = split_on_exec(&p[2], ',');
            let ghost pv = views(pieces@);
            let mut ps: Vec<String> = Vec::new();
            let mut j: usize = 0;
            while j < pieces.len()
                invariant
                    j <= pieces.len(),
                    pv == views(pieces@),
                    texts(ps@) == pv.take(j as int).map_values(|s: Seq<char>| trim(s)),
                decreases pieces.len() - j,
            {
                let t = string_of(&trimmed(&pieces[j]));
                let ghost before = ps@;
                ps.push(t);
                proof {
                    assert(texts(ps@) =~= texts(before).push(t@));
                    assert(pv.take(j + 1).map_values(|s: Seq<char>| trim(s)) =~= pv.take(
                        j as int,
                    ).map_values(|s: Seq<char>| trim(s)).push(trim(pv[j as int])));
                }
                j = j + 1;
            }
            proof {
                assert(pv.take(pieces.len() as int) == pv);
            }
            Some((string_of(&p[1]), ps))
        },
        None => None,
    }
}


// ---------------------------------------------------------------------------
// Probing
// ---------------------------------------------------------------------------
/// The places where a `cudnn_version.h` header is looked for, in order.
pub fn cudnn_header_path(k: usize) -> (s: &'static str)
    requires
        k < 3,
    ensures
        s@ == (if k == 0 {
            "/usr/include/cudnn_version.h"@
        } else if k == 1 {
            "/usr/local/cuda/include/cudnn_version.h"@
        } else {
            "/usr/include/x86_64-linux-gnu/cudnn_version.h"@
        }),
{
    if k == 0 {
        "/usr/include/cudnn_version.h"
    } else if k == 1 {
        "/usr/local/cuda/include/cudnn_version.h"
    } else {
        "/usr/include/x86_64-linux-gnu/cudnn_version.h"
    }
}

/// The places where the cuDNN shared library is looked for, in order.
pub fn cudnn_library_path(k: usize) -> (s: &'static str)
    requires
        k < 2,
    ensures
        s@ == (if k == 0 {
            "/usr/lib/x86_64-linux-gnu/libcudnn.so"@
        } else {
            "/usr/local/cuda/lib64/libcudnn.so"@
        }),
{
    if k == 0 {
        "/usr/lib/x86_64-linux-gnu/libcudnn.so"
    } else {
        "/usr/local/cuda/lib64/libcudnn.so"
    }
}

/// The places where the TensorRT library is looked for, in order.
pub fn tensorrt_library_path(k: usize) -> (s: &'static str)
    requires
        k < 2,
    ensures
        s@ == (if k == 0 {
            "/usr/lib/x86_64-linux-gnu/libnvinfer.so"@
        } else {
            "/usr/local/TensorRT/lib/libnvinfer.so"@
        }),
{
    if k == 0 {
        "/usr/lib/x86_64-linux-gnu/libnvinfer.so"
    } else {
        "/usr/local/TensorRT/lib/libnvinfer.so"
    }
}

/// The llama.cpp programs looked up on the PATH, in order.
pub fn llama_binary(k: usize) -> (s: &'static str)
    requires
        k < 3,
    ensures
        s@ == (if k == 0 {
            "llama-cli"@
        } else if k == 1 {
            "llama-server"@
        } else {
            "llama-bench"@
        }),
{
    if k == 0 {
        "llama-cli"
    } else if k == 1 {
        "llama-server"
    } else {
        "llama-bench"
    }
}

/// The probes of AI validation. A program run gives what it printed (see
/// `command_output`), or nothing when it could not run or printed nothing.
#[derive(Clone, Copy, PartialEq, Eq, Structural, Debug)]
pub enum AiProbe {
    /// Run `python3 --version`.
    Python3Version,
    /// Run `python --version` (only when `python3` gave nothing).
    PythonVersion,
    /// Run `nvcc --version`.
    NvccVersion,
    /// Does `/usr/local/cuda/bin/nvcc` exist? (only when `nvcc` gave nothing)
    NvccDefaultExists,
    /// Run `/usr/local/cuda/bin/nvcc --version` (only when it exists).
    NvccDefaultVersion,
    /// Run `nvidia-smi`.
    NvidiaSmi,
    /// Read the lines of the `k`-th `cudnn_version.h` (nothing when it does
    /// not exist or cannot be opened); until one gives a version.
    CudnnHeader(usize),
    /// Does the `k`-th cuDNN library exist? (only when no header gave a
    /// version; until one exists)
    CudnnLibrary(usize),
    /// Run `trtexec --version`.
    TrtexecVersion,
    /// Does the `k`-th TensorRT library exist? (only when `trtexec` gave
    /// nothing; until one exists)
    TensorRtLibrary(usize),
    /// Run `ollama --version`.
    OllamaVersion,
    /// The address of the Ollama service (see `ollama_address`).
    OllamaHost,
    /// Does a TCP connection to that address open within 200 ms?
    OllamaReachable,
    /// Run the PyTorch probe with `python3 -c`.
    TorchProbe,
    /// Run the TensorFlow probe with `python3 -c`.
    TensorFlowProbe,
    /// Run the ONNX Runtime probe with `python3 -c`.
    OnnxProbe,
    /// Run `llama-cli --version`.
    LlamaCliVersion,
    /// Run `llama-server --version` (only when `llama-cli` gave nothing).
    LlamaServerVersion,
    /// Does `which` print anything for the `k`-th llama.cpp program? (only
    /// when neither version run gave anything; until one does)
    LlamaInPath(usize),
}

/// The answers of AI validation so far; `None` (or a short list) is a probe
/// not (yet) run.
pub struct AiProbes {
    pub python3: Option<Option<String>>,
    pub python: Option<Option<String>>,
    pub nvcc: Option<Option<String>>,
    pub nvcc_default_exists: Option<bool>,
    pub nvcc_default: Option<Option<String>>,
    pub nvidia_smi: Option<Option<String>>,
    pub cudnn_headers: Vec<Option<Vec<String>>>,
    pub cudnn_libraries: Vec<bool>,
    pub trtexec: Option<Option<String>>,
    pub tensorrt_libraries: Vec<bool>,
    pub ollama: Option<Option<String>>,
    pub ollama_host: Option<String>,
    pub ollama_reachable: Option<bool>,
    pub torch: Option<Option<String>>,
    pub tensorflow: Option<Option<String>>,
    pub onnx: Option<Option<String>>,
    pub llama_cli: Option<Option<String>>,
    pub llama_server: Option<Option<String>>,
    pub llama_in_path: Vec<bool>,
}

/// A program run that printed something.
pub open spec fn printed(o: Option<Option<String>>) -> bool {
    o matches Some(Some(_))
}

/// The text of the headers read so far.
pub open spec fn header_texts(hs: Seq<Option<Vec<String>>>) -> Seq<Option<Seq<Seq<char>>>> {
    Seq::new(
        hs.len(),
        |i: int|
            match hs[i] {
                Some(ls) => Some(texts(ls@)),
                None => None,
            },
    )
}

/// The version given by the first header that defines all three parts.
pub open spec fn cudnn_from_headers(hs: Seq<Option<Seq<Seq<char>>>>) -> Option<Seq<char>>
    decreases hs.len(),
{
    if hs.len() == 0 {
        None
    } else {
        match hs[0] {
            Some(ls) => match cudnn_version_text(ls) {
                Some(v) => Some(v),
                None => cudnn_from_headers(hs.drop_first()),
            },
            None => cudnn_from_headers(hs.drop_first()),
        }
    }
}

impl AiProbes {
    /// Nothing probed yet.
    pub fn new() -> (p: AiProbes)
        ensures
            ai_open_count(p) == 25,
            p.next_probe_spec() == Some(AiProbe::Python3Version),
    {
        reveal(ai_open_count);
        AiProbes {
            python3: None,
            python: None,
            nvcc: None,
            nvcc_default_exists: None,
            nvcc_default: None,
            nvidia_smi: None,
            cudnn_headers: Vec::new(),
            cudnn_libraries: Vec::new(),
            trtexec: None,
            tensorrt_libraries: Vec::new(),
            ollama: None,
            ollama_host: None,
            ollama_reachable: None,
            torch: None,
            tensorflow: None,
            onnx: None,
            llama_cli: None,
            llama_server: None,
            llama_in_path: Vec::new(),
        }
    }

    /// The next probe to run, or `None` when every part of the report is
    /// decided. Probes run in the order of `AiProbe`, each only when the
    /// answers before it call for it.
    pub open spec fn next_probe_spec(&self) -> Option<AiProbe> {
        let hs = header_texts(self.cudnn_headers@);
        if self.python3 is None {
            Some(AiProbe::Python3Version)
        } else if !printed(self.python3) && self.python is None {
            Some(AiProbe::PythonVersion)
        } else if self.nvcc is None {
            Some(AiProbe::NvccVersion)
        } else if !printed(self.nvcc) && self.nvcc_default_exists is None {
            Some(AiProbe::NvccDefaultExists)
        } else if !printed(self.nvcc) && self.nvcc_default_exists == Some(true)
            && self.nvcc_default is None {
            Some(AiProbe::NvccDefaultVersion)
        } else if self.nvidia_smi is None {
            Some(AiProbe::NvidiaSmi)
        } else if hs.len() < 3 && cudnn_from_headers(hs) is None {
            Some(AiProbe::CudnnHeader(self.cudnn_headers@.len() as usize))
        } else if cudnn_from_headers(hs) is None && self.cudnn_libraries@.len() < 2
            && !self.cudnn_libraries@.contains(true) {
            Some(AiProbe::CudnnLibrary(self.cudnn_libraries@.len() as usize))
        } else if self.trtexec is None {
            Some(AiProbe::TrtexecVersion)
        } else if !printed(self.trtexec) && self.tensorrt_libraries@.len() < 2
            && !self.tensorrt_libraries@.contains(true) {
            Some(AiProbe::TensorRtLibrary(self.tensorrt_libraries@.len() as usize))
        } else if self.ollama is None {
            Some(AiProbe::OllamaVersion)
        } else if self.ollama_host is None {
            Some(AiProbe::OllamaHost)
        } else if self.ollama_reachable is None {
            Some(AiProbe::OllamaReachable)
        } else if self.torch is None {
            Some(AiProbe::TorchProbe)
        } else if self.tensorflow is None {
            Some(AiProbe::TensorFlowProbe)
        } else if self.onnx is None {
            Some(AiProbe::OnnxProbe)
        } else if self.llama_cli is None {
            Some(AiProbe::LlamaCliVersion)
        } else if !printed(self.llama_cli) && self.llama_server is None {
            Some(AiProbe::LlamaServerVersion)
        } else if !printed(self.llama_cli) && !printed(self.llama_server)
            && self.llama_in_path@.len() < 3 && !self.llama_in_path@.contains(true) {
            Some(AiProbe::LlamaInPath(self.llama_in_path@.len() as usize))
        } else {
            None
        }
    }

    /// The next probe to run (see `next_probe_spec`).
    pub fn next_probe(&self) -> (q: Option<AiProbe>)
        ensures
            q == self.next_probe_spec(),
    {
        let found = cudnn_from_header_list(&self.cudnn_headers).is_some();
        if self.python3.is_none() {
            Some(AiProbe::Python3Version)
        } else if !printed_exec(&self.python3) && self.python.is_none() {
            Some(AiProbe::PythonVersion)
        } else if self.nvcc.is_none() {
            Some(AiProbe::NvccVersion)
        } else if !printed_exec(&self.nvcc) && self.nvcc_default_exists.is_none() {
            Some(AiProbe::NvccDefaultExists)
        } else if !printed_exec(&self.nvcc) && self.nvcc_default_exists == Some(true)
            && self.nvcc_default.is_none() {
            Some(AiProbe::NvccDefaultVersion)
        } else if self.nvidia_smi.is_none() {
            Some(AiProbe::NvidiaSmi)
        } else if self.cudnn_headers.len() < 3 && !found {
            Some(AiProbe::CudnnHeader(self.cudnn_headers.len()))
        } else if !found && self.cudnn_libraries.len() < 2 && !any_true(&self.cudnn_libraries) {
            Some(AiProbe::CudnnLibrary(self.cudnn_libraries.len()))
        } else if self.trtexec.is_none() {
            Some(AiProbe::TrtexecVersion)
        } else if !printed_exec(&self.trtexec) && self.tensorrt_libraries.len() < 2 && !any_true(
            &self.tensorrt_libraries,
        ) {
            Some(AiProbe::TensorRtLibrary(self.tensorrt_libraries.len()))
        } else if self.ollama.is_none() {
            Some(AiProbe::OllamaVersion)
        } else if self.ollama_host.is_none() {
            Some(AiProbe::OllamaHost)
        } else if self.ollama_reachable.is_none() {
            Some(AiProbe::OllamaReachable)
        } else if self.torch.is_none() {
            Some(AiProbe::TorchProbe)
        } else if self.tensorflow.is_none() {
            Some(AiProbe::TensorFlowProbe)
        } else if self.onnx.is_none() {
            Some(AiProbe::OnnxProbe)
        } else if self.llama_cli.is_none() {
            Some(AiProbe::LlamaCliVersion)
        } else if !printed_exec(&self.llama_cli) && self.llama_server.is_none() {
            Some(AiProbe::LlamaServerVersion)
        } else if !printed_exec(&self.llama_cli) && !printed_exec(&self.llama_server)
            && self.llama_in_path.len() < 3 && !any_true(&self.llama_in_path) {
            Some(AiProbe::LlamaInPath(self.llama_in_path.len()))
        } else {
            None
        }
    }
}

/// An answer to a probe of AI validation.
pub enum AiAnswer {
    /// What a program printed (see `command_output`), or nothing.
    Printed(Option<String>),
    /// Whether a file exists, a port is open, or `which` found a program.
    Exists(bool),
    /// The lines of a header that exists and opens, or nothing.
    Lines(Option<Vec<String>>),
    /// The address of the Ollama service.
    Address(String),
}

/// The answer fits the probe.
pub open spec fn ai_fits(q: AiProbe, a: AiAnswer) -> bool {
    match q {
        AiProbe::NvccDefaultExists | AiProbe::CudnnLibrary(_) | AiProbe::TensorRtLibrary(_)
        | AiProbe::OllamaReachable | AiProbe::LlamaInPath(_) => a is Exists,
        AiProbe::CudnnHeader(_) => a is Lines,
        AiProbe::OllamaHost => a is Address,
        _ => a is Printed,
    }
}

/// `p2` is `p` with the answer `a` to probe `q` recorded: a single answer is
/// set, a list answer is appended to its list; an answer that does not fit
/// changes nothing.
pub open spec fn ai_recorded(p: AiProbes, q: AiProbe, a: AiAnswer, p2: AiProbes) -> bool {
    match a {
        AiAnswer::Printed(o) => match q {
            AiProbe::Python3Version => p2 == AiProbes { python3: Some(o), ..p },
            AiProbe::PythonVersion => p2 == AiProbes { python: Some(o), ..p },
            AiProbe::NvccVersion => p2 == AiProbes { nvcc: Some(o), ..p },
            AiProbe::NvccDefaultVersion => p2 == AiProbes { nvcc_default: Some(o), ..p },
            AiProbe::NvidiaSmi => p2 == AiProbes { nvidia_smi: Some(o), ..p },
            AiProbe::TrtexecVersion => p2 == AiProbes { trtexec: Some(o), ..p },
            AiProbe::OllamaVersion => p2 == AiProbes { ollama: Some(o), ..p },
            AiProbe::TorchProbe => p2 == AiProbes { torch: Some(o), ..p },
            AiProbe::TensorFlowProbe => p2 == AiProbes { tensorflow: Some(o), ..p },
            AiProbe::OnnxProbe => p2 == AiProbes { onnx: Some(o), ..p },
            AiProbe::LlamaCliVersion => p2 == AiProbes { llama_cli: Some(o), ..p },
            AiProbe::LlamaServerVersion => p2 == AiProbes { llama_server: Some(o), ..p },
            _ => p2 == p,
        },
        AiAnswer::Exists(b) => match q {
            AiProbe::NvccDefaultExists => p2 == AiProbes { nvcc_default_exists: Some(b), ..p },
            AiProbe::OllamaReachable => p2 == AiProbes { ollama_reachable: Some(b), ..p },
            AiProbe::CudnnLibrary(_) => p2 == AiProbes { cudnn_libraries: p2.cudnn_libraries, ..p } && p2.cudnn_libraries@ == p.cudnn_libraries@.push(b),
            AiProbe::TensorRtLibrary(_) => p2 == AiProbes { tensorrt_libraries: p2.tensorrt_libraries, ..p } && p2.tensorrt_libraries@ == p.tensorrt_libraries@.push(b),
            AiProbe::LlamaInPath(_) => p2 == AiProbes { llama_in_path: p2.llama_in_path, ..p } && p2.llama_in_path@ == p.llama_in_path@.push(b),
            _ => p2 == p,
        },
        AiAnswer::Lines(ls) => match q {
            AiProbe::CudnnHeader(_) => p2 == AiProbes { cudnn_headers: p2.cudnn_headers, ..p }
                && p2.cudnn_headers@ == p.cudnn_headers@.push(ls),
            _ => p2 == p,
        },
        AiAnswer::Address(h) => match q {
            AiProbe::OllamaHost => p2 == AiProbes { ollama_host: Some(h), ..p },
            _ => p2 == p,
        },
    }
}

/// One for an answer not given, zero for one given.
pub open spec fn missing<T>(o: Option<T>) -> nat {
    if o is None {
        1
    } else {
        0
    }
}

/// How many of `n` places of a list are still to be filled.
pub open spec fn places_left(len: nat, n: nat) -> nat {
    if len < n {
        (n - len) as nat
    } else {
        0
    }
}

/// The number of probe answers still missing: one for each single answer
/// not given, and the places of the lists of looked-up paths and programs
/// not filled.
#[verifier::opaque]
pub open spec fn ai_open_count(p: AiProbes) -> nat {
    missing(p.python3)
        + missing(p.python)
        + missing(p.nvcc)
        + missing(p.nvcc_default_exists)
        + missing(p.nvcc_default)
        + missing(p.nvidia_smi)
        + missing(p.trtexec)
        + missing(p.ollama)
        + missing(p.ollama_host)
        + missing(p.ollama_reachable)
        + missing(p.torch)
        + missing(p.tensorflow)
        + missing(p.onnx)
        + missing(p.llama_cli)
        + missing(p.llama_server)
        + places_left(p.cudnn_headers@.len(), 3)
        + places_left(p.cudnn_libraries@.len(), 2)
        + places_left(p.tensorrt_libraries@.len(), 2)
        + places_left(p.llama_in_path@.len(), 3)
}

impl AiProbes {
    /// Records the answer to a probe (see `ai_recorded`).
    pub fn answer(&mut self, q: AiProbe, a: AiAnswer)
        ensures
            ai_recorded(*old(self), q, a, *final(self)),
    {
        match a {
            AiAnswer::Printed(o) => match q {
                AiProbe::Python3Version => self.python3 = Some(o),
                AiProbe::PythonVersion => self.python = Some(o),
                AiProbe::NvccVersion => self.nvcc = Some(o),
                AiProbe::NvccDefaultVersion => self.nvcc_default = Some(o),
                AiProbe::NvidiaSmi => self.nvidia_smi = Some(o),
                AiProbe::TrtexecVersion => self.trtexec = Some(o),
                AiProbe::OllamaVersion => self.ollama = Some(o),
                AiProbe::TorchProbe => self.torch = Some(o),
                AiProbe::TensorFlowProbe => self.tensorflow = Some(o),
                AiProbe::OnnxProbe => self.onnx = Some(o),
                AiProbe::LlamaCliVersion => self.llama_cli = Some(o),
                AiProbe::LlamaServerVersion => self.llama_server = Some(o),
                _ => {},
            },
            AiAnswer::Exists(b) => match q {
                AiProbe::NvccDefaultExists => self.nvcc_default_exists = Some(b),
                AiProbe::OllamaReachable => self.ollama_reachable = Some(b),
                AiProbe::CudnnLibrary(_) => self.cudnn_libraries.push(b),
                AiProbe::TensorRtLibrary(_) => self.tensorrt_libraries.push(b),
                AiProbe::LlamaInPath(_) => self.llama_in_path.push(b),
                _ => {},
            },
            AiAnswer::Lines(ls) => match q {
                AiProbe::CudnnHeader(_) => self.cudnn_headers.push(ls),
                _ => {},
            },
            AiAnswer::Address(h) => match q {
                AiProbe::OllamaHost => self.ollama_host = Some(h),
                _ => {},
            },
        }
    }
}

/// The probe's answer is still missing: its single answer is not given, or
/// its list has places left.
pub open spec fn ai_unanswered(p: AiProbes, q: AiProbe) -> bool {
    match q {
        AiProbe::Python3Version => p.python3 is None,
        AiProbe::PythonVersion => p.python is None,
        AiProbe::NvccVersion => p.nvcc is None,
        AiProbe::NvccDefaultVersion => p.nvcc_default is None,
        AiProbe::NvidiaSmi => p.nvidia_smi is None,
        AiProbe::TrtexecVersion => p.trtexec is None,
        AiProbe::OllamaVersion => p.ollama is None,
        AiProbe::TorchProbe => p.torch is None,
        AiProbe::TensorFlowProbe => p.tensorflow is None,
        AiProbe::OnnxProbe => p.onnx is None,
        AiProbe::LlamaCliVersion => p.llama_cli is None,
        AiProbe::LlamaServerVersion => p.llama_server is None,
        AiProbe::NvccDefaultExists => p.nvcc_default_exists is None,
        AiProbe::OllamaReachable => p.ollama_reachable is None,
        AiProbe::OllamaHost => p.ollama_host is None,
        AiProbe::CudnnHeader(_) => p.cudnn_headers@.len() < 3,
        AiProbe::CudnnLibrary(_) => p.cudnn_libraries@.len() < 2,
        AiProbe::TensorRtLibrary(_) => p.tensorrt_libraries@.len() < 2,
        AiProbe::LlamaInPath(_) => p.llama_in_path@.len() < 3,
    }
}

proof fn lemma_ai_next_is_unanswered(p: AiProbes)
    ensures
        p.next_probe_spec() matches Some(q) ==> ai_unanswered(p, q),
{
}

proof fn lemma_ai_progress_python3(p: AiProbes, p2: AiProbes)
    requires
        p.python3 is None,
        p2.python3 is Some,
        p2 == (AiProbes { python3: p2.python3, ..p }),
    ensures
        ai_open_count(p2) + 1 == ai_open_count(p),
{
    reveal(ai_open_count);
}

proof fn lemma_ai_progress_python(p: AiProbes, p2: AiProbes)
    requires
        p.python is None,
        p2.python is Some,
        p2 == (AiProbes { python: p2.python, ..p }),
    ensures
        ai_open_count(p2) + 1 == ai_open_count(p),
{
    reveal(ai_open_count);
}

proof fn lemma_ai_progress_nvcc(p: AiProbes, p2: AiProbes)
    requires
        p.nvcc is None,
        p2.nvcc is Some,
        p2 == (AiProbes { nvcc: p2.nvcc, ..p }),
    ensures
        ai_open_count(p2) + 1 == ai_open_count(p),
{
    reveal(ai_open_count);
}

proof fn lemma_ai_progress_nvcc_default(p: AiProbes, p2: AiProbes)
    requires
        p.nvcc_default is None,
        p2.nvcc_default is Some,
        p2 == (AiProbes { nvcc_default: p2.nvcc_default, ..p }),
    ensures
        ai_open_count(p2) + 1 == ai_open_count(p),
{
    reveal(ai_open_count);
}

proof fn lemma_ai_progress_nvidia_smi(p: AiProbes, p2: AiProbes)
    requires
        p.nvidia_smi is None,
        p2.nvidia_smi is Some,
        p2 == (AiProbes { nvidia_smi: p2.nvidia_smi, ..p }),
    ensures
        ai_open_count(p2) + 1 == ai_open_count(p),
{
    reveal(ai_open_count);
}

proof fn lemma_ai_progress_trtexec(p: AiProbes, p2: AiProbes)
    requires
        p.trtexec is None,
        p2.trtexec is Some,
        p2 == (AiProbes { trtexec: p2.trtexec, ..p }),
    ensures
        ai_open_count(p2) + 1 == ai_open_count(p),
{
    reveal(ai_open_count);
}

proof fn lemma_ai_progress_ollama(p: AiProbes, p2: AiProbes)
    requires
        p.ollama is None,
        p2.ollama is Some,
        p2 == (AiProbes { ollama: p2.ollama, ..p }),
    ensures
        ai_open_count(p2) + 1 == ai_open_count(p),
{
    reveal(ai_open_count);
}

proof fn lemma_ai_progress_torch(p: AiProbes, p2: AiProbes)
    requires
        p.torch is None,
        p2.torch is Some,
        p2 == (AiProbes { torch: p2.torch, ..p }),
    ensures
        ai_open_count(p2) + 1 == ai_open_count(p),
{
    reveal(ai_open_count);
}

proof fn lemma_ai_progress_tensorflow(p: AiProbes, p2: AiProbes)
    requires
        p.tensorflow is None,
        p2.tensorflow is Some,
        p2 == (AiProbes { tensorflow: p2.tensorflow, ..p }),
    ensures
        ai_open_count(p2) + 1 == ai_open_count(p),
{
    reveal(ai_open_count);
}

proof fn lemma_ai_progress_onnx(p: AiProbes, p2: AiProbes)
    requires
        p.onnx is None,
        p2.onnx is Some,
        p2 == (AiProbes { onnx: p2.onnx, ..p }),
    ensures
        ai_open_count(p2) + 1 == ai_open_count(p),
{
    reveal(ai_open_count);
}

proof fn lemma_ai_progress_llama_cli(p: AiProbes, p2: AiProbes)
    requires
        p.llama_cli is None,
        p2.llama_cli is Some,
        p2 == (AiProbes { llama_cli: p2.llama_cli, ..p }),
    ensures
        ai_open_count(p2) + 1 == ai_open_count(p),
{
    reveal(ai_open_count);
}

proof fn lemma_ai_progress_llama_server(p: AiProbes, p2: AiProbes)
    requires
        p.llama_server is None,
        p2.llama_server is Some,
        p2 == (AiProbes { llama_server: p2.llama_server, ..p }),
    ensures
        ai_open_count(p2) + 1 == ai_open_count(p),
{
    reveal(ai_open_count);
}

proof fn lemma_ai_progress_nvcc_default_exists(p: AiProbes, p2: AiProbes)
    requires
        p.nvcc_default_exists is None,
        p2.nvcc_default_exists is Some,
        p2 == (AiProbes { nvcc_default_exists: p2.nvcc_default_exists, ..p }),
    ensures
        ai_open_count(p2) + 1 == ai_open_count(p),
{
    reveal(ai_open_count);
}

proof fn lemma_ai_progress_ollama_reachable(p: AiProbes, p2: AiProbes)
    requires
        p.ollama_reachable is None,
        p2.ollama_reachable is Some,
        p2 == (AiProbes { ollama_reachable: p2.ollama_reachable, ..p }),
    ensures
        ai_open_count(p2) + 1 == ai_open_count(p),
{
    reveal(ai_open_count);
}

proof fn lemma_ai_progress_ollama_host(p: AiProbes, p2: AiProbes)
    requires
        p.ollama_host is None,
        p2.ollama_host is Some,
        p2 == (AiProbes { ollama_host: p2.ollama_host, ..p }),
    ensures
        ai_open_count(p2) + 1 == ai_open_count(p),
{
    reveal(ai_open_count);
}

proof fn lemma_ai_progress_cudnn_headers(p: AiProbes, p2: AiProbes)
    requires
        p.cudnn_headers@.len() < 3,
        p2.cudnn_headers@.len() == p.cudnn_headers@.len() + 1,
        p2 == (AiProbes { cudnn_headers: p2.cudnn_headers, ..p }),
    ensures
        ai_open_count(p2) + 1 == ai_open_count(p),
{
    reveal(ai_open_count);
}

proof fn lemma_ai_progress_cudnn_libraries(p: AiProbes, p2: AiProbes)
    requires
        p.cudnn_libraries@.len() < 2,
        p2.cudnn_libraries@.len() == p.cudnn_libraries@.len() + 1,
        p2 == (AiProbes { cudnn_libraries: p2.cudnn_libraries, ..p }),
    ensures
        ai_open_count(p2) + 1 == ai_open_count(p),
{
    reveal(ai_open_count);
}

proof fn lemma_ai_progress_tensorrt_libraries(p: AiProbes, p2: AiProbes)
    requires
        p.tensorrt_libraries@.len() < 2,
        p2.tensorrt_libraries@.len() == p.tensorrt_libraries@.len() + 1,
        p2 == (AiProbes { tensorrt_libraries: p2.tensorrt_libraries, ..p }),
    ensures
        ai_open_count(p2) + 1 == ai_open_count(p),
{
    reveal(ai_open_count);
}

proof fn lemma_ai_progress_llama_in_path(p: AiProbes, p2: AiProbes)
    requires
        p.llama_in_path@.len() < 3,
        p2.llama_in_path@.len() == p.llama_in_path@.len() + 1,
        p2 == (AiProbes { llama_in_path: p2.llama_in_path, ..p }),
    ensures
        ai_open_count(p2) + 1 == ai_open_count(p),
{
    reveal(ai_open_count);
}

/// AI validation's probing ends: recording a fitting answer to the probe
/// that `next_probe` asks for leaves one answer fewer missing, so after at
/// most 25 answers nothing is asked any more.
pub proof fn law_ai_probing_progresses(p: AiProbes, q: AiProbe, a: AiAnswer, p2: AiProbes)
    requires
        p.next_probe_spec() == Some(q),
        ai_fits(q, a),
        ai_recorded(p, q, a, p2),
    ensures
        ai_open_count(p2) + 1 == ai_open_count(p),
{
    lemma_ai_next_is_unanswered(p);
    match q {
        AiProbe::Python3Version => lemma_ai_progress_python3(p, p2),
        AiProbe::PythonVersion => lemma_ai_progress_python(p, p2),
        AiProbe::NvccVersion => lemma_ai_progress_nvcc(p, p2),
        AiProbe::NvccDefaultVersion => lemma_ai_progress_nvcc_default(p, p2),
        AiProbe::NvidiaSmi => lemma_ai_progress_nvidia_smi(p, p2),
        AiProbe::TrtexecVersion => lemma_ai_progress_trtexec(p, p2),
        AiProbe::OllamaVersion => lemma_ai_progress_ollama(p, p2),
        AiProbe::TorchProbe => lemma_ai_progress_torch(p, p2),
        AiProbe::TensorFlowProbe => lemma_ai_progress_tensorflow(p, p2),
        AiProbe::OnnxProbe => lemma_ai_progress_onnx(p, p2),
        AiProbe::LlamaCliVersion => lemma_ai_progress_llama_cli(p, p2),
        AiProbe::LlamaServerVersion => lemma_ai_progress_llama_server(p, p2),
        AiProbe::NvccDefaultExists => lemma_ai_progress_nvcc_default_exists(p, p2),
        AiProbe::OllamaReachable => lemma_ai_progress_ollama_reachable(p, p2),
        AiProbe::OllamaHost => lemma_ai_progress_ollama_host(p, p2),
        AiProbe::CudnnHeader(_) => lemma_ai_progress_cudnn_headers(p, p2),
        AiProbe::CudnnLibrary(_) => lemma_ai_progress_cudnn_libraries(p, p2),
        AiProbe::TensorRtLibrary(_) => lemma_ai_progress_tensorrt_libraries(p, p2),
        AiProbe::LlamaInPath(_) => lemma_ai_progress_llama_in_path(p, p2),
    }
}

fn printed_exec(o: &Option<Option<String>>) -> (b: bool)
    ensures
        b == printed(*o),
{
    match o {
        Some(Some(_)) => true,
        _ => false,
    }
}

fn any_true(v: &Vec<bool>) -> (b: bool)
    ensures
        b == v@.contains(true),
{
    let mut i: usize = 0;
    while i < v.len()
        invariant
            i <= v.len(),
            forall|j: int| 0 <= j < i ==> !v@[j],
        decreases v.len() - i,
    {
        if v[i] {
            proof {
                assert(v@[i as int] == true);
            }
            return true;
        }
        i = i + 1;
    }
    false
}

/// The cuDNN version given by the first header read that defines it.
pub fn cudnn_from_header_list(hs: &Vec<Option<Vec<String>>>) -> (r: Option<String>)
    ensures
        opt_text(r) == cudnn_from_headers(header_texts(hs@)),
{
    let ghost hv = header_texts(hs@);
    let mut i: usize = 0;
    proof {
        assert(hv.skip(0) == hv);
    }
    while i < hs.len()
        invariant
            i <= hs.len(),
            hv == header_texts(hs@),
            cudnn_from_headers(hv) == cudnn_from_headers(hv.skip(i as int)),
        decreases hs.len() - i,
    {
        let ghost rest = hv.skip(i as int);
        proof {
            assert(rest.drop_first() == hv.skip(i + 1));
            assert(rest[0] == hv[i as int]);
        }
        match &hs[i] {
            Some(ls) => {
                let v = parse_cudnn_header(ls);
                if v.is_some() {
                    return v;
                }
            },
            None => {},
        }
        i = i + 1;
    }
    None
}

// ---------------------------------------------------------------------------
// The report
// ---------------------------------------------------------------------------
/// Text of a program run that printed something.
pub open spec fn printed_text(o: Option<Option<String>>) -> Option<Seq<char>> {
    match o {
        Some(Some(s)) => Some(s@),
        _ => None,
    }
}

/// Python: installed and version, from `python3`, else from `python`.
pub open spec fn python_section(p: AiProbes) -> (bool, Option<Seq<char>>) {
    match printed_text(p.python3) {
        Some(o) => (true, Some(python_version_text(o))),
        None => match printed_text(p.python) {
            Some(o) => (true, Some(python_version_text(o))),
            None => (false, None),
        },
    }
}

/// The CUDA compiler: found, and its release, from `nvcc` on the PATH, else
/// from the default install location.
pub open spec fn nvcc_section(p: AiProbes) -> (bool, Option<Seq<char>>) {
    match printed_text(p.nvcc) {
        Some(o) => (true, nvcc_release_text(o)),
        None => if p.nvcc_default_exists == Some(true) {
            (
                true,
                match printed_text(p.nvcc_default) {
                    Some(o) => nvcc_release_text(o),
                    None => None,
                },
            )
        } else {
            (false, None)
        },
    }
}

/// The driver: found, driver version, highest CUDA version.
pub open spec fn smi_section(p: AiProbes) -> (bool, Option<Seq<char>>, Option<Seq<char>>) {
    match printed_text(p.nvidia_smi) {
        Some(o) => (true, smi_versions_from(lines(o)).0, smi_versions_from(lines(o)).1),
        None => (false, None, None),
    }
}

/// cuDNN: from a header, else from a library present.
pub open spec fn cudnn_section(p: AiProbes) -> (bool, Option<Seq<char>>) {
    match cudnn_from_headers(header_texts(p.cudnn_headers@)) {
        Some(v) => (true, Some(v)),
        None => if p.cudnn_libraries@.contains(true) {
            (true, Some("Detected (Shared Library present)"@))
        } else {
            (false, None)
        },
    }
}

/// TensorRT: from `trtexec`, else from a library present.
pub open spec fn tensorrt_section(p: AiProbes) -> (bool, Option<Seq<char>>) {
    match printed_text(p.trtexec) {
        Some(o) => (true, Some(trim(o))),
        None => if p.tensorrt_libraries@.contains(true) {
            (true, Some("Detected (libnvinfer present)"@))
        } else {
            (false, None)
        },
    }
}

/// Ollama: installed (the program printed a version, or the service
/// answers), version, service running.
pub open spec fn ollama_section(p: AiProbes) -> (bool, Option<Seq<char>>, bool) {
    let version = match printed_text(p.ollama) {
        Some(o) => Some(ollama_version_text(o)),
        None => None,
    };
    let running = p.ollama_reachable == Some(true);
    (version is Some || running, version, running)
}

/// PyTorch: installed, version, CUDA available, CUDA version.
pub open spec fn torch_section(p: AiProbes) -> (bool, Option<Seq<char>>, Option<bool>, Option<Seq<char>>) {
    match printed_text(p.torch) {
        Some(o) => match torch_probe_text(o) {
            Some((v, c, cv)) => (true, Some(v), Some(c), Some(cv)),
            None => (false, None, None, None),
        },
        None => (false, None, None, None),
    }
}

/// TensorFlow: installed, version, GPU available.
pub open spec fn tensorflow_section(p: AiProbes) -> (bool, Option<Seq<char>>, Option<bool>) {
    match printed_text(p.tensorflow) {
        Some(o) => match tensorflow_probe_text(o) {
            Some((v, g)) => (true, Some(v), Some(g)),
            None => (false, None, None),
        },
        None => (false, None, None),
    }
}

/// ONNX Runtime: installed, version, providers.
pub open spec fn onnx_section(p: AiProbes) -> (bool, Option<Seq<char>>, Seq<Seq<char>>) {
    match printed_text(p.onnx) {
        Some(o) => match onnx_probe_text(o) {
            Some((v, ps)) => (true, Some(v), ps),
            None => (false, None, Seq::empty()),
        },
        None => (false, None, Seq::empty()),
    }
}

/// llama.cpp: from `llama-cli`, else `llama-server`, else a program on the
/// PATH.
pub open spec fn llama_section(p: AiProbes) -> (bool, Option<Seq<char>>) {
    match printed_text(p.llama_cli) {
        Some(o) => (true, Some(trim(o))),
        None => match printed_text(p.llama_server) {
            Some(o) => (true, Some(trim(o))),
            None => if p.llama_in_path@.contains(true) {
                (true, Some("Installed (binary in PATH)"@))
            } else {
                (false, None)
            },
        },
    }
}

/// What the AI report says of each part, stated over the probe answers:
/// a part is installed when one of its programs printed something (or,
/// for cuDNN, TensorRT and llama.cpp, when a header, library or program was
/// found), and its version is what the first program that printed gave.
pub proof fn law_ai_report_sections(p: AiProbes)
    ensures
        python_section(p).0 <==> ((p.python3 matches Some(Some(_))) || (p.python matches Some(
            Some(_),
        ))),
        (match p.python3 {
            Some(Some(o)) => python_section(p).1 == Some(trim(remove_all(o@, "Python "@))),
            _ => true,
        }),
        (match (p.python3, p.python) {
            (Some(None), Some(Some(o))) => python_section(p).1 == Some(
                trim(remove_all(o@, "Python "@)),
            ),
            _ => true,
        }),
        nvcc_section(p).0 <==> ((p.nvcc matches Some(Some(_))) || p.nvcc_default_exists == Some(
            true,
        )),
        smi_section(p).0 <==> (p.nvidia_smi matches Some(Some(_))),
        tensorrt_section(p).0 <==> ((p.trtexec matches Some(Some(_)))
            || p.tensorrt_libraries@.contains(true)),
        (match p.trtexec {
            Some(Some(o)) => tensorrt_section(p).1 == Some(trim(o@)),
            _ => true,
        }),
        ollama_section(p).2 == (p.ollama_reachable == Some(true)),
        ollama_section(p).0 <==> ((p.ollama matches Some(Some(_))) || p.ollama_reachable == Some(
            true,
        )),
        llama_section(p).0 <==> ((p.llama_cli matches Some(Some(_))) || (p.llama_server matches Some(
            Some(_),
        )) || p.llama_in_path@.contains(true)),
        (match p.llama_cli {
            Some(Some(o)) => llama_section(p).1 == Some(trim(o@)),
            _ => true,
        }),
        (match (p.llama_cli, p.llama_server) {
            (Some(None), Some(Some(o))) | (None, Some(Some(o))) => llama_section(p).1 == Some(
                trim(o@),
            ),
            _ => true,
        }),
        !(p.llama_cli matches Some(Some(_))) && !(p.llama_server matches Some(Some(_)))
            && p.llama_in_path@.contains(true) ==> llama_section(p).1 == Some(
            "Installed (binary in PATH)"@,
        ),
        torch_section(p).0 ==> (p.torch matches Some(Some(_))),
        tensorflow_section(p).0 ==> (p.tensorflow matches Some(Some(_))),
        onnx_section(p).0 ==> (p.onnx matches Some(Some(_))),
{
}

fn printed_chars(o: &Option<Option<String>>) -> (r: Option<Vec<char>>)
    ensures
        (match r {
            Some(v) => Some(v@),
            None => None,
        }) == printed_text(*o),
{
    match o {
        Some(Some(s)) => Some(chars_of(s.as_str())),
        _ => None,
    }
}

fn python_part(p: &AiProbes) -> (r: PythonInfo)
    ensures
        (r.installed, opt_text(r.version)) == python_section(*p),
{
    match printed_chars(&p.python3) {
        Some(o) => PythonInfo { installed: true, version: Some(parse_python_version(string_of(&o).as_str())) },
        None => match printed_chars(&p.python) {
            Some(o) => PythonInfo { installed: true, version: Some(parse_python_version(string_of(&o).as_str())) },
            None => PythonInfo { installed: false, version: None },
        },
    }
}

fn cuda_part(p: &AiProbes) -> (r: CudaInfo)
    ensures
        r.installed == (nvcc_section(*p).0 || smi_section(*p).0),
        opt_text(r.nvcc_version) == nvcc_section(*p).1,
        opt_text(r.driver_version) == smi_section(*p).1,
        opt_text(r.max_supported_cuda) == smi_section(*p).2,
{
    let (nvcc_found, nvcc_version) = match printed_chars(&p.nvcc) {
        Some(o) => (true, parse_nvcc_release(string_of(&o).as_str())),
        None => if p.nvcc_default_exists == Some(true) {
            (true, match printed_chars(&p.nvcc_default) {
                Some(o) => parse_nvcc_release(string_of(&o).as_str()),
                None => None,
            })
        } else {
            (false, None)
        },
    };
    let (smi_found, driver, max_cuda) = match printed_chars(&p.nvidia_smi) {
        Some(o) => {
            let (d, c) = parse_nvidia_smi(string_of(&o).as_str());
            (true, d, c)
        },
        None => (false, None, None),
    };
    CudaInfo {
        installed: nvcc_found || smi_found,
        nvcc_version,
        driver_version: driver,
        max_supported_cuda: max_cuda,
    }
}

fn cudnn_part(p: &AiProbes) -> (r: CudnnInfo)
    ensures
        (r.installed, opt_text(r.version)) == cudnn_section(*p),
{
    match cudnn_from_header_list(&p.cudnn_headers) {
        Some(v) => CudnnInfo { installed: true, version: Some(v) },
        None => if any_true(&p.cudnn_libraries) {
            CudnnInfo { installed: true, version: Some("Detected (Shared Library present)".to_owned()) }
        } else {
            CudnnInfo { installed: false, version: None }
        },
    }
}

fn tensorrt_part(p: &AiProbes) -> (r: TensorRtInfo)
    ensures
        (r.installed, opt_text(r.version)) == tensorrt_section(*p),
{
    match printed_chars(&p.trtexec) {
        Some(o) => TensorRtInfo { installed: true, version: Some(string_of(&trimmed(&o))) },
        None => if any_true(&p.tensorrt_libraries) {
            TensorRtInfo { installed: true, version: Some("Detected (libnvinfer present)".to_owned()) }
        } else {
            TensorRtInfo { installed: false, version: None }
        },
    }
}

fn ollama_part(p: &AiProbes) -> (r: OllamaInfo)
    ensures
        (r.installed, opt_text(r.version), r.service_running) == ollama_section(*p),
{
    let version = match printed_chars(&p.ollama) {
        Some(o) => Some(parse_ollama_version(string_of(&o).as_str())),
        None => None,
    };
    let running = p.ollama_reachable == Some(true);
    OllamaInfo { installed: version.is_some() || running, version, service_running: running }
}

fn torch_part(p: &AiProbes) -> (r: PyTorchInfo)
    ensures
        (r.installed, opt_text(r.version), r.cuda_available, opt_text(r.cuda_version))
            == torch_section(*p),
{
    match printed_chars(&p.torch) {
        Some(o) => match parse_torch_probe(string_of(&o).as_str()) {
            Some((v, c, cv)) => PyTorchInfo {
                installed: true,
                version: Some(v),
                cuda_available: Some(c),
                cuda_version: Some(cv),
            },
            None => PyTorchInfo { installed: false, version: None, cuda_available: None, cuda_version: None },
        },
        None => PyTorchInfo { installed: false, version: None, cuda_available: None, cuda_version: None },
    }
}

fn tensorflow_part(p: &AiProbes) -> (r: TensorFlowInfo)
    ensures
        (r.installed, opt_text(r.version), r.gpu_available) == tensorflow_section(*p),
{
    match printed_chars(&p.tensorflow) {
        Some(o) => match parse_tensorflow_probe(string_of(&o).as_str()) {
            Some((v, g)) => TensorFlowInfo { installed: true, version: Some(v), gpu_available: Some(g) },
            None => TensorFlowInfo { installed: false, version: None, gpu_available: None },
        },
        None => TensorFlowInfo { installed: false, version: None, gpu_available: None },
    }
}

fn onnx_part(p: &AiProbes) -> (r: OnnxRuntimeInfo)
    ensures
        (r.installed, opt_text(r.version), texts(r.providers@)) == onnx_section(*p),
{
    match printed_chars(&p.onnx) {
        Some(o) => match parse_onnx_probe(string_of(&o).as_str()) {
            Some((v, ps)) => OnnxRuntimeInfo { installed: true, version: Some(v), providers: ps },
            None => {
                let r = OnnxRuntimeInfo { installed: false, version: None, providers: Vec::new() };
                proof {
                    assert(texts(r.providers@) =~= Seq::<Seq<char>>::empty());
                }
                r
            },
        },
        None => {
            let r = OnnxRuntimeInfo { installed: false, version: None, providers: Vec::new() };
            proof {
                assert(texts(r.providers@) =~= Seq::<Seq<char>>::empty());
            }
            r
        },
    }
}

fn llama_part(p: &AiProbes) -> (r: LlamaCppInfo)
    ensures
        (r.installed, opt_text(r.version)) == llama_section(*p),
{
    match printed_chars(&p.llama_cli) {
        Some(o) => LlamaCppInfo { installed: true, version: Some(string_of(&trimmed(&o))) },
        None => match printed_chars(&p.llama_server) {
            Some(o) => LlamaCppInfo { installed: true, version: Some(string_of(&trimmed(&o))) },
            None => if any_true(&p.llama_in_path) {
                LlamaCppInfo { installed: true, version: Some("Installed (binary in PATH)".to_owned()) }
            } else {
                LlamaCppInfo { installed: false, version: None }
            },
        },
    }
}

/// The AI/ML report from the answers to the probes.
pub fn build_ai_report(p: &AiProbes) -> (r: AiDiagnosticReport)
    ensures
        (r.python.installed, opt_text(r.python.version)) == python_section(*p),
        r.cuda.installed == (nvcc_section(*p).0 || smi_section(*p).0),
        opt_text(r.cuda.nvcc_version) == nvcc_section(*p).1,
        opt_text(r.cuda.driver_version) == smi_section(*p).1,
        opt_text(r.cuda.max_supported_cuda) == smi_section(*p).2,
        (r.cudnn.installed, opt_text(r.cudnn.version)) == cudnn_section(*p),
        (r.tensorrt.installed, opt_text(r.tensorrt.version)) == tensorrt_section(*p),
        (r.ollama.installed, opt_text(r.ollama.version), r.ollama.service_running)
            == ollama_section(*p),
        (r.pytorch.installed, opt_text(r.pytorch.version), r.pytorch.cuda_available, opt_text(
            r.pytorch.cuda_version,
        )) == torch_section(*p),
        (r.tensorflow.installed, opt_text(r.tensorflow.version), r.tensorflow.gpu_available)
            == tensorflow_section(*p),
        (r.onnxruntime.installed, opt_text(r.onnxruntime.version), texts(
            r.onnxruntime.providers@,
        )) == onnx_section(*p),
        (r.llamacpp.installed, opt_text(r.llamacpp.version)) == llama_section(*p),
{
    AiDiagnosticReport {
        python: python_part(p),
        cuda: cuda_part(p),
        cudnn: cudnn_part(p),
        tensorrt: tensorrt_part(p),
        ollama: ollama_part(p),
        pytorch: torch_part(p),
        tensorflow: tensorflow_part(p),
        onnxruntime: onnx_part(p),
        llamacpp: llama_part(p),
    }
}


// ---------------------------------------------------------------------------
// The report for language models
// ---------------------------------------------------------------------------
/// How `{}` prints a boolean.
pub open spec fn bool_text(b: bool) -> Seq<char> {
    if b {
        "true"@
    } else {
        "false"@
    }
}

/// An optional string, or `None` where there is none.
pub open spec fn or_none(o: Option<String>) -> Seq<char> {
    match o {
        Some(s) => s@,
        None => "None"@,
    }
}

/// An optional flag, false where there is none.
pub open spec fn or_false(o: Option<bool>) -> bool {
    match o {
        Some(b) => b,
        None => false,
    }
}

/// The text that `{:?}` gives for a list of strings.
pub uninterp spec fn debug_list_text(items: Seq<Seq<char>>) -> Seq<char>;

/// Calls std's `format!("{:?}", items)` on a list of strings. The result is
/// named, not stated: it is the list in brackets, each item quoted with
/// `str::escape_debug`, separated by `", "`, and depends on the items alone.
/// One fact about it is stated: it holds no ESC character, since `Debug` for
/// `str` writes control characters as escapes (ESC becomes `\u{1b}`).
#[verifier::external_body]
fn debug_list(items: &Vec<String>) -> (s: String)
    ensures
        s@ == debug_list_text(texts(items@)),
        escape_free(s@),
{
    format!("{:?}", items)
}

/// The Python line of the report.
pub open spec fn python_line(r: AiDiagnosticReport) -> Seq<char> {
    "- Python: installed="@
        + bool_text(r.python.installed)
        + ", version="@
        + or_none(r.python.version)
        + "\n"@
}

/// The CUDA line of the report.
pub open spec fn cuda_line(r: AiDiagnosticReport) -> Seq<char> {
    "- CUDA: installed="@
        + bool_text(r.cuda.installed)
        + ", nvcc="@
        + or_none(r.cuda.nvcc_version)
        + ", driver="@
        + or_none(r.cuda.driver_version)
        + ", max_cuda="@
        + or_none(r.cuda.max_supported_cuda)
        + "\n"@
}

/// The cuDNN line of the report.
pub open spec fn cudnn_line(r: AiDiagnosticReport) -> Seq<char> {
    "- cuDNN: installed="@
        + bool_text(r.cudnn.installed)
        + ", version="@
        + or_none(r.cudnn.version)
        + "\n"@
}

/// The TensorRT line of the report.
pub open spec fn tensorrt_line(r: AiDiagnosticReport) -> Seq<char> {
    "- TensorRT: installed="@
        + bool_text(r.tensorrt.installed)
        + ", version="@
        + or_none(r.tensorrt.version)
        + "\n"@
}

/// The Ollama line of the report.
pub open spec fn ollama_line(r: AiDiagnosticReport) -> Seq<char> {
    "- Ollama: installed="@
        + bool_text(r.ollama.installed)
        + ", version="@
        + or_none(r.ollama.version)
        + ", running="@
        + bool_text(r.ollama.service_running)
        + "\n"@
}

/// The PyTorch line of the report (no CUDA answer reads as false).
pub open spec fn pytorch_line(r: AiDiagnosticReport) -> Seq<char> {
    "- PyTorch: installed="@
        + bool_text(r.pytorch.installed)
        + ", version="@
        + or_none(r.pytorch.version)
        + ", cuda_available="@
        + bool_text(or_false(r.pytorch.cuda_available))
        + ", torch_cuda_ver="@
        + or_none(r.pytorch.cuda_version)
        + "\n"@
}

/// The TensorFlow line of the report (no GPU answer reads as false).
pub open spec fn tensorflow_line(r: AiDiagnosticReport) -> Seq<char> {
    "- TensorFlow: installed="@
        + bool_text(r.tensorflow.installed)
        + ", version="@
        + or_none(r.tensorflow.version)
        + ", gpu_available="@
        + bool_text(or_false(r.tensorflow.gpu_available))
        + "\n"@
}

/// The ONNX Runtime line of the report, with the `{:?}` rendering of
/// the providers given.
pub open spec fn onnx_line(r: AiDiagnosticReport, providers: Seq<char>) -> Seq<char> {
    "- ONNX Runtime: installed="@
        + bool_text(r.onnxruntime.installed)
        + ", version="@
        + or_none(r.onnxruntime.version)
        + ", providers="@
        + providers
        + "\n"@
}

/// The llama.cpp line of the report.
pub open spec fn llama_line(r: AiDiagnosticReport) -> Seq<char> {
    "- llama.cpp: installed="@
        + bool_text(r.llamacpp.installed)
        + ", version="@
        + or_none(r.llamacpp.version)
        + "\n"@
}

/// The Markdown report of the AI/ML stack for language models, with the
/// `{:?}` rendering of the ONNX providers given: a heading, then one line
/// for each part of the stack.
pub open spec fn ai_llm_text(r: AiDiagnosticReport, providers: Seq<char>) -> Seq<char> {
    "# AI/ML Diagnostic Report (LLM-Optimized)\n\n"@ + python_line(r) + cuda_line(r) + cudnn_line(r)
        + tensorrt_line(r) + ollama_line(r) + pytorch_line(r) + tensorflow_line(r) + onnx_line(
        r,
        providers,
    ) + llama_line(r)
}

/// Every optional text of the report holds no terminal escape.
pub open spec fn report_escape_free(r: AiDiagnosticReport) -> bool {
    &&& escape_free(or_none(r.python.version))
    &&& escape_free(or_none(r.cuda.nvcc_version))
    &&& escape_free(or_none(r.cuda.driver_version))
    &&& escape_free(or_none(r.cuda.max_supported_cuda))
    &&& escape_free(or_none(r.cudnn.version))
    &&& escape_free(or_none(r.tensorrt.version))
    &&& escape_free(or_none(r.ollama.version))
    &&& escape_free(or_none(r.pytorch.version))
    &&& escape_free(or_none(r.pytorch.cuda_version))
    &&& escape_free(or_none(r.tensorflow.version))
    &&& escape_free(or_none(r.onnxruntime.version))
    &&& escape_free(or_none(r.llamacpp.version))
}

proof fn lemma_report_literals_escape_free()
    ensures
        escape_free("# AI/ML Diagnostic Report (LLM-Optimized)\n\n"@),
        escape_free("- Python: installed="@),
        escape_free(", version="@),
        escape_free("\n"@),
        escape_free("- CUDA: installed="@),
        escape_free(", nvcc="@),
        escape_free(", driver="@),
        escape_free(", max_cuda="@),
        escape_free("- cuDNN: installed="@),
        escape_free("- TensorRT: installed="@),
        escape_free("- Ollama: installed="@),
        escape_free(", running="@),
        escape_free("- PyTorch: installed="@),
        escape_free(", cuda_available="@),
        escape_free(", torch_cuda_ver="@),
        escape_free("- TensorFlow: installed="@),
        escape_free(", gpu_available="@),
        escape_free("- ONNX Runtime: installed="@),
        escape_free(", providers="@),
        escape_free("- llama.cpp: installed="@),
        escape_free("true"@),
        escape_free("false"@),
        escape_free("None"@),
{
    reveal_strlit("# AI/ML Diagnostic Report (LLM-Optimized)\n\n");
    reveal_strlit("- Python: installed=");
    reveal_strlit(", version=");
    reveal_strlit("\n");
    reveal_strlit("- CUDA: installed=");
    reveal_strlit(", nvcc=");
    reveal_strlit(", driver=");
    reveal_strlit(", max_cuda=");
    reveal_strlit("- cuDNN: installed=");
    reveal_strlit("- TensorRT: installed=");
    reveal_strlit("- Ollama: installed=");
    reveal_strlit(", running=");
    reveal_strlit("- PyTorch: installed=");
    reveal_strlit(", cuda_available=");
    reveal_strlit(", torch_cuda_ver=");
    reveal_strlit("- TensorFlow: installed=");
    reveal_strlit(", gpu_available=");
    reveal_strlit("- ONNX Runtime: installed=");
    reveal_strlit(", providers=");
    reveal_strlit("- llama.cpp: installed=");
    reveal_strlit("true");
    reveal_strlit("false");
    reveal_strlit("None");
}

/// `ai --llm` prints no terminal escape sequence when none of the versions
/// found, nor the rendering of the ONNX providers, holds one.
pub proof fn law_ai_llm_escape_free(r: AiDiagnosticReport, providers: Seq<char>)
    requires
        report_escape_free(r),
        escape_free(providers),
    ensures
        escape_free(ai_llm_text(r, providers)),
{
    reveal_strlit("# AI/ML Diagnostic Report (LLM-Optimized)\n\n");
    lemma_python_line_escape_free(r);
    lemma_cuda_line_escape_free(r);
    lemma_cudnn_line_escape_free(r);
    lemma_tensorrt_line_escape_free(r);
    lemma_ollama_line_escape_free(r);
    lemma_pytorch_line_escape_free(r);
    lemma_tensorflow_line_escape_free(r);
    lemma_onnx_line_escape_free(r, providers);
    lemma_llama_line_escape_free(r);
    let t0 = "# AI/ML Diagnostic Report (LLM-Optimized)\n\n"@;
    lemma_escape_free_concat(t0, python_line(r));
    let t1 = t0 + python_line(r);
    lemma_escape_free_concat(t1, cuda_line(r));
    let t2 = t1 + cuda_line(r);
    lemma_escape_free_concat(t2, cudnn_line(r));
    let t3 = t2 + cudnn_line(r);
    lemma_escape_free_concat(t3, tensorrt_line(r));
    let t4 = t3 + tensorrt_line(r);
    lemma_escape_free_concat(t4, ollama_line(r));
    let t5 = t4 + ollama_line(r);
    lemma_escape_free_concat(t5, pytorch_line(r));
    let t6 = t5 + pytorch_line(r);
    lemma_escape_free_concat(t6, tensorflow_line(r));
    let t7 = t6 + tensorflow_line(r);
    lemma_escape_free_concat(t7, onnx_line(r, providers));
    let t8 = t7 + onnx_line(r, providers);
    lemma_escape_free_concat(t8, llama_line(r));
    let t9 = t8 + llama_line(r);
}

proof fn lemma_python_line_escape_free(r: AiDiagnosticReport)
    requires
        report_escape_free(r),
    ensures
        escape_free(python_line(r)),
{
    lemma_report_literals_escape_free();
    let t0 = "- Python: installed="@;
    lemma_escape_free_concat(t0, bool_text(r.python.installed));
    let t1 = t0 + bool_text(r.python.installed);
    lemma_escape_free_concat(t1, ", version="@);
    let t2 = t1 + ", version="@;
    lemma_escape_free_concat(t2, or_none(r.python.version));
    let t3 = t2 + or_none(r.python.version);
    lemma_escape_free_concat(t3, "\n"@);
    let t4 = t3 + "\n"@;
}

proof fn lemma_cuda_line_escape_free(r: AiDiagnosticReport)
    requires
        report_escape_free(r),
    ensures
        escape_free(cuda_line(r)),
{
    lemma_report_literals_escape_free();
    let t0 = "- CUDA: installed="@;
    lemma_escape_free_concat(t0, bool_text(r.cuda.installed));
    let t1 = t0 + bool_text(r.cuda.installed);
    lemma_escape_free_concat(t1, ", nvcc="@);
    let t2 = t1 + ", nvcc="@;
    lemma_escape_free_concat(t2, or_none(r.cuda.nvcc_version));
    let t3 = t2 + or_none(r.cuda.nvcc_version);
    lemma_escape_free_concat(t3, ", driver="@);
    let t4 = t3 + ", driver="@;
    lemma_escape_free_concat(t4, or_none(r.cuda.driver_version));
    let t5 = t4 + or_none(r.cuda.driver_version);
    lemma_escape_free_concat(t5, ", max_cuda="@);
    let t6 = t5 + ", max_cuda="@;
    lemma_escape_free_concat(t6, or_none(r.cuda.max_supported_cuda));
    let t7 = t6 + or_none(r.cuda.max_supported_cuda);
    lemma_escape_free_concat(t7, "\n"@);
    let t8 = t7 + "\n"@;
}

proof fn lemma_cudnn_line_escape_free(r: AiDiagnosticReport)
    requires
        report_escape_free(r),
    ensures
        escape_free(cudnn_line(r)),
{
    lemma_report_literals_escape_free();
    let t0 = "- cuDNN: installed="@;
    lemma_escape_free_concat(t0, bool_text(r.cudnn.installed));
    let t1 = t0 + bool_text(r.cudnn.installed);
    lemma_escape_free_concat(t1, ", version="@);
    let t2 = t1 + ", version="@;
    lemma_escape_free_concat(t2, or_none(r.cudnn.version));
    let t3 = t2 + or_none(r.cudnn.version);
    lemma_escape_free_concat(t3, "\n"@);
    let t4 = t3 + "\n"@;
}

proof fn lemma_tensorrt_line_escape_free(r: AiDiagnosticReport)
    requires
        report_escape_free(r),
    ensures
        escape_free(tensorrt_line(r)),
{
    lemma_report_literals_escape_free();
    let t0 = "- TensorRT: installed="@;
    lemma_escape_free_concat(t0, bool_text(r.tensorrt.installed));
    let t1 = t0 + bool_text(r.tensorrt.installed);
    lemma_escape_free_concat(t1, ", version="@);
    let t2 = t1 + ", version="@;
    lemma_escape_free_concat(t2, or_none(r.tensorrt.version));
    let t3 = t2 + or_none(r.tensorrt.version);
    lemma_escape_free_concat(t3, "\n"@);
    let t4 = t3 + "\n"@;
}

proof fn lemma_ollama_line_escape_free(r: AiDiagnosticReport)
    requires
        report_escape_free(r),
    ensures
        escape_free(ollama_line(r)),
{
    lemma_report_literals_escape_free();
    let t0 = "- Ollama: installed="@;
    lemma_escape_free_concat(t0, bool_text(r.ollama.installed));
    let t1 = t0 + bool_text(r.ollama.installed);
    lemma_escape_free_concat(t1, ", version="@);
    let t2 = t1 + ", version="@;
    lemma_escape_free_concat(t2, or_none(r.ollama.version));
    let t3 = t2 + or_none(r.ollama.version);
    lemma_escape_free_concat(t3, ", running="@);
    let t4 = t3 + ", running="@;
    lemma_escape_free_concat(t4, bool_text(r.ollama.service_running));
    let t5 = t4 + bool_text(r.ollama.service_running);
    lemma_escape_free_concat(t5, "\n"@);
    let t6 = t5 + "\n"@;
}

proof fn lemma_pytorch_line_escape_free(r: AiDiagnosticReport)
    requires
        report_escape_free(r),
    ensures
        escape_free(pytorch_line(r)),
{
    lemma_report_literals_escape_free();
    let t0 = "- PyTorch: installed="@;
    lemma_escape_free_concat(t0, bool_text(r.pytorch.installed));
    let t1 = t0 + bool_text(r.pytorch.installed);
    lemma_escape_free_concat(t1, ", version="@);
    let t2 = t1 + ", version="@;
    lemma_escape_free_concat(t2, or_none(r.pytorch.version));
    let t3 = t2 + or_none(r.pytorch.version);
    lemma_escape_free_concat(t3, ", cuda_available="@);
    let t4 = t3 + ", cuda_available="@;
    lemma_escape_free_concat(t4, bool_text(or_false(r.pytorch.cuda_available)));
    let t5 = t4 + bool_text(or_false(r.pytorch.cuda_available));
    lemma_escape_free_concat(t5, ", torch_cuda_ver="@);
    let t6 = t5 + ", torch_cuda_ver="@;
    lemma_escape_free_concat(t6, or_none(r.pytorch.cuda_version));
    let t7 = t6 + or_none(r.pytorch.cuda_version);
    lemma_escape_free_concat(t7, "\n"@);
    let t8 = t7 + "\n"@;
}

proof fn lemma_tensorflow_line_escape_free(r: AiDiagnosticReport)
    requires
        report_escape_free(r),
    ensures
        escape_free(tensorflow_line(r)),
{
    lemma_report_literals_escape_free();
    let t0 = "- TensorFlow: installed="@;
    lemma_escape_free_concat(t0, bool_text(r.tensorflow.installed));
    let t1 = t0 + bool_text(r.tensorflow.installed);
    lemma_escape_free_concat(t1, ", version="@);
    let t2 = t1 + ", version="@;
    lemma_escape_free_concat(t2, or_none(r.tensorflow.version));
    let t3 = t2 + or_none(r.tensorflow.version);
    lemma_escape_free_concat(t3, ", gpu_available="@);
    let t4 = t3 + ", gpu_available="@;
    lemma_escape_free_concat(t4, bool_text(or_false(r.tensorflow.gpu_available)));
    let t5 = t4 + bool_text(or_false(r.tensorflow.gpu_available));
    lemma_escape_free_concat(t5, "\n"@);
    let t6 = t5 + "\n"@;
}

proof fn lemma_onnx_line_escape_free(r: AiDiagnosticReport, providers: Seq<char>)
    requires
        report_escape_free(r),
        escape_free(providers),
    ensures
        escape_free(onnx_line(r, providers)),
{
    lemma_report_literals_escape_free();
    let t0 = "- ONNX Runtime: installed="@;
    lemma_escape_free_concat(t0, bool_text(r.onnxruntime.installed));
    let t1 = t0 + bool_text(r.onnxruntime.installed);
    lemma_escape_free_concat(t1, ", version="@);
    let t2 = t1 + ", version="@;
    lemma_escape_free_concat(t2, or_none(r.onnxruntime.version));
    let t3 = t2 + or_none(r.onnxruntime.version);
    lemma_escape_free_concat(t3, ", providers="@);
    let t4 = t3 + ", providers="@;
    lemma_escape_free_concat(t4, providers);
    let t5 = t4 + providers;
    lemma_escape_free_concat(t5, "\n"@);
    let t6 = t5 + "\n"@;
}

proof fn lemma_llama_line_escape_free(r: AiDiagnosticReport)
    requires
        report_escape_free(r),
    ensures
        escape_free(llama_line(r)),
{
    lemma_report_literals_escape_free();
    let t0 = "- llama.cpp: installed="@;
    lemma_escape_free_concat(t0, bool_text(r.llamacpp.installed));
    let t1 = t0 + bool_text(r.llamacpp.installed);
    lemma_escape_free_concat(t1, ", version="@);
    let t2 = t1 + ", version="@;
    lemma_escape_free_concat(t2, or_none(r.llamacpp.version));
    let t3 = t2 + or_none(r.llamacpp.version);
    lemma_escape_free_concat(t3, "\n"@);
    let t4 = t3 + "\n"@;
}

fn push_bool(out: &mut Vec<char>, b: bool)
    ensures
        final(out)@ == old(out)@ + bool_text(b),
{
    if b {
        push_str(out, "true");
    } else {
        push_str(out, "false");
    }
}

fn push_or_none(out: &mut Vec<char>, o: &Option<String>)
    ensures
        final(out)@ == old(out)@ + or_none(*o),
{
    match o {
        Some(s) => push_str(out, s.as_str()),
        None => push_str(out, "None"),
    }
}

fn push_python_line(out: &mut Vec<char>, r: &AiDiagnosticReport)
    ensures
        final(out)@ == old(out)@ + python_line(*r),
{
    push_str(out, "- Python: installed=");
    push_bool(out, r.python.installed);
    push_str(out, ", version=");
    push_or_none(out, &r.python.version);
    push_str(out, "\n");
    proof {
        assert(out@ =~= old(out)@ + python_line(*r));
    }
}

fn push_cuda_line(out: &mut Vec<char>, r: &AiDiagnosticReport)
    ensures
        final(out)@ == old(out)@ + cuda_line(*r),
{
    push_str(out, "- CUDA: installed=");
    push_bool(out, r.cuda.installed);
    push_str(out, ", nvcc=");
    push_or_none(out, &r.cuda.nvcc_version);
    push_str(out, ", driver=");
    push_or_none(out, &r.cuda.driver_version);
    push_str(out, ", max_cuda=");
    push_or_none(out, &r.cuda.max_supported_cuda);
    push_str(out, "\n");
    proof {
        assert(out@ =~= old(out)@ + cuda_line(*r));
    }
}

fn push_cudnn_line(out: &mut Vec<char>, r: &AiDiagnosticReport)
    ensures
        final(out)@ == old(out)@ + cudnn_line(*r),
{
    push_str(out, "- cuDNN: installed=");
    push_bool(out, r.cudnn.installed);
    push_str(out, ", version=");
    push_or_none(out, &r.cudnn.version);
    push_str(out, "\n");
    proof {
        assert(out@ =~= old(out)@ + cudnn_line(*r));
    }
}

fn push_tensorrt_line(out: &mut Vec<char>, r: &AiDiagnosticReport)
    ensures
        final(out)@ == old(out)@ + tensorrt_line(*r),
{
    push_str(out, "- TensorRT: installed=");
    push_bool(out, r.tensorrt.installed);
    push_str(out, ", version=");
    push_or_none(out, &r.tensorrt.version);
    push_str(out, "\n");
    proof {
        assert(out@ =~= old(out)@ + tensorrt_line(*r));
    }
}

fn push_ollama_line(out: &mut Vec<char>, r: &AiDiagnosticReport)
    ensures
        final(out)@ == old(out)@ + ollama_line(*r),
{
    push_str(out, "- Ollama: installed=");
    push_bool(out, r.ollama.installed);
    push_str(out, ", version=");
    push_or_none(out, &r.ollama.version);
    push_str(out, ", running=");
    push_bool(out, r.ollama.service_running);
    push_str(out, "\n");
    proof {
        assert(out@ =~= old(out)@ + ollama_line(*r));
    }
}

fn push_pytorch_line(out: &mut Vec<char>, r: &AiDiagnosticReport)
    ensures
        final(out)@ == old(out)@ + pytorch_line(*r),
{
    push_str(out, "- PyTorch: installed=");
    push_bool(out, r.pytorch.installed);
    push_str(out, ", version=");
    push_or_none(out, &r.pytorch.version);
    push_str(out, ", cuda_available=");
    push_bool(out, r.pytorch.cuda_available == Some(true));
    push_str(out, ", torch_cuda_ver=");
    push_or_none(out, &r.pytorch.cuda_version);
    push_str(out, "\n");
    proof {
        assert(out@ =~= old(out)@ + pytorch_line(*r));
    }
}

fn push_tensorflow_line(out: &mut Vec<char>, r: &AiDiagnosticReport)
    ensures
        final(out)@ == old(out)@ + tensorflow_line(*r),
{
    push_str(out, "- TensorFlow: installed=");
    push_bool(out, r.tensorflow.installed);
    push_str(out, ", version=");
    push_or_none(out, &r.tensorflow.version);
    push_str(out, ", gpu_available=");
    push_bool(out, r.tensorflow.gpu_available == Some(true));
    push_str(out, "\n");
    proof {
        assert(out@ =~= old(out)@ + tensorflow_line(*r));
    }
}

fn push_onnx_line(out: &mut Vec<char>, r: &AiDiagnosticReport, providers: &str)
    ensures
        final(out)@ == old(out)@ + onnx_line(*r, providers@),
{
    push_str(out, "- ONNX Runtime: installed=");
    push_bool(out, r.onnxruntime.installed);
    push_str(out, ", version=");
    push_or_none(out, &r.onnxruntime.version);
    push_str(out, ", providers=");
    push_str(out, providers);
    push_str(out, "\n");
    proof {
        assert(out@ =~= old(out)@ + onnx_line(*r, providers@));
    }
}

fn push_llama_line(out: &mut Vec<char>, r: &AiDiagnosticReport)
    ensures
        final(out)@ == old(out)@ + llama_line(*r),
{
    push_str(out, "- llama.cpp: installed=");
    push_bool(out, r.llamacpp.installed);
    push_str(out, ", version=");
    push_or_none(out, &r.llamacpp.version);
    push_str(out, "\n");
    proof {
        assert(out@ =~= old(out)@ + llama_line(*r));
    }
}

/// The Markdown report of the AI/ML stack for language models (`--llm`),
/// given the `{:?}` rendering of the ONNX providers.
pub fn ai_llm_report_with(r: &AiDiagnosticReport, providers: &str) -> (s: String)
    ensures
        s@ == ai_llm_text(*r, providers@),
{
    let mut out: Vec<char> = Vec::new();
    push_str(&mut out, "# AI/ML Diagnostic Report (LLM-Optimized)\n\n");
    push_python_line(&mut out, r);
    push_cuda_line(&mut out, r);
    push_cudnn_line(&mut out, r);
    push_tensorrt_line(&mut out, r);
    push_ollama_line(&mut out, r);
    push_pytorch_line(&mut out, r);
    push_tensorflow_line(&mut out, r);
    push_onnx_line(&mut out, r, providers);
    push_llama_line(&mut out, r);
    string_of(&out)
}

/// The Markdown report of the AI/ML stack for language models (`--llm`).
///
/// The report holds no terminal escape sequence when none of the versions
/// in the report holds one (see `law_ai_llm_escape_free`).
pub fn ai_llm_report(r: &AiDiagnosticReport) -> (s: String)
    ensures
        s@ == ai_llm_text(*r, debug_list_text(texts(r.onnxruntime.providers@))),
        report_escape_free(*r) ==> escape_free(s@),
{
    let providers = debug_list(&r.onnxruntime.providers);
    proof {
        if report_escape_free(*r) {
            law_ai_llm_escape_free(*r, providers@);
        }
    }
    ai_llm_report_with(r, providers.as_str())
}

} // verus!
