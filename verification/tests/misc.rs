use devinspect::cli::{Cli, Commands, OutputFormat};
use devinspect::collectors::network::{interface_fields, NetInterface};
use devinspect::collectors::system::{parse_lspci_gpus, parse_nvidia_gpus};
use devinspect::config::{ollama_address, AppConfig};
use devinspect::logging::{log_level, LogLevel};
use devinspect::order::pair_order;

fn cli(json: bool, yaml: bool, llm: bool) -> Cli {
    Cli {
        command: Some(Commands::Doctor),
        verbose: false,
        debug: false,
        trace: false,
        json,
        yaml,
        llm,
    }
}

#[test]
fn output_format_precedence() {
    assert_eq!(cli(true, true, true).output_format(), OutputFormat::Json);
    assert_eq!(cli(false, true, true).output_format(), OutputFormat::Yaml);
    assert_eq!(cli(false, false, true).output_format(), OutputFormat::Llm);
    assert_eq!(cli(false, false, false).output_format(), OutputFormat::Terminal);
}

#[test]
fn log_level_precedence() {
    assert_eq!(log_level(true, true, true), LogLevel::Trace);
    assert_eq!(log_level(false, true, true), LogLevel::Debug);
    assert_eq!(log_level(false, false, true), LogLevel::Info);
    assert_eq!(log_level(false, false, false), LogLevel::Warn);
}

#[test]
fn config_fallback_and_ollama_address() {
    let c = AppConfig::fallback();
    assert_eq!(c.default_theme.as_deref(), Some("dark"));
    assert_eq!(c.enable_telemetry, Some(false));
    assert_eq!(ollama_address(Some(&c)), "127.0.0.1:11434");
    assert_eq!(ollama_address(None), "127.0.0.1:11434");
    let custom = AppConfig {
        default_theme: None,
        enable_telemetry: None,
        ollama_host: Some("192.168.1.20:11434".to_string()),
    };
    assert_eq!(ollama_address(Some(&custom)), "192.168.1.20:11434");
}

#[test]
fn gpus_from_lspci() {
    let out = "00:02.0 VGA compatible controller: Intel Corporation UHD Graphics 620 (rev 07)\n\
00:14.0 USB controller: Intel Corporation Sunrise Point-LP USB 3.0 xHCI Controller\n\
01:00.0 3D controller: NVIDIA Corporation GP108M [GeForce MX150] (rev a1)\n";
    assert_eq!(
        parse_lspci_gpus(out),
        vec![
            // The text after the first colon, which is the one in the slot.
            "02.0 VGA compatible controller: Intel Corporation UHD Graphics 620 (rev 07)".to_string(),
            "00.0 3D controller: NVIDIA Corporation GP108M [GeForce MX150] (rev a1)".to_string(),
        ]
    );
    assert!(parse_lspci_gpus("no gpus here\n").is_empty());
    assert!(parse_lspci_gpus("VGA without colon\n").is_empty());
}

#[test]
fn gpus_from_nvidia_smi() {
    assert_eq!(
        parse_nvidia_gpus("NVIDIA GeForce RTX 3080, 10240 MiB\n\n  \nTesla T4, 15360 MiB\n"),
        vec!["NVIDIA GeForce RTX 3080, 10240 MiB".to_string(), "Tesla T4, 15360 MiB".to_string()]
    );
}

#[test]
fn network_interface_fields() {
    let i = NetInterface {
        name: "eth0".to_string(),
        mac: Some("aa:bb:cc:dd:ee:ff".to_string()),
        ipv4: vec!["192.168.1.2".to_string(), "10.0.0.1".to_string()],
        mtu: Some(1500),
    };
    assert_eq!(
        interface_fields(&i),
        (
            "aa:bb:cc:dd:ee:ff".to_string(),
            Some("192.168.1.2, 10.0.0.1".to_string()),
            "1500".to_string()
        )
    );
    let bare = NetInterface { name: "lo".to_string(), mac: None, ipv4: Vec::new(), mtu: None };
    assert_eq!(interface_fields(&bare), ("N/A".to_string(), None, "N/A".to_string()));
}

fn pair(a: &str, b: &str) -> (Vec<char>, Vec<char>) {
    (a.chars().collect(), b.chars().collect())
}

#[test]
fn text_order_is_that_of_str() {
    let ks = vec![pair("b", ""), pair("ab", "2"), pair("a", "9"), pair("ab", "10"), pair("ä", ""), pair("a", "9")];
    let order = pair_order(&ks);
    assert_eq!(order, vec![2, 5, 3, 1, 0, 4]);
    let mut expected: Vec<usize> = (0..ks.len()).collect();
    let strs: Vec<(String, String)> = ks
        .iter()
        .map(|(a, b)| (a.iter().collect(), b.iter().collect()))
        .collect();
    expected.sort_by(|&i, &j| strs[i].cmp(&strs[j]));
    assert_eq!(order, expected);
}
