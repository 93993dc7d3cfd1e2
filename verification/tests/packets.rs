use devinspect::collectors::packets::{
    byte_deltas, iface_display_order, iface_style, lookup_iface, packet_totals,
    packet_totals_checked, parse_proc_net_dev, sample_window, IfaceEntry, IfaceStats, IfaceStyle,
};

const NET_DEV: &str = "Inter-|   Receive                                                |  Transmit
 face |bytes    packets errs drop fifo frame compressed multicast|bytes    packets errs drop fifo colls carrier compressed
    lo: 1000      10    0    0    0     0          0         0     1000      10    0    0    0     0       0          0
  eth0: 5000      50    1    2    0     0          0         0     7000      70    3    4    0     0       0          0
wlan0: 300 3 0 0 0 0 0 0 400 4 0 0 0 0 0 0
";

fn stats(rx_bytes: u64, tx_bytes: u64, rx_packets: u64, tx_packets: u64) -> IfaceStats {
    IfaceStats {
        rx_bytes,
        tx_bytes,
        rx_packets,
        tx_packets,
        rx_errors: 0,
        tx_errors: 0,
        rx_drop: 0,
        tx_drop: 0,
    }
}

#[test]
fn parses_the_interface_table() {
    let es = parse_proc_net_dev(NET_DEV);
    assert_eq!(es.len(), 3);
    let eth0 = lookup_iface(&es, "eth0").unwrap();
    assert_eq!(
        eth0,
        IfaceStats {
            rx_bytes: 5000,
            tx_bytes: 7000,
            rx_packets: 50,
            tx_packets: 70,
            rx_errors: 1,
            tx_errors: 3,
            rx_drop: 2,
            tx_drop: 4,
        }
    );
    assert_eq!(lookup_iface(&es, "wlan0").unwrap().tx_bytes, 400);
    assert_eq!(lookup_iface(&es, "docker0"), None);
}

#[test]
fn skips_header_and_short_rows() {
    let content = "header one\nlo: 1 2 3\n  eth1: 1 2 3 4 5 6 7 8 9 10 11 12 13 14 15 16\nbad line\n";
    let es = parse_proc_net_dev(content);
    // The first two lines are headers, even when the second looks like a row.
    assert_eq!(es.len(), 1);
    assert_eq!(es[0].name, "eth1");
    assert_eq!(es[0].stats.rx_bytes, 1);
    assert_eq!(es[0].stats.tx_bytes, 9);
    assert_eq!(es[0].stats.tx_drop, 12);
    assert!(parse_proc_net_dev("").is_empty());
}

#[test]
fn later_rows_replace_earlier_ones() {
    let content = "h\nh\neth0: 1 0 0 0 0 0 0 0 2 0 0 0 0 0 0 0\neth0: 5 0 0 0 0 0 0 0 6 0 0 0 0 0 0 0\n";
    let es = parse_proc_net_dev(content);
    assert_eq!(es.len(), 1);
    assert_eq!(es[0].stats.rx_bytes, 5);
    assert_eq!(es[0].stats.tx_bytes, 6);
}

#[test]
fn rates_come_from_byte_deltas() {
    let before = stats(1000, 2000, 0, 0);
    let after = stats(1500, 1000, 0, 0);
    assert_eq!(byte_deltas(after, Some(before)), (500, 0));
    assert_eq!(byte_deltas(after, None), (0, 0));
}

#[test]
fn interface_styles() {
    assert_eq!(iface_style("lo"), IfaceStyle::Loopback);
    assert_eq!(iface_style("wlp3s0"), IfaceStyle::Wireless);
    assert_eq!(iface_style("enp0s31f6"), IfaceStyle::Wired);
}

#[test]
fn sample_windows() {
    assert_eq!(sample_window(None), 1);
    assert_eq!(sample_window(Some(0)), 1);
    assert_eq!(sample_window(Some(5)), 5);
}

#[test]
fn totals_over_interfaces() {
    let es = vec![
        IfaceEntry { name: "a".to_string(), stats: stats(1, 2, 3, 4) },
        IfaceEntry { name: "b".to_string(), stats: stats(10, 20, 30, 40) },
    ];
    assert_eq!(packet_totals(&es), (11, 22, 33, 44));
    assert_eq!(packet_totals_checked(&es), Some((11, 22, 33, 44)));
    let big = vec![
        IfaceEntry { name: "a".to_string(), stats: stats(u64::MAX, 0, 0, 0) },
        IfaceEntry { name: "b".to_string(), stats: stats(1, 0, 0, 0) },
    ];
    assert_eq!(packet_totals_checked(&big), None);
}

#[test]
fn interfaces_are_listed_by_name() {
    let es = parse_proc_net_dev(NET_DEV);
    let order = iface_display_order(&es);
    let names: Vec<&str> = order.iter().map(|&i| es[i].name.as_str()).collect();
    assert_eq!(names, vec!["eth0", "lo", "wlan0"]);
}
