use taskbar_ip::ip::{
    displayed_ip, ipv4_candidates, ipv4_text, select_ip_by_priority, AdapterInfo,
};

fn ips(list: &[&str]) -> Vec<(String, u8)> {
    list.iter().map(|s| (s.to_string(), 0u8)).collect()
}

#[test]
fn prefers_10_0_then_192_168_then_first() {
    assert_eq!(select_ip_by_priority(&ips(&["172.16.0.5", "192.168.1.2", "10.0.135.7"])), "10.0.135.7");
    assert_eq!(select_ip_by_priority(&ips(&["172.16.0.5", "192.168.1.2"])), "192.168.1.2");
    assert_eq!(select_ip_by_priority(&ips(&["172.16.0.5", "8.8.8.8"])), "172.16.0.5");
    assert_eq!(select_ip_by_priority(&[]), "N/A");
    // Only 10.0.x.x is first choice; another 10.x address is not.
    let list = vec![("192.168.1.5".to_string(), 192u8), ("10.20.30.40".to_string(), 10u8)];
    assert_eq!(select_ip_by_priority(&list), "192.168.1.5");
    assert_eq!(select_ip_by_priority(&ips(&["10.20.30.40", "172.16.0.5"])), "10.20.30.40");
    assert_eq!(select_ip_by_priority(&ips(&["10.20.30.40", "10.0.1.2"])), "10.0.1.2");
    // Components are compared whole: 100.x is not a 10.x address.
    assert_eq!(select_ip_by_priority(&ips(&["100.1.1.1", "192.168.0.1"])), "192.168.0.1");
    // 192.1680 is not 192.168.
    assert_eq!(select_ip_by_priority(&ips(&["192.1680.1.1", "1.2.3.4"])), "192.1680.1.1");
}

#[test]
fn address_text() {
    assert_eq!(ipv4_text(10, 0, 135, 252), "10.0.135.252");
    assert_eq!(ipv4_text(0, 0, 0, 0), "0.0.0.0");
    assert_eq!(ipv4_text(255, 255, 255, 255), "255.255.255.255");
}

#[test]
fn only_active_usable_addresses() {
    let adapters = vec![
        AdapterInfo { oper_status: 2, ipv4: vec![(10, 1, 1, 1)] },
        AdapterInfo {
            oper_status: 1,
            ipv4: vec![(127, 0, 0, 1), (169, 254, 3, 4), (0, 1, 2, 3), (192, 168, 0, 10)],
        },
        AdapterInfo { oper_status: 1, ipv4: vec![(172, 20, 1, 9)] },
    ];
    assert_eq!(
        ipv4_candidates(&adapters),
        vec![("192.168.0.10".to_string(), 192), ("172.20.1.9".to_string(), 172)]
    );
    assert_eq!(displayed_ip(&adapters), "192.168.0.10");
    let adapters = vec![
        AdapterInfo { oper_status: 1, ipv4: vec![(192, 168, 0, 10)] },
        AdapterInfo { oper_status: 1, ipv4: vec![(10, 0, 135, 40)] },
    ];
    assert_eq!(displayed_ip(&adapters), "10.0.135.40");
    let adapters = vec![
        AdapterInfo { oper_status: 1, ipv4: vec![(10, 20, 30, 40)] },
        AdapterInfo { oper_status: 1, ipv4: vec![(192, 168, 1, 5)] },
    ];
    assert_eq!(displayed_ip(&adapters), "192.168.1.5");
    assert_eq!(displayed_ip(&[]), "N/A");
}
