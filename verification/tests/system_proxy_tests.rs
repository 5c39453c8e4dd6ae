use lvory::system_proxy::{
    clear_outcome, linux_clear_command, linux_set_commands, macos_clear_commands,
    macos_services, macos_set_commands, proxy_address, set_outcome, windows_notify_args,
    windows_proxy_override,
    ProxyPlatform,
};

#[test]
fn formats_the_address() {
    assert_eq!(proxy_address("127.0.0.1", 7890), "127.0.0.1:7890");
    assert_eq!(proxy_address("h", 0), "h:0");
    assert_eq!(proxy_address("h", 65535), "h:65535");
}

#[test]
fn plans_the_gnome_commands() {
    let c = linux_set_commands("127.0.0.1", 7890);
    assert_eq!(c.len(), 8);
    assert_eq!(c[0], vec!["set", "org.gnome.system.proxy.http", "host", "127.0.0.1"]);
    assert_eq!(c[1], vec!["set", "org.gnome.system.proxy.http", "port", "7890"]);
    assert_eq!(c[5], vec!["set", "org.gnome.system.proxy.socks", "port", "7890"]);
    assert_eq!(c[7], vec!["set", "org.gnome.system.proxy", "mode", "manual"]);
    assert_eq!(linux_clear_command(), vec!["set", "org.gnome.system.proxy", "mode", "none"]);
}

#[test]
fn reads_the_macos_services() {
    let listing = "An asterisk (*) denotes that a network service is disabled.\n Wi-Fi \n*Bluetooth PAN\n\nThunderbolt Bridge\n";
    assert_eq!(macos_services(listing), vec!["Wi-Fi", "Thunderbolt Bridge"]);
    assert!(macos_services("").is_empty());
    let s = macos_set_commands("Wi-Fi", "127.0.0.1", 7890);
    assert_eq!(s[2], vec!["-setsocksfirewallproxy", "Wi-Fi", "127.0.0.1", "7890"]);
    let c = macos_clear_commands("Wi-Fi");
    assert_eq!(c[0], vec!["-setwebproxystate", "Wi-Fi", "off"]);
}

#[test]
fn reports_outcomes() {
    assert_eq!(
        set_outcome(ProxyPlatform::Linux, "h", 1, true),
        Ok("Linux proxy set to h:1".to_string())
    );
    assert_eq!(
        set_outcome(ProxyPlatform::Linux, "h", 1, false),
        Err("Failed to set Linux proxy".to_string())
    );
    assert_eq!(
        set_outcome(ProxyPlatform::Windows, "h", 2, false),
        Err("Failed to notify system of proxy change".to_string())
    );
    assert_eq!(
        set_outcome(ProxyPlatform::MacOs, "h", 3, false),
        Ok("macOS proxy set to h:3".to_string())
    );
    assert_eq!(clear_outcome(ProxyPlatform::Windows, true), Ok("Windows proxy cleared".to_string()));
    assert_eq!(clear_outcome(ProxyPlatform::Linux, false), Err("Failed to clear Linux proxy".to_string()));
    assert_eq!(windows_notify_args(), vec!["wininet.dll,InternetSetOption", "0", "37", "0", "0"]);
}

#[test]
fn bypasses_local_and_private_addresses_on_windows() {
    let list: Vec<&str> = windows_proxy_override().split(';').collect();
    assert_eq!(list.len(), 20);
    assert_eq!(list[0], "localhost");
    assert_eq!(list[1], "127.*");
    assert_eq!(list[2], "10.*");
    for (i, second) in (16..=31).enumerate() {
        assert_eq!(list[3 + i], format!("172.{}.*", second));
    }
    assert_eq!(list[19], "192.168.*");
}
