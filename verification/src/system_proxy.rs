use vstd::prelude::*;

use crate::text::{decimal, decimal_string, lines, split_lines, trim, trim_str, views};

verus! {

/// A proxy endpoint.
#[derive(Debug)]
pub struct ProxyConfig {
    pub host: String,
    pub port: u16,
}

/// The platforms whose system proxy can be set.
#[derive(Debug, Clone, Copy, PartialEq, Eq, Structural)]
pub enum ProxyPlatform {
    Windows,
    Linux,
    MacOs,
}

/// The views of a list of argument lists.
pub open spec fn nested_views(v: Seq<Vec<String>>) -> Seq<Seq<Seq<char>>> {
    v.map_values(|a: Vec<String>| views(a@))
}

/// `host:port`.
pub open spec fn address_of(host: Seq<char>, port: u16) -> Seq<char> {
    host + ":"@ + decimal(port as nat)
}

/// `host:port`, as the proxy server setting holds it.
pub fn proxy_address(host: &str, port: u16) -> (r: String)
    ensures
        r@ == address_of(host@, port),
{
    let mut r = host.to_owned();
    r.append(":");
    let p = decimal_string(port as u64);
    r.append(p.as_str());
    r
}

/// The Windows bypass list: `localhost`, loopback, and the private ranges `10.*`,
/// `172.16.*` to `172.31.*` and `192.168.*`, separated by `;`.
pub open spec fn windows_override_list() -> Seq<char> {
    "localhost;127.*;10.*;172.16.*;172.17.*;172.18.*;172.19.*;172.20.*;172.21.*;172.22.*;172.23.*;172.24.*;172.25.*;172.26.*;172.27.*;172.28.*;172.29.*;172.30.*;172.31.*;192.168.*"@
}

/// The addresses that bypass the proxy on Windows.
pub fn windows_proxy_override() -> (r: &'static str)
    ensures
        r@ == windows_override_list(),
{
    "localhost;127.*;10.*;172.16.*;172.17.*;172.18.*;172.19.*;172.20.*;172.21.*;172.22.*;172.23.*;172.24.*;172.25.*;172.26.*;172.27.*;172.28.*;172.29.*;172.30.*;172.31.*;192.168.*"
}

/// The arguments of `rundll32.exe` that make Windows reload its internet settings.
pub fn windows_notify_args() -> (r: Vec<String>)
    ensures
        views(r@) == seq!["wininet.dll,InternetSetOption"@, "0"@, "37"@, "0"@, "0"@],
{
    let mut r: Vec<String> = Vec::new();
    r.push("wininet.dll,InternetSetOption".to_owned());
    r.push("0".to_owned());
    r.push("37".to_owned());
    r.push("0".to_owned());
    r.push("0".to_owned());
    assert(views(r@) =~= seq!["wininet.dll,InternetSetOption"@, "0"@, "37"@, "0"@, "0"@]);
    r
}

/// The `gsettings` argument list `set schema key value`.
fn gsettings_set(schema: &str, key: &str, value: &str) -> (r: Vec<String>)
    ensures
        views(r@) == seq!["set"@, schema@, key@, value@],
{
    let mut r: Vec<String> = Vec::new();
    r.push("set".to_owned());
    r.push(schema.to_owned());
    r.push(key.to_owned());
    r.push(value.to_owned());
    assert(views(r@) =~= seq!["set"@, schema@, key@, value@]);
    r
}

/// The hosts that bypass the proxy on GNOME.
pub open spec fn gnome_ignore_hosts() -> Seq<char> {
    "['localhost', '127.0.0.0/8', '10.0.0.0/8', '172.16.0.0/12', '192.168.0.0/16']"@
}

/// The `gsettings` commands that set the GNOME proxy, in order: host and port of the
/// HTTP, HTTPS and SOCKS proxies, the bypassed hosts, and manual mode last.
pub open spec fn linux_set_plan(host: Seq<char>, port: u16) -> Seq<Seq<Seq<char>>> {
    let p = decimal(port as nat);
    seq![
        seq!["set"@, "org.gnome.system.proxy.http"@, "host"@, host],
        seq!["set"@, "org.gnome.system.proxy.http"@, "port"@, p],
        seq!["set"@, "org.gnome.system.proxy.https"@, "host"@, host],
        seq!["set"@, "org.gnome.system.proxy.https"@, "port"@, p],
        seq!["set"@, "org.gnome.system.proxy.socks"@, "host"@, host],
        seq!["set"@, "org.gnome.system.proxy.socks"@, "port"@, p],
        seq!["set"@, "org.gnome.system.proxy"@, "ignore-hosts"@, gnome_ignore_hosts()],
        seq!["set"@, "org.gnome.system.proxy"@, "mode"@, "manual"@],
    ]
}

/// Setting the GNOME proxy points each of the HTTP, HTTPS and SOCKS proxies at the
/// given host and port, and switches the proxy to manual mode last.
pub proof fn law_gnome_proxy_points_every_scheme(host: Seq<char>, port: u16, schema: Seq<char>)
    requires
        schema == "org.gnome.system.proxy.http"@ || schema == "org.gnome.system.proxy.https"@
            || schema == "org.gnome.system.proxy.socks"@,
    ensures
        linux_set_plan(host, port).contains(seq!["set"@, schema, "host"@, host]),
        linux_set_plan(host, port).contains(seq!["set"@, schema, "port"@, decimal(port as nat)]),
        linux_set_plan(host, port).last() == seq!["set"@, "org.gnome.system.proxy"@, "mode"@, "manual"@],
{
    let plan = linux_set_plan(host, port);
    if schema == "org.gnome.system.proxy.http"@ {
        assert(plan[0] == seq!["set"@, schema, "host"@, host]);
        assert(plan[1] == seq!["set"@, schema, "port"@, decimal(port as nat)]);
    } else if schema == "org.gnome.system.proxy.https"@ {
        assert(plan[2] == seq!["set"@, schema, "host"@, host]);
        assert(plan[3] == seq!["set"@, schema, "port"@, decimal(port as nat)]);
    } else {
        assert(plan[4] == seq!["set"@, schema, "host"@, host]);
        assert(plan[5] == seq!["set"@, schema, "port"@, decimal(port as nat)]);
    }
}

/// The argument lists of the `gsettings` commands that set the GNOME proxy.
pub fn linux_set_commands(host: &str, port: u16) -> (r: Vec<Vec<String>>)
    ensures
        nested_views(r@) == linux_set_plan(host@, port),
{
    let p = decimal_string(port as u64);
    let ps = p.as_str();
    let mut r: Vec<Vec<String>> = Vec::new();
    r.push(gsettings_set("org.gnome.system.proxy.http", "host", host));
    r.push(gsettings_set("org.gnome.system.proxy.http", "port", ps));
    r.push(gsettings_set("org.gnome.system.proxy.https", "host", host));
    r.push(gsettings_set("org.gnome.system.proxy.https", "port", ps));
    r.push(gsettings_set("org.gnome.system.proxy.socks", "host", host));
    r.push(gsettings_set("org.gnome.system.proxy.socks", "port", ps));
    r.push(
        gsettings_set(
            "org.gnome.system.proxy",
            "ignore-hosts",
            "['localhost', '127.0.0.0/8', '10.0.0.0/8', '172.16.0.0/12', '192.168.0.0/16']",
        ),
    );
    r.push(gsettings_set("org.gnome.system.proxy", "mode", "manual"));
    assert(nested_views(r@) =~= linux_set_plan(host@, port));
    r
}

/// The argument list of the `gsettings` command that turns the GNOME proxy off.
pub fn linux_clear_command() -> (r: Vec<String>)
    ensures
        views(r@) == seq!["set"@, "org.gnome.system.proxy"@, "mode"@, "none"@],
{
    gsettings_set("org.gnome.system.proxy", "mode", "none")
}

/// The network service that a line of `networksetup -listallnetworkservices` names:
/// the trimmed line, unless it is empty or marked disabled with `*`.
pub open spec fn service_of_line(l: Seq<char>) -> Option<Seq<char>> {
    let t = trim(l);
    if t.len() == 0 || t[0] == '*' {
        None
    } else {
        Some(t)
    }
}

/// The network services that the lines name, in order.
pub open spec fn services_of(ls: Seq<Seq<char>>) -> Seq<Seq<char>>
    decreases ls.len(),
{
    if ls.len() == 0 {
        seq![]
    } else {
        services_of(ls.drop_last()) + match service_of_line(ls.last()) {
            Some(s) => seq![s],
            None => seq![],
        }
    }
}

/// The network services of a listing: all lines after the first, which explains it.
pub open spec fn listed_services(listing: Seq<char>) -> Seq<Seq<char>> {
    let ls = lines(listing);
    if ls.len() == 0 {
        seq![]
    } else {
        services_of(ls.drop_first())
    }
}

/// The network services that `networksetup -listallnetworkservices` printed.
pub fn macos_services(listing: &str) -> (r: Vec<String>)
    ensures
        views(r@) == listed_services(listing@),
{
    let ls = split_lines(listing);
    let ghost lv = views(ls@);
    let mut out: Vec<String> = Vec::new();
    if ls.len() == 0 {
        assert(views(out@) =~= Seq::<Seq<char>>::empty());
        return out;
    }
    let ghost rest = lv.drop_first();
    let mut i: usize = 1;
    assert(rest.take(0) =~= Seq::<Seq<char>>::empty());
    assert(views(out@) =~= Seq::<Seq<char>>::empty());
    while i < ls.len()
        invariant
            1 <= i <= ls@.len(),
            lv == views(ls@),
            rest == lv.drop_first(),
            views(out@) == services_of(rest.take(i - 1)),
        decreases ls.len() - i,
    {
        let ghost before = views(out@);
        assert(rest.take(i as int).drop_last() =~= rest.take(i - 1));
        assert(rest.take(i as int).last() == ls@[i as int]@);
        let t = trim_str(ls[i].as_str());
        let tv = crate::text::chars_of(t);
        if tv.len() > 0 && tv[0] != '*' {
            out.push(t.to_owned());
            assert(views(out@) =~= before + seq![t@]);
        }
        i += 1;
    }
    assert(rest.take(i - 1) =~= rest);
    out
}

/// The `networksetup` argument list `flag service rest...`.
fn networksetup_args(flag: &str, service: &str, a: &str, b: &str, two: bool) -> (r: Vec<String>)
    ensures
        two ==> views(r@) == seq![flag@, service@, a@, b@],
        !two ==> views(r@) == seq![flag@, service@, a@],
{
    let mut r: Vec<String> = Vec::new();
    r.push(flag.to_owned());
    r.push(service.to_owned());
    r.push(a.to_owned());
    if two {
        r.push(b.to_owned());
        assert(views(r@) =~= seq![flag@, service@, a@, b@]);
    } else {
        assert(views(r@) =~= seq![flag@, service@, a@]);
    }
    r
}

/// The `networksetup` commands that point a service's web, secure web and SOCKS
/// proxies at `host:port`.
pub fn macos_set_commands(service: &str, host: &str, port: u16) -> (r: Vec<Vec<String>>)
    ensures
        nested_views(r@) == seq![
            seq!["-setwebproxy"@, service@, host@, decimal(port as nat)],
            seq!["-setsecurewebproxy"@, service@, host@, decimal(port as nat)],
            seq!["-setsocksfirewallproxy"@, service@, host@, decimal(port as nat)],
        ],
{
    let p = decimal_string(port as u64);
    let mut r: Vec<Vec<String>> = Vec::new();
    r.push(networksetup_args("-setwebproxy", service, host, p.as_str(), true));
    r.push(networksetup_args("-setsecurewebproxy", service, host, p.as_str(), true));
    r.push(networksetup_args("-setsocksfirewallproxy", service, host, p.as_str(), true));
    assert(nested_views(r@) =~= seq![
        seq!["-setwebproxy"@, service@, host@, decimal(port as nat)],
        seq!["-setsecurewebproxy"@, service@, host@, decimal(port as nat)],
        seq!["-setsocksfirewallproxy"@, service@, host@, decimal(port as nat)],
    ]);
    r
}

/// The `networksetup` commands that turn a service's web, secure web and SOCKS
/// proxies off.
pub fn macos_clear_commands(service: &str) -> (r: Vec<Vec<String>>)
    ensures
        nested_views(r@) == seq![
            seq!["-setwebproxystate"@, service@, "off"@],
            seq!["-setsecurewebproxystate"@, service@, "off"@],
            seq!["-setsocksfirewallproxystate"@, service@, "off"@],
        ],
{
    let mut r: Vec<Vec<String>> = Vec::new();
    r.push(networksetup_args("-setwebproxystate", service, "off", "", false));
    r.push(networksetup_args("-setsecurewebproxystate", service, "off", "", false));
    r.push(networksetup_args("-setsocksfirewallproxystate", service, "off", "", false));
    assert(nested_views(r@) =~= seq![
        seq!["-setwebproxystate"@, service@, "off"@],
        seq!["-setsecurewebproxystate"@, service@, "off"@],
        seq!["-setsocksfirewallproxystate"@, service@, "off"@],
    ]);
    r
}

/// The outcome of setting the proxy on a platform, given whether its last command
/// succeeded (macOS reports no failure).
pub fn set_outcome(platform: ProxyPlatform, host: &str, port: u16, succeeded: bool) -> (r: Result<
    String,
    String,
>)
    ensures
        platform == ProxyPlatform::Windows && succeeded ==> (r matches Ok(m) && m@
            == "Windows proxy set to "@ + address_of(host@, port)),
        platform == ProxyPlatform::Windows && !succeeded ==> (r matches Err(m) && m@
            == "Failed to notify system of proxy change"@),
        platform == ProxyPlatform::Linux && succeeded ==> (r matches Ok(m) && m@
            == "Linux proxy set to "@ + address_of(host@, port)),
        platform == ProxyPlatform::Linux && !succeeded ==> (r matches Err(m) && m@
            == "Failed to set Linux proxy"@),
        platform == ProxyPlatform::MacOs ==> (r matches Ok(m) && m@ == "macOS proxy set to "@
            + address_of(host@, port)),
{
    let addr = proxy_address(host, port);
    match platform {
        ProxyPlatform::Windows => {
            if succeeded {
                let mut m = "Windows proxy set to ".to_owned();
                m.append(addr.as_str());
                Ok(m)
            } else {
                Err("Failed to notify system of proxy change".to_owned())
            }
        },
        ProxyPlatform::Linux => {
            if succeeded {
                let mut m = "Linux proxy set to ".to_owned();
                m.append(addr.as_str());
                Ok(m)
            } else {
                Err("Failed to set Linux proxy".to_owned())
            }
        },
        ProxyPlatform::MacOs => {
            let mut m = "macOS proxy set to ".to_owned();
            m.append(addr.as_str());
            Ok(m)
        },
    }
}

/// The outcome of clearing the proxy on a platform, given whether its last command
/// succeeded (macOS reports no failure).
pub fn clear_outcome(platform: ProxyPlatform, succeeded: bool) -> (r: Result<String, String>)
    ensures
        platform == ProxyPlatform::Windows && succeeded ==> (r matches Ok(m) && m@
            == "Windows proxy cleared"@),
        platform == ProxyPlatform::Windows && !succeeded ==> (r matches Err(m) && m@
            == "Failed to notify system of proxy change"@),
        platform == ProxyPlatform::Linux && succeeded ==> (r matches Ok(m) && m@
            == "Linux proxy cleared"@),
        platform == ProxyPlatform::Linux && !succeeded ==> (r matches Err(m) && m@
            == "Failed to clear Linux proxy"@),
        platform == ProxyPlatform::MacOs ==> (r matches Ok(m) && m@ == "macOS proxy cleared"@),
{
    match platform {
        ProxyPlatform::Windows => {
            if succeeded {
                Ok("Windows proxy cleared".to_owned())
            } else {
                Err("Failed to notify system of proxy change".to_owned())
            }
        },
        ProxyPlatform::Linux => {
            if succeeded {
                Ok("Linux proxy cleared".to_owned())
            } else {
                Err("Failed to clear Linux proxy".to_owned())
            }
        },
        ProxyPlatform::MacOs => Ok("macOS proxy cleared".to_owned()),
    }
}

} // verus!
