use vstd::prelude::*;

use crate::pattern::{regex_compiles, regex_finds, regex_is_match};

use crate::text::{
    chars_of, contains_char, has_prefix, lines, lowercase_equals, lowers_to_str, opt_view, parse_u32,
    parse_u32_spec, split_lines, split_words, starts_with, str_equal, trim, trim_str, views, words,
};

verus! {

/// One hop of a route as the traceroute tool prints it. Each round-trip entry is the
/// text of a time in milliseconds, or none for a probe that timed out.
#[derive(Debug)]
pub struct HopRecord {
    pub hop: u32,
    pub ip: Option<String>,
    pub hostname: Option<String>,
    pub rtt: Vec<Option<String>>,
}

/// The abstract value of a hop.
pub struct HopView {
    pub hop: u32,
    pub ip: Option<Seq<char>>,
    pub hostname: Option<Seq<char>>,
    pub rtt: Seq<Option<Seq<char>>>,
}

impl View for HopRecord {
    type V = HopView;

    open spec fn view(&self) -> HopView {
        HopView {
            hop: self.hop,
            ip: opt_view(self.ip),
            hostname: opt_view(self.hostname),
            rtt: self.rtt@.map_values(|o: Option<String>| opt_view(o)),
        }
    }
}

/// The word ends in `ms`.
pub open spec fn ends_ms(p: Seq<char>) -> bool {
    p.len() >= 2 && p[p.len() - 2] == 'm' && p.last() == 's'
}

/// The word without all the `ms` at its end (`trim_end_matches("ms")`).
pub open spec fn strip_ms(p: Seq<char>) -> Seq<char>
    decreases p.len(),
{
    if ends_ms(p) {
        strip_ms(p.subrange(0, p.len() - 2))
    } else {
        p
    }
}

/// The word is read as an address: it holds a `.` and does not end in `ms`.
pub open spec fn is_ip_word(p: Seq<char>) -> bool {
    p.contains('.') && !ends_ms(p)
}

/// The round-trip entry that a word gives: the time text of a word ending in `ms`,
/// a timeout for `*` or `request` in any case, nothing otherwise.
pub open spec fn rtt_entry(p: Seq<char>) -> Option<Option<Seq<char>>> {
    if is_ip_word(p) {
        None
    } else if ends_ms(p) {
        Some(Some(trim(strip_ms(p))))
    } else if p == "*"@ || lowers_to_str(p, "request"@) {
        Some(None)
    } else {
        None
    }
}

/// The address of a hop: the last address word.
pub open spec fn ip_of(parts: Seq<Seq<char>>) -> Option<Seq<char>>
    decreases parts.len(),
{
    if parts.len() == 0 {
        None
    } else if is_ip_word(parts.last()) {
        Some(parts.last())
    } else {
        ip_of(parts.drop_last())
    }
}

/// The round-trip entries of a hop's words, in order.
pub open spec fn rtts_of(parts: Seq<Seq<char>>) -> Seq<Option<Seq<char>>>
    decreases parts.len(),
{
    if parts.len() == 0 {
        seq![]
    } else {
        rtts_of(parts.drop_last()) + match rtt_entry(parts.last()) {
            Some(e) => seq![e],
            None => seq![],
        }
    }
}

/// A heading line of the tool's output.
pub open spec fn is_heading(t: Seq<char>) -> bool {
    has_prefix(t, "Tracing"@) || has_prefix(t, "traceroute"@) || has_prefix(t, "over a maximum"@)
}

/// The hop that a line describes: a trimmed line that is no heading, whose first word
/// is a hop number.
pub open spec fn hop_of_line(line: Seq<char>) -> Option<HopView> {
    let t = trim(line);
    if t.len() == 0 || is_heading(t) {
        None
    } else {
        let parts = words(t);
        if parts.len() == 0 {
            None
        } else {
            match parse_u32_spec(parts[0]) {
                Some(h) => Some(
                    HopView {
                        hop: h,
                        ip: ip_of(parts.drop_first()),
                        hostname: None,
                        rtt: rtts_of(parts.drop_first()),
                    },
                ),
                None => None,
            }
        }
    }
}

/// The hops that the lines describe, in order.
pub open spec fn hops_of(ls: Seq<Seq<char>>) -> Seq<HopView>
    decreases ls.len(),
{
    if ls.len() == 0 {
        seq![]
    } else {
        hops_of(ls.drop_last()) + match hop_of_line(ls.last()) {
            Some(h) => seq![h],
            None => seq![],
        }
    }
}

/// Whether the word ends in `ms`.
fn word_ends_ms(v: &Vec<char>) -> (r: bool)
    ensures
        r == ends_ms(v@),
{
    v.len() >= 2 && v[v.len() - 2] == 'm' && v[v.len() - 1] == 's'
}

/// The time text of a word ending in `ms`: all the `ms` at its end removed, then trimmed.
fn rtt_text(p: &str) -> (r: String)
    ensures
        r@ == trim(strip_ms(p@)),
{
    let v = chars_of(p);
    let mut end: usize = v.len();
    assert(v@.subrange(0, end as int) =~= v@);
    while end >= 2 && v[end - 2] == 'm' && v[end - 1] == 's'
        invariant
            v@ == p@,
            end <= v@.len(),
            strip_ms(p@) == strip_ms(v@.subrange(0, end as int)),
        decreases end,
    {
        assert(v@.subrange(0, end as int).subrange(0, end - 2) =~= v@.subrange(0, end - 2));
        end -= 2;
    }
    let stripped = p.substring_char(0, end);
    trim_str(stripped).to_owned()
}

/// Reads one line of the tool's output.
fn parse_hop_line(line: &str) -> (r: Option<HopRecord>)
    ensures
        match r {
            Some(h) => hop_of_line(line@) == Some(h@),
            None => hop_of_line(line@).is_none(),
        },
{
    let t = trim_str(line);
    if t.unicode_len() == 0 || starts_with(t, "Tracing") || starts_with(t, "traceroute")
        || starts_with(t, "over a maximum") {
        return None;
    }
    let parts = split_words(t);
    if parts.len() == 0 {
        return None;
    }
    let hop = match parse_u32(parts[0].as_str()) {
        Some(h) => h,
        None => return None,
    };
    let ghost ps = views(parts@);
    let ghost rest = ps.drop_first();
    let mut ip: Option<String> = None;
    let mut rtt: Vec<Option<String>> = Vec::new();
    let mut i: usize = 1;
    assert(rest.take(0) =~= Seq::<Seq<char>>::empty());
    assert(rtt@.map_values(|o: Option<String>| opt_view(o)) =~= Seq::<Option<Seq<char>>>::empty());
    while i < parts.len()
        invariant
            1 <= i <= parts@.len(),
            ps == views(parts@),
            rest == ps.drop_first(),
            opt_view(ip) == ip_of(rest.take(i - 1)),
            rtt@.map_values(|o: Option<String>| opt_view(o)) == rtts_of(rest.take(i - 1)),
        decreases parts.len() - i,
    {
        let part = parts[i].as_str();
        let ghost pv = part@;
        assert(pv == rest[i - 1]);
        assert(rest.take(i as int).drop_last() =~= rest.take(i - 1));
        assert(rest.take(i as int).last() == pv);
        let pchars = chars_of(part);
        let is_ms = word_ends_ms(&pchars);
        let ghost old_rtt = rtt@;
        if contains_char(part, '.') && !is_ms {
            ip = Some(parts[i].clone());
            assert(rtt@.map_values(|o: Option<String>| opt_view(o)) =~= rtts_of(rest.take(i as int)));
        } else if is_ms {
            rtt.push(Some(rtt_text(part)));
            assert(rtt@.map_values(|o: Option<String>| opt_view(o)) =~= old_rtt.map_values(
                |o: Option<String>| opt_view(o),
            ) + seq![Some(trim(strip_ms(pv)))]);
        } else if str_equal(part, "*") || lowercase_equals(part, "request") {
            rtt.push(None);
            assert(rtt@.map_values(|o: Option<String>| opt_view(o)) =~= old_rtt.map_values(
                |o: Option<String>| opt_view(o),
            ) + seq![None::<Seq<char>>]);
        } else {
            assert(rtt@.map_values(|o: Option<String>| opt_view(o)) =~= rtts_of(rest.take(i as int)));
        }
        i += 1;
    }
    assert(rest.take(i - 1) =~= rest);
    Some(HopRecord { hop, ip, hostname: None, rtt })
}

/// Reads the hops from the output of the traceroute tool (either platform's layout).
/// An output that describes no hop is an error.
pub fn parse_traceroute_output(output: &str, is_windows: bool) -> (r: Result<Vec<HopRecord>, String>)
    ensures
        match r {
            Ok(hops) => hops_of(lines(output@)).len() > 0 && hops@.map_values(|h: HopRecord| h@)
                == hops_of(lines(output@)),
            Err(e) => hops_of(lines(output@)).len() == 0 && e@
                == "No valid hops found in traceroute output"@,
        },
{
    let ls = split_lines(output);
    let ghost lv = views(ls@);
    let mut hops: Vec<HopRecord> = Vec::new();
    let mut i: usize = 0;
    assert(lv.take(0) =~= Seq::<Seq<char>>::empty());
    assert(hops@.map_values(|h: HopRecord| h@) =~= Seq::<HopView>::empty());
    while i < ls.len()
        invariant
            i <= ls@.len(),
            lv == views(ls@),
            lv == lines(output@),
            hops@.map_values(|h: HopRecord| h@) == hops_of(lv.take(i as int)),
        decreases ls.len() - i,
    {
        let ghost old_hops = hops@;
        assert(lv.take(i + 1).drop_last() =~= lv.take(i as int));
        assert(lv.take(i + 1).last() == ls@[i as int]@);
        match parse_hop_line(ls[i].as_str()) {
            Some(h) => {
                hops.push(h);
                assert(hops@.map_values(|h: HopRecord| h@) =~= old_hops.map_values(
                    |h: HopRecord| h@,
                ) + seq![h@]);
            },
            None => {},
        }
        i += 1;
    }
    assert(lv.take(i as int) =~= lv);
    if hops.len() == 0 {
        return Err("No valid hops found in traceroute output".to_owned());
    }
    Ok(hops)
}


/// The pattern of a dotted IPv4 address.
pub open spec fn ipv4_pattern() -> Seq<char> {
    "^(?:(?:25[0-5]|2[0-4][0-9]|[01]?[0-9][0-9]?)\\.){3}(?:25[0-5]|2[0-4][0-9]|[01]?[0-9][0-9]?)$"@
}

/// The pattern of a host name: labels of letters, digits and inner hyphens, joined by dots.
pub open spec fn domain_pattern() -> Seq<char> {
    "^[a-zA-Z0-9]([a-zA-Z0-9\\-]{0,61}[a-zA-Z0-9])?(\\.[a-zA-Z0-9]([a-zA-Z0-9\\-]{0,61}[a-zA-Z0-9])?)*$"@
}

fn ipv4_pattern_str() -> (r: &'static str)
    ensures
        r@ == ipv4_pattern(),
{
    "^(?:(?:25[0-5]|2[0-4][0-9]|[01]?[0-9][0-9]?)\\.){3}(?:25[0-5]|2[0-4][0-9]|[01]?[0-9][0-9]?)$"
}

fn domain_pattern_str() -> (r: &'static str)
    ensures
        r@ == domain_pattern(),
{
    "^[a-zA-Z0-9]([a-zA-Z0-9\\-]{0,61}[a-zA-Z0-9])?(\\.[a-zA-Z0-9]([a-zA-Z0-9\\-]{0,61}[a-zA-Z0-9])?)*$"
}

/// The verdict on a target, given whether the address and the host name patterns
/// match it: a blank target is invalid, else one match makes it valid.
pub fn target_verdict(target: &str, ipv4_match: bool, domain_match: bool) -> (r: bool)
    ensures
        r == (trim(target@).len() > 0 && (ipv4_match || domain_match)),
{
    if trim_str(target).unicode_len() == 0 {
        return false;
    }
    ipv4_match || domain_match
}

/// Whether `target` is a valid traceroute target: not blank, and matched by the
/// address pattern or the host name pattern.
pub open spec fn valid_target(target: Seq<char>) -> bool {
    trim(target).len() > 0 && (regex_finds(ipv4_pattern(), target) || regex_finds(domain_pattern(), target))
}

/// Whether both patterns compile.
pub open spec fn patterns_compile() -> bool {
    regex_compiles(ipv4_pattern()) && regex_compiles(domain_pattern())
}

/// Whether `target` is a valid traceroute target: not blank, and a dotted IPv4
/// address or a host name. An error when a pattern does not compile.
pub fn traceroute_validate(target: &str) -> (r: Result<bool, String>)
    ensures
        trim(target@).len() == 0 ==> r == Ok::<bool, String>(false),
        trim(target@).len() > 0 ==> (r.is_ok() == (regex_compiles(ipv4_pattern())
            && regex_compiles(domain_pattern()))),
        r matches Ok(b) ==> b == valid_target(target@),
        r matches Err(e) ==> e@ == "invalid target pattern"@,
{
    if trim_str(target).unicode_len() == 0 {
        return Ok(false);
    }
    let ipv4 = regex_is_match(ipv4_pattern_str(), target);
    let domain = regex_is_match(domain_pattern_str(), target);
    match (ipv4, domain) {
        (Some(a), Some(b)) => Ok(target_verdict(target, a, b)),
        _ => Err("invalid target pattern".to_owned()),
    }
}

/// The program that traces a route: `tracert` on Windows, `traceroute` elsewhere.
pub open spec fn traceroute_program(is_windows: bool) -> Seq<char> {
    if is_windows {
        "tracert"@
    } else {
        "traceroute"@
    }
}

/// The arguments that trace the route to `target`: numeric output and at most 30 hops.
pub open spec fn traceroute_args(target: Seq<char>, is_windows: bool) -> Seq<Seq<char>> {
    if is_windows {
        seq!["-d"@, "-h"@, "30"@, target]
    } else {
        seq!["-n"@, "-m"@, "30"@, target]
    }
}

/// The command that traces the route to `target`, and its arguments: `tracert` on
/// Windows, `traceroute` elsewhere, numeric output and at most 30 hops.
pub fn traceroute_command(target: &str, is_windows: bool) -> (r: (String, Vec<String>))
    ensures
        r.0@ == traceroute_program(is_windows),
        views(r.1@) == traceroute_args(target@, is_windows),
{
    let mut args: Vec<String> = Vec::new();
    let command = if is_windows {
        args.push("-d".to_owned());
        args.push("-h".to_owned());
        "tracert".to_owned()
    } else {
        args.push("-n".to_owned());
        args.push("-m".to_owned());
        "traceroute".to_owned()
    };
    args.push("30".to_owned());
    args.push(target.to_owned());
    proof {
        if is_windows {
            assert(views(args@) =~= seq!["-d"@, "-h"@, "30"@, target@]);
        } else {
            assert(views(args@) =~= seq!["-n"@, "-m"@, "30"@, target@]);
        }
    }
    (command, args)
}

/// The traceroute to run for `target`: the command and its arguments for a valid
/// target; `Invalid target address` for a blank or unmatched one.
pub fn traceroute_request(target: &str, is_windows: bool) -> (r: Result<(String, Vec<String>), String>)
    ensures
        r matches Ok(c) ==> valid_target(target@) && c.0@ == traceroute_program(is_windows) && views(
            c.1@,
        ) == traceroute_args(target@, is_windows),
        trim(target@).len() > 0 && !patterns_compile() ==> (r matches Err(e) && e@
            == "invalid target pattern"@),
        trim(target@).len() == 0 || patterns_compile() ==> (r is Ok <==> valid_target(target@)),
        trim(target@).len() == 0 || patterns_compile() ==> (r matches Err(e) ==> e@
            == "Invalid target address"@),
{
    match traceroute_validate(target) {
        Ok(true) => Ok(traceroute_command(target, is_windows)),
        Ok(false) => Err("Invalid target address".to_owned()),
        Err(e) => Err(e),
    }
}

} // verus!
