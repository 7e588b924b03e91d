//! Reading the interface list that the configuration tool prints.
use vstd::prelude::*;
use crate::text::{
    contains, contains_str, from_chars, lines, split_lines, split_words, to_chars, trim, trimmed,
    views, words,
};
use crate::types::{DnsConfiguration, NetworkAdapter};

verus! {

/// One row of the interface list.
#[derive(Debug, Clone)]
pub struct AdapterRecord {
    pub name: String,
    pub is_connected: bool,
    pub is_enabled: bool,
}

/// The record's content: name, connected, enabled.
pub open spec fn record_view(r: AdapterRecord) -> (Seq<char>, bool, bool) {
    (r.name@, r.is_connected, r.is_enabled)
}

/// Lines before this one are the list's heading.
pub const HEADER_LINES: usize = 3;

/// The code of `c` once Latin and Russian Cyrillic capitals are folded to lower case.
pub open spec fn lower_code(c: char) -> u32 {
    if 'A' <= c && c <= 'Z' {
        (c as u32 + 32) as u32
    } else if '\u{410}' <= c && c <= '\u{42f}' {
        (c as u32 + 32) as u32
    } else if '\u{400}' <= c && c <= '\u{40f}' {
        (c as u32 + 80) as u32
    } else {
        c as u32
    }
}

pub fn lower_code_of(c: char) -> (r: u32)
    ensures
        r == lower_code(c),
{
    if 'A' <= c && c <= 'Z' {
        c as u32 + 32
    } else if '\u{410}' <= c && c <= '\u{42f}' {
        c as u32 + 32
    } else if '\u{400}' <= c && c <= '\u{40f}' {
        c as u32 + 80
    } else {
        c as u32
    }
}

/// `a` and `b` are equal up to the case of Latin and Russian Cyrillic letters.
pub open spec fn same_char_folded(a: char, b: char) -> bool {
    lower_code(a) == lower_code(b)
}

pub open spec fn eq_ignore_case(a: Seq<char>, b: Seq<char>) -> bool {
    a.len() == b.len() && forall|i: int| 0 <= i < a.len() ==> same_char_folded(a[i], b[i])
}

pub fn fold_eq(a: &[char], b: &str) -> (r: bool)
    ensures
        r == eq_ignore_case(a@, b@),
{
    let bc = to_chars(b);
    if a.len() != bc.len() {
        return false;
    }
    let mut i: usize = 0;
    while i < a.len()
        invariant
            a@.len() == bc@.len(),
            bc@ == b@,
            forall|j: int| 0 <= j < i ==> same_char_folded(a@[j], bc@[j]),
        decreases a.len() - i,
    {
        let x = a[i];
        let y = bc[i];
        let same = lower_code_of(x) == lower_code_of(y);
        if !same {
            return false;
        }
        i = i + 1;
    }
    true
}

/// Words joined with single spaces.
pub open spec fn join_words(ws: Seq<Seq<char>>) -> Seq<char>
    decreases ws.len(),
{
    if ws.len() == 0 {
        seq![]
    } else if ws.len() == 1 {
        ws[0]
    } else {
        join_words(ws.drop_last()) + " "@ + ws.last()
    }
}

/// A name that marks a loopback, virtual-switch or VPN interface.
pub open spec fn is_virtual_name(name: Seq<char>) -> bool {
    contains(name, "Loopback"@) || contains(name, "vEthernet"@) || contains(name, "VPN"@)
        || contains(name, "OpenVPN"@)
}

/// The record that a row of the list gives, if it names a physical interface:
/// admin state, connection state and type come first, then the name.
pub open spec fn record_of(line: Seq<char>) -> Option<(Seq<char>, bool, bool)> {
    let ws = words(trim(line));
    if ws.len() < 4 {
        None
    } else {
        let name = join_words(ws.subrange(3, ws.len() as int));
        if is_virtual_name(name) {
            None
        } else {
            Some(
                (
                    name,
                    eq_ignore_case(ws[1], "Connected"@) || eq_ignore_case(
                        ws[1],
                        "Подключено"@,
                    ),
                    eq_ignore_case(ws[0], "Enabled"@) || eq_ignore_case(
                        ws[0],
                        "Включено"@,
                    ),
                ),
            )
        }
    }
}

/// The records of the rows among the first `n` lines, after the heading.
pub open spec fn records_upto(ls: Seq<Seq<char>>, n: int) -> Seq<(Seq<char>, bool, bool)>
    decreases n,
{
    if n <= HEADER_LINES {
        seq![]
    } else {
        match record_of(ls[n - 1]) {
            Some(r) => records_upto(ls, n - 1).push(r),
            None => records_upto(ls, n - 1),
        }
    }
}

pub open spec fn adapters_of(output: Seq<char>) -> Seq<(Seq<char>, bool, bool)> {
    records_upto(lines(output), lines(output).len() as int)
}

pub fn join_range(ws: &Vec<Vec<char>>, from: usize) -> (r: Vec<char>)
    requires
        from < ws@.len(),
    ensures
        r@ == join_words(views(ws@).subrange(from as int, ws@.len() as int)),
{
    let mut out: Vec<char> = Vec::new();
    let mut k: usize = from;
    while k < ws.len()
        invariant
            from <= k <= ws@.len(),
            from < ws@.len(),
            out@ == join_words(views(ws@).subrange(from as int, k as int)),
        decreases ws.len() - k,
    {
        let ghost prev = out@;
        let ghost sub = views(ws@).subrange(from as int, k + 1);
        assert(sub.drop_last() =~= views(ws@).subrange(from as int, k as int));
        if k > from {
            out.push(' ');
        }
        let mut w = ws[k].clone();
        out.append(&mut w);
        if k > from {
            assert(out@ =~= prev + " "@ + ws@[k as int]@) by {
                reveal_strlit(" ");
            }
        } else {
            assert(out@ =~= sub[0]);
        }
        k = k + 1;
    }
    out
}

pub fn parse_record(line: &[char]) -> (r: Option<AdapterRecord>)
    ensures
        match r {
            Some(a) => record_of(line@) == Some(record_view(a)),
            None => record_of(line@) is None,
        },
{
    let t = trimmed(line);
    let ws = split_words(t.as_slice());
    let ghost wv = views(ws@);
    assert(wv.len() == ws@.len());
    if ws.len() < 4 {
        return None;
    }
    let name = join_range(&ws, 3);
    if contains_str(name.as_slice(), "Loopback") || contains_str(name.as_slice(), "vEthernet")
        || contains_str(name.as_slice(), "VPN") || contains_str(name.as_slice(), "OpenVPN") {
        return None;
    }
    assert(wv[0] == ws@[0]@ && wv[1] == ws@[1]@);
    let connected = fold_eq(ws[1].as_slice(), "Connected") || fold_eq(
        ws[1].as_slice(),
        "Подключено",
    );
    let enabled = fold_eq(ws[0].as_slice(), "Enabled") || fold_eq(ws[0].as_slice(), "Включено");
    Some(AdapterRecord { name: from_chars(name.as_slice()), is_connected: connected, is_enabled: enabled })
}

/// Reads the interface list that `interface show interface` prints, leaving
/// out virtual and tunnel interfaces.
pub fn parse_adapters(output: &str) -> (r: Vec<AdapterRecord>)
    ensures
        r@.map_values(|a: AdapterRecord| record_view(a)) == adapters_of(output@),
{
    let o = to_chars(output);
    let ls = split_lines(o.as_slice());
    let ghost lv = views(ls@);
    let mut out: Vec<AdapterRecord> = Vec::new();
    let mut i: usize = 0;
    while i < ls.len()
        invariant
            i <= ls@.len(),
            lv == views(ls@),
            lv == lines(output@),
            out@.map_values(|a: AdapterRecord| record_view(a)) == records_upto(
                lv,
                i as int,
            ),
        decreases ls.len() - i,
    {
        if i >= HEADER_LINES {
            assert(lv[i as int] == ls@[i as int]@);
            let ghost prev = out@;
            match parse_record(ls[i].as_slice()) {
                Some(a) => {
                    out.push(a);
                    assert(out@.map_values(|a: AdapterRecord| record_view(a)) =~= prev.map_values(
                        |a: AdapterRecord| record_view(a),
                    ).push(record_view(a)));
                },
                None => {},
            }
        }
        i = i + 1;
    }
    out
}

/// The configuration that stands for an adapter whose settings could not be
/// read: no servers, DHCP assumed, encryption off.
pub open spec fn is_fallback_configuration(c: DnsConfiguration) -> bool {
    &&& c.primary is None && c.secondary is None
    &&& c.primary_ipv6 is None && c.secondary_ipv6 is None
    &&& !c.doh_enabled && c.doh_template is None && c.dot_hostname is None
    &&& c.is_dhcp
    &&& c.original_primary is None && c.original_secondary is None
    &&& c.original_primary_ipv6 is None && c.original_secondary_ipv6 is None
}

pub fn fallback_configuration() -> (r: DnsConfiguration)
    ensures
        is_fallback_configuration(r),
{
    DnsConfiguration {
        primary: None,
        secondary: None,
        primary_ipv6: None,
        secondary_ipv6: None,
        doh_enabled: false,
        doh_template: None,
        dot_hostname: None,
        is_dhcp: true,
        original_primary: None,
        original_secondary: None,
        original_primary_ipv6: None,
        original_secondary_ipv6: None,
    }
}

pub struct NetworkManager;

impl NetworkManager {
    pub fn new() -> Self {
        NetworkManager
    }

    /// Reads the interface list; see `parse_adapters`.
    pub fn parse_adapters(&self, output: &str) -> (r: Vec<AdapterRecord>)
        ensures
            r@.map_values(|a: AdapterRecord| record_view(a)) == adapters_of(output@),
    {
        parse_adapters(output)
    }

    /// Pairs each record with the configuration read for it, in order; where
    /// none could be read, the fallback configuration stands in. An adapter
    /// counts as connected only where it is also enabled.
    pub fn get_adapters(
        &self,
        records: Vec<AdapterRecord>,
        configs: Vec<Option<DnsConfiguration>>,
    ) -> (r: Vec<NetworkAdapter>)
        requires
            records@.len() == configs@.len(),
        ensures
            r@.len() == records@.len(),
            forall|i: int|
                0 <= i < r@.len() ==> {
                    &&& (#[trigger] r@[i]).name@ == records@[i].name@
                    &&& r@[i].description@ == records@[i].name@
                    &&& r@[i].is_connected == (records@[i].is_connected
                        && records@[i].is_enabled)
                    &&& match configs@[i] {
                        Some(c) => r@[i].current_dns == c,
                        None => is_fallback_configuration(r@[i].current_dns),
                    }
                },
    {
        let ghost recs = records@;
        let ghost cfgs = configs@;
        let mut records = records;
        let mut configs = configs;
        let mut out: Vec<NetworkAdapter> = Vec::new();
        let n = records.len();
        while records.len() > 0
            invariant
                records@.len() == configs@.len(),
                recs.len() == n,
                cfgs.len() == n,
                out@.len() + records@.len() == n,
                records@ == recs.subrange(out@.len() as int, n as int),
                configs@ == cfgs.subrange(out@.len() as int, n as int),
                forall|i: int|
                    0 <= i < out@.len() ==> {
                        &&& (#[trigger] out@[i]).name@ == recs[i].name@
                        &&& out@[i].description@ == recs[i].name@
                        &&& out@[i].is_connected == (recs[i].is_connected && recs[i].is_enabled)
                        &&& match cfgs[i] {
                            Some(c) => out@[i].current_dns == c,
                            None => is_fallback_configuration(out@[i].current_dns),
                        }
                    },
            decreases records@.len(),
        {
            let rec = records.remove(0);
            let cfg = configs.remove(0);
            let current_dns = match cfg {
                Some(c) => c,
                None => fallback_configuration(),
            };
            let description = rec.name.as_str().to_owned();
            out.push(
                NetworkAdapter {
                    name: rec.name,
                    description,
                    is_connected: rec.is_connected && rec.is_enabled,
                    current_dns,
                },
            );
            assert(records@ =~= recs.subrange(out@.len() as int, n as int));
            assert(configs@ =~= cfgs.subrange(out@.len() as int, n as int));
        }
        out
    }
}

} // verus!
