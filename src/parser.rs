//! Extraction of DNS server addresses from the configuration tool's text output.
use vstd::prelude::*;
use crate::ip::{is_valid_ip_chars, valid_candidate};
use crate::pattern::{find_all, regex_matches, strings};
use crate::text::{
    contains, contains_str, copy_range, count_leading_white, from_chars, leading_white, lines,
    split_lines, split_words, starts_with, starts_with_str, to_chars, trim, trimmed, views, words,
};

verus! {

/// Every substring that looks like an address: the dotted quads first, then
/// the runs of hexadecimal digits and colons.
pub open spec fn candidates(t: Seq<char>) -> Seq<Seq<char>> {
    regex_matches("\\b(\\d{1,3}\\.\\d{1,3}\\.\\d{1,3}\\.\\d{1,3})\\b"@, t) + regex_matches(
        "\\b([0-9a-fA-F:]+(:[0-9a-fA-F:]+)*)\\b"@,
        t,
    )
}

/// `acc` followed by the tokens of `ts` that pass `valid_candidate` and are
/// not already collected, earlier tokens of `ts` included, in order.
pub open spec fn add_fresh(acc: Seq<Seq<char>>, ts: Seq<Seq<char>>) -> Seq<Seq<char>>
    decreases ts.len(),
{
    if ts.len() == 0 {
        acc
    } else {
        let a = add_fresh(acc, ts.drop_last());
        if valid_candidate(ts.last()) && !a.contains(ts.last()) {
            a.push(ts.last())
        } else {
            a
        }
    }
}

/// Where the scan of the output stands after some lines.
pub struct Scan {
    pub servers: Seq<Seq<char>>,
    pub in_section: bool,
    pub done: bool,
}

/// Index of the first `c` in `s` at or after `i`, or the length of `s`.
pub open spec fn first_index(s: Seq<char>, c: char, i: int) -> int
    decreases s.len() - i,
{
    if i < 0 || i >= s.len() {
        s.len() as int
    } else if s[i] == c {
        i
    } else {
        first_index(s, c, i + 1)
    }
}

/// The line opens the list of statically configured servers, in English or Russian.
pub open spec fn is_static_header(line: Seq<char>) -> bool {
    contains(trim(line), "Statically Configured DNS Servers:"@) || contains(
        trim(line),
        "статически настроенных DNS-серверов:"@,
    )
}

/// The line closes the list: a registration line, in English or Russian, or a blank one.
pub open spec fn ends_section(line: Seq<char>) -> bool {
    contains(trim(line), "Register with"@) || contains(trim(line), "Регистрация"@) || trim(
        line,
    ).len() == 0
}

/// The line continues the list: indented by at least three spaces, or by thirty white characters.
pub open spec fn is_continuation(line: Seq<char>) -> bool {
    leading_white(line) >= 30 || starts_with(line, "   "@)
}

/// The part of a line that is searched for addresses: after the first colon
/// of a header line, the whole trimmed line otherwise.
pub open spec fn segment(line: Seq<char>) -> Seq<char> {
    if is_static_header(line) {
        let i = first_index(line, ':', 0);
        if i < line.len() {
            line.subrange(i + 1, line.len() as int)
        } else {
            seq![]
        }
    } else {
        trim(line)
    }
}

/// One line of the scan, given the candidate tokens found in its segment.
pub open spec fn scan_line(st: Scan, line: Seq<char>, toks: Seq<Seq<char>>) -> Scan {
    if st.done {
        st
    } else if is_static_header(line) {
        Scan {
            servers: if first_index(line, ':', 0) < line.len() {
                add_fresh(st.servers, toks)
            } else {
                st.servers
            },
            in_section: true,
            done: false,
        }
    } else if st.in_section && ends_section(line) {
        Scan { done: true, ..st }
    } else if st.in_section && is_continuation(line) {
        Scan { servers: add_fresh(st.servers, toks), ..st }
    } else {
        st
    }
}

/// The tokens given for line `i`; none where none are given.
pub open spec fn tokens_at(tk: Seq<Seq<Seq<char>>>, i: int) -> Seq<Seq<char>> {
    if 0 <= i < tk.len() {
        tk[i]
    } else {
        seq![]
    }
}

/// The scan after the first `n` lines, with `tk[i]` the tokens of line `i`.
pub open spec fn scan_upto(ls: Seq<Seq<char>>, tk: Seq<Seq<Seq<char>>>, n: int) -> Scan
    decreases n,
{
    if n <= 0 {
        Scan { servers: seq![], in_section: false, done: false }
    } else {
        scan_line(scan_upto(ls, tk, n - 1), ls[n - 1], tokens_at(tk, n - 1))
    }
}

/// The servers that the static section lists; where it lists none, the
/// fresh valid tokens of `fallback`.
pub open spec fn servers_given(
    ls: Seq<Seq<char>>,
    tk: Seq<Seq<Seq<char>>>,
    fallback: Seq<Seq<char>>,
) -> Seq<Seq<char>> {
    let found = scan_upto(ls, tk, ls.len() as int).servers;
    if found.len() == 0 {
        add_fresh(seq![], fallback)
    } else {
        found
    }
}

/// The candidate tokens of each line's segment.
pub open spec fn line_tokens(ls: Seq<Seq<char>>) -> Seq<Seq<Seq<char>>> {
    ls.map_values(|l: Seq<char>| candidates(segment(l)))
}

/// The servers listed in the static section of `output`; where that yields
/// none, every valid candidate anywhere in `output`; each address once.
pub open spec fn dns_servers_of(output: Seq<char>) -> Seq<Seq<char>> {
    servers_given(lines(output), line_tokens(lines(output)), candidates(output))
}

pub open spec fn token_lists(tk: Seq<Vec<String>>) -> Seq<Seq<Seq<char>>> {
    tk.map_values(|v: Vec<String>| strings(v@))
}

pub proof fn lemma_add_fresh_distinct(acc: Seq<Seq<char>>, ts: Seq<Seq<char>>)
    requires
        acc.no_duplicates(),
    ensures
        add_fresh(acc, ts).no_duplicates(),
    decreases ts.len(),
{
    if ts.len() > 0 {
        lemma_add_fresh_distinct(acc, ts.drop_last());
        let a = add_fresh(acc, ts.drop_last());
        if valid_candidate(ts.last()) && !a.contains(ts.last()) {
            assert forall|i: int, j: int|
                0 <= i < a.push(ts.last()).len() && 0 <= j < a.push(ts.last()).len() && i != j
                implies a.push(ts.last())[i] != a.push(ts.last())[j] by {
                if i < a.len() && j < a.len() {
                } else if i < a.len() {
                    assert(a.contains(a[i]));
                } else {
                    assert(a.contains(a[j]));
                }
            }
        }
    }
}

pub proof fn lemma_scan_distinct(ls: Seq<Seq<char>>, tk: Seq<Seq<Seq<char>>>, n: int)
    ensures
        scan_upto(ls, tk, n).servers.no_duplicates(),
    decreases n,
{
    if n > 0 {
        lemma_scan_distinct(ls, tk, n - 1);
        let st = scan_upto(ls, tk, n - 1);
        lemma_add_fresh_distinct(st.servers, tokens_at(tk, n - 1));
    } else {
        assert(Seq::<Seq<char>>::empty().no_duplicates());
    }
}

/// Whatever tokens each line yields, the scan reports no address twice.
pub proof fn lemma_servers_distinct(
    ls: Seq<Seq<char>>,
    tk: Seq<Seq<Seq<char>>>,
    fallback: Seq<Seq<char>>,
)
    ensures
        servers_given(ls, tk, fallback).no_duplicates(),
{
    lemma_scan_distinct(ls, tk, ls.len() as int);
    assert(Seq::<Seq<char>>::empty().no_duplicates());
    lemma_add_fresh_distinct(seq![], fallback);
}

/// The parser reports no address twice.
pub proof fn lemma_dns_servers_distinct(output: Seq<char>)
    ensures
        dns_servers_of(output).no_duplicates(),
{
    lemma_servers_distinct(lines(output), line_tokens(lines(output)), candidates(output));
}

pub fn find_candidates(t: &str) -> (r: Vec<String>)
    ensures
        strings(r@) == candidates(t@),
{
    let mut a = find_all("\\b(\\d{1,3}\\.\\d{1,3}\\.\\d{1,3}\\.\\d{1,3})\\b", t);
    let mut b = find_all("\\b([0-9a-fA-F:]+(:[0-9a-fA-F:]+)*)\\b", t);
    let ghost sa = a@;
    let ghost sb = b@;
    a.append(&mut b);
    assert(strings(a@) =~= strings(sa) + strings(sb));
    a
}

/// Whether one of the first `upto` strings of `v` equals `s`.
pub fn listed(v: &Vec<String>, upto: usize, s: &String) -> (r: bool)
    requires
        upto <= v@.len(),
    ensures
        r == strings(v@).subrange(0, upto as int).contains(s@),
{
    let mut j: usize = 0;
    while j < upto
        invariant
            upto <= v@.len(),
            j <= upto,
            forall|i: int| 0 <= i < j ==> v@[i]@ != s@,
        decreases upto - j,
    {
        if v[j] == *s {
            assert(strings(v@).subrange(0, upto as int)[j as int] == s@);
            return true;
        }
        j = j + 1;
    }
    assert(!strings(v@).subrange(0, upto as int).contains(s@)) by {
        assert forall|i: int| 0 <= i < upto implies strings(v@).subrange(0, upto as int)[i] != s@ by {
            assert(v@[i]@ != s@);
        }
    }
    false
}

/// Appends to `servers` each valid candidate that it does not hold yet.
pub fn append_fresh(servers: &mut Vec<String>, cands: &Vec<String>)
    ensures
        strings(final(servers)@) == add_fresh(strings(old(servers)@), strings(cands@)),
{
    let ghost base = strings(servers@);
    let mut k: usize = 0;
    while k < cands.len()
        invariant
            k <= cands@.len(),
            strings(servers@) == add_fresh(base, strings(cands@).subrange(0, k as int)),
        decreases cands.len() - k,
    {
        let ghost prev = servers@;
        let cs = to_chars(cands[k].as_str());
        assert(strings(cands@).subrange(0, k + 1).drop_last() =~= strings(cands@).subrange(
            0,
            k as int,
        ));
        let n = servers.len();
        assert(strings(servers@).subrange(0, n as int) =~= strings(servers@));
        if is_valid_ip_chars(cs.as_slice()) && !listed(servers, n, &cands[k]) {
            servers.push(cands[k].clone());
            assert(strings(servers@) =~= strings(prev).push(cands@[k as int]@));
        }
        k = k + 1;
    }
    assert(strings(cands@).subrange(0, k as int) =~= strings(cands@));
}

pub fn first_colon(s: &[char]) -> (r: usize)
    ensures
        r == first_index(s@, ':', 0),
{
    let mut i: usize = 0;
    while i < s.len() && s[i] != ':'
        invariant
            i <= s.len(),
            first_index(s@, ':', 0) == first_index(s@, ':', i as int),
        decreases s.len() - i,
    {
        i = i + 1;
    }
    i
}

pub fn is_header(line: &[char]) -> (r: bool)
    ensures
        r == is_static_header(line@),
{
    let t = trimmed(line);
    contains_str(t.as_slice(), "Statically Configured DNS Servers:") || contains_str(
        t.as_slice(),
        "статически настроенных DNS-серверов:",
    )
}

pub fn segment_of(line: &[char]) -> (r: Vec<char>)
    ensures
        r@ == segment(line@),
{
    if is_header(line) {
        let c = first_colon(line);
        if c < line.len() {
            copy_range(line, c + 1, line.len())
        } else {
            let v: Vec<char> = Vec::new();
            assert(v@ =~= segment(line@));
            v
        }
    } else {
        trimmed(line)
    }
}

/// Collects the servers of the static section of `output`, where `tokens[i]`
/// holds the candidate tokens of the segment of line `i`; where the section
/// yields none, the valid tokens of `fallback`. Each address is kept once.
pub fn select_servers(output: &str, tokens: &Vec<Vec<String>>, fallback: &Vec<String>) -> (r: Vec<
    String,
>)
    ensures
        strings(r@) == servers_given(lines(output@), token_lists(tokens@), strings(fallback@)),
{
    let chars = to_chars(output);
    let ls = split_lines(chars.as_slice());
    let ghost lv = views(ls@);
    let ghost tk = token_lists(tokens@);
    let mut servers: Vec<String> = Vec::new();
    let mut in_section = false;
    let mut done = false;
    let mut i: usize = 0;
    assert(strings(servers@) =~= Seq::<Seq<char>>::empty());
    while i < ls.len()
        invariant
            i <= ls@.len(),
            lv == views(ls@),
            lv == lines(output@),
            tk == token_lists(tokens@),
            scan_upto(lv, tk, i as int) == (Scan { servers: strings(servers@), in_section, done }),
        decreases ls.len() - i,
    {
        let line = ls[i].as_slice();
        assert(lv[i as int] == line@);
        let empty: Vec<String> = Vec::new();
        let toks = if i < tokens.len() {
            &tokens[i]
        } else {
            &empty
        };
        assert(strings(toks@) == tokens_at(tk, i as int)) by {
            if i >= tokens.len() {
                assert(strings(toks@) =~= Seq::<Seq<char>>::empty());
            }
        }
        if !done {
            let t = trimmed(line);
            if is_header(line) {
                in_section = true;
                if first_colon(line) < line.len() {
                    append_fresh(&mut servers, toks);
                }
            } else if in_section && (contains_str(t.as_slice(), "Register with") || contains_str(
                t.as_slice(),
                "Регистрация",
            ) || t.len() == 0) {
                done = true;
            } else if in_section && (count_leading_white(line) >= 30 || starts_with_str(
                line,
                "   ",
            )) {
                append_fresh(&mut servers, toks);
            }
        }
        i = i + 1;
    }
    if servers.len() == 0 {
        let mut all: Vec<String> = Vec::new();
        assert(strings(all@) =~= Seq::<Seq<char>>::empty());
        append_fresh(&mut all, fallback);
        all
    } else {
        servers
    }
}

/// Extracts the DNS server addresses from the output of the tool's
/// `show dnsservers` query, in the order listed, in English or Russian.
pub fn parse_dns_servers(output: &str) -> (r: Vec<String>)
    ensures
        strings(r@) == dns_servers_of(output@),
{
    let chars = to_chars(output);
    let ls = split_lines(chars.as_slice());
    let ghost lv = views(ls@);
    let mut tokens: Vec<Vec<String>> = Vec::new();
    let mut i: usize = 0;
    while i < ls.len()
        invariant
            i <= ls@.len(),
            lv == views(ls@),
            tokens@.len() == i,
            token_lists(tokens@) == line_tokens(lv).subrange(0, i as int),
        decreases ls.len() - i,
    {
        assert(lv[i as int] == ls@[i as int]@);
        let seg = segment_of(ls[i].as_slice());
        let text = from_chars(seg.as_slice());
        let cands = find_candidates(text.as_str());
        let ghost prev = tokens@;
        tokens.push(cands);
        assert(token_lists(tokens@) =~= line_tokens(lv).subrange(0, i + 1)) by {
            assert(token_lists(tokens@) =~= token_lists(prev).push(strings(tokens@[i as int]@)));
        }
        i = i + 1;
    }
    assert(token_lists(tokens@) =~= line_tokens(lv));
    let fallback = find_candidates(output);
    select_servers(output, &tokens, &fallback)
}

/// The output names DHCP as the source and has no static section.
pub open spec fn dhcp_of(output: Seq<char>) -> bool {
    contains(output, "DHCP"@) && !contains(output, "Statically Configured"@)
}

pub fn is_dhcp_output(output: &str) -> (r: bool)
    ensures
        r == dhcp_of(output@),
{
    let o = to_chars(output);
    contains_str(o.as_slice(), "DHCP") && !contains_str(o.as_slice(), "Statically Configured")
}

/// The encryption report says that DNS over HTTPS is on.
pub open spec fn doh_enabled_of(output: Seq<char>) -> bool {
    contains(output, "yes"@) || contains(output, "on"@) || contains(output, "enabled"@)
}

/// Index of the first line at or after `i` that mentions an HTTPS URL, or the count of lines.
pub open spec fn first_url_line(ls: Seq<Seq<char>>, i: int) -> int
    decreases ls.len() - i,
{
    if i < 0 || i >= ls.len() {
        ls.len() as int
    } else if contains(ls[i], "https://"@) {
        i
    } else {
        first_url_line(ls, i + 1)
    }
}

/// Index of the first word at or after `i` that starts with `https://`, or the count of words.
pub open spec fn first_url_word(ws: Seq<Seq<char>>, i: int) -> int
    decreases ws.len() - i,
{
    if i < 0 || i >= ws.len() {
        ws.len() as int
    } else if starts_with(ws[i], "https://"@) {
        i
    } else {
        first_url_word(ws, i + 1)
    }
}

/// The template URL: the first word starting with `https://` on the first line
/// that mentions one, where DNS over HTTPS is on.
pub open spec fn doh_template_of(output: Seq<char>) -> Option<Seq<char>> {
    let ls = lines(output);
    let i = first_url_line(ls, 0);
    if !doh_enabled_of(output) || i >= ls.len() {
        None
    } else {
        let ws = words(ls[i]);
        let j = first_url_word(ws, 0);
        if j < ws.len() {
            Some(ws[j])
        } else {
            None
        }
    }
}

/// Reads whether DNS over HTTPS is on, and its template, from the tool's encryption report.
pub fn parse_doh_settings(output: &str) -> (r: (bool, Option<String>))
    ensures
        r.0 == doh_enabled_of(output@),
        match r.1 {
            Some(t) => doh_template_of(output@) == Some(t@),
            None => doh_template_of(output@) is None,
        },
{
    let o = to_chars(output);
    let enabled = contains_str(o.as_slice(), "yes") || contains_str(o.as_slice(), "on")
        || contains_str(o.as_slice(), "enabled");
    if !enabled {
        return (false, None);
    }
    let ls = split_lines(o.as_slice());
    let ghost lv = views(ls@);
    let mut i: usize = 0;
    while i < ls.len() && !contains_str(ls[i].as_slice(), "https://")
        invariant
            i <= ls@.len(),
            lv == views(ls@),
            first_url_line(lv, 0) == first_url_line(lv, i as int),
        decreases ls.len() - i,
    {
        assert(lv[i as int] == ls@[i as int]@);
        i = i + 1;
    }
    if i >= ls.len() {
        return (true, None);
    }
    assert(lv[i as int] == ls@[i as int]@);
    let ws = split_words(ls[i].as_slice());
    let ghost wv = views(ws@);
    let mut j: usize = 0;
    while j < ws.len() && !starts_with_str(ws[j].as_slice(), "https://")
        invariant
            j <= ws@.len(),
            wv == views(ws@),
            first_url_word(wv, 0) == first_url_word(wv, j as int),
        decreases ws.len() - j,
    {
        assert(wv[j as int] == ws@[j as int]@);
        j = j + 1;
    }
    if j >= ws.len() {
        return (true, None);
    }
    assert(wv[j as int] == ws@[j as int]@);
    (true, Some(from_chars(ws[j].as_slice())))
}

} // verus!
