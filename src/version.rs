//! The host's version: reading it from the `ver` banner, and naming it.
use vstd::prelude::*;
use crate::ip::{decimal_value, parses_within, parse_unsigned, unsigned_digits};
use crate::pattern::{first_groups, regex_groups, strings};
use crate::text::to_chars;
use crate::types::WindowsVersion;

verus! {

/// The first build with encrypted DNS.
pub const DOH_MIN_BUILD: u32 = 22000;

/// The number `t` denotes as a `u32`, or `default` where it is no such number.
pub open spec fn read_or(t: Seq<char>, default: int) -> int {
    if parses_within(t, u32::MAX as int) {
        decimal_value(unsigned_digits(t))
    } else {
        default
    }
}

/// Major, minor and build number in the banner: the fields of the first
/// `Version a.b.c` in it, each read as a `u32` or else 10, 0 and 0; without
/// such a field, version 10.0.0.
pub open spec fn version_numbers(output: Seq<char>) -> (int, int, int) {
    match regex_groups("Version (\\d+)\\.(\\d+)\\.(\\d+)"@, output) {
        Some(g) => if g.len() >= 3 {
            (read_or(g[0], 10), read_or(g[1], 0), read_or(g[2], 0))
        } else {
            (10, 0, 0)
        },
        None => (10, 0, 0),
    }
}

pub fn read_number(t: &String, default: u32) -> (r: u32)
    ensures
        r as int == read_or(t@, default as int),
{
    let cs = to_chars(t.as_str());
    match parse_unsigned(cs.as_slice(), u32::MAX) {
        Some(v) => v,
        None => default,
    }
}

/// Reads the host version from the banner that `ver` prints.
pub fn parse_windows_version(output: &str) -> (r: WindowsVersion)
    ensures
        r.major as int == version_numbers(output@).0,
        r.minor as int == version_numbers(output@).1,
        r.build as int == version_numbers(output@).2,
        r.supports_doh == (r.build >= DOH_MIN_BUILD),
{
    match first_groups("Version (\\d+)\\.(\\d+)\\.(\\d+)", output) {
        Some(g) => {
            if g.len() >= 3 {
                assert(strings(g@)[0] == g@[0]@);
                assert(strings(g@)[1] == g@[1]@);
                assert(strings(g@)[2] == g@[2]@);
                let major = read_number(&g[0], 10);
                let minor = read_number(&g[1], 0);
                let build = read_number(&g[2], 0);
                WindowsVersion { major, minor, build, supports_doh: build >= DOH_MIN_BUILD }
            } else {
                WindowsVersion { major: 10, minor: 0, build: 0, supports_doh: false }
            }
        },
        None => WindowsVersion { major: 10, minor: 0, build: 0, supports_doh: false },
    }
}

pub open spec fn digit_char_of(d: int) -> char {
    if d == 0 { '0' }
    else if d == 1 { '1' }
    else if d == 2 { '2' }
    else if d == 3 { '3' }
    else if d == 4 { '4' }
    else if d == 5 { '5' }
    else if d == 6 { '6' }
    else if d == 7 { '7' }
    else if d == 8 { '8' }
    else { '9' }
}

/// The decimal notation of `n`, without leading zeros.
pub open spec fn decimal_text(n: nat) -> Seq<char>
    decreases n,
{
    if n < 10 {
        seq![digit_char_of(n as int)]
    } else {
        decimal_text(n / 10) + seq![digit_char_of((n % 10) as int)]
    }
}

pub fn digit_of(d: u32) -> (r: char)
    requires
        d < 10,
    ensures
        r == digit_char_of(d as int),
{
    if d == 0 { '0' }
    else if d == 1 { '1' }
    else if d == 2 { '2' }
    else if d == 3 { '3' }
    else if d == 4 { '4' }
    else if d == 5 { '5' }
    else if d == 6 { '6' }
    else if d == 7 { '7' }
    else if d == 8 { '8' }
    else { '9' }
}

pub fn decimal_chars(n: u32) -> (r: Vec<char>)
    ensures
        r@ == decimal_text(n as nat),
    decreases n,
{
    if n < 10 {
        let v = vec![digit_of(n)];
        assert(v@ =~= seq![digit_char_of(n as int)]);
        v
    } else {
        let mut v = decimal_chars(n / 10);
        v.push(digit_of(n % 10));
        v
    }
}

/// The release name of a host version: by build thresholds for 10.0, by
/// major and minor for older releases, else `major.minor`.
pub open spec fn windows_name_of(major: u32, minor: u32, build: u32) -> Seq<char> {
    if major == 10 && minor == 0 {
        if build >= 22000 { "11"@ }
        else if build >= 19041 { "10 (20H1+)"@ }
        else if build >= 18362 { "10 (1903)"@ }
        else if build >= 17763 { "10 (1809)"@ }
        else if build >= 17134 { "10 (1803)"@ }
        else if build >= 16299 { "10 (1709)"@ }
        else if build >= 15063 { "10 (1703)"@ }
        else if build >= 14393 { "10 (1607)"@ }
        else if build >= 10586 { "10 (1511)"@ }
        else { "10"@ }
    } else if major == 6 && minor == 3 { "8.1"@ }
    else if major == 6 && minor == 2 { "8"@ }
    else if major == 6 && minor == 1 { "7"@ }
    else if major == 6 && minor == 0 { "Vista"@ }
    else if major == 5 && minor == 1 { "XP"@ }
    else if major == 5 && minor == 2 { "XP 64-bit / Server 2003"@ }
    else { decimal_text(major as nat) + "."@ + decimal_text(minor as nat) }
}

/// Names the release of a host version.
pub fn get_windows_name(major: u32, minor: u32, build: u32) -> (r: String)
    ensures
        r@ == windows_name_of(major, minor, build),
{
    if major == 10 && minor == 0 {
        if build >= 22000 { "11".to_owned() }
        else if build >= 19041 { "10 (20H1+)".to_owned() }
        else if build >= 18362 { "10 (1903)".to_owned() }
        else if build >= 17763 { "10 (1809)".to_owned() }
        else if build >= 17134 { "10 (1803)".to_owned() }
        else if build >= 16299 { "10 (1709)".to_owned() }
        else if build >= 15063 { "10 (1703)".to_owned() }
        else if build >= 14393 { "10 (1607)".to_owned() }
        else if build >= 10586 { "10 (1511)".to_owned() }
        else { "10".to_owned() }
    } else if major == 6 && minor == 3 { "8.1".to_owned() }
    else if major == 6 && minor == 2 { "8".to_owned() }
    else if major == 6 && minor == 1 { "7".to_owned() }
    else if major == 6 && minor == 0 { "Vista".to_owned() }
    else if major == 5 && minor == 1 { "XP".to_owned() }
    else if major == 5 && minor == 2 { "XP 64-bit / Server 2003".to_owned() }
    else {
        let mut v = decimal_chars(major);
        let dot = to_chars(".");
        let mut m = decimal_chars(minor);
        let ghost a = v@;
        let ghost b = m@;
        let mut d = dot;
        v.append(&mut d);
        v.append(&mut m);
        assert(v@ =~= a + "."@ + b);
        crate::text::from_chars(v.as_slice())
    }
}

} // verus!
