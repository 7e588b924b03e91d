//! Reading, applying and resetting an adapter's DNS settings, and probing servers.
//!
//! The configuration tool runs outside the library: each operation is a plan
//! of command steps, and `DnsManager::advance` decides after each step whether
//! to go on, stop with success, or stop with an error.
use vstd::prelude::*;
use crate::parser::{
    dhcp_of, dns_servers_of, doh_enabled_of, doh_template_of, is_dhcp_output, parse_dns_servers,
    parse_doh_settings,
};
use crate::pattern::strings;
use crate::text::{concat, to_chars};
use crate::types::{opt_view, DnsConfiguration, DnsTestResult, WindowsVersion};
use crate::ip::{is_valid_ip_chars, valid_candidate};
use crate::version::{
    get_windows_name, parse_windows_version, version_numbers, windows_name_of, DOH_MIN_BUILD,
};

verus! {

/// How a step's outcome bears on the operation.
#[derive(Debug, Clone, Copy, PartialEq, Eq, Structural)]
pub enum StepPolicy {
    /// Fails the operation only where the tool cannot be started.
    Started,
    /// Fails the operation where the tool cannot be started or reports failure.
    Succeeded,
    /// Never fails the operation.
    BestEffort,
}

/// One run of an outside configuration tool.
#[derive(Debug, Clone)]
pub struct CommandStep {
    pub program: String,
    pub args: Vec<String>,
    pub policy: StepPolicy,
    /// The error where the tool cannot be started; the cause follows it.
    pub context: String,
    /// The error where the tool reports failure.
    pub failure: String,
    /// Whether the tool's error output follows `failure`.
    pub with_stderr: bool,
}

/// What came of running a step.
#[derive(Debug, Clone)]
pub enum CommandOutcome {
    NotStarted(String),
    Finished { success: bool, stderr: String },
}

/// What to do next in a plan.
#[derive(Debug, Clone)]
pub enum Progress {
    /// Run the step at this index.
    Run(usize),
    Completed,
    Failed(String),
}

/// The content of a step.
pub struct StepSpec {
    pub program: Seq<char>,
    pub args: Seq<Seq<char>>,
    pub policy: StepPolicy,
    pub context: Seq<char>,
    pub failure: Seq<char>,
    pub with_stderr: bool,
}

pub open spec fn step_view(s: CommandStep) -> StepSpec {
    StepSpec {
        program: s.program@,
        args: strings(s.args@),
        policy: s.policy,
        context: s.context@,
        failure: s.failure@,
        with_stderr: s.with_stderr,
    }
}

pub open spec fn plan_view(p: Seq<CommandStep>) -> Seq<StepSpec> {
    p.map_values(|s: CommandStep| step_view(s))
}

/// The error that a step's outcome raises, if any.
pub open spec fn step_error(s: StepSpec, out: CommandOutcome) -> Option<Seq<char>> {
    match out {
        CommandOutcome::NotStarted(cause) => if s.policy == StepPolicy::BestEffort {
            None
        } else {
            Some(s.context + ": "@ + cause@)
        },
        CommandOutcome::Finished { success, stderr } => if s.policy == StepPolicy::Succeeded
            && !success {
            Some(
                if s.with_stderr {
                    s.failure + ": "@ + stderr@
                } else {
                    s.failure
                },
            )
        } else {
            None
        },
    }
}

pub open spec fn netsh_step(
    args: Seq<Seq<char>>,
    policy: StepPolicy,
    context: Seq<char>,
    failure: Seq<char>,
    with_stderr: bool,
) -> StepSpec {
    StepSpec { program: "netsh"@, args, policy, context, failure, with_stderr }
}

/// Puts the family's DNS back to automatic; within `set_dns` only a tool that
/// cannot start stops the plan.
pub open spec fn clear_step(family: Seq<char>, label: Seq<char>, adapter: Seq<char>) -> StepSpec {
    netsh_step(
        seq!["interface"@, family, "set"@, "dnsservers"@, adapter, "dhcp"@],
        StepPolicy::Started,
        "Failed to reset "@ + label + " DNS"@,
        "Failed to reset "@ + label + " DNS"@,
        false,
    )
}

pub open spec fn primary_step(
    family: Seq<char>,
    label: Seq<char>,
    adapter: Seq<char>,
    server: Seq<char>,
) -> StepSpec {
    netsh_step(
        seq!["interface"@, family, "set"@, "dnsservers"@, adapter, "static"@, server, "primary"@],
        StepPolicy::Succeeded,
        "Failed to execute netsh for "@ + label + " primary DNS"@,
        "Failed to set "@ + label + " primary DNS"@,
        true,
    )
}

pub open spec fn secondary_step(
    family: Seq<char>,
    label: Seq<char>,
    adapter: Seq<char>,
    server: Seq<char>,
) -> StepSpec {
    netsh_step(
        seq!["interface"@, family, "add"@, "dnsservers"@, adapter, server, "index=2"@],
        StepPolicy::Succeeded,
        "Failed to execute netsh for "@ + label + " secondary DNS"@,
        "Failed to set "@ + label + " secondary DNS"@,
        true,
    )
}

/// The steps that set the first server as primary and the second at index 2;
/// an absent or empty server gives no step.
pub open spec fn server_steps(
    family: Seq<char>,
    label: Seq<char>,
    adapter: Seq<char>,
    servers: Seq<Seq<char>>,
) -> Seq<StepSpec> {
    (if servers.len() > 0 && servers[0].len() > 0 {
        seq![primary_step(family, label, adapter, servers[0])]
    } else {
        seq![]
    }) + (if servers.len() > 1 && servers[1].len() > 0 {
        seq![secondary_step(family, label, adapter, servers[1])]
    } else {
        seq![]
    })
}

pub open spec fn enable_doh_step(adapter: Seq<char>, policy: StepPolicy) -> StepSpec {
    netsh_step(
        seq![
            "dns"@,
            "add"@,
            "encryption"@,
            "server="@ + adapter,
            "dohtemplate=auto"@,
            "autoupgrade=yes"@,
        ],
        policy,
        "Failed to enable DoH"@,
        "Failed to enable DoH"@,
        false,
    )
}

pub open spec fn disable_doh_step(adapter: Seq<char>) -> StepSpec {
    netsh_step(
        seq!["dns"@, "delete"@, "encryption"@, "server="@ + adapter],
        StepPolicy::BestEffort,
        "Failed to disable DoH"@,
        "Failed to disable DoH"@,
        false,
    )
}

pub open spec fn restore_step(family: Seq<char>, label: Seq<char>, adapter: Seq<char>) -> StepSpec {
    netsh_step(
        seq!["interface"@, family, "set"@, "dnsservers"@, adapter, "dhcp"@],
        StepPolicy::Succeeded,
        "Failed to restore "@ + label + " DNS to DHCP"@,
        "Failed to restore "@ + label + " DNS to DHCP"@,
        true,
    )
}

/// Apply: clear IPv4, set its servers; where IPv6 servers are given, clear
/// IPv6 and set them; where a template is given, try to enable encryption.
pub open spec fn set_dns_plan(
    adapter: Seq<char>,
    v4: Seq<Seq<char>>,
    v6: Seq<Seq<char>>,
    doh: Option<Seq<char>>,
) -> Seq<StepSpec> {
    seq![clear_step("ipv4"@, "IPv4"@, adapter)] + server_steps("ipv4"@, "IPv4"@, adapter, v4) + (
    if v6.len() > 0 {
        seq![clear_step("ipv6"@, "IPv6"@, adapter)] + server_steps("ipv6"@, "IPv6"@, adapter, v6)
    } else {
        seq![]
    }) + (if doh is Some {
        seq![enable_doh_step(adapter, StepPolicy::BestEffort)]
    } else {
        seq![]
    })
}

/// Reset: IPv4 and IPv6 back to automatic, each required, then encryption off at best.
pub open spec fn reset_plan(adapter: Seq<char>) -> Seq<StepSpec> {
    seq![
        restore_step("ipv4"@, "IPv4"@, adapter),
        restore_step("ipv6"@, "IPv6"@, adapter),
        disable_doh_step(adapter),
    ]
}

pub open spec fn flush_plan() -> Seq<StepSpec> {
    seq![
        StepSpec {
            program: "ipconfig"@,
            args: seq!["/flushdns"@],
            policy: StepPolicy::Succeeded,
            context: "Failed to flush DNS cache"@,
            failure: "Failed to flush DNS cache"@,
            with_stderr: true,
        },
    ]
}

/// The configuration that the three query outputs describe; the encryption
/// report counts only where the host supports encrypted DNS.
pub open spec fn configuration_matches(
    c: DnsConfiguration,
    ipv4_output: Seq<char>,
    ipv6_output: Seq<char>,
    version: WindowsVersion,
    doh_output: Option<Seq<char>>,
) -> bool {
    let v4 = dns_servers_of(ipv4_output);
    let v6 = dns_servers_of(ipv6_output);
    let doh_read = version.supports_doh && doh_output is Some;
    &&& opt_view(c.primary) == (if v4.len() > 0 { Some(v4[0]) } else { None })
    &&& opt_view(c.secondary) == (if v4.len() > 1 { Some(v4[1]) } else { None })
    &&& opt_view(c.primary_ipv6) == (if v6.len() > 0 { Some(v6[0]) } else { None })
    &&& opt_view(c.secondary_ipv6) == (if v6.len() > 1 { Some(v6[1]) } else { None })
    &&& opt_view(c.original_primary) == opt_view(c.primary)
    &&& opt_view(c.original_secondary) == opt_view(c.secondary)
    &&& opt_view(c.original_primary_ipv6) == opt_view(c.primary_ipv6)
    &&& opt_view(c.original_secondary_ipv6) == opt_view(c.secondary_ipv6)
    &&& c.is_dhcp == dhcp_of(ipv4_output)
    &&& c.doh_enabled == (doh_read && doh_enabled_of(doh_output->0))
    &&& opt_view(c.doh_template) == (if doh_read {
        doh_template_of(doh_output->0)
    } else {
        None
    })
    &&& c.dot_hostname is None
}

/// How a reachability probe went.
#[derive(Debug, Clone)]
pub enum ProbeOutcome {
    /// No local socket could be bound.
    BindFailed(String),
    /// A reply came this many milliseconds after the query was sent.
    Replied(u64),
    SendTimeout,
    SendFailed(String),
    ReceiveTimeout,
    ReceiveFailed(String),
}

/// What a probe's outcome reports: available with its latency, or unavailable with a cause.
pub open spec fn test_result_matches(r: DnsTestResult, server: Seq<char>, out: ProbeOutcome) -> bool {
    &&& r.server@ == server
    &&& match out {
        ProbeOutcome::BindFailed(e) => !r.is_available && r.latency_ms is None && opt_view(r.error)
            == Some("Failed to bind UDP socket: "@ + e@),
        ProbeOutcome::Replied(ms) => r.is_available && r.latency_ms == Some(ms) && r.error is None,
        ProbeOutcome::SendTimeout => !r.is_available && r.latency_ms is None && opt_view(r.error)
            == Some("timeout sending request"@),
        ProbeOutcome::SendFailed(e) => !r.is_available && r.latency_ms is None && opt_view(r.error)
            == Some("Send error: "@ + e@),
        ProbeOutcome::ReceiveTimeout => !r.is_available && r.latency_ms is None && opt_view(
            r.error,
        ) == Some("timeout waiting for response"@),
        ProbeOutcome::ReceiveFailed(e) => !r.is_available && r.latency_ms is None && opt_view(
            r.error,
        ) == Some("Receive error: "@ + e@),
    }
}

/// The reachability query: header (id 0, recursion desired, one question),
/// the reference name `quad9.net` as labels, its terminator, type A and
/// class IN: 27 bytes.
pub open spec fn dns_query_bytes() -> Seq<u8> {
    seq![
        0x00u8, 0x00, 0x01, 0x00, 0x00, 0x01, 0x00, 0x00, 0x00, 0x00, 0x00, 0x00,
        0x05, 0x71, 0x75, 0x61, 0x64, 0x39,
        0x03, 0x6e, 0x65, 0x74,
        0x00,
        0x00, 0x01, 0x00, 0x01,
    ]
}

pub fn netsh(
    args: Vec<String>,
    policy: StepPolicy,
    context: String,
    failure: String,
    with_stderr: bool,
) -> (r: CommandStep)
    ensures
        step_view(r) == netsh_step(strings(args@), policy, context@, failure@, with_stderr),
{
    CommandStep { program: "netsh".to_owned(), args, policy, context, failure, with_stderr }
}

pub struct DnsManager;

impl DnsManager {
    pub fn new() -> Self {
        DnsManager
    }

    /// Whether `ip` may stand for a configured DNS server.
    pub fn is_valid_ip(ip: &str) -> (r: bool)
        ensures
            r == valid_candidate(ip@),
    {
        let cs = to_chars(ip);
        is_valid_ip_chars(cs.as_slice())
    }

    /// The DNS servers that a `show dnsservers` output lists, in order.
    pub fn parse_dns_servers(&self, output: &str) -> (r: Vec<String>)
        ensures
            strings(r@) == dns_servers_of(output@),
    {
        parse_dns_servers(output)
    }

    /// Whether encrypted DNS is on, and its template, from the encryption report.
    pub fn get_doh_settings(&self, output: &str) -> (r: (bool, Option<String>))
        ensures
            r.0 == doh_enabled_of(output@),
            opt_view(r.1) == doh_template_of(output@),
    {
        parse_doh_settings(output)
    }

    /// The release name of a host version.
    pub fn get_windows_name(major: u32, minor: u32, build: u32) -> (r: String)
        ensures
            r@ == windows_name_of(major, minor, build),
    {
        get_windows_name(major, minor, build)
    }

    /// Reads the host version from the banner that `ver` prints.
    pub fn get_windows_version(&self, banner: &str) -> (r: WindowsVersion)
        ensures
            r.major as int == version_numbers(banner@).0,
            r.minor as int == version_numbers(banner@).1,
            r.build as int == version_numbers(banner@).2,
            r.supports_doh == (r.build >= DOH_MIN_BUILD),
    {
        parse_windows_version(banner)
    }

    /// Builds an adapter's configuration from the outputs of the IPv4 and IPv6
    /// server queries and, where one was made, of the encryption query.
    pub fn get_current_dns(
        &self,
        ipv4_output: &str,
        ipv6_output: &str,
        version: WindowsVersion,
        doh_output: Option<&str>,
    ) -> (r: DnsConfiguration)
        ensures
            configuration_matches(
                r,
                ipv4_output@,
                ipv6_output@,
                version,
                match doh_output {
                    Some(t) => Some(t@),
                    None => None,
                },
            ),
    {
        let is_dhcp = is_dhcp_output(ipv4_output);
        let v4 = parse_dns_servers(ipv4_output);
        let v6 = parse_dns_servers(ipv6_output);
        let (doh_enabled, doh_template) = match doh_output {
            Some(t) => if version.supports_doh {
                parse_doh_settings(t)
            } else {
                (false, None)
            },
            None => (false, None),
        };
        let p4 = nth_server(&v4, 0);
        let s4 = nth_server(&v4, 1);
        let p6 = nth_server(&v6, 0);
        let s6 = nth_server(&v6, 1);
        DnsConfiguration {
            primary: nth_server(&v4, 0),
            secondary: nth_server(&v4, 1),
            primary_ipv6: nth_server(&v6, 0),
            secondary_ipv6: nth_server(&v6, 1),
            doh_enabled,
            doh_template,
            dot_hostname: None,
            is_dhcp,
            original_primary: p4,
            original_secondary: s4,
            original_primary_ipv6: p6,
            original_secondary_ipv6: s6,
        }
    }

    /// The steps that apply the given servers to an adapter, in order.
    pub fn set_dns(
        &self,
        adapter_name: &str,
        ipv4_servers: Vec<String>,
        ipv6_servers: Vec<String>,
        doh_template: Option<String>,
    ) -> (r: Vec<CommandStep>)
        ensures
            plan_view(r@) == set_dns_plan(
                adapter_name@,
                strings(ipv4_servers@),
                strings(ipv6_servers@),
                opt_view(doh_template),
            ),
    {
        let mut plan: Vec<CommandStep> = Vec::new();
        plan.push(clear(adapter_name, "ipv4", "IPv4"));
        let mut a = servers(adapter_name, "ipv4", "IPv4", &ipv4_servers);
        let ghost pa = plan@;
        let ghost aa = a@;
        plan.append(&mut a);
        assert(plan_view(plan@) =~= plan_view(pa) + plan_view(aa));
        if ipv6_servers.len() > 0 {
            let ghost pb = plan@;
            let c6 = clear(adapter_name, "ipv6", "IPv6");
            plan.push(c6);
            let mut b = servers(adapter_name, "ipv6", "IPv6", &ipv6_servers);
            let ghost pc = plan@;
            let ghost bb = b@;
            plan.append(&mut b);
            assert(plan_view(plan@) =~= plan_view(pb) + (seq![step_view(c6)] + plan_view(bb)));
        } else {
            assert(plan_view(plan@) =~= plan_view(plan@) + Seq::<StepSpec>::empty());
        }
        if doh_template.is_some() {
            let ghost pd = plan@;
            let e = self.enable_doh_step(adapter_name, StepPolicy::BestEffort);
            plan.push(e);
            assert(plan_view(plan@) =~= plan_view(pd) + seq![step_view(e)]);
        } else {
            assert(plan_view(plan@) =~= plan_view(plan@) + Seq::<StepSpec>::empty());
        }
        plan
    }

    /// The steps that put an adapter back to automatic DNS.
    pub fn reset_to_dhcp(&self, adapter_name: &str) -> (r: Vec<CommandStep>)
        ensures
            plan_view(r@) == reset_plan(adapter_name@),
    {
        let a = restore(adapter_name, "ipv4", "IPv4");
        let b = restore(adapter_name, "ipv6", "IPv6");
        let c = self.disable_doh(adapter_name);
        let plan = vec![a, b, c];
        assert(plan_view(plan@) =~= reset_plan(adapter_name@));
        plan
    }

    fn enable_doh_step(&self, adapter_name: &str, policy: StepPolicy) -> (r: CommandStep)
        ensures
            step_view(r) == enable_doh_step(adapter_name@, policy),
    {
        let args = vec![
            "dns".to_owned(),
            "add".to_owned(),
            "encryption".to_owned(),
            concat("server=", adapter_name),
            "dohtemplate=auto".to_owned(),
            "autoupgrade=yes".to_owned(),
        ];
        let r = netsh(
            args,
            policy,
            "Failed to enable DoH".to_owned(),
            "Failed to enable DoH".to_owned(),
            false,
        );
        assert(step_view(r).args =~= enable_doh_step(adapter_name@, policy).args);
        r
    }

    /// The step that turns encrypted DNS on for an adapter; only a tool that
    /// cannot start is an error.
    pub fn enable_doh(&self, adapter_name: &str, _doh_template: &str) -> (r: CommandStep)
        ensures
            step_view(r) == enable_doh_step(adapter_name@, StepPolicy::Started),
    {
        self.enable_doh_step(adapter_name, StepPolicy::Started)
    }

    /// The step that turns encrypted DNS off for an adapter, at best.
    pub fn disable_doh(&self, adapter_name: &str) -> (r: CommandStep)
        ensures
            step_view(r) == disable_doh_step(adapter_name@),
    {
        let args = vec![
            "dns".to_owned(),
            "delete".to_owned(),
            "encryption".to_owned(),
            concat("server=", adapter_name),
        ];
        let r = netsh(
            args,
            StepPolicy::BestEffort,
            "Failed to disable DoH".to_owned(),
            "Failed to disable DoH".to_owned(),
            false,
        );
        assert(step_view(r).args =~= disable_doh_step(adapter_name@).args);
        r
    }

    /// The step that flushes the resolver cache.
    pub fn flush_dns_cache(&self) -> (r: Vec<CommandStep>)
        ensures
            plan_view(r@) == flush_plan(),
    {
        let args = vec!["/flushdns".to_owned()];
        let s = CommandStep {
            program: "ipconfig".to_owned(),
            args,
            policy: StepPolicy::Succeeded,
            context: "Failed to flush DNS cache".to_owned(),
            failure: "Failed to flush DNS cache".to_owned(),
            with_stderr: true,
        };
        let plan = vec![s];
        assert(strings(plan@[0].args@) =~= seq!["/flushdns"@]);
        assert(plan_view(plan@) =~= flush_plan());
        plan
    }

    /// Decides, after the step at `pos` of `plan` ran with `outcome`, what comes next.
    pub fn advance(plan: &Vec<CommandStep>, pos: usize, outcome: &CommandOutcome) -> (r: Progress)
        requires
            pos < plan@.len(),
        ensures
            match step_error(step_view(plan@[pos as int]), *outcome) {
                Some(m) => r matches Progress::Failed(e) && e@ == m,
                None => if pos + 1 < plan@.len() {
                    r matches Progress::Run(n) && n == pos + 1
                } else {
                    r is Completed
                },
            },
    {
        let step = &plan[pos];
        match outcome {
            CommandOutcome::NotStarted(cause) => {
                if step.policy != StepPolicy::BestEffort {
                    let head = concat(step.context.as_str(), ": ");
                    return Progress::Failed(concat(head.as_str(), cause.as_str()));
                }
            },
            CommandOutcome::Finished { success, stderr } => {
                if step.policy == StepPolicy::Succeeded && !*success {
                    if step.with_stderr {
                        let head = concat(step.failure.as_str(), ": ");
                        return Progress::Failed(concat(head.as_str(), stderr.as_str()));
                    } else {
                        return Progress::Failed(step.failure.as_str().to_owned());
                    }
                }
            },
        }
        if pos < plan.len() - 1 {
            Progress::Run(pos + 1)
        } else {
            Progress::Completed
        }
    }

    /// The query packet that a reachability probe sends.
    pub fn create_dns_query() -> (r: Vec<u8>)
        ensures
            r@ == dns_query_bytes(),
    {
        let r = vec![
            0x00u8, 0x00, 0x01, 0x00, 0x00, 0x01, 0x00, 0x00, 0x00, 0x00, 0x00, 0x00,
            0x05, 0x71, 0x75, 0x61, 0x64, 0x39,
            0x03, 0x6e, 0x65, 0x74,
            0x00,
            0x00, 0x01, 0x00, 0x01,
        ];
        assert(r@ =~= dns_query_bytes());
        r
    }

    /// The address a probe of `dns_server` is sent to: port 53 of it.
    pub fn probe_address(dns_server: &str) -> (r: String)
        ensures
            r@ == dns_server@ + ":53"@,
    {
        concat(dns_server, ":53")
    }

    /// The result that a probe of `dns_server` reports, given how it went.
    pub fn test_dns(&self, dns_server: &str, outcome: ProbeOutcome) -> (r: DnsTestResult)
        ensures
            test_result_matches(r, dns_server@, outcome),
    {
        let server = dns_server.to_owned();
        match outcome {
            ProbeOutcome::BindFailed(e) => DnsTestResult {
                server,
                latency_ms: None,
                is_available: false,
                error: Some(concat("Failed to bind UDP socket: ", e.as_str())),
            },
            ProbeOutcome::Replied(ms) => DnsTestResult {
                server,
                latency_ms: Some(ms),
                is_available: true,
                error: None,
            },
            ProbeOutcome::SendTimeout => DnsTestResult {
                server,
                latency_ms: None,
                is_available: false,
                error: Some("timeout sending request".to_owned()),
            },
            ProbeOutcome::SendFailed(e) => DnsTestResult {
                server,
                latency_ms: None,
                is_available: false,
                error: Some(concat("Send error: ", e.as_str())),
            },
            ProbeOutcome::ReceiveTimeout => DnsTestResult {
                server,
                latency_ms: None,
                is_available: false,
                error: Some("timeout waiting for response".to_owned()),
            },
            ProbeOutcome::ReceiveFailed(e) => DnsTestResult {
                server,
                latency_ms: None,
                is_available: false,
                error: Some(concat("Receive error: ", e.as_str())),
            },
        }
    }
}

/// A copy of the server at `i`, if there is one.
pub fn nth_server(v: &Vec<String>, i: usize) -> (r: Option<String>)
    ensures
        opt_view(r) == (if i < v@.len() { Some(strings(v@)[i as int]) } else { None }),
{
    if i < v.len() {
        Some(v[i].as_str().to_owned())
    } else {
        None
    }
}

fn clear(adapter: &str, family: &str, label: &str) -> (r: CommandStep)
    ensures
        step_view(r) == clear_step(family@, label@, adapter@),
{
    let args = vec![
        "interface".to_owned(),
        family.to_owned(),
        "set".to_owned(),
        "dnsservers".to_owned(),
        adapter.to_owned(),
        "dhcp".to_owned(),
    ];
    let a = concat("Failed to reset ", label);
    let msg = concat(a.as_str(), " DNS");
    let r = netsh(args, StepPolicy::Started, msg.as_str().to_owned(), msg, false);
    assert(step_view(r).args =~= clear_step(family@, label@, adapter@).args);
    r
}

fn restore(adapter: &str, family: &str, label: &str) -> (r: CommandStep)
    ensures
        step_view(r) == restore_step(family@, label@, adapter@),
{
    let args = vec![
        "interface".to_owned(),
        family.to_owned(),
        "set".to_owned(),
        "dnsservers".to_owned(),
        adapter.to_owned(),
        "dhcp".to_owned(),
    ];
    let a = concat("Failed to restore ", label);
    let msg = concat(a.as_str(), " DNS to DHCP");
    let r = netsh(args, StepPolicy::Succeeded, msg.as_str().to_owned(), msg, true);
    assert(step_view(r).args =~= restore_step(family@, label@, adapter@).args);
    r
}

fn servers(adapter: &str, family: &str, label: &str, list: &Vec<String>) -> (r: Vec<CommandStep>)
    ensures
        plan_view(r@) == server_steps(family@, label@, adapter@, strings(list@)),
{
    let mut plan: Vec<CommandStep> = Vec::new();
    if list.len() > 0 && !list[0].as_str().is_empty() {
        let args = vec![
            "interface".to_owned(),
            family.to_owned(),
            "set".to_owned(),
            "dnsservers".to_owned(),
            adapter.to_owned(),
            "static".to_owned(),
            list[0].as_str().to_owned(),
            "primary".to_owned(),
        ];
        let c = concat("Failed to execute netsh for ", label);
        let f = concat("Failed to set ", label);
        let s = netsh(
            args,
            StepPolicy::Succeeded,
            concat(c.as_str(), " primary DNS"),
            concat(f.as_str(), " primary DNS"),
            true,
        );
        assert(step_view(s) == primary_step(family@, label@, adapter@, list@[0]@)) by {
            assert(step_view(s).args =~= primary_step(family@, label@, adapter@, list@[0]@).args);
        }
        plan.push(s);
    }
    let ghost first = plan_view(plan@);
    assert(first =~= (if list@.len() > 0 && list@[0]@.len() > 0 {
        seq![primary_step(family@, label@, adapter@, list@[0]@)]
    } else {
        seq![]
    }));
    if list.len() > 1 && !list[1].as_str().is_empty() {
        let args = vec![
            "interface".to_owned(),
            family.to_owned(),
            "add".to_owned(),
            "dnsservers".to_owned(),
            adapter.to_owned(),
            list[1].as_str().to_owned(),
            "index=2".to_owned(),
        ];
        let c = concat("Failed to execute netsh for ", label);
        let f = concat("Failed to set ", label);
        let s = netsh(
            args,
            StepPolicy::Succeeded,
            concat(c.as_str(), " secondary DNS"),
            concat(f.as_str(), " secondary DNS"),
            true,
        );
        assert(step_view(s) == secondary_step(family@, label@, adapter@, list@[1]@)) by {
            assert(step_view(s).args =~= secondary_step(
                family@,
                label@,
                adapter@,
                list@[1]@,
            ).args);
        }
        plan.push(s);
        assert(plan_view(plan@) =~= first + seq![step_view(s)]);
    } else {
        assert(plan_view(plan@) =~= first + Seq::<StepSpec>::empty());
    }
    assert(plan_view(plan@) =~= server_steps(family@, label@, adapter@, strings(list@)));
    plan
}

/// Applying two non-empty IPv4 servers, without IPv6 servers or a template,
/// clears IPv4 and then sets the first as primary and the second at index 2.
pub proof fn lemma_apply_two_ipv4_servers(adapter: Seq<char>, p: Seq<char>, s: Seq<char>)
    requires
        p.len() > 0,
        s.len() > 0,
    ensures
        set_dns_plan(adapter, seq![p, s], seq![], None) == seq![
            clear_step("ipv4"@, "IPv4"@, adapter),
            primary_step("ipv4"@, "IPv4"@, adapter, p),
            secondary_step("ipv4"@, "IPv4"@, adapter, s),
        ],
{
    assert(set_dns_plan(adapter, seq![p, s], seq![], None) =~= seq![
        clear_step("ipv4"@, "IPv4"@, adapter),
        primary_step("ipv4"@, "IPv4"@, adapter, p),
        secondary_step("ipv4"@, "IPv4"@, adapter, s),
    ]);
}

} // verus!
