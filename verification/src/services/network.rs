//! Network interfaces: each configuration of an interface first brings the
//! link up, then adds a static address, or runs a DHCP client, a DHCP
//! server or the WPA supplicant on it.

use vstd::prelude::*;
use crate::service::{
    action_of, interface_of, is_add, is_remove, key_action, key_interface, key_subsystem,
    prop_value, subsystem_of, word_add, word_remove, CommandLine, CommandSpec,
};
use crate::text::{chars_of, decimal, owned, push_decimal, push_str, str_eq, string_of};
use crate::uevent::{EventData, EventView};

verus! {

/// An IPv4 address.
#[derive(Debug, PartialEq, Eq, Structural, Clone, Copy)]
pub struct Ipv4Addr {
    pub a: u8,
    pub b: u8,
    pub c: u8,
    pub d: u8,
}

impl Ipv4Addr {
    pub fn new(a: u8, b: u8, c: u8, d: u8) -> (r: Ipv4Addr)
        ensures
            r == (Ipv4Addr { a, b, c, d }),
    {
        Ipv4Addr { a, b, c, d }
    }
}

/// Dotted decimal notation of an address.
pub open spec fn ipv4_text(ip: Ipv4Addr) -> Seq<char> {
    decimal(ip.a as nat) + seq!['.'] + decimal(ip.b as nat) + seq!['.'] + decimal(ip.c as nat)
        + seq!['.'] + decimal(ip.d as nat)
}

/// Appends the dotted decimal notation of `ip`.
pub fn push_ipv4(ip: Ipv4Addr, out: &mut Vec<char>)
    ensures
        final(out)@ == old(out)@ + ipv4_text(ip),
{
    let ghost start = out@;
    push_decimal(ip.a as u64, out);
    out.push('.');
    push_decimal(ip.b as u64, out);
    out.push('.');
    push_decimal(ip.c as u64, out);
    out.push('.');
    push_decimal(ip.d as u64, out);
    assert(out@ =~= start + ipv4_text(ip));
}

/// The dotted decimal notation of `ip`, as a string.
pub fn ipv4_string(ip: Ipv4Addr) -> (s: String)
    ensures
        s@ == ipv4_text(ip),
{
    let mut v: Vec<char> = Vec::new();
    push_ipv4(ip, &mut v);
    assert(v@ =~= ipv4_text(ip));
    string_of(v.as_slice())
}

/// How an interface is to be configured.
pub enum Config {
    /// Only bring the link up.
    LinkUp,
    /// Run a DHCP client.
    DHCP,
    /// A static address with its prefix length (and a gateway, unused).
    StaticIpv4(Ipv4Addr, u32, Option<Ipv4Addr>),
    /// Run a DHCP server handing out the addresses from the first to the second.
    DHCPD(Ipv4Addr, Ipv4Addr),
    /// Run the WPA supplicant with the configuration file at this path.
    WPASupplicant(String),
}

/// What a configuration is.
pub ghost enum ConfigSpec {
    LinkUp,
    DHCP,
    StaticIpv4(Ipv4Addr, u32, Option<Ipv4Addr>),
    DHCPD(Ipv4Addr, Ipv4Addr),
    WPASupplicant(Seq<char>),
}

impl View for Config {
    type V = ConfigSpec;

    open spec fn view(&self) -> ConfigSpec {
        match self {
            Config::LinkUp => ConfigSpec::LinkUp,
            Config::DHCP => ConfigSpec::DHCP,
            Config::StaticIpv4(h, p, g) => ConfigSpec::StaticIpv4(*h, *p, *g),
            Config::DHCPD(s, e) => ConfigSpec::DHCPD(*s, *e),
            Config::WPASupplicant(p) => ConfigSpec::WPASupplicant(p@),
        }
    }
}

/// Where the configuration of an interface is; the process of each step is
/// given by its id.
#[derive(Debug, PartialEq, Eq, Structural, Clone, Copy)]
pub enum LinkState {
    Idle,
    Ready,
    Failed,
    LinkSetup(u32),
    LinkStaticIpv4(u32),
    LinkDHCP(u32),
    LinkDHCPD(u32),
    WPASupplicant(u32),
}

/// The step that follows link bringup, whose process the caller starts.
#[derive(Debug, PartialEq, Eq, Structural, Clone, Copy)]
pub enum Phase {
    StaticIpv4,
    DHCP,
    DHCPD,
    WPASupplicant,
}

/// The state that a started process of a phase leads to.
pub open spec fn phase_state(phase: Phase, pid: u32) -> LinkState {
    match phase {
        Phase::StaticIpv4 => LinkState::LinkStaticIpv4(pid),
        Phase::DHCP => LinkState::LinkDHCP(pid),
        Phase::DHCPD => LinkState::LinkDHCPD(pid),
        Phase::WPASupplicant => LinkState::WPASupplicant(pid),
    }
}

/// What the caller is to do after a process of the configuration exited.
#[derive(Debug)]
pub enum NetStep {
    /// The process is not this configuration's.
    NotMine,
    /// The configuration is done (already set to ready).
    Ready,
    /// Start `command`; it is the process of `phase`.
    Spawn(CommandLine, Phase),
    /// Write `content` to the file `path`; if that succeeds, start `command`
    /// for the DHCP server; if it fails, leave the configuration as it is.
    WriteThenSpawn { path: String, content: String, command: CommandLine },
    /// Copy the file `source` to `path` when it exists, else write an empty
    /// `path`; then start `command` for the WPA supplicant.
    CopyThenSpawn { source: String, path: String, command: CommandLine },
}

/// What a step is.
pub ghost enum NetStepSpec {
    NotMine,
    Ready,
    Spawn(CommandSpec, Phase),
    WriteThenSpawn { path: Seq<char>, content: Seq<char>, command: CommandSpec },
    CopyThenSpawn { source: Seq<char>, path: Seq<char>, command: CommandSpec },
}

impl View for NetStep {
    type V = NetStepSpec;

    open spec fn view(&self) -> NetStepSpec {
        match self {
            NetStep::NotMine => NetStepSpec::NotMine,
            NetStep::Ready => NetStepSpec::Ready,
            NetStep::Spawn(c, phase) => NetStepSpec::Spawn(c@, *phase),
            NetStep::WriteThenSpawn { path, content, command } => NetStepSpec::WriteThenSpawn {
                path: path@,
                content: content@,
                command: command@,
            },
            NetStep::CopyThenSpawn { source, path, command } => NetStepSpec::CopyThenSpawn {
                source: source@,
                path: path@,
                command: command@,
            },
        }
    }
}

/// The command that brings the link up: `/sbin/ip link set dev <device> up`.
pub open spec fn link_up_command(device: Seq<char>) -> CommandSpec {
    CommandSpec {
        program: "/sbin/ip"@,
        args: seq!["link"@, "set"@, "dev"@, device, "up"@],
    }
}

/// The address argument of a static configuration: `host/prefix`.
pub open spec fn static_addr_text(host: Ipv4Addr, prefix: u32) -> Seq<char> {
    ipv4_text(host) + seq!['/'] + decimal(prefix as nat)
}

/// `/sbin/ip addr add <host/prefix> dev <device>`.
pub open spec fn static_addr_command(device: Seq<char>, host: Ipv4Addr, prefix: u32) -> CommandSpec {
    CommandSpec {
        program: "/sbin/ip"@,
        args: seq!["addr"@, "add"@, static_addr_text(host, prefix), "dev"@, device],
    }
}

/// `/sbin/udhcpc -f -i <device>`.
pub open spec fn dhcp_command(device: Seq<char>) -> CommandSpec {
    CommandSpec { program: "/sbin/udhcpc"@, args: seq!["-f"@, "-i"@, device] }
}

/// The configuration file of the DHCP server of an interface.
pub open spec fn dhcpd_config_path(device: Seq<char>) -> Seq<char> {
    "/var/run/dhcp."@ + device + ".conf"@
}

/// The configuration of the DHCP server of an interface: the address range,
/// the interface, the lease file, a /30 subnet and one-hour leases.
pub open spec fn dhcpd_config_text(device: Seq<char>, start: Ipv4Addr, end: Ipv4Addr) -> Seq<
    char,
> {
    "start "@ + ipv4_text(start) + "\n"@ + "end "@ + ipv4_text(end) + "\n"@ + "interface "@
        + device + "\n"@ + "lease_file /var/run/dhcp."@ + device + ".leases"@ + "\n"@
        + "option subnet 255.255.255.252"@ + "\n"@ + "option lease 3600"@
}

/// `/usr/sbin/udhcpd -f <config path>`.
pub open spec fn dhcpd_command(device: Seq<char>) -> CommandSpec {
    CommandSpec { program: "/usr/sbin/udhcpd"@, args: seq!["-f"@, dhcpd_config_path(device)] }
}

/// The copy of the WPA configuration that the supplicant of an interface uses.
pub open spec fn wpa_config_path(device: Seq<char>) -> Seq<char> {
    "/var/run/wpa."@ + device + ".conf"@
}

/// `/usr/sbin/wpa_supplicant -c <config path> -i <device>`.
pub open spec fn wpa_command(device: Seq<char>) -> CommandSpec {
    CommandSpec {
        program: "/usr/sbin/wpa_supplicant"@,
        args: seq!["-c"@, wpa_config_path(device), "-i"@, device],
    }
}

/// What the exit of process `pid` means to a configuration `config` of
/// `device` in state `st`: the state it goes to and the step to take. After
/// the link bringup comes the configuration's own step (a link-only
/// configuration is then ready); after the static address, the
/// configuration is ready; any other process, or state, is not its concern.
pub open spec fn check_spec(config: ConfigSpec, st: LinkState, device: Seq<char>, pid: u32) -> (
    LinkState,
    NetStepSpec,
) {
    match st {
        LinkState::LinkSetup(p) if p == pid => match config {
            ConfigSpec::LinkUp => (LinkState::Ready, NetStepSpec::Ready),
            ConfigSpec::StaticIpv4(host, prefix, _) => (
                st,
                NetStepSpec::Spawn(static_addr_command(device, host, prefix), Phase::StaticIpv4),
            ),
            ConfigSpec::DHCP => (st, NetStepSpec::Spawn(dhcp_command(device), Phase::DHCP)),
            ConfigSpec::DHCPD(start, end) => (
                st,
                NetStepSpec::WriteThenSpawn {
                    path: dhcpd_config_path(device),
                    content: dhcpd_config_text(device, start, end),
                    command: dhcpd_command(device),
                },
            ),
            ConfigSpec::WPASupplicant(source) => (
                st,
                NetStepSpec::CopyThenSpawn {
                    source,
                    path: wpa_config_path(device),
                    command: wpa_command(device),
                },
            ),
        },
        LinkState::LinkStaticIpv4(p) if p == pid => (LinkState::Ready, NetStepSpec::Ready),
        _ => (st, NetStepSpec::NotMine),
    }
}

/// Each phase has a state of its own: no two phases, and no two processes,
/// lead to the same state.
pub proof fn lemma_phase_states_distinct(p1: Phase, a: u32, p2: Phase, b: u32)
    ensures
        phase_state(p1, a) == phase_state(p2, b) ==> p1 == p2 && a == b,
{
}

/// Once the process of a phase runs, its exit completes the configuration
/// only for the static address; the exit of a DHCP client, DHCP server or
/// WPA supplicant is not awaited, and leaves the configuration as it is.
pub proof fn lemma_exit_after_phase(config: ConfigSpec, device: Seq<char>, phase: Phase, pid: u32)
    ensures
        check_spec(config, phase_state(phase, pid), device, pid) == if phase == Phase::StaticIpv4 {
            (LinkState::Ready, NetStepSpec::Ready)
        } else {
            (phase_state(phase, pid), NetStepSpec::NotMine)
        },
        phase == Phase::DHCP ==> phase_state(phase, pid) == LinkState::LinkDHCP(pid),
{
}

fn text_of(v: &Vec<char>) -> (s: String)
    ensures
        s@ == v@,
{
    string_of(v.as_slice())
}

/// The text of the DHCP server configuration (see `dhcpd_config_text`).
pub fn dhcpd_config(device: &str, start: Ipv4Addr, end: Ipv4Addr) -> (s: String)
    ensures
        s@ == dhcpd_config_text(device@, start, end),
{
    let mut v: Vec<char> = Vec::new();
    push_str(&mut v, "start ");
    push_ipv4(start, &mut v);
    push_str(&mut v, "\n");
    push_str(&mut v, "end ");
    push_ipv4(end, &mut v);
    push_str(&mut v, "\n");
    push_str(&mut v, "interface ");
    push_str(&mut v, device);
    push_str(&mut v, "\n");
    push_str(&mut v, "lease_file /var/run/dhcp.");
    push_str(&mut v, device);
    push_str(&mut v, ".leases");
    push_str(&mut v, "\n");
    push_str(&mut v, "option subnet 255.255.255.252");
    push_str(&mut v, "\n");
    push_str(&mut v, "option lease 3600");
    assert(v@ =~= dhcpd_config_text(device@, start, end));
    text_of(&v)
}

fn path_with(prefix: &str, device: &str, suffix: &str) -> (s: String)
    ensures
        s@ == prefix@ + device@ + suffix@,
{
    let mut v: Vec<char> = Vec::new();
    push_str(&mut v, prefix);
    push_str(&mut v, device);
    push_str(&mut v, suffix);
    text_of(&v)
}

/// The command that brings the link of `device` up.
pub fn link_up(device: &str) -> (c: CommandLine)
    ensures
        c@ == link_up_command(device@),
{
    let mut args: Vec<String> = Vec::new();
    args.push(owned("link"));
    args.push(owned("set"));
    args.push(owned("dev"));
    args.push(owned(device));
    args.push(owned("up"));
    let c = CommandLine { program: owned("/sbin/ip"), args };
    assert(c@.args =~= link_up_command(device@).args);
    c
}

/// One configuration of an interface, and where it is.
pub struct ConfigState {
    config: Config,
    state: LinkState,
}

impl ConfigState {
    pub closed spec fn config_of(&self) -> ConfigSpec {
        self.config@
    }

    pub closed spec fn state_of(&self) -> LinkState {
        self.state
    }

    /// A configuration not yet begun.
    pub fn new(config: Config) -> (c: ConfigState)
        ensures
            c.config_of() == config@,
            c.state_of() == LinkState::Idle,
    {
        ConfigState { config, state: LinkState::Idle }
    }

    /// Its state.
    pub fn state(&self) -> (s: LinkState)
        ensures
            s == self.state_of(),
    {
        self.state
    }

    /// The link bringup of `device` to start, when the configuration has not
    /// begun.
    pub fn begin(&self, device: &str) -> (r: Option<CommandLine>)
        ensures
            match r {
                Some(c) => self.state_of() == LinkState::Idle && c@ == link_up_command(device@),
                None => self.state_of() != LinkState::Idle,
            },
    {
        match self.state {
            LinkState::Idle => Some(link_up(device)),
            _ => None,
        }
    }

    /// The link bringup was started as process `pid`.
    pub fn link_setup(&mut self, pid: u32)
        ensures
            final(self).config_of() == old(self).config_of(),
            final(self).state_of() == LinkState::LinkSetup(pid),
    {
        self.state = LinkState::LinkSetup(pid);
    }

    /// The process of `phase` was started as `pid`.
    pub fn spawned(&mut self, phase: Phase, pid: u32)
        ensures
            final(self).config_of() == old(self).config_of(),
            final(self).state_of() == phase_state(phase, pid),
            awaits(final(self).state_of(), pid) <==> phase == Phase::StaticIpv4,
            phase == Phase::DHCP ==> final(self).state_of() == LinkState::LinkDHCP(pid),
            phase == Phase::DHCPD ==> final(self).state_of() == LinkState::LinkDHCPD(pid),
            phase == Phase::WPASupplicant ==> final(self).state_of() == LinkState::WPASupplicant(
                pid,
            ),
    {
        self.state = match phase {
            Phase::StaticIpv4 => LinkState::LinkStaticIpv4(pid),
            Phase::DHCP => LinkState::LinkDHCP(pid),
            Phase::DHCPD => LinkState::LinkDHCPD(pid),
            Phase::WPASupplicant => LinkState::WPASupplicant(pid),
        };
    }

    /// The process of the next phase could not be started.
    pub fn failed(&mut self)
        ensures
            final(self).config_of() == old(self).config_of(),
            final(self).state_of() == LinkState::Failed,
    {
        self.state = LinkState::Failed;
    }

    /// What follows the exit of process `pid` for this configuration of
    /// `device`: after the link bringup, the configuration's own step (or
    /// ready, for a link-only configuration); after the static address,
    /// ready; for any other process or state, nothing.
    pub fn check(&mut self, device: &str, pid: u32) -> (r: NetStep)
        ensures
            final(self).config_of() == old(self).config_of(),
            (final(self).state_of(), r@) == check_spec(
                old(self).config_of(),
                old(self).state_of(),
                device@,
                pid,
            ),
    {
        match self.state {
            LinkState::LinkSetup(p) => {
                if p != pid {
                    return NetStep::NotMine;
                }
                match &self.config {
                    Config::LinkUp => {
                        self.state = LinkState::Ready;
                        NetStep::Ready
                    },
                    Config::StaticIpv4(host, prefix, _) => {
                        let mut addr: Vec<char> = Vec::new();
                        push_ipv4(*host, &mut addr);
                        addr.push('/');
                        push_decimal(*prefix as u64, &mut addr);
                        assert(addr@ =~= static_addr_text(*host, *prefix));
                        let mut args: Vec<String> = Vec::new();
                        args.push(owned("addr"));
                        args.push(owned("add"));
                        args.push(text_of(&addr));
                        args.push(owned("dev"));
                        args.push(owned(device));
                        let c = CommandLine { program: owned("/sbin/ip"), args };
                        assert(c@.args =~= static_addr_command(device@, *host, *prefix).args);
                        NetStep::Spawn(c, Phase::StaticIpv4)
                    },
                    Config::DHCP => {
                        let mut args: Vec<String> = Vec::new();
                        args.push(owned("-f"));
                        args.push(owned("-i"));
                        args.push(owned(device));
                        let c = CommandLine { program: owned("/sbin/udhcpc"), args };
                        assert(c@.args =~= dhcp_command(device@).args);
                        NetStep::Spawn(c, Phase::DHCP)
                    },
                    Config::DHCPD(start, end) => {
                        let path = path_with("/var/run/dhcp.", device, ".conf");
                        let content = dhcpd_config(device, *start, *end);
                        let mut args: Vec<String> = Vec::new();
                        args.push(owned("-f"));
                        args.push(path_with("/var/run/dhcp.", device, ".conf"));
                        let c = CommandLine { program: owned("/usr/sbin/udhcpd"), args };
                        assert(c@.args =~= dhcpd_command(device@).args);
                        NetStep::WriteThenSpawn { path, content, command: c }
                    },
                    Config::WPASupplicant(source) => {
                        let path = path_with("/var/run/wpa.", device, ".conf");
                        let mut args: Vec<String> = Vec::new();
                        args.push(owned("-c"));
                        args.push(path_with("/var/run/wpa.", device, ".conf"));
                        args.push(owned("-i"));
                        args.push(owned(device));
                        let c = CommandLine { program: owned("/usr/sbin/wpa_supplicant"), args };
                        assert(c@.args =~= wpa_command(device@).args);
                        NetStep::CopyThenSpawn {
                            source: owned(source.as_str()),
                            path,
                            command: c,
                        }
                    },
                }
            },
            LinkState::LinkStaticIpv4(p) => {
                if p != pid {
                    return NetStep::NotMine;
                }
                self.state = LinkState::Ready;
                NetStep::Ready
            },
            _ => NetStep::NotMine,
        }
    }
}

/// What a device event means to the service of interface `name`: for an
/// "add" or "remove" of a network (or unnamed subsystem) device whose
/// `INTERFACE` is `name`, whether it was added.
pub open spec fn net_device_change(ev: EventView, name: Seq<char>) -> Option<bool> {
    match prop_value(ev, key_action()) {
        None => None,
        Some(a) => if a != word_add() && a != word_remove() {
            None
        } else if prop_value(ev, key_subsystem()) matches Some(s) && s != "net"@ {
            None
        } else {
            match prop_value(ev, key_interface()) {
                Some(n) => if n == name {
                    Some(a == word_add())
                } else {
                    None
                },
                None => None,
            }
        },
    }
}

/// Whether a configuration in state `st` awaits the exit of process `pid`.
pub open spec fn awaits(st: LinkState, pid: u32) -> bool {
    ||| st matches LinkState::LinkSetup(p) && p == pid
    ||| st matches LinkState::LinkStaticIpv4(p) && p == pid
}

/// A network interface and its configurations.
pub struct NetworkDeviceService {
    name: String,
    configs: Vec<ConfigState>,
}

impl NetworkDeviceService {
    pub closed spec fn name_of(&self) -> Seq<char> {
        self.name@
    }

    pub closed spec fn configs_of(&self) -> Seq<(ConfigSpec, LinkState)> {
        self.configs@.map_values(|c: ConfigState| (c.config@, c.state))
    }

    /// The interface `name`, with no configuration.
    pub fn new(name: &str) -> (s: Self)
        ensures
            s.name_of() == name@,
            s.configs_of() == Seq::<(ConfigSpec, LinkState)>::empty(),
    {
        let s = NetworkDeviceService { name: owned(name), configs: Vec::new() };
        assert(s.configs_of() =~= Seq::<(ConfigSpec, LinkState)>::empty());
        s
    }

    /// The interface's name.
    pub fn name(&self) -> (n: &str)
        ensures
            n@ == self.name_of(),
    {
        self.name.as_str()
    }

    /// Adds a configuration, not yet begun.
    pub fn add(&mut self, config: Config)
        ensures
            final(self).name_of() == old(self).name_of(),
            final(self).configs_of() == old(self).configs_of().push((config@, LinkState::Idle)),
    {
        let ghost before = self.configs_of();
        let ghost cv = config@;
        self.configs.push(ConfigState::new(config));
        assert(self.configs_of() =~= before.push((cv, LinkState::Idle)));
    }

    /// Number of configurations.
    pub fn len(&self) -> (n: usize)
        ensures
            n == self.configs_of().len(),
    {
        self.configs.len()
    }

    /// The configurations begin only when none has begun yet.
    pub fn can_begin(&self) -> (b: bool)
        ensures
            b == forall|i: int|
                0 <= i < self.configs_of().len() ==> (#[trigger] self.configs_of()[i]).1
                    == LinkState::Idle,
    {
        let mut i: usize = 0;
        while i < self.configs.len()
            invariant
                i <= self.configs.len(),
                forall|k: int| 0 <= k < i ==> (#[trigger] self.configs_of()[k]).1 == LinkState::Idle,
            decreases self.configs.len() - i,
        {
            if self.configs[i].state() != LinkState::Idle {
                assert(self.configs_of()[i as int].1 != LinkState::Idle);
                return false;
            }
            i = i + 1;
        }
        true
    }

    /// The link bringup that configuration `index` starts with, when it has
    /// not begun.
    pub fn begin(&self, index: usize) -> (r: Option<CommandLine>)
        requires
            index < self.configs_of().len(),
        ensures
            match r {
                Some(c) => self.configs_of()[index as int].1 == LinkState::Idle && c@
                    == link_up_command(self.name_of()),
                None => self.configs_of()[index as int].1 != LinkState::Idle,
            },
    {
        self.configs[index].begin(self.name.as_str())
    }

    /// The link bringup of configuration `index` started as `pid`.
    pub fn link_setup(&mut self, index: usize, pid: u32)
        requires
            index < old(self).configs_of().len(),
        ensures
            final(self).name_of() == old(self).name_of(),
            final(self).configs_of() == old(self).configs_of().update(
                index as int,
                (old(self).configs_of()[index as int].0, LinkState::LinkSetup(pid)),
            ),
    {
        let ghost before = self.configs_of();
        let mut c = self.configs.remove(index);
        c.link_setup(pid);
        self.configs.insert(index, c);
        assert(self.configs_of() =~= before.update(
            index as int,
            (before[index as int].0, LinkState::LinkSetup(pid)),
        ));
    }

    /// The process of `phase` of configuration `index` started as `pid`.
    pub fn spawned(&mut self, index: usize, phase: Phase, pid: u32)
        requires
            index < old(self).configs_of().len(),
        ensures
            final(self).name_of() == old(self).name_of(),
            final(self).configs_of() == old(self).configs_of().update(
                index as int,
                (old(self).configs_of()[index as int].0, phase_state(phase, pid)),
            ),
    {
        let ghost before = self.configs_of();
        let mut c = self.configs.remove(index);
        c.spawned(phase, pid);
        self.configs.insert(index, c);
        assert(self.configs_of() =~= before.update(
            index as int,
            (before[index as int].0, phase_state(phase, pid)),
        ));
    }

    /// The next process of configuration `index` could not be started.
    pub fn failed(&mut self, index: usize)
        requires
            index < old(self).configs_of().len(),
        ensures
            final(self).name_of() == old(self).name_of(),
            final(self).configs_of() == old(self).configs_of().update(
                index as int,
                (old(self).configs_of()[index as int].0, LinkState::Failed),
            ),
    {
        let ghost before = self.configs_of();
        let mut c = self.configs.remove(index);
        c.failed();
        self.configs.insert(index, c);
        assert(self.configs_of() =~= before.update(
            index as int,
            (before[index as int].0, LinkState::Failed),
        ));
    }

    /// Hands the exit of process `pid` to the configurations in order: the
    /// first one that awaits it gives the step to take (see
    /// `ConfigState::check`) and its index; `None` when none awaits it.
    pub fn process_exited(&mut self, pid: u32) -> (r: Option<(usize, NetStep)>)
        ensures
            final(self).name_of() == old(self).name_of(),
            final(self).configs_of().len() == old(self).configs_of().len(),
            forall|k: int|
                0 <= k < old(self).configs_of().len() ==> (#[trigger] final(self).configs_of()[k]).0
                    == old(self).configs_of()[k].0,
            match r {
                Some((i, step)) => {
                    &&& i < old(self).configs_of().len()
                    &&& awaits(old(self).configs_of()[i as int].1, pid)
                    &&& (final(self).configs_of()[i as int].1, step@) == check_spec(
                        old(self).configs_of()[i as int].0,
                        old(self).configs_of()[i as int].1,
                        old(self).name_of(),
                        pid,
                    )
                    &&& forall|k: int|
                        0 <= k < old(self).configs_of().len() && k != i ==> (
                        #[trigger] final(self).configs_of()[k]) == old(self).configs_of()[k]
                    &&& forall|k: int|
                        0 <= k < i ==> !awaits((#[trigger] old(self).configs_of()[k]).1, pid)
                },
                None => {
                    &&& final(self).configs_of() == old(self).configs_of()
                    &&& forall|k: int|
                        0 <= k < old(self).configs_of().len() ==> !awaits(
                            (#[trigger] old(self).configs_of()[k]).1,
                            pid,
                        )
                },
            },
    {
        let mut i: usize = 0;
        while i < self.configs.len()
            invariant
                i <= self.configs.len(),
                self.name_of() == old(self).name_of(),
                self.configs_of() == old(self).configs_of(),
                forall|k: int| 0 <= k < i ==> !awaits((#[trigger] old(self).configs_of()[k]).1, pid),
            decreases self.configs.len() - i,
        {
            let ghost before = self.configs_of();
            let mut c = self.configs.remove(i);
            let step = c.check(self.name.as_str(), pid);
            self.configs.insert(i, c);
            match step {
                NetStep::NotMine => {
                    assert(self.configs_of() =~= before);
                },
                _ => {
                    assert forall|k: int|
                        0 <= k < before.len() && k != i implies (#[trigger] self.configs_of()[k])
                        == before[k] by {}
                    return Some((i, step));
                },
            }
            i = i + 1;
        }
        None
    }

    /// What a device event means to this interface (see `net_device_change`):
    /// `Some(true)` to start it, `Some(false)` to stop it.
    pub fn device_event(&self, event: &EventData) -> (r: Option<bool>)
        ensures
            r == net_device_change(event@, self.name_of()),
    {
        let action = match action_of(event) {
            Some(a) => a,
            None => {
                return None;
            },
        };
        let added = is_add(action);
        if !(added || is_remove(action)) {
            return None;
        }
        if let Some(subsys) = subsystem_of(event) {
            if !str_eq(subsys, "net") {
                return None;
            }
        }
        match interface_of(event) {
            Some(n) => {
                if str_eq(self.name.as_str(), n) {
                    Some(added)
                } else {
                    None
                }
            },
            None => None,
        }
    }
}

} // verus!
