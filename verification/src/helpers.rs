//! Small helpers of the init program: the DHCP server of the USB network
//! link and the exit status of the fallback shell.

use vstd::prelude::*;
use crate::service::{CommandLine, CommandSpec};
use crate::services::network::{dhcpd_config, dhcpd_config_path, dhcpd_config_text, Ipv4Addr};
use crate::text::{owned, push_str, string_of};

verus! {

/// `/usr/sbin/udhcpd <config path>`.
pub open spec fn start_dhcpd_command(iface: Seq<char>) -> CommandSpec {
    CommandSpec { program: "/usr/sbin/udhcpd"@, args: seq![dhcpd_config_path(iface)] }
}

/// The configuration file of the DHCP server of `iface`.
pub fn dhcpd_config_file(iface: &str) -> (p: String)
    ensures
        p@ == dhcpd_config_path(iface@),
{
    let mut v: Vec<char> = Vec::new();
    push_str(&mut v, "/var/run/dhcp.");
    push_str(&mut v, iface);
    push_str(&mut v, ".conf");
    string_of(v.as_slice())
}

/// Starting the DHCP server of `iface` for the addresses from `start` to
/// `end`: the configuration file to write, its content, and the command
/// that starts the server (in the background) once the file is written.
pub fn start_dhcpd(iface: &str, start: Ipv4Addr, end: Ipv4Addr) -> (r: (String, String, CommandLine))
    ensures
        r.0@ == dhcpd_config_path(iface@),
        r.1@ == dhcpd_config_text(iface@, start, end),
        r.2@ == start_dhcpd_command(iface@),
{
    let mut args: Vec<String> = Vec::new();
    args.push(dhcpd_config_file(iface));
    let c = CommandLine { program: owned("/usr/sbin/udhcpd"), args };
    assert(c@.args =~= start_dhcpd_command(iface@).args);
    (dhcpd_config_file(iface), dhcpd_config(iface, start, end), c)
}

/// The exit status of the init when the shell ended: the shell's exit code,
/// or 128 plus the (byte of the) signal that ended it.
pub fn shell_exit_code(code: Option<i32>, signal: i32) -> (r: i32)
    requires
        code is None ==> (signal as u8) < 128,
    ensures
        r == match code {
            Some(c) => c as int,
            None => (signal as u8) + 128,
        },
{
    match code {
        Some(c) => c,
        None => ((signal as u8) + 128u8) as i32,
    }
}

} // verus!
