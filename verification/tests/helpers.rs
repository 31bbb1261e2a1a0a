use rust_simple_init::helpers::{dhcpd_config_file, shell_exit_code, start_dhcpd};
use rust_simple_init::services::network::Ipv4Addr;

#[test]
fn dhcpd_command_and_file()
{
	assert_eq!(dhcpd_config_file("usb0"), "/var/run/dhcp.usb0.conf");
	let (path, config, c) = start_dhcpd("usb0", Ipv4Addr::new(169, 254, 1, 2), Ipv4Addr::new(169, 254, 1, 2));
	assert_eq!(path, "/var/run/dhcp.usb0.conf");
	assert_eq!(config, "start 169.254.1.2\nend 169.254.1.2\ninterface usb0\nlease_file /var/run/dhcp.usb0.leases\noption subnet 255.255.255.252\noption lease 3600");
	assert_eq!(c.program, "/usr/sbin/udhcpd");
	assert_eq!(c.args, vec!["/var/run/dhcp.usb0.conf"]);
}

#[test]
fn shell_exit_codes()
{
	assert_eq!(shell_exit_code(Some(3), 0), 3);
	assert_eq!(shell_exit_code(Some(-1), 9), -1);
	assert_eq!(shell_exit_code(None, 9), 137);
	assert_eq!(shell_exit_code(None, 15), 143);
	// only the low byte of the signal counts
	assert_eq!(shell_exit_code(None, 256 + 2), 130);
}
