use rust_simple_init::service::ServiceState;
use rust_simple_init::services::console::{tty_change, ConsoleService};
use rust_simple_init::services::dev::DeviceManagerService;
use rust_simple_init::services::gadget::UsbGadgetService;
use rust_simple_init::services::mount::{MountExit, MountOutcome, MountSetup};
use rust_simple_init::services::network::{
	dhcpd_config, ipv4_string, link_up, Config, ConfigState, Ipv4Addr, LinkState, NetStep,
	NetworkDeviceService, Phase,
};
use rust_simple_init::services::openssh::SSHService;
use rust_simple_init::services::process::{PipeBuffer, ProcessExit, ProcessService, Stream};
use rust_simple_init::kmod::AliasMap;
use rust_simple_init::uevent::EventData;

fn event(udev : bool, props : &[(&str, &str)]) -> EventData
{
	let mut e = EventData::new(udev);
	for (k, v) in props {
		e.insert(k, v);
	}
	return e;
}

#[test]
fn configure()
{
	let mut service = MountSetup::new();

	// device nodes
	service.add("devtmpfs", None, "/dev", Some("mode=0755"));
	// /dev/pts and /dev/ptmx
	service.add("devpts", Some("devpts"), "/dev/pts", Some("mode=0620,ptmxmode=0666,gid=5"));
	// setup later mounts
	service.add("proc", Some("proc"), "/proc", None);
	service.add("sysfs", Some("sysfs"), "/sys", None);
	service.add("tmpfs", Some("tmpfs"), "/run", Some("mode=0755,nodev,nosuid,strictatime"));
	service.add("tmpfs", Some("tmpfs"), "/var/volatile", None);
	// kernel debug
	service.add("debugfs", None, "/sys/kernel/debug", None);

	assert_eq!(service.len(), 7);
	assert_eq!(service.state(), ServiceState::Inactive);
	assert_eq!(service.entry(0).fstype, "devtmpfs");
	assert_eq!(service.entry(0).device, None);
	assert_eq!(service.entry(6).point, "/sys/kernel/debug");
	assert_eq!(service.mount_args(0), vec!["-t", "devtmpfs", "none", "/dev", "-o", "mode=0755"]);
	assert_eq!(service.mount_args(2), vec!["-t", "proc", "proc", "/proc"]);
}

#[test]
fn mount_sequence_runs_in_order()
{
	let mut service = MountSetup::new();
	service.add("proc", Some("proc"), "/proc", None);
	service.add("sysfs", Some("sysfs"), "/sys", None);
	service.add("tmpfs", Some("tmpfs"), "/run", None);

	assert!(service.start());
	assert!(!service.start());
	assert_eq!(service.next_mount(), Some(0));
	// already mounted: go on at once
	assert!(service.mount_done(0, MountOutcome::AlreadyMounted));
	assert_eq!(service.state(), ServiceState::Starting);
	assert_eq!(service.next_mount(), Some(1));
	assert!(!service.mount_done(1, MountOutcome::Spawned(42)));
	// another process is not ours
	assert_eq!(service.process_exited(7, true), MountExit::Ignored);
	assert_eq!(service.process_exited(42, true), MountExit::Next);
	assert_eq!(service.next_mount(), Some(2));
	assert!(!service.mount_done(2, MountOutcome::Spawned(43)));
	assert_eq!(service.process_exited(43, true), MountExit::Next);
	assert_eq!(service.next_mount(), None);
	assert_eq!(service.state(), ServiceState::Completed);
	assert_eq!(service.next_mount(), None);
}

#[test]
fn mount_failure_stops_with_error()
{
	let mut service = MountSetup::new();
	service.add("proc", Some("proc"), "/proc", None);
	service.add("sysfs", Some("sysfs"), "/sys", None);
	assert!(service.start());
	assert_eq!(service.next_mount(), Some(0));
	assert!(!service.mount_done(0, MountOutcome::Spawned(5)));
	assert_eq!(service.process_exited(5, false), MountExit::Failed(0));
	assert_eq!(service.state(), ServiceState::Error);
	assert_eq!(service.next_mount(), None);
	assert_eq!(service.process_exited(5, true), MountExit::Ignored);

	let mut other = MountSetup::new();
	other.add("proc", Some("proc"), "/proc", None);
	assert!(other.start());
	assert_eq!(other.next_mount(), Some(0));
	assert!(!other.mount_done(0, MountOutcome::Failed));
	assert_eq!(other.state(), ServiceState::Error);
}

#[test]
fn empty_mount_list_does_not_start()
{
	let mut service = MountSetup::new();
	assert!(!service.start());
	assert_eq!(service.state(), ServiceState::Inactive);
}

#[test]
fn process()
{
	let mut service = ProcessService::new("cat", &[]);
	assert_eq!(service.executable(), "cat");
	assert!(service.args().is_empty());
	service.start();
	assert!(service.wants_spawn());
	assert_eq!(service.state(), ServiceState::Starting);
	service.spawned(100, 10, 11);
	assert_eq!(service.state(), ServiceState::Running);
	assert_eq!(service.running_pid(), Some(100));

	service.stopped();
	assert_eq!(service.state(), ServiceState::Inactive);
	assert_eq!(service.running_pid(), None);
}

#[test]
fn process_pipe()
{
	let mut service = ProcessService::oneshot("echo", &["testing"]);
	assert_eq!(service.args(), &vec!["testing".to_string()]);
	service.start();
	service.spawned(200, 12, 13);
	// a one-shot program counts as starting while it runs
	assert_eq!(service.state(), ServiceState::Starting);
	assert_eq!(service.fd_event(12), Some(Stream::Stdout));
	assert_eq!(service.fd_event(13), Some(Stream::Stderr));
	assert_eq!(service.fd_event(14), None);
	assert_eq!(service.process_exited(201, true), ProcessExit::Ignored);
	assert_eq!(service.process_exited(200, true), ProcessExit::Finished);
	assert_eq!(service.state(), ServiceState::Completed);
}

#[test]
fn process_failure_and_restart()
{
	let mut service = ProcessService::new("/usr/sbin/rngd", &["-f", "-r", "/dev/hwrng"]);
	service.add_device_dependency("/dev/hwrng");
	assert_eq!(service.devices(), &vec!["/dev/hwrng".to_string()]);
	assert!(!service.wants_spawn());
	service.start();
	service.spawned(7, 3, 4);
	assert_eq!(service.process_exited(7, false), ProcessExit::Failed);
	assert_eq!(service.state(), ServiceState::Error);
	assert_eq!(service.fd_event(3), None);

	let mut kept = ProcessService::new("a", &[]);
	kept.start();
	kept.spawned(8, 3, 4);
	assert_eq!(kept.process_exited(8, true), ProcessExit::Finished);
	assert_eq!(kept.state(), ServiceState::Inactive);

	let mut broken = ProcessService::new("b", &[]);
	broken.start();
	broken.setup_failed();
	assert_eq!(broken.state(), ServiceState::Error);
	assert!(!broken.wants_spawn());
}

#[test]
fn pipe_buffer_cuts_lines()
{
	let mut b = PipeBuffer::new(9);
	assert_eq!(b.fd, 9);
	assert!(!b.has_line());
	b.push(b"hello\nwor");
	assert!(b.has_line());
	assert_eq!(b.pop_line(), Some(b"hello".to_vec()));
	assert_eq!(b.pop_line(), None);
	b.push(b"ld\n\nlast");
	assert_eq!(b.pop_line(), Some(b"world".to_vec()));
	assert_eq!(b.pop_line(), Some(Vec::new()));
	assert!(!b.has_line());
	b.push(b"\n");
	assert_eq!(b.pop_line(), Some(b"last".to_vec()));
}

#[test]
fn network_test()
{
	let mut service = NetworkDeviceService::new("usb0");
	service.add(Config::StaticIpv4(Ipv4Addr::new(169, 254, 1, 1), 30, None));
	assert_eq!(service.name(), "usb0");
	assert_eq!(service.len(), 1);
	assert!(service.can_begin());
}

#[test]
fn network_static_address_sequence()
{
	let mut service = NetworkDeviceService::new("usb0");
	service.add(Config::StaticIpv4(Ipv4Addr::new(169, 254, 1, 1), 30, None));
	let up = service.begin(0).unwrap();
	assert_eq!(up.program, "/sbin/ip");
	assert_eq!(up.args, vec!["link", "set", "dev", "usb0", "up"]);
	service.link_setup(0, 50);
	assert!(!service.can_begin());
	assert!(service.begin(0).is_none());
	assert!(service.process_exited(49).is_none());
	match service.process_exited(50) {
		Some((0, NetStep::Spawn(c, Phase::StaticIpv4))) => {
			assert_eq!(c.program, "/sbin/ip");
			assert_eq!(c.args, vec!["addr", "add", "169.254.1.1/30", "dev", "usb0"]);
		}
		other => panic!("unexpected step {:?}", other),
	}
	service.spawned(0, Phase::StaticIpv4, 51);
	match service.process_exited(51) {
		Some((0, NetStep::Ready)) => {}
		other => panic!("unexpected step {:?}", other),
	}
	assert!(service.process_exited(51).is_none());
}

#[test]
fn network_dhcp_and_wpa_steps()
{
	let mut service = NetworkDeviceService::new("wlan0");
	service.add(Config::WPASupplicant("/boot/wifi.conf".to_owned()));
	service.add(Config::DHCP);
	service.link_setup(0, 60);
	service.link_setup(1, 61);
	match service.process_exited(61) {
		Some((1, NetStep::Spawn(c, Phase::DHCP))) => {
			assert_eq!(c.program, "/sbin/udhcpc");
			assert_eq!(c.args, vec!["-f", "-i", "wlan0"]);
		}
		other => panic!("unexpected step {:?}", other),
	}
	match service.process_exited(60) {
		Some((0, NetStep::CopyThenSpawn { source, path, command })) => {
			assert_eq!(source, "/boot/wifi.conf");
			assert_eq!(path, "/var/run/wpa.wlan0.conf");
			assert_eq!(command.program, "/usr/sbin/wpa_supplicant");
			assert_eq!(command.args, vec!["-c", "/var/run/wpa.wlan0.conf", "-i", "wlan0"]);
		}
		other => panic!("unexpected step {:?}", other),
	}
	service.failed(0);
	assert!(service.process_exited(60).is_none());
}

#[test]
fn network_dhcpd_and_link_only()
{
	let mut c = ConfigState::new(Config::DHCPD(Ipv4Addr::new(169, 254, 1, 2), Ipv4Addr::new(169, 254, 1, 2)));
	assert_eq!(c.state(), LinkState::Idle);
	assert!(c.begin("usb0").is_some());
	c.link_setup(70);
	assert!(c.begin("usb0").is_none());
	match c.check("usb0", 70) {
		NetStep::WriteThenSpawn { path, content, command } => {
			assert_eq!(path, "/var/run/dhcp.usb0.conf");
			assert_eq!(content, "start 169.254.1.2\nend 169.254.1.2\ninterface usb0\nlease_file /var/run/dhcp.usb0.leases\noption subnet 255.255.255.252\noption lease 3600");
			assert_eq!(command.program, "/usr/sbin/udhcpd");
			assert_eq!(command.args, vec!["-f", "/var/run/dhcp.usb0.conf"]);
		}
		other => panic!("unexpected step {:?}", other),
	}
	assert_eq!(c.state(), LinkState::LinkSetup(70));
	c.spawned(Phase::DHCPD, 71);
	assert_eq!(c.state(), LinkState::LinkDHCPD(71));
	assert!(matches!(c.check("usb0", 71), NetStep::NotMine));

	let mut lo = ConfigState::new(Config::LinkUp);
	lo.link_setup(80);
	assert!(matches!(lo.check("lo", 81), NetStep::NotMine));
	assert!(matches!(lo.check("lo", 80), NetStep::Ready));
	assert_eq!(lo.state(), LinkState::Ready);
}

#[test]
fn network_texts()
{
	assert_eq!(ipv4_string(Ipv4Addr::new(10, 0, 255, 1)), "10.0.255.1");
	assert_eq!(dhcpd_config("eth1", Ipv4Addr::new(192, 168, 0, 10), Ipv4Addr::new(192, 168, 0, 20)),
		"start 192.168.0.10\nend 192.168.0.20\ninterface eth1\nlease_file /var/run/dhcp.eth1.leases\noption subnet 255.255.255.252\noption lease 3600");
	let c = link_up("eth0");
	assert_eq!(c.args, vec!["link", "set", "dev", "eth0", "up"]);
}

#[test]
fn network_device_events()
{
	let service = NetworkDeviceService::new("usb0");
	assert_eq!(service.device_event(&event(false, &[("ACTION", "add"), ("SUBSYSTEM", "net"), ("INTERFACE", "usb0")])), Some(true));
	assert_eq!(service.device_event(&event(false, &[("ACTION", "remove"), ("INTERFACE", "usb0")])), Some(false));
	assert_eq!(service.device_event(&event(false, &[("ACTION", "add"), ("SUBSYSTEM", "tty"), ("INTERFACE", "usb0")])), None);
	assert_eq!(service.device_event(&event(false, &[("ACTION", "change"), ("SUBSYSTEM", "net"), ("INTERFACE", "usb0")])), None);
	assert_eq!(service.device_event(&event(false, &[("ACTION", "add"), ("SUBSYSTEM", "net"), ("INTERFACE", "eth0")])), None);
	assert_eq!(service.device_event(&event(false, &[("SUBSYSTEM", "net"), ("INTERFACE", "usb0")])), None);
}

#[test]
fn console_test()
{
	let service = ConsoleService::new("ttyUSB0", 115200, true);
	assert_eq!(service.name(), "ttyUSB0");
	assert_eq!(service.state(), ServiceState::Unknown);
}

#[test]
fn console_getty_lifecycle()
{
	let mut service = ConsoleService::new("ttyGS0", 115200, true);
	let c = service.start().unwrap();
	assert_eq!(c.program, "/sbin/getty");
	assert_eq!(c.args, vec!["-i", "-L", "115200", "ttyGS0"]);
	service.started(30);
	assert!(service.start().is_none());
	assert_eq!(service.process_exited(31), None);
	assert_eq!(service.process_exited(30), Some(true));
	assert!(service.start().is_some());

	let mut once = ConsoleService::new("ttyS0", 9600, false);
	once.started(5);
	assert_eq!(once.process_exited(5), Some(false));
	once.started(6);
	once.stopped();
	assert_eq!(once.process_exited(6), None);
}

#[test]
fn console_device_events()
{
	let service = ConsoleService::new("ttyGS0", 115200, true);
	let added = event(false, &[("ACTION", "add"), ("SUBSYSTEM", "tty"), ("DEVNAME", "/dev/ttyGS0")]);
	assert_eq!(service.device_event(&added), Some(Some(true)));
	let removed = event(false, &[("ACTION", "remove"), ("SUBSYSTEM", "tty"), ("DEVNAME", "ttyGS0")]);
	assert_eq!(service.device_event(&removed), Some(Some(false)));
	let other = event(false, &[("ACTION", "add"), ("SUBSYSTEM", "tty"), ("DEVNAME", "ttyS1")]);
	assert_eq!(service.device_event(&other), Some(None));
	let udev = event(true, &[("ACTION", "add"), ("SUBSYSTEM", "tty"), ("DEVNAME", "ttyGS0")]);
	assert_eq!(service.device_event(&udev), None);
	let net = event(false, &[("ACTION", "add"), ("SUBSYSTEM", "net"), ("DEVNAME", "ttyGS0")]);
	assert_eq!(service.device_event(&net), None);

	assert_eq!(tty_change(&added), Some((true, "ttyGS0".to_string())));
	assert_eq!(tty_change(&event(false, &[("ACTION", "bind"), ("SUBSYSTEM", "tty"), ("DEVNAME", "ttyGS0")])), None);
	assert_eq!(tty_change(&event(false, &[("ACTION", "add"), ("SUBSYSTEM", "tty")])), None);
}

#[test]
fn ssh_keygen_then_daemon()
{
	let mut service = SSHService::default();
	assert_eq!(service.key_count(), 3);
	assert_eq!(service.key(1), "ecdsa");
	assert_eq!(service.state(), ServiceState::Inactive);
	assert!(service.start());
	assert_eq!(service.keyfile_path(0), "/etc/ssh/ssh_host_rsa_key");
	let c = service.keygen_command(2);
	assert_eq!(c.program, "ssh-keygen");
	assert_eq!(c.args, vec!["-q", "-f", "/etc/ssh/ssh_host_ed25519_key", "-N", "", "-t", "ed25519"]);

	service.keygen_started(0, 90);
	assert_eq!(service.state(), ServiceState::Starting);
	assert!(!service.start());
	assert_eq!(service.process_exited(91), None);
	assert_eq!(service.process_exited(90), Some(1));

	let d = service.sshd_command();
	assert_eq!(d.program, "/usr/sbin/sshd");
	assert_eq!(d.args, vec!["-D"]);
	service.sshd_started(95, Some(20), None);
	assert_eq!(service.state(), ServiceState::Running);
	assert_eq!(service.running_pid(), Some(95));
	assert_eq!(service.fd_event(20), Some(Stream::Stdout));
	assert_eq!(service.fd_event(21), None);
	assert_eq!(service.process_exited(95), None);

	service.stop(false);
	assert_eq!(service.state(), ServiceState::Error);
	service.stop(true);
	assert_eq!(service.state(), ServiceState::Inactive);

	let mut custom = SSHService::new(&["dsa"]);
	assert_eq!(custom.keyfile_path(0), "/etc/ssh/ssh_host_dsa_key");
	custom.sshd_started(3, None, None);
	custom.stop(true);
	assert_eq!(custom.state(), ServiceState::Inactive);
	custom.failed();
	assert_eq!(custom.state(), ServiceState::Error);
}

#[test]
fn gadget_service_states()
{
	let mut service = UsbGadgetService::new("20980000.usb");
	assert_eq!(service.name(), "20980000.usb");
	assert_eq!(service.state(), ServiceState::Inactive);
	assert!(service.available(&["other".to_string(), "20980000.usb".to_string()]));
	assert!(!service.available(&["other".to_string()]));
	assert!(service.wants_setup());
	service.attached();
	assert_eq!(service.state(), ServiceState::Completed);
	assert!(!service.wants_setup());

	let mut failing = UsbGadgetService::new("udc");
	failing.setup_failed();
	assert_eq!(failing.state(), ServiceState::Error);
	assert!(!failing.wants_setup());
}

#[test]
fn device_manager_requests_modules()
{
	let aliases = AliasMap::from_reader("alias usb:v*p*d*dc*dsc*dp*ic03isc*ip*in* usbhid\n");
	let mut service = DeviceManagerService::new(aliases);
	assert_eq!(service.state(), ServiceState::Inactive);
	service.begin_start();
	assert_eq!(service.state(), ServiceState::Starting);
	service.finish_start();
	assert_eq!(service.state(), ServiceState::Running);

	let alias = "usb:v0627p0001d0000dc00dsc00dp00ic03isc01ip01in00";
	assert_eq!(service.module_for(alias), Some("usbhid"));
	assert_eq!(service.module_for("pci:v1"), None);

	let added = event(false, &[("ACTION", "add"), ("DEVPATH", "/devices/usb1"), ("MODALIAS", alias)]);
	assert_eq!(service.device_event(&added), Some(("/devices/usb1".to_string(), alias.to_string())));
	let nopath = event(false, &[("ACTION", "add"), ("MODALIAS", alias)]);
	assert_eq!(service.device_event(&nopath), Some(("<unknown>".to_string(), alias.to_string())));
	let removed = event(false, &[("ACTION", "remove"), ("MODALIAS", alias)]);
	assert_eq!(service.device_event(&removed), None);
	let udev = event(true, &[("ACTION", "add"), ("MODALIAS", alias)]);
	assert_eq!(service.device_event(&udev), None);
	let noalias = event(false, &[("ACTION", "add")]);
	assert_eq!(service.device_event(&noalias), None);

	service.stop();
	assert_eq!(service.state(), ServiceState::Inactive);
}

#[test]
fn pipe_buffer_ignores_how_output_is_split()
{
	let mut whole = PipeBuffer::new(1);
	whole.push(b"ab\ncd\ne");
	let mut parts = PipeBuffer::new(1);
	parts.push(b"a");
	parts.push(b"b\nc");
	parts.push(b"");
	parts.push(b"d\ne");
	for _ in 0..3 {
		assert_eq!(whole.pop_line(), parts.pop_line());
	}
	whole.push(b"\n");
	parts.push(b"\n");
	assert_eq!(whole.pop_line(), Some(b"e".to_vec()));
	assert_eq!(parts.pop_line(), Some(b"e".to_vec()));
}
