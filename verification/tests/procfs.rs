use rust_simple_init::procfs::{mounted, mounts_from_string};
use rust_simple_init::sysfs::first_line;

#[test]
fn parsing()
{
	let mut v = mounts_from_string(
		"udev /dev devtmpfs rw,nosuid,noexec,relatime,size=3938972k,nr_inodes=984743,mode=755 0 0\n\
		sysfs /sys sysfs rw,nosuid,nodev,noexec,relatime 0 0\n\
		proc /proc proc rw,nosuid,nodev,noexec,relatime 0 0\n\
		/dev/nvme0n1p2 / ext4 rw,relatime,errors=remount-ro 0 0\n");

	if let Some(e) = v.next() {
		assert_eq!(e.fstype, "devtmpfs");
		assert_eq!(e.device, "udev");
		assert_eq!(e.point, "/dev");
		assert_eq!(e.options, "rw,nosuid,noexec,relatime,size=3938972k,nr_inodes=984743,mode=755");
	} else {
		assert!(false);
	}

	if let Some(e) = v.next() {
		assert_eq!(e.fstype, "sysfs");
		assert_eq!(e.device, "sysfs");
		assert_eq!(e.point, "/sys");
		assert_eq!(e.options, "rw,nosuid,nodev,noexec,relatime");
	} else {
		assert!(false);
	}

	if let Some(e) = v.next() {
		assert_eq!(e.fstype, "proc");
		assert_eq!(e.device, "proc");
		assert_eq!(e.point, "/proc");
		assert_eq!(e.options, "rw,nosuid,nodev,noexec,relatime");
	} else {
		assert!(false);
	}

	if let Some(e) = v.next() {
		assert_eq!(e.fstype, "ext4");
		assert_eq!(e.device, "/dev/nvme0n1p2");
		assert_eq!(e.point, "/");
		assert_eq!(e.options, "rw,relatime,errors=remount-ro");
	} else {
		assert!(false);
	}

	assert!(v.next().is_none());
}

const TABLE: &str = "udev /dev devtmpfs rw 0 0\n\
	none /sys/kernel/config configfs rw 0 0\n\
	/dev/mmcblk0p1 /boot vfat ro 0 0\n";

#[test]
fn mounted_checks_point_device_and_type()
{
	assert!(mounted(TABLE, "/sys/kernel/config", None, Some("configfs")));
	assert!(!mounted(TABLE, "/sys/kernel/config", None, Some("sysfs")));
	assert!(mounted(TABLE, "/boot", Some("/dev/mmcblk0p1"), None));
	assert!(!mounted(TABLE, "/boot", Some("/dev/sda1"), Some("vfat")));
	assert!(mounted(TABLE, "/dev", Some("udev"), Some("devtmpfs")));
	assert!(!mounted(TABLE, "/run", None, None));
	assert!(!mounted("", "/", None, None));
}

#[test]
fn first_line_of_files()
{
	assert_eq!(first_line("init\n"), Some("init".to_string()));
	assert_eq!(first_line("a\r\nb\n"), Some("a".to_string()));
	assert_eq!(first_line("no newline\r"), Some("no newline\r".to_string()));
	assert_eq!(first_line("\n"), Some("".to_string()));
	assert_eq!(first_line(""), None);
}
