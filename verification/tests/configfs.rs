use rust_simple_init::configfs::usb::{attached, count_entries, first_interface, has_interfaces, join, FsOp, Gadget};

fn show(op : &FsOp) -> String
{
	match op {
		FsOp::CreateDirAll(p) => format!("mkdir {}", p),
		FsOp::Write(p, c) => format!("write {} {}", p, c),
		FsOp::Symlink(s, d) => format!("link {} {}", s, d),
		FsOp::RemoveFile(p) => format!("rm {}", p),
		FsOp::RemoveDir(p) => format!("rmdir {}", p),
	}
}

fn shows(ops : &[FsOp]) -> Vec<String>
{
	return ops.iter().map(show).collect();
}

#[test]
fn joining_paths()
{
	assert_eq!(join("/a", "b"), "/a/b");
	assert_eq!(join("/a/", "b"), "/a/b");
	assert_eq!(join("", "b"), "b");
	assert_eq!(join("/a", "/b"), "/b");
	assert_eq!(join("/a", ""), "/a/");
}

#[test]
fn counting_entries()
{
	assert_eq!(count_entries(&["g1", "x", "g2"], ""), 3);
	assert_eq!(count_entries(&["c.1", "c.2", "strings", "c"], "c."), 2);
	// a name shorter than two characters is never counted with a prefix
	assert_eq!(count_entries(&["c"], "c"), 0);
	assert_eq!(count_entries(&["cc"], "c"), 1);
	assert_eq!(count_entries(&[], "c."), 0);
}

#[test]
fn interfaces_and_attachment()
{
	let list = vec!["20980000.usb".to_string(), "other".to_string()];
	assert_eq!(first_interface(&list), Some("20980000.usb".to_string()));
	assert_eq!(first_interface(&[]), None);
	assert!(has_interfaces(&list));
	assert!(!has_interfaces(&[]));
	assert_eq!(attached("20980000.usb\n"), Some("20980000.usb".to_string()));
	assert_eq!(attached("\n"), None);
	assert_eq!(attached(""), None);
}

#[test]
fn creating_a_gadget()
{
	let (g, ops) = Gadget::create(0, "0", "Nathan Rossi", "Pi Zero");
	assert_eq!(g.name(), "g1");
	assert_eq!(g.path(), "/sys/kernel/config/usb_gadget/g1");
	assert_eq!(shows(&ops), vec![
		"mkdir /sys/kernel/config/usb_gadget/g1",
		"write /sys/kernel/config/usb_gadget/g1/idVendor 0x1d6b",
		"write /sys/kernel/config/usb_gadget/g1/idProduct 0x0104",
		"mkdir /sys/kernel/config/usb_gadget/g1/strings/0x409",
		"write /sys/kernel/config/usb_gadget/g1/strings/0x409/serialnumber 0",
		"write /sys/kernel/config/usb_gadget/g1/strings/0x409/manufacturer Nathan Rossi",
		"write /sys/kernel/config/usb_gadget/g1/strings/0x409/product Pi Zero",
		"mkdir /sys/kernel/config/usb_gadget/g1/functions",
		"mkdir /sys/kernel/config/usb_gadget/g1/configs",
	]);
	let (g2, _) = Gadget::create(11, "s", "m", "p");
	assert_eq!(g2.name(), "g12");
}

#[test]
fn functions_and_configs()
{
	let (g, _) = Gadget::create(0, "0", "m", "p");
	let (serial, ops) = g.add_function("acm", "GS0");
	assert_eq!(serial, "acm.GS0");
	assert_eq!(shows(&ops), vec![
		"mkdir /sys/kernel/config/usb_gadget/g1/functions",
		"mkdir /sys/kernel/config/usb_gadget/g1/functions/acm.GS0",
	]);
	let (config, ops) = g.add_config("Serial + Networking", &vec!["acm.GS0".to_string(), "eem.usb0".to_string()], 0);
	assert_eq!(config, "c.1");
	assert_eq!(shows(&ops), vec![
		"mkdir /sys/kernel/config/usb_gadget/g1/configs",
		"mkdir /sys/kernel/config/usb_gadget/g1/configs/c.1",
		"mkdir /sys/kernel/config/usb_gadget/g1/configs/c.1/strings/0x409",
		"write /sys/kernel/config/usb_gadget/g1/configs/c.1/strings/0x409/configuration Serial + Networking",
		"link /sys/kernel/config/usb_gadget/g1/functions/acm.GS0 /sys/kernel/config/usb_gadget/g1/configs/c.1/acm.GS0",
		"link /sys/kernel/config/usb_gadget/g1/functions/eem.usb0 /sys/kernel/config/usb_gadget/g1/configs/c.1/eem.usb0",
	]);
	assert_eq!(show(&g.attach("udc0")), "write /sys/kernel/config/usb_gadget/g1/UDC udc0");
	assert_eq!(show(&g.detach()), "write /sys/kernel/config/usb_gadget/g1/UDC ");
	assert_eq!(show(&g.remove_function("acm.GS0")), "rmdir /sys/kernel/config/usb_gadget/g1/functions/acm.GS0");
}

#[test]
fn taking_a_gadget_down()
{
	let (g, _) = Gadget::create(1, "0", "m", "p");
	let configs = vec![("c.1".to_string(), vec!["acm.GS0".to_string()])];
	let functions = vec!["acm.GS0".to_string()];
	assert_eq!(shows(&g.cleanup(&configs, &functions)), vec![
		"write /sys/kernel/config/usb_gadget/g2/UDC ",
		"rm /sys/kernel/config/usb_gadget/g2/configs/c.1/acm.GS0",
		"rmdir /sys/kernel/config/usb_gadget/g2/configs/c.1/strings/0x409",
		"rmdir /sys/kernel/config/usb_gadget/g2/configs/c.1",
		"rmdir /sys/kernel/config/usb_gadget/g2/functions/acm.GS0",
		"rmdir /sys/kernel/config/usb_gadget/g2/strings/0x409",
		"rmdir /sys/kernel/config/usb_gadget/g2",
	]);
	assert_eq!(shows(&g.remove_config("c.2", &vec![])), vec![
		"rmdir /sys/kernel/config/usb_gadget/g2/configs/c.2/strings/0x409",
		"rmdir /sys/kernel/config/usb_gadget/g2/configs/c.2",
	]);
}
