use rust_simple_init::kmod::{modules_from_string, module_is_loaded, AliasMap, AliasMapEntry};

#[test]
fn proc_modules_parsing()
{
	let mut v = modules_from_string(
		"usb_common 16384 3 uvcvideo,xhci_hcd,usbcore, Live 0x0000000000000000\n\
		wmi 36864 2 intel_wmi_thunderbolt,wmi_bmof, Live 0x0000000000000000\n\
		battery 20480 1 thinkpad_acpi, Live 0x0000000000000000\n\
		i2c_hid 32768 0 - Live 0x0000000000000000\n");

	if let Some(e) = v.next() {
		assert_eq!(e.name, "usb_common");
		assert_eq!(e.size, 16384);
	} else {
		assert!(false);
	}

	if let Some(e) = v.next() {
		assert_eq!(e.name, "wmi");
		assert_eq!(e.size, 36864);
	} else {
		assert!(false);
	}

	if let Some(e) = v.next() {
		assert_eq!(e.name, "battery");
		assert_eq!(e.size, 20480);
	} else {
		assert!(false);
	}

	if let Some(e) = v.next() {
		assert_eq!(e.name, "i2c_hid");
		assert_eq!(e.size, 32768);
	} else {
		assert!(false);
	}

	assert!(v.next().is_none());
}

#[test]
fn module_alias_matching()
{
	let entry = AliasMapEntry { pattern : "usb:v*p*d*dc*dsc*dp*ic03isc*ip*in*".to_string(), module : "usbhid".to_string() };
	assert_eq!(entry.matches("usb:v0627p0001d0000dc00dsc00dp00ic03isc01ip01in00"), true);
	assert_eq!(entry.matches("hid:b0003g0001v00000627p00000001"), false);
}

#[test]
fn modules_alias_parsing()
{
	let v = AliasMap::from_string(
		"# Aliases extracted from modules themselves.\n\
		alias cpu:type:x86,ven0000fam0006mod0086:feature:* intel_uncore\n\
		alias blowfish-asm blowfish_x86_64\n\
		alias acpi*:APP0002:* apple_bl\n\
		alias pci:v00001002d00007151sv*sd*bc*sc*i* radeon\n\
		alias usb:v*p*d*dc*dsc*dp*ic03isc*ip*in* usbhid\n\
		").unwrap();

	assert_eq!(v.resolve("usb:v0627p0001d0000dc00dsc00dp00ic03isc01ip01in00"), Some("usbhid"));
	assert_eq!(v.resolve("bad"), None);
}

fn entry(pattern: &str) -> AliasMapEntry {
	AliasMapEntry { pattern: pattern.to_string(), module: "m".to_string() }
}

#[test]
fn module_size_that_is_not_a_number_reads_as_zero()
{
	let mut v = modules_from_string("foo bar 1 -\n");
	let e = v.next().unwrap();
	assert_eq!(e.name, "foo");
	assert_eq!(e.size, 0);
	assert!(v.next().is_none());
}

#[test]
fn module_size_with_plus_sign_and_overflow()
{
	let mut v = modules_from_string("a +12 0 -\nb 99999999999999999999999 0 -\n");
	assert_eq!(v.next().unwrap().size, 12);
	assert_eq!(v.next().unwrap().size, 0);
	assert!(v.next().is_none());
}

#[test]
fn module_lines_with_too_few_fields_are_skipped()
{
	let mut v = modules_from_string("\n  \nshort 1 2\n  spaced 5 0 -  \nlast 7 0 -");
	let e = v.next().unwrap();
	assert_eq!(e.name, "spaced");
	assert_eq!(e.size, 5);
	let e = v.next().unwrap();
	assert_eq!(e.name, "last");
	assert_eq!(e.size, 7);
	assert!(v.next().is_none());
	assert!(v.next().is_none());
}

#[test]
fn module_loaded_lookup()
{
	let data = "usb_common 16384 3 uvcvideo, Live 0x0\nwmi 36864 2 x, Live 0x0\n";
	assert!(module_is_loaded(data, "wmi"));
	assert!(module_is_loaded(data, "usb_common"));
	assert!(!module_is_loaded(data, "usb"));
	assert!(!module_is_loaded("", "wmi"));
}

#[test]
fn wildcard_matching_rules()
{
	// a lone wildcard matches anything
	assert!(entry("*").matches("anything at all"));
	assert!(entry("*").matches(""));
	// a wildcard takes at least one character: here it takes the 'b',
	// and the name ends while it still waits for one
	assert!(entry("a*bc").matches("abd"));
	assert!(!entry("a*bc").matches("abbd"));
	assert!(entry("a*bc").matches("axxbc"));
	// the wildcard stops at the first occurrence of the next character
	assert!(!entry("a*bc").matches("axbxbc"));
	// names longer than the pattern, or shorter, are accepted on a common prefix
	assert!(entry("abc").matches("abcdef"));
	assert!(entry("abc").matches("ab"));
	assert!(!entry("abc").matches("abd"));
}

#[test]
fn alias_resolution_takes_first_match()
{
	let v = AliasMap::from_reader("alias pci:* first\nalias pci:v1* second\n");
	assert_eq!(v.len(), 2);
	assert_eq!(v.resolve("pci:v1234"), Some("first"));
	let empty = AliasMap::new();
	assert_eq!(empty.resolve("pci:v1234"), None);
}

#[test]
fn alias_lines_need_prefix_and_three_fields()
{
	let v = AliasMap::from_reader(" alias x y\nalias onlytwo\naliasfoo p m\nalias p2 m2 extra\n");
	assert_eq!(v.len(), 2);
	assert_eq!(v.resolve("p"), Some("m"));
	// "p" already matches "p2": a name may go on past the pattern
	assert_eq!(v.resolve("p2"), Some("m"));
	assert_eq!(v.resolve("q2"), None);
	assert_eq!(v.resolve("x"), None);
}

#[test]
fn earlier_alias_lines_take_precedence()
{
	let first = "alias usb:v0627* first_driver\n";
	let second = "alias usb:v* generic_driver\nalias pci:* pci_driver\n";
	let joined = format!("{}{}", first, second);
	let map = AliasMap::from_reader(&joined);
	assert_eq!(map.len(), 3);
	assert_eq!(map.resolve("usb:v0627p0001"), Some("first_driver"));
	assert_eq!(map.resolve("usb:v1234p0001"), Some("generic_driver"));
	assert_eq!(map.resolve("pci:v8086"), Some("pci_driver"));
	assert_eq!(map.resolve("hid:b0003"), None);
	assert_eq!(AliasMap::from_reader(second).resolve("usb:v0627p0001"), Some("generic_driver"));
}
