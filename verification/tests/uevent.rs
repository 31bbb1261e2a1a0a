use rust_simple_init::uevent::EventData;

#[test]
fn kernel_message_properties()
{
	let msg = b"add@/devices/usb1\0ACTION=add\0DEVPATH=/devices/usb1\0SUBSYSTEM=usb\0";
	let e = EventData::parse_message(msg, false).unwrap();
	assert!(!e.is_udev());
	assert_eq!(e.get("ACTION"), Some("add"));
	assert_eq!(e.get("SUBSYSTEM"), Some("usb"));
	assert_eq!(e.devpath(), Some("/devices/usb1"));
	// the header line has no '=' and is passed over
	assert_eq!(e.get("add@/devices/usb1"), None);
	assert_eq!(e.get("MODALIAS"), None);
}

#[test]
fn value_keeps_later_equals_and_last_value_wins()
{
	let msg = b"A=1\0B=x=y\0A=2";
	let e = EventData::parse_message(msg, false).unwrap();
	assert_eq!(e.get("A"), Some("2"));
	assert_eq!(e.get("B"), Some("x=y"));
}

#[test]
fn udev_header_is_skipped()
{
	let mut msg = vec![b'h'; 40];
	msg.extend_from_slice(b"ACTION=remove\0");
	let e = EventData::parse_message(&msg, true).unwrap();
	assert!(e.is_udev());
	assert_eq!(e.get("ACTION"), Some("remove"));

	// shorter than the header
	assert!(EventData::parse_message(&[b'x'; 39], true).is_none());
	// a header with nothing after it has no properties
	let empty = EventData::parse_message(&[b'x'; 40], true).unwrap();
	assert_eq!(empty.get("ACTION"), None);
}

#[test]
fn empty_message_is_no_event()
{
	assert!(EventData::parse_message(b"", false).is_none());
	assert!(EventData::parse_message(b"", true).is_none());
}

#[test]
fn invalid_utf8_property_is_passed_over()
{
	let msg = b"GOOD=1\0BAD=\xff\xfe\0NEXT=2";
	let e = EventData::parse_message(msg, false).unwrap();
	assert_eq!(e.get("GOOD"), Some("1"));
	assert_eq!(e.get("BAD"), None);
	assert_eq!(e.get("NEXT"), Some("2"));
}

#[test]
fn single_properties()
{
	assert_eq!(EventData::parse_prop(b"KEY=value"), Some(("KEY".to_string(), "value".to_string())));
	assert_eq!(EventData::parse_prop(b"KEY="), Some(("KEY".to_string(), String::new())));
	assert_eq!(EventData::parse_prop(b"=v"), Some((String::new(), "v".to_string())));
	assert_eq!(EventData::parse_prop(b"a=b=c"), Some(("a".to_string(), "b=c".to_string())));
	assert_eq!(EventData::parse_prop(b"novalue"), None);
	assert_eq!(EventData::parse_prop(b"K=\xc3"), None);
	assert_eq!(EventData::parse_prop("NAME=Grüße".as_bytes()), Some(("NAME".to_string(), "Grüße".to_string())));
}

#[test]
fn insert_replaces_and_get_reads_back()
{
	let mut e = EventData::new(false);
	assert_eq!(e.get("ACTION"), None);
	e.insert("ACTION", "add");
	e.insert("DEVPATH", "/x");
	e.insert("ACTION", "remove");
	assert_eq!(e.get("ACTION"), Some("remove"));
	assert_eq!(e.devpath(), Some("/x"));
	assert!(!e.is_udev());
	assert!(EventData::new(true).is_udev());
}
