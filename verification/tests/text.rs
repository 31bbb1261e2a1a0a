use rust_simple_init::text::{
	chars_of, line_end, parse_usize, push_decimal, slice_chars, split_chars, starts_with, str_eq,
	string_of, trim_chars, trim_end_chars,
};

fn s(v : &[char]) -> String
{
	return string_of(v);
}

#[test]
fn decimal_round_trip()
{
	for n in [0u64, 7, 10, 16384, 4294967295, u64::MAX] {
		let mut v = Vec::new();
		push_decimal(n, &mut v);
		assert_eq!(s(&v), n.to_string());
		if n <= usize::MAX as u64 {
			assert_eq!(parse_usize(&v), Some(n as usize));
		}
	}
}

#[test]
fn parsing_numbers()
{
	assert_eq!(parse_usize(&chars_of("16384")), Some(16384));
	assert_eq!(parse_usize(&chars_of("007")), Some(7));
	assert_eq!(parse_usize(&chars_of("")), None);
	assert_eq!(parse_usize(&chars_of("12a")), None);
	assert_eq!(parse_usize(&chars_of("-1")), None);
	assert_eq!(parse_usize(&chars_of("+1")), Some(1));
	assert_eq!(parse_usize(&chars_of("99999999999999999999999")), None);
}

#[test]
fn trimming_and_slicing()
{
	assert_eq!(s(&trim_chars(&chars_of("  a b \n"))), "a b");
	assert_eq!(s(&trim_end_chars(&chars_of(" x\t\n"))), " x");
	assert_eq!(s(&slice_chars(&chars_of("abcdef"), 1, 4)), "bcd");
	assert!(starts_with(&chars_of("/dev/tty"), &chars_of("/dev/")));
	assert!(!starts_with(&chars_of("/de"), &chars_of("/dev/")));
	assert!(str_eq("net", "net"));
	assert!(!str_eq("net", "nett"));
}

#[test]
fn splitting_and_lines()
{
	let parts = split_chars(&chars_of("a b  c"), ' ');
	let texts : Vec<String> = parts.iter().map(|p| s(p)).collect();
	assert_eq!(texts, vec!["a", "b", "", "c"]);
	let text = chars_of("one\ntwo");
	assert_eq!(line_end(&text, 0), 4);
	assert_eq!(line_end(&text, 4), 7);
}

#[test]
fn split_fields_join_back()
{
	for text in ["alias usb:v* usbhid", "", " ", "a  b ", "x"] {
		let parts = split_chars(&chars_of(text), ' ');
		let texts : Vec<String> = parts.iter().map(|p| s(p)).collect();
		assert_eq!(texts.join(" "), text);
	}
}
