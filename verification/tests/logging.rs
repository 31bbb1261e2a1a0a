use rust_simple_init::logging::Logger;

#[test]
fn lines_go_to_every_output_in_order()
{
	let mut l = Logger::new();
	assert_eq!(l.writers(), 0);
	assert_eq!(l.add(), 0);
	assert_eq!(l.add(), 1);
	assert_eq!(l.writers(), 2);
	l.log("hello");
	l.service_log("init", "started");
	assert_eq!(l.take_pending(), vec![
		(0, "hello\n".to_string()),
		(1, "hello\n".to_string()),
		(0, "[init] started\n".to_string()),
		(1, "[init] started\n".to_string()),
	]);
	assert!(l.take_pending().is_empty());
}

#[test]
fn prefix_comes_first()
{
	let mut l = Logger::new();
	l.prefix = Some("test".to_string());
	l.add();
	l.service_log("mount", "/proc mounting");
	assert_eq!(l.take_pending(), vec![(0, "[test] [mount] /proc mounting\n".to_string())]);
	l.output("raw");
	assert_eq!(l.take_pending(), vec![(0, "raw".to_string())]);
}

#[test]
fn no_output_no_writes()
{
	let mut l = Logger::new();
	l.log("nobody hears this");
	assert!(l.take_pending().is_empty());
	l.add();
	l.log("");
	assert_eq!(l.take_pending(), vec![(0, "\n".to_string())]);
}
