use rust_simple_init::runtime::{FdTable, TokenKind};

#[test]
fn fixed_tokens()
{
	let t = FdTable::new();
	assert_eq!(t.classify(0), TokenKind::Signal);
	assert_eq!(t.classify(1), TokenKind::Device);
	assert_eq!(t.classify(2), TokenKind::Unknown);
	assert!(t.has_free_token());
	assert_eq!(t.get_unused_token(), 2);
	assert_eq!(t.get_fd_from_token(2), None);
}

#[test]
fn registered_descriptors_are_found_again()
{
	let mut t = FdTable::new();
	assert_eq!(t.register(10), 2);
	assert_eq!(t.register(11), 3);
	assert_eq!(t.register(10), 4);
	assert_eq!(t.get_fd_from_token(2), Some(10));
	assert_eq!(t.get_fd_from_token(3), Some(11));
	assert_eq!(t.get_fd_from_token(4), Some(10));
	assert_eq!(t.classify(3), TokenKind::Fd(11));
	assert_eq!(t.classify(5), TokenKind::Unknown);
	assert_eq!(t.get_unused_token(), 5);
}
