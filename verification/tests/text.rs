use tlspuffin::term::pretty::{remove_fn_prefix, remove_prefix};
use tlspuffin::text::{decimal_string, join_lines};

#[test]
fn decimal_numerals() {
    assert_eq!(decimal_string(0), "0");
    assert_eq!(decimal_string(7), "7");
    assert_eq!(decimal_string(10), "10");
    assert_eq!(decimal_string(1235), "1235");
    assert_eq!(decimal_string(u64::MAX), "18446744073709551615");
}

#[test]
fn join_lines_puts_separator_between_items() {
    let items = vec!["a".to_string(), "b".to_string(), "c".to_string()];
    assert_eq!(join_lines(&items, ", "), "a, b, c");
    assert_eq!(join_lines(&Vec::new(), ", "), "");
    assert_eq!(join_lines(&vec!["x".to_string()], "\n"), "x");
}

#[test]
fn remove_prefix_strips_module_paths() {
    assert_eq!(remove_prefix("tlspuffin::tls::fn_messages::fn_client_hello"), "fn_client_hello");
    assert_eq!(remove_prefix("fn_finished"), "fn_finished");
    assert_eq!(
        remove_prefix("alloc::vec::Vec<rustls::msgs::handshake::ServerExtension>"),
        "Vec<ServerExtension>"
    );
    assert_eq!(remove_prefix("a:::b"), "b");
    assert_eq!(remove_prefix("a::"), "");
    assert_eq!(remove_prefix("a<"), "a<>");
    assert_eq!(remove_prefix("x::A<y::B<z::C>>"), "C>>");
}

#[test]
fn remove_fn_prefix_takes_out_every_occurrence() {
    assert_eq!(remove_fn_prefix("fn_client_hello"), "client_hello");
    assert_eq!(remove_fn_prefix("fn_fn_x"), "x");
    assert_eq!(remove_fn_prefix("a_fn_b"), "a_b");
    assert_eq!(remove_fn_prefix("fn"), "fn");
    assert_eq!(remove_fn_prefix(""), "");
}
