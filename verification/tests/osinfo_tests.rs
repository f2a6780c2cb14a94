use rs_nats_lib::osinfo::parse_os_release;

#[test]
fn picks_the_pretty_name_line() {
    let text = "NAME=\"Debian GNU/Linux\"\nVERSION_ID=\"12\"\nPRETTY_NAME=\"Debian GNU/Linux 12 (bookworm)\"\nID=debian\n";
    assert_eq!(
        parse_os_release(text),
        Some(String::from("Debian GNU/Linux 12 (bookworm)"))
    );
}

#[test]
fn first_pretty_name_line_wins() {
    let text = "PRETTY_NAME=\"first\"\nPRETTY_NAME=\"second\"\n";
    assert_eq!(parse_os_release(text), Some(String::from("first")));
}

#[test]
fn unquoted_value_is_kept_as_is() {
    assert_eq!(parse_os_release("PRETTY_NAME=Alpine"), Some(String::from("Alpine")));
}

#[test]
fn carriage_returns_are_stripped() {
    assert_eq!(
        parse_os_release("PRETTY_NAME=\"Ubuntu 22.04\"\r\nID=ubuntu\r\n"),
        Some(String::from("Ubuntu 22.04"))
    );
}

#[test]
fn text_without_pretty_name_yields_nothing() {
    assert_eq!(parse_os_release("NAME=x\nID=y\n"), None);
    assert_eq!(parse_os_release(""), None);
    assert_eq!(parse_os_release("PRETTY_NAM=almost"), None);
}
