use tmux_status::identity::{choose_hostname, ip_and_hostname};

fn s(text: &str) -> Option<String> {
    Some(text.to_string())
}

#[test]
fn override_comes_first() {
    assert_eq!(choose_hostname(s("mine"), s("sys"), s("file")), "mine");
    assert_eq!(choose_hostname(s("mine"), None, s("file")), "mine");
    assert_eq!(choose_hostname(s("mine"), s("sys"), None), "mine");
    assert_eq!(choose_hostname(s("mine"), None, None), "mine");
}

#[test]
fn system_name_comes_second() {
    assert_eq!(choose_hostname(None, s("sys"), s("file")), "sys");
    assert_eq!(choose_hostname(None, s("sys"), None), "sys");
}

#[test]
fn hostname_file_comes_last() {
    assert_eq!(choose_hostname(None, None, s("file")), "file");
}

#[test]
fn no_source_gives_a_blank_label() {
    assert_eq!(choose_hostname(None, None, None), "");
}

#[test]
fn a_source_that_was_read_wins_even_when_empty() {
    assert_eq!(choose_hostname(s(""), s("sys"), s("file")), "");
    assert_eq!(choose_hostname(None, s(""), s("file")), "");
    assert_eq!(choose_hostname(s("\n"), s("sys"), s("file")), "");
}

#[test]
fn the_label_loses_its_closing_line_end() {
    assert_eq!(choose_hostname(s("mine\n"), s("sys\n"), s("file\n")), "mine");
    assert_eq!(choose_hostname(None, s("sys\n"), s("file\n")), "sys");
    assert_eq!(choose_hostname(None, None, s("file\n")), "file");
    assert_eq!(choose_hostname(None, s("sys\r\n"), None), "sys");
    assert_eq!(choose_hostname(None, s("sys\n\n\n"), None), "sys");
    assert_eq!(choose_hostname(s(" my host \n"), None, None), " my host ");
    assert_eq!(choose_hostname(s("two\nlines\n"), None, None), "two\nlines");
}

#[test]
fn identity_is_hostname_space_address() {
    assert_eq!(ip_and_hostname("myhost", Some("10.0.0.5")), "myhost 10.0.0.5");
}

#[test]
fn identity_of_command_outputs_is_one_line() {
    assert_eq!(ip_and_hostname("myhost\n", Some("10.0.0.5\n")), "myhost 10.0.0.5");
    assert_eq!(ip_and_hostname("myhost\r\n", Some("10.0.0.5\r\n")), "myhost 10.0.0.5");
    let hostname = choose_hostname(None, s("myhost\n"), s("other\n"));
    assert_eq!(ip_and_hostname(&hostname, Some("10.0.0.5\n")), "myhost 10.0.0.5");
}

#[test]
fn only_closing_line_ends_are_dropped() {
    assert_eq!(ip_and_hostname("\nmy\nhost\n", Some("\n10.0.0.5")), "\nmy\nhost \n10.0.0.5");
    assert_eq!(ip_and_hostname("myhost \n", Some(" 10.0.0.5\n")), "myhost   10.0.0.5");
}

#[test]
fn a_missing_part_shows_blank() {
    assert_eq!(ip_and_hostname("myhost", None), "myhost ");
    assert_eq!(ip_and_hostname("myhost\n", None), "myhost ");
    assert_eq!(ip_and_hostname("", Some("10.0.0.5")), " 10.0.0.5");
    assert_eq!(ip_and_hostname("", Some("\n")), " ");
    assert_eq!(ip_and_hostname("", None), " ");
    assert_eq!(ip_and_hostname(&choose_hostname(None, None, None), None), " ");
}
