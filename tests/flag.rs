use neko_quiz::quiz::Flag;

fn flag() -> Flag {
    Flag { env: "QUIZ_FLAG".to_string(), file: "/flag".to_string(), static_str: "flag{static}".to_string() }
}

#[test]
fn environment_wins_over_file() {
    let r = flag().resolve(Some("flag{env}".to_string()), Some("flag{file}\n".to_string()));
    assert_eq!(r, "flag{env}");
}

#[test]
fn empty_environment_value_counts_as_set() {
    let r = flag().resolve(Some(String::new()), Some("flag{file}".to_string()));
    assert_eq!(r, "");
}

#[test]
fn file_used_without_environment_and_trimmed() {
    let r = flag().resolve(None, Some("  flag{file} \r\n\t\n".to_string()));
    assert_eq!(r, "  flag{file}");
}

#[test]
fn static_fallback_without_other_sources() {
    assert_eq!(flag().resolve(None, None), "flag{static}");
}

#[test]
fn file_trailing_vertical_tab_and_unicode_space_trimmed() {
    assert_eq!(flag().resolve(None, Some("F\u{b}".to_string())), "F");
    assert_eq!(flag().resolve(None, Some("F\u{3000}\n".to_string())), "F");
}
