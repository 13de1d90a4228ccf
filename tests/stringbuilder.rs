use sqlbuilder::stringbuilder::StringBuilder;

fn strings(v: &[&str]) -> Vec<String> {
    v.iter().map(|s| s.to_string()).collect()
}

#[test]
fn write_strings_skips_empty_pieces() {
    let mut sb = StringBuilder::new();
    sb.write_strings(&strings(&["", "b", "", "c"]), ", ");
    assert_eq!(sb.to_string(), "b, c");
}

#[test]
fn write_strings_all_empty_writes_nothing() {
    let mut sb = StringBuilder::new();
    sb.write_string("x");
    sb.write_strings(&strings(&["", ""]), ", ");
    sb.write_strings(&[], ", ");
    assert_eq!(sb.to_string(), "x");
}

#[test]
fn write_leading_spaces_only_after_text() {
    let mut sb = StringBuilder::new();
    sb.write_leading_string("SELECT");
    sb.write_leading_string("*");
    sb.write_rune(';');
    assert_eq!(sb.to_string(), "SELECT *;");
    sb.reset();
    assert_eq!(sb.to_string(), "");
}
