use fujimura_silence::text::{chars_of, lowercase_chars, string_of, trim_chars, uppercase_chars};

#[test]
fn trims_unicode_white_space() {
    let t = trim_chars(&chars_of("\u{3000} a b \t\n"));
    assert_eq!(string_of(&t), "a b");
    assert_eq!(string_of(&trim_chars(&chars_of("   "))), "");
}

#[test]
fn ascii_case_mapping_only() {
    assert_eq!(string_of(&lowercase_chars(&chars_of("AbÉ-Z"))), "abÉ-z");
    assert_eq!(string_of(&uppercase_chars(&chars_of("abé-z"))), "ABé-Z");
}
