use rlox::text::{append_decimal, chars_of};

#[test]
fn append_decimal_writes_the_numeral_behind_the_text() {
    let mut out = String::from("n=");
    append_decimal(&mut out, 0);
    assert_eq!(out, "n=0");
    append_decimal(&mut out, 7);
    assert_eq!(out, "n=07");
    append_decimal(&mut out, 10);
    assert_eq!(out, "n=0710");
    append_decimal(&mut out, 120034);
    assert_eq!(out, "n=0710120034");
}

#[test]
fn append_decimal_of_the_largest_number() {
    let mut out = String::new();
    append_decimal(&mut out, usize::MAX);
    assert_eq!(out, usize::MAX.to_string());
}

#[test]
fn chars_of_gives_each_character() {
    assert_eq!(chars_of(""), Vec::<char>::new());
    assert_eq!(chars_of("a+b"), vec!['a', '+', 'b']);
    assert_eq!(chars_of("é\n京"), vec!['é', '\n', '京']);
}
