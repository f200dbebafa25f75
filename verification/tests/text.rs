use atomic_bomb_engine::text::{
    chars_equal, chars_of, decimal_string, find_chars, split_chars, split_lines, trim_chars,
};

fn s(v: &[char]) -> String {
    v.iter().collect()
}

#[test]
fn trimming() {
    assert_eq!(s(&trim_chars(&chars_of("  a b \t"))), "a b");
    assert_eq!(s(&trim_chars(&chars_of("\u{3000}x\u{3000}"))), "x");
    assert_eq!(s(&trim_chars(&chars_of("   "))), "");
}

#[test]
fn lines_and_fields() {
    let lines: Vec<String> = split_lines(&chars_of("a\r\nb\n\nc")).iter().map(|l| s(l)).collect();
    assert_eq!(lines, vec!["a", "b", "", "c"]);
    let trailing: Vec<String> = split_lines(&chars_of("a\n")).iter().map(|l| s(l)).collect();
    assert_eq!(trailing, vec!["a"]);
    assert!(split_lines(&chars_of("")).is_empty());
    let fields: Vec<String> = split_chars(&chars_of("1,,3,"), ',').iter().map(|f| s(f)).collect();
    assert_eq!(fields, vec!["1", "", "3", ""]);
}

#[test]
fn numbers_and_search() {
    assert_eq!(decimal_string(0), "0");
    assert_eq!(decimal_string(1234), "1234");
    assert_eq!(find_chars(&chars_of("abcabc"), &chars_of("ca"), 0), Some(2));
    assert_eq!(find_chars(&chars_of("abcabc"), &chars_of("x"), 0), None);
    assert_eq!(find_chars(&chars_of("abcabc"), &chars_of("a"), 1), Some(3));
    assert!(chars_equal(&chars_of("héllo"), &chars_of("héllo")));
    assert!(!chars_equal(&chars_of("a"), &chars_of("ab")));
    assert_eq!(s(&chars_of("中文")), "中文");
}
