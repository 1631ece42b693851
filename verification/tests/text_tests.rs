use chess_analizer::text::{parse_i32, parse_u32, parse_u64, split_chars, split_ws, trim_chars};

fn chars(s: &str) -> Vec<char> {
    s.chars().collect()
}

#[test]
fn integer_parsing_follows_std() {
    for s in ["0", "42", "+7", "-0", "007", "4294967295", "4294967296", "", "+", "-", "1 2", " 1", "x", "-5"] {
        assert_eq!(parse_u32(&chars(s)), s.parse::<u32>().ok(), "u32 {:?}", s);
        assert_eq!(parse_u64(&chars(s)), s.parse::<u64>().ok(), "u64 {:?}", s);
    }
    for s in ["0", "-1", "+1", "2147483647", "2147483648", "-2147483648", "-2147483649", "--1", "-", "12a", "٣"] {
        assert_eq!(parse_i32(&chars(s)), s.parse::<i32>().ok(), "i32 {:?}", s);
    }
}

#[test]
fn splitting_and_trimming() {
    let ts: Vec<String> = split_ws(&chars("  info  depth\t3\n")).iter().map(|t| t.iter().collect()).collect();
    assert_eq!(ts, vec!["info", "depth", "3"]);
    let ps: Vec<String> = split_chars(&chars("a,,b,"), ',').iter().map(|t| t.iter().collect()).collect();
    assert_eq!(ps, vec!["a", "", "b", ""]);
    let t: String = trim_chars(&chars("\u{3000} x y \t")).iter().collect();
    assert_eq!(t, "x y");
}
