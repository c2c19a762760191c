use app_inventory_generator::text::{
    chars_of, lex_less, lines_of, split_chars, split_ws, splitn_chars, string_of, trim_chars,
    trim_ws, CharClass,
};

fn strs(v: Vec<Vec<char>>) -> Vec<String> {
    v.into_iter().map(|c| c.into_iter().collect()).collect()
}

#[test]
fn lines_like_std() {
    for s in ["", "a", "a\n", "a\r\nb", "\n", "a\r", "x\n\ny\n", "one\ntwo\r\n"] {
        let expected: Vec<String> = s.lines().map(|l| l.to_string()).collect();
        assert_eq!(strs(lines_of(s)), expected, "input {:?}", s);
    }
}

#[test]
fn split_like_std() {
    for s in ["", "a", "a|b", "|", "a||b|", "x|y|z"] {
        let v = chars_of(s);
        let expected: Vec<String> = s.split('|').map(|l| l.to_string()).collect();
        assert_eq!(strs(split_chars(&v, CharClass::Is('|'))), expected);
    }
}

#[test]
fn splitn_like_std() {
    for s in ["a\tb\tc\td", "a", "a\tb", "\t\t"] {
        let v = chars_of(s);
        for n in 1..4usize {
            let expected: Vec<String> = s.splitn(n, '\t').map(|l| l.to_string()).collect();
            assert_eq!(strs(splitn_chars(&v, n, '\t')), expected);
        }
    }
}

#[test]
fn split_whitespace_like_std() {
    for s in ["", "  a  b\tc\n", "\u{3000}x\u{a0}y", "single"] {
        let v = chars_of(s);
        let expected: Vec<String> = s.split_whitespace().map(|l| l.to_string()).collect();
        assert_eq!(strs(split_ws(&v)), expected);
    }
}

#[test]
fn trim_like_std() {
    for s in ["", "  ", " a b ", "\u{2003}x\u{205f}", "\"\"q\""] {
        let v = chars_of(s);
        assert_eq!(string_of(&trim_ws(&v)), s.trim());
        assert_eq!(string_of(&trim_chars(&v, CharClass::Is('"'))), s.trim_matches('"'));
    }
}

#[test]
fn order_like_std() {
    let words = ["", "a", "ab", "b", "B", "é", "z", "aa"];
    for x in words {
        for y in words {
            assert_eq!(lex_less(&chars_of(x), &chars_of(y)), x < y, "{:?} {:?}", x, y);
        }
    }
}
