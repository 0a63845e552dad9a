use codex_tui::text::{chars_of, decimal_chars, lines, push_debug_list, string_of};

#[test]
fn lines_agree_with_std() {
    for s in ["", "a", "a\n", "a\nb", "a\r\nb\r\n", "\n\n", "a\r", "x\ry\n\rz", "é\n\r\n"] {
        let got: Vec<String> = lines(&chars_of(s)).iter().map(|l| string_of(l)).collect();
        let want: Vec<String> = s.lines().map(|l| l.to_string()).collect();
        assert_eq!(got, want, "for {s:?}");
    }
}

#[test]
fn decimals_agree_with_display() {
    for n in [0u64, 7, 10, 99, 100, 12345, u64::MAX] {
        assert_eq!(string_of(&decimal_chars(n)), n.to_string());
    }
}

#[test]
fn debug_list_agrees_with_vec_debug() {
    for items in [vec![], vec!["a".to_string()], vec!["a\"b".to_string(), "tab\t".to_string(), "é\n".to_string()]] {
        let mut v = Vec::new();
        push_debug_list(&mut v, &items);
        assert_eq!(string_of(&v), format!("{:?}", items));
    }
}
