use bullet_kan::text::{decimal, drop_lines, replace_all};

#[test]
fn decimal_notation() {
    for n in [0, 7, 9, 10, 11, 99, 100, 1024, 32768, 1_234_567_890, usize::MAX] {
        assert_eq!(decimal(n), format!("{n}"));
    }
}

#[test]
fn replacing() {
    assert_eq!(replace_all("aXbXc", "X", "12"), "a12b12c");
    assert_eq!(replace_all("", "X", "12"), "");
    assert_eq!(replace_all("aaaaa", "aa", "b"), "bba");
    assert_eq!(replace_all("abab", "ab", ""), "");
    assert_eq!(replace_all("nothing", "none", "x"), "nothing");
    for (text, pattern, value) in [("DECL_D_INDECL_D_IN", "DECL_D_IN", "7"), ("ababab", "aba", "c")] {
        assert_eq!(replace_all(text, pattern, value), text.replace(pattern, value));
    }
}

#[test]
fn dropping_lines() {
    for text in ["", "\n", "a", "a\nb", "a\nb\n", "a\r\nb\r\n", "\r\n\nx", "a\rb\r\n", "x\r"] {
        for skip in 0..4 {
            let expected: String = text.lines().skip(skip).map(|x| format!("{x}\n")).collect();
            assert_eq!(drop_lines(text, skip), expected, "{text:?} without {skip}");
        }
    }
}
