use todosh::text::{same_text, trim};

#[test]
fn trims_both_ends() {
    assert_eq!(trim("  buy milk \n"), "buy milk");
    assert_eq!(trim("\tx"), "x");
    assert_eq!(trim("x\r\n"), "x");
}

#[test]
fn trims_unicode_white_space() {
    assert_eq!(trim("\u{3000}\tfoo \u{a0}"), "foo");
}

#[test]
fn keeps_inner_white_space() {
    assert_eq!(trim(" b a  z "), "b a  z");
}

#[test]
fn trims_blank_text_to_nothing() {
    assert_eq!(trim(""), "");
    assert_eq!(trim("   "), "");
    assert_eq!(trim("\n"), "");
}

#[test]
fn leaves_trimmed_text_alone() {
    assert_eq!(trim("a"), "a");
    assert_eq!(trim("héllo wörld"), "héllo wörld");
}

#[test]
fn trimming_twice_is_trimming_once() {
    let once = trim("  a, \"b\"  ");
    assert_eq!(trim(once), once);
}

#[test]
fn trim_agrees_with_the_standard_library() {
    let samples = vec!["", " ", "a", " a", "a ", " a b ", "\u{2003}x\u{2003}", "\u{200b}x", "é "];
    for s in samples {
        assert_eq!(trim(s), s.trim());
    }
}

#[test]
fn compares_texts() {
    assert!(same_text("", ""));
    assert!(same_text("true", "true"));
    assert!(!same_text("true", "True"));
    assert!(!same_text("true", "tru"));
    assert!(!same_text("a", "ab"));
    assert!(same_text("żółw", "żółw"));
    assert!(!same_text("żółw", "zolw"));
}
