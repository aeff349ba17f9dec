use deft_cli::app_id::is_valid_appid;
use regex::Regex;

#[test]
fn valid_identifiers_accepted() {
    assert!(is_valid_appid("fun.kason.deftapp"));
    assert!(is_valid_appid("fun.kason.deft_demo"));
    assert!(is_valid_appid("a.b"));
    assert!(is_valid_appid("_a._b9.C_0"));
    assert!(is_valid_appid("com.example.app"));
}

#[test]
fn invalid_identifiers_rejected() {
    assert!(!is_valid_appid("fun"));
    assert!(!is_valid_appid("1fun.kason"));
    assert!(!is_valid_appid("fun.kason."));
    assert!(!is_valid_appid(""));
    assert!(!is_valid_appid(".fun.kason"));
    assert!(!is_valid_appid("fun..kason"));
    assert!(!is_valid_appid("fun.1kason"));
    assert!(!is_valid_appid("fun-x.kason"));
    assert!(!is_valid_appid("fun.kason app"));
    assert!(!is_valid_appid("fün.kason"));
    assert!(!is_valid_appid("."));
}

#[test]
fn agrees_with_ascii_pattern() {
    let reg = Regex::new("^[a-zA-Z_][a-zA-Z0-9_]*([.][a-zA-Z_][a-zA-Z0-9_]*)+$").unwrap();
    let samples = [
        "a", "a.b", "a.b.c", "a..b", "a.", ".a", "9.a", "a.9", "a_.b_", "A.B", "a b.c", "ab.c-d",
        "x1.y2.z3", "_._", "__", "a.b.", "a/b.c",
    ];
    for s in samples {
        assert_eq!(is_valid_appid(s), reg.is_match(s), "{}", s);
    }
}
