use ci_tools::text::{contains_text, parse_u32, parse_u32_or_zero, split_thousands_suffix};

#[test]
fn parse_u32_agrees_with_std() {
    let inputs = [
        "", "+", "-", "0", "+5", "-5", "42", "007", "4294967295", "4294967296", "+4294967295",
        "12a", "a12", " 1", "1 ", "\u{0663}", "99999999999", "++1", "+-1", "1.5",
    ];
    for s in inputs.iter() {
        assert_eq!(parse_u32(s), s.parse::<u32>().ok(), "input {:?}", s);
    }
}

#[test]
fn parse_u32_or_zero_defaults() {
    assert_eq!(parse_u32_or_zero("400"), 400);
    assert_eq!(parse_u32_or_zero("4294967296"), 0);
    assert_eq!(parse_u32_or_zero("x"), 0);
}

#[test]
fn contains_text_agrees_with_std() {
    let cases = [
        ("feature/chore/.+", "/chore/.+"),
        ("main", "/fix/.+"),
        ("", ""),
        ("abc", ""),
        ("", "a"),
        ("aab", "ab"),
        ("ab", "abc"),
        ("héllo wörld", "ö"),
        ("docs/*.md", "*.md"),
    ];
    for (h, n) in cases.iter() {
        assert_eq!(contains_text(h, n), h.contains(n), "{:?} in {:?}", n, h);
    }
}

#[test]
fn thousands_suffix_is_split() {
    assert_eq!(split_thousands_suffix("56.20k"), ("56.20".to_string(), true));
    assert_eq!(split_thousands_suffix("8.07kk"), ("8.07".to_string(), true));
    assert_eq!(split_thousands_suffix("k"), ("".to_string(), true));
    assert_eq!(split_thousands_suffix("62.00"), ("62.00".to_string(), false));
    assert_eq!(split_thousands_suffix("k1"), ("k1".to_string(), false));
    assert_eq!(split_thousands_suffix(""), ("".to_string(), false));
}

#[test]
fn thousands_suffix_matches_std_trim() {
    for s in ["56.20k", "1kkk", "k", "abc", "", "kk2k"].iter() {
        let (number, thousands) = split_thousands_suffix(s);
        assert_eq!(thousands, s.ends_with('k'));
        if thousands {
            assert_eq!(number, s.trim_end_matches('k'));
        } else {
            assert_eq!(number, *s);
        }
    }
}
