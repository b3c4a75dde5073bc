use raolv::common::captcha;

/// The four expression texts of a captcha SVG (left operand, operator,
/// right operand, `=`): the last four non-empty `<text>` contents.
fn expression_texts(svg: &str) -> Vec<String> {
    let mut texts: Vec<String> = svg
        .split("</text>")
        .filter_map(|s| {
            let idx = s.rfind('>')?;
            let t = s[idx + 1..].trim();
            if t.is_empty() {
                None
            } else {
                Some(t.to_string())
            }
        })
        .collect();
    texts.split_off(texts.len().saturating_sub(4))
}

#[test]
fn answer_matches_svg_expression() {
    for _ in 0..100 {
        let cap = captcha::generate();
        let texts = expression_texts(&cap.svg);
        assert_eq!(texts.len(), 4, "the svg holds left, operator, right and equals texts");
        let left: u8 = texts[0].parse().expect("left operand is a number");
        let op = texts[1].as_str();
        let right: u8 = texts[2].parse().expect("right operand is a number");
        assert_eq!(texts[3], "=");
        let expected = match op {
            "+" => left + right,
            "-" => left - right,
            _ => panic!("unknown operator: {op}"),
        };
        assert_eq!(cap.answer, expected, "svg expression {left}{op}{right} does not match the answer");
    }
}

#[test]
fn operands_within_range_and_svg_wellformed() {
    for _ in 0..50 {
        let cap = captcha::generate();
        let texts = expression_texts(&cap.svg);
        let left: u8 = texts[0].parse().unwrap();
        let right: u8 = texts[2].parse().unwrap();
        assert!((1..=9).contains(&left) && (1..=9).contains(&right));
        assert!(cap.svg.starts_with("<svg"));
        assert!(cap.svg.contains("viewBox=\"0 0 160 40\""));
        assert!(cap.svg.trim_end().ends_with("</svg>"));
        assert!(cap.answer <= 18);
    }
}

#[test]
fn expression_orders_a_difference_larger_first() {
    assert_eq!(captcha::expression(3, 5, true), (3, '+', 5, 8));
    assert_eq!(captcha::expression(7, 2, false), (7, '-', 2, 5));
    assert_eq!(captcha::expression(2, 7, false), (7, '-', 2, 5));
    assert_eq!(captcha::expression(4, 4, false), (4, '-', 4, 0));
    assert_eq!(captcha::expression(9, 9, true), (9, '+', 9, 18));
}

#[test]
fn parse_u8_follows_std() {
    assert_eq!(captcha::parse_u8("0"), Some(0));
    assert_eq!(captcha::parse_u8("255"), Some(255));
    assert_eq!(captcha::parse_u8("+7"), Some(7));
    assert_eq!(captcha::parse_u8("007"), Some(7));
    assert_eq!(captcha::parse_u8("256"), None);
    assert_eq!(captcha::parse_u8(""), None);
    assert_eq!(captcha::parse_u8("+"), None);
    assert_eq!(captcha::parse_u8("-1"), None);
    assert_eq!(captcha::parse_u8(" 7"), None);
    assert_eq!(captcha::parse_u8("1x"), None);
    for s in ["0", "1", "9", "18", "99", "200", "254", "255", "256", "1000", "+3", "abc"] {
        assert_eq!(captcha::parse_u8(s), s.parse::<u8>().ok(), "{s}");
    }
}

#[test]
fn answer_accepted_needs_a_live_matching_answer() {
    assert!(captcha::answer_accepted("8", Some(8), Some(1000), 999));
    assert!(!captcha::answer_accepted("8", Some(8), Some(1000), 1000));
    assert!(!captcha::answer_accepted("8", Some(8), None, 0));
    assert!(captcha::answer_accepted("8", Some(8), None, -1));
    assert!(!captcha::answer_accepted("9", Some(8), Some(1000), 0));
    assert!(!captcha::answer_accepted("8", None, Some(1000), 0));
    assert!(!captcha::answer_accepted("eight", Some(8), Some(1000), 0));
    // the stored value is taken as a byte
    assert!(captcha::answer_accepted("8", Some(264), Some(1000), 0));
}

#[test]
fn captcha_image_is_a_base64_data_uri() {
    assert_eq!(captcha::captcha_image_src("<svg/>"), "data:image/svg+xml;base64,PHN2Zy8+");
    assert_eq!(captcha::captcha_image_src("a"), "data:image/svg+xml;base64,YQ==");
    assert_eq!(captcha::captcha_image_src("ab"), "data:image/svg+xml;base64,YWI=");
    assert_eq!(captcha::captcha_image_src(""), "data:image/svg+xml;base64,");
    let cap = captcha::generate();
    let src = captcha::captcha_image_src(&cap.svg);
    assert_eq!(src.len(), "data:image/svg+xml;base64,".len() + (cap.svg.len() + 2) / 3 * 4);
}
