use sci_file_viewer::{chart_candidates, data_fields, is_chart_data, split_lines};

fn pairs(v: &[(&str, &str)]) -> Vec<(String, String)> {
    v.iter().map(|(a, b)| (a.to_string(), b.to_string())).collect()
}

fn samples(content: &str) -> Vec<(f64, f64)> {
    let mut out = Vec::new();
    for (a, b) in chart_candidates(content) {
        if let (Ok(x), Ok(y)) = (a.parse::<f64>(), b.parse::<f64>()) {
            if x.is_finite() && y.is_finite() {
                out.push((x, y));
            }
        }
    }
    if is_chart_data(out.len()) {
        out
    } else {
        Vec::new()
    }
}

#[test]
fn comment_line_is_skipped() {
    assert_eq!(chart_candidates("1 2\n#comment\n3 4\n"), pairs(&[("1", "2"), ("3", "4")]));
    assert_eq!(samples("1 2\n#comment\n3 4\n"), vec![(1.0, 2.0), (3.0, 4.0)]);
}

#[test]
fn single_sample_is_not_chart_data() {
    assert_eq!(chart_candidates("1 2\n"), pairs(&[("1", "2")]));
    assert!(samples("1 2\n").is_empty());
    assert!(!is_chart_data(1));
    assert!(is_chart_data(2));
}

#[test]
fn nan_line_is_skipped() {
    assert_eq!(
        chart_candidates("1 NaN\n2 3\n4 5\n"),
        pairs(&[("1", "NaN"), ("2", "3"), ("4", "5")])
    );
    assert_eq!(samples("1 NaN\n2 3\n4 5\n"), vec![(2.0, 3.0), (4.0, 5.0)]);
}

#[test]
fn separators_and_comments() {
    assert_eq!(
        data_fields("  1.5,\t-2e3 , 7  "),
        Some(("1.5".to_string(), "-2e3".to_string()))
    );
    assert_eq!(data_fields("; note 1 2"), None);
    assert_eq!(data_fields("   # 1 2"), None);
    assert_eq!(data_fields("   "), None);
    assert_eq!(data_fields("42"), None);
    assert_eq!(data_fields(",,,3,,,4"), Some(("3".to_string(), "4".to_string())));
}

#[test]
fn lines_split_like_str_lines() {
    assert_eq!(split_lines("a\r\nb\n\nc"), vec!["a", "b", "", "c"]);
    assert_eq!(split_lines(""), Vec::<String>::new());
    assert_eq!(split_lines("x\n"), vec!["x"]);
    assert_eq!(split_lines("x\r"), vec!["x\r"]);
    assert_eq!(split_lines("\n"), vec![""]);
    let text = "é ü\nß";
    assert_eq!(split_lines(text), text.lines().collect::<Vec<_>>());
}

#[test]
fn blank_and_short_lines_give_no_candidates() {
    assert!(chart_candidates("\n\n  \nabc\n").is_empty());
    assert_eq!(chart_candidates("x y z\n"), pairs(&[("x", "y")]));
}

#[test]
fn lines_agree_with_std() {
    for text in ["a\rb\r\n", "\r\n\r\n", "x\r", "one\ntwo", "\n\n", "tail\r\n", " \t\n"] {
        let expect: Vec<String> = text.lines().map(String::from).collect();
        assert_eq!(split_lines(text), expect);
    }
}

#[test]
fn unicode_white_space_separates_fields() {
    assert_eq!(
        data_fields("\u{3000}1\u{a0}2\u{2003}"),
        Some(("1".to_string(), "2".to_string()))
    );
    let line = " 7\u{85}8 ";
    let std_fields: Vec<&str> =
        line.trim().split(|c: char| c.is_whitespace() || c == ',').filter(|s| !s.is_empty()).collect();
    assert_eq!(std_fields, vec!["7", "8"]);
    assert_eq!(data_fields(line), Some(("7".to_string(), "8".to_string())));
}
