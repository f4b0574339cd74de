use file_backup::text::{decimal_string, remove_all_of, split_lines_of, to_slash_path};
use file_backup::utility::{duration_string, get_percent, get_time_string};

/// The percentage as the window works it out: in single-precision floating point.
fn f32_percent(num: usize, all: usize) -> usize {
    let val = num as f32 / all as f32;
    (val * 100.0) as usize
}

#[test]
fn percent_text_pads_to_two_digits() {
    assert_eq!(get_percent(0), "00%");
    assert_eq!(get_percent(7), "07%");
    assert_eq!(get_percent(33), "33%");
    assert_eq!(get_percent(100), "100%");
    assert_eq!(get_percent(250), "250%");
}

#[test]
fn percent_text_of_float_percentages() {
    assert_eq!(get_percent(f32_percent(53, 100)), "52%");
    assert_eq!(get_percent(f32_percent(1, 3)), "33%");
    assert_eq!(get_percent(f32_percent(3, 3)), "100%");
    assert_eq!(get_percent(f32_percent(0, 0)), "00%");
    assert_eq!(get_percent(f32_percent(5, 0)), format!("{}%", usize::MAX));
}

#[test]
fn percent_text_of_largest_value() {
    assert_eq!(get_percent(usize::MAX), format!("{}%", usize::MAX));
}

#[test]
fn decimal_texts() {
    assert_eq!(decimal_string(0), "0");
    assert_eq!(decimal_string(9), "9");
    assert_eq!(decimal_string(10), "10");
    assert_eq!(decimal_string(u64::MAX), u64::MAX.to_string());
}

#[test]
fn duration_with_hours() {
    assert_eq!(duration_string(3725), "1 時間 2 分 5 秒");
    assert_eq!(duration_string(3600), "1 時間 0 分 0 秒");
}

#[test]
fn duration_with_minutes() {
    assert_eq!(duration_string(125), "2 分 5 秒");
    assert_eq!(duration_string(60), "1 分 0 秒");
}

#[test]
fn duration_with_seconds_only() {
    assert_eq!(duration_string(0), "0 秒");
    assert_eq!(duration_string(59), "59 秒");
}

#[test]
fn duration_parts_add_up() {
    for total in [0u64, 1, 59, 60, 61, 3599, 3600, 3661, 86399, 90061] {
        let h = total / 3600;
        let m = (total % 3600) / 60;
        let s = total % 60;
        assert_eq!(h * 3600 + m * 60 + s, total);
        let text = duration_string(total);
        if h > 0 {
            assert_eq!(text, format!("{} 時間 {} 分 {} 秒", h, m, s));
        } else if m > 0 {
            assert_eq!(text, format!("{} 分 {} 秒", m, s));
        } else {
            assert_eq!(text, format!("{} 秒", s));
        }
    }
}

#[test]
fn time_between_forward_clock() {
    assert_eq!(get_time_string(1000, 1000 + 3725), "1 時間 2 分 5 秒");
    assert_eq!(get_time_string(-5, 5), "10 秒");
}

#[test]
fn time_between_backward_clock_wraps() {
    let total = (5i64).wrapping_sub(10) as u64;
    assert_eq!(get_time_string(10, 5), duration_string(total));
    assert_eq!(get_time_string(i64::MIN, i64::MAX), duration_string(u64::MAX));
}

#[test]
fn lines_are_split_on_newline() {
    assert_eq!(split_lines_of("a\nb"), vec!["a".to_string(), "b".to_string()]);
    assert_eq!(split_lines_of(""), vec![String::new()]);
    assert_eq!(split_lines_of("a\n"), vec!["a".to_string(), String::new()]);
    assert_eq!(split_lines_of("\n\n"), vec![String::new(), String::new(), String::new()]);
}

#[test]
fn lines_join_back_to_text() {
    for text in ["", "one", "C:/a\nD:/b\n", "\nx\n\ny", "日本\n語"] {
        let lines = split_lines_of(text);
        assert_eq!(lines.join("\n"), text);
        assert!(lines.iter().all(|l| !l.contains('\n')));
        let std_lines: Vec<String> = text.split('\n').map(|s| s.to_string()).collect();
        assert_eq!(lines, std_lines);
    }
}

#[test]
fn remove_all_matches_replace() {
    for (s, pat) in [
        ("C:/src/a/b", "C:/src"),
        ("aabb", "ab"),
        ("abab", "ab"),
        ("abc", ""),
        ("", "x"),
        ("xyz", "xyzw"),
        ("ペアペア", "ア"),
    ] {
        assert_eq!(remove_all_of(s, pat), s.replace(pat, ""));
    }
    assert_eq!(remove_all_of("aabb", "ab"), "ab");
}

#[test]
fn backslashes_become_slashes() {
    assert_eq!(to_slash_path("C:\\a\\b"), "C:/a/b");
    assert_eq!(to_slash_path("no/change"), "no/change");
    assert_eq!(to_slash_path(""), "");
}
