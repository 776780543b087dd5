use fetch_info::{art_row, display, print_cl, render, system_data, FetchError, ART_ROWS};

#[test]
fn colour_wrapping() {
    assert_eq!(print_cl("hi".to_string(), 219), "\x1b[38;5;219mhi\x1b[0m");
    assert_eq!(print_cl("".to_string(), -3), "\x1b[38;5;-3m\x1b[0m");
}

#[test]
fn three_info_lines_fill_three_rows() {
    let info = vec!["a".to_string(), "b".to_string(), "c".to_string()];
    let rows = render(&info);
    assert_eq!(rows.len(), 9);
    assert_eq!(rows[0], format!("{} a", art_row(0)));
    assert_eq!(rows[2], format!("{} c", art_row(2)));
    for i in 3..9 {
        assert_eq!(rows[i], art_row(i));
    }
}

#[test]
fn extra_info_lines_are_not_shown() {
    let info: Vec<String> = (0..12).map(|i| format!("l{i}")).collect();
    let rows = render(&info);
    assert_eq!(rows.len(), ART_ROWS);
    assert_eq!(rows[8], format!("{} l8", art_row(8)));
}

#[test]
fn logo_rows() {
    assert_eq!(art_row(0), "\x1b[38;5;112m   (    ((     ");
    assert_eq!(art_row(8), "\x1b[38;5;196m      #        \x1b[0m");
}

#[test]
fn lines_skip_failures() {
    let lines = system_data(
        Err(FetchError::EnvVar),
        Ok("Arch".to_string()),
        "6.1.0",
        Err(FetchError::Parse),
        Ok("bash".to_string()),
        Err(FetchError::Io),
    );
    assert_eq!(
        lines,
        vec![
            "".to_string(),
            "\x1b[38;5;219mOS: Arch\x1b[0m".to_string(),
            "\x1b[38;5;219mKR: 6.1.0\x1b[0m".to_string(),
            "\x1b[38;5;219mSH: bash\x1b[0m".to_string(),
        ]
    );
}

#[test]
fn full_display() {
    let rows = display(
        Ok("alice@box".to_string()),
        Ok("Arch".to_string()),
        "6.1.0",
        Ok("1 Minute".to_string()),
        Ok("bash".to_string()),
        Ok("1MiB / 2MiB ".to_string()),
    );
    assert_eq!(rows.len(), 9);
    assert_eq!(rows[0], format!("{} \x1b[38;5;212malice@box\x1b[0m", art_row(0)));
    assert_eq!(rows[1], format!("{} ", art_row(1)));
    assert_eq!(rows[6], format!("{} \x1b[38;5;219mME: 1MiB / 2MiB \x1b[0m", art_row(6)));
    assert_eq!(rows[7], art_row(7));
    assert_eq!(rows[8], art_row(8));
}
