use fetch_info::{
    format_uptime, get_os_name, get_ram_usage, get_shell, get_uptime, get_user_data,
    parse_uptime_seconds, FetchError,
};

#[test]
fn os_name_from_pretty_name() {
    let r = get_os_name("NAME=X\nPRETTY_NAME=\"Foo Bar\"\n");
    assert_eq!(r, Ok("Foo Bar".to_string()));
}

#[test]
fn os_name_missing_key() {
    assert_eq!(get_os_name("NAME=X\nID=x\n"), Err(FetchError::NotFound));
    assert_eq!(get_os_name(""), Err(FetchError::NotFound));
}

#[test]
fn os_name_malformed_line_first() {
    assert_eq!(get_os_name("NAME=X\ngarbage\nPRETTY_NAME=\"A\"\n"), Err(FetchError::Parse));
}

#[test]
fn os_name_malformed_line_after_match_is_not_read() {
    assert_eq!(get_os_name("PRETTY_NAME=Arch\ngarbage\n"), Ok("Arch".to_string()));
}

#[test]
fn os_name_crlf_and_quotes() {
    assert_eq!(get_os_name("NAME=X\r\nPRETTY_NAME=\"\"Deb\"\r\n"), Ok("Deb".to_string()));
    assert_eq!(get_os_name("PRETTY_NAME="), Ok("".to_string()));
}

#[test]
fn ram_usage_example() {
    let r = get_ram_usage("MemTotal:    8000000 kB\nMemAvailable:    2000000 kB\n");
    assert_eq!(r, Ok("5859MiB / 7812MiB ".to_string()));
}

#[test]
fn ram_usage_with_other_lines() {
    let text = "MemTotal:       16303428 kB\nMemFree:         1234567 kB\nMemAvailable:    8151714 kB\nBuffers:          100000 kB\nbroken line\n";
    assert_eq!(get_ram_usage(text), Ok("7960MiB / 15921MiB ".to_string()));
}

#[test]
fn ram_usage_stops_before_malformed_tail() {
    let text = "MemTotal: 2048 kB\nMemAvailable: 1024 kB\nOther: 1 kB\nno colon here\n";
    assert_eq!(get_ram_usage(text), Ok("1MiB / 2MiB ".to_string()));
}

#[test]
fn ram_usage_stops_once_both_fields_are_found() {
    let text = "MemTotal:    8000000 kB\nMemAvailable:    2000000 kB\nbogus\n";
    assert_eq!(get_ram_usage(text), Ok("5859MiB / 7812MiB ".to_string()));
    let repeated = "MemTotal: 2048 kB\nMemAvailable: 1024 kB\nMemTotal: 9 kB\n";
    assert_eq!(get_ram_usage(repeated), Ok("1MiB / 2MiB ".to_string()));
}

#[test]
fn ram_usage_errors() {
    assert_eq!(get_ram_usage("MemTotal: 2048 kB\n"), Err(FetchError::NotFound));
    assert_eq!(get_ram_usage(""), Err(FetchError::NotFound));
    assert_eq!(get_ram_usage("MemTotal: x kB\n"), Err(FetchError::Parse));
    assert_eq!(get_ram_usage("no colon\nMemTotal: 1 kB\n"), Err(FetchError::Parse));
    assert_eq!(get_ram_usage("MemTotal: 9999999999 kB\n"), Err(FetchError::Parse));
}

#[test]
fn ram_usage_negative_values_round_toward_zero() {
    let text = "MemTotal: -2048 kB\nMemAvailable: 1000 kB\n";
    assert_eq!(get_ram_usage(text), Ok("-2MiB / -2MiB ".to_string()));
}

#[test]
fn uptime_seconds_only() {
    assert_eq!(get_uptime("45.3 10.1"), Ok("45 Seconds".to_string()));
    assert_eq!(get_uptime("0.99 1.0\n"), Ok("0 Seconds".to_string()));
}

#[test]
fn uptime_hours_and_minutes() {
    assert_eq!(get_uptime("3725.0 0.0"), Ok("1 Hour 2 Minutes".to_string()));
    assert_eq!(get_uptime("90.0 0"), Ok("1 Minute".to_string()));
    assert_eq!(get_uptime("7200.5 3.0"), Ok("2 Hours ".to_string()));
    assert_eq!(get_uptime("7260 3.0"), Ok("2 Hours 1 Minute".to_string()));
}

#[test]
fn uptime_malformed() {
    assert_eq!(get_uptime("45.3"), Err(FetchError::Parse));
    assert_eq!(get_uptime("abc 1"), Err(FetchError::Parse));
    assert_eq!(get_uptime(". 1"), Err(FetchError::Parse));
    assert_eq!(get_uptime("1.2.3 1"), Err(FetchError::Parse));
    assert_eq!(get_uptime(""), Err(FetchError::Parse));
    assert_eq!(get_uptime("1e3 1"), Err(FetchError::Parse));
    assert_eq!(get_uptime("-5.0 1"), Err(FetchError::Parse));
    assert_eq!(get_uptime("+ 1"), Err(FetchError::Parse));
}

#[test]
fn uptime_number_forms() {
    assert_eq!(parse_uptime_seconds("5. 1"), Ok(5));
    assert_eq!(parse_uptime_seconds("+45.3 1"), Ok(45));
    assert_eq!(parse_uptime_seconds(".5 1"), Ok(0));
    assert_eq!(parse_uptime_seconds("123456.78\t9"), Ok(123456));
}

#[test]
fn uptime_format_values() {
    assert_eq!(format_uptime(59), "59 Seconds");
    assert_eq!(format_uptime(60), "1 Minute");
    assert_eq!(format_uptime(3600), "1 Hour ");
    assert_eq!(format_uptime(90061), "25 Hours 1 Minute");
}

#[test]
fn shell_name_from_path() {
    assert_eq!(get_shell(Some("/usr/bin/bash".to_string())), Ok("bash".to_string()));
    assert_eq!(get_shell(Some("zsh".to_string())), Ok("zsh".to_string()));
}

#[test]
fn shell_errors() {
    assert_eq!(get_shell(None), Err(FetchError::EnvVar));
    assert_eq!(get_shell(Some("".to_string())), Err(FetchError::NotFound));
    assert_eq!(get_shell(Some("///".to_string())), Err(FetchError::NotFound));
}

#[test]
fn user_line() {
    assert_eq!(get_user_data(Some("alice".to_string()), "box"), Ok("alice@box".to_string()));
    assert_eq!(get_user_data(None, "box"), Err(FetchError::EnvVar));
}

#[test]
fn parsers_give_same_result_twice() {
    let os = "NAME=X\nPRETTY_NAME=\"Foo Bar\"\n";
    assert_eq!(get_os_name(os), get_os_name(os));
    let mem = "MemTotal:    8000000 kB\nMemAvailable:    2000000 kB\n";
    assert_eq!(get_ram_usage(mem), get_ram_usage(mem));
    assert_eq!(get_uptime("3725.0 0.0"), get_uptime("3725.0 0.0"));
}
