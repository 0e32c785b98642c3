use installer::ask::{
    check_port, judge_url, read_port, read_token, read_url, PortVerdict, UrlError, UrlFault,
    DEFAULT_PORT, DEFAULT_URL,
};
use installer::http::client::InstallerInfo;
use installer::installer_config::InstallerConfig;

fn store_with(port: u32, app_name: &str) -> InstallerConfig {
    let mut installer_config = InstallerConfig::new("AA".to_string());
    installer_config
        .add(InstallerInfo {
            url: Some("u".to_string()),
            installer_token: "t".to_string(),
            app_name: app_name.to_string(),
            app_version: "1".to_string(),
            app_file_name: "f".to_string(),
            app_run_port: port,
            jdk_name: "jdk".to_string(),
            jdk_version: "8".to_string(),
            jdk_file_name: "j".to_string(),
        })
        .unwrap();
    installer_config
}

#[test]
fn url_defaults_to_the_usual_platform() {
    assert_eq!("https://blocklang.com", DEFAULT_URL);
    assert_eq!(Ok(DEFAULT_URL.to_string()), read_url(""));
    assert_eq!(Ok(DEFAULT_URL.to_string()), read_url(" \r\n"));
}

#[test]
fn url_is_taken_without_the_whitespace_around_it() {
    assert_eq!(Ok("http://127.0.0.1:8080".to_string()), read_url("  http://127.0.0.1:8080\n"));
    assert_eq!(Ok("HTTPS://Example.com/a b".to_string()), read_url("HTTPS://Example.com/a b"));
}

#[test]
fn url_must_be_for_http_or_https() {
    assert_eq!(Err(UrlError::UnsupportedScheme), read_url("ftp://example.com"));
    assert_eq!(Err(UrlError::UnsupportedScheme), read_url("file:///etc/hosts"));
    assert_eq!(Err(UrlError::UnsupportedScheme), read_url("mailto:a@example.com"));
}

#[test]
fn url_must_parse() {
    assert_eq!(Err(UrlError::EmptyHost), read_url("http://"));
    assert_eq!(Err(UrlError::EmptyHost), read_url("https://:80"));
    assert_eq!(Err(UrlError::Invalid), read_url("blocklang.com"));
    assert_eq!(Err(UrlError::Invalid), read_url("http://[::1"));
    assert_eq!(Err(UrlError::Invalid), read_url("http://example.com:99999"));
}

#[test]
fn url_is_judged_by_its_scheme() {
    assert_eq!(Ok(()), judge_url(Ok("http".to_string())));
    assert_eq!(Ok(()), judge_url(Ok("https".to_string())));
    assert_eq!(Err(UrlError::UnsupportedScheme), judge_url(Ok("HTTP".to_string())));
    assert_eq!(Err(UrlError::UnsupportedScheme), judge_url(Ok("httpss".to_string())));
    assert_eq!(Err(UrlError::UnsupportedScheme), judge_url(Ok("".to_string())));
    assert_eq!(Err(UrlError::EmptyHost), judge_url(Err(UrlFault::EmptyHost)));
    assert_eq!(Err(UrlError::Invalid), judge_url(Err(UrlFault::Malformed)));
}

#[test]
fn token_is_trimmed() {
    assert_eq!("abc", read_token(" abc\r\n"));
    assert_eq!("a b", read_token("\u{a0}a b\u{2003}"));
    assert_eq!("", read_token(" \t"));
}

#[test]
fn port_defaults_to_80() {
    assert_eq!(80, DEFAULT_PORT);
    assert_eq!(Some(80), read_port(""));
    assert_eq!(Some(80), read_port("\n"));
}

#[test]
fn port_must_be_a_number() {
    assert_eq!(Some(8080), read_port("8080\n"));
    assert_eq!(Some(8080), read_port(" +8080 "));
    assert_eq!(Some(0), read_port("0"));
    assert_eq!(Some(7), read_port("007"));
    assert_eq!(Some(4294967295), read_port("4294967295"));
    assert_eq!(None, read_port("4294967296"));
    assert_eq!(None, read_port("99999999999999999999999"));
    assert_eq!(None, read_port("-1"));
    assert_eq!(None, read_port("80a"));
    assert_eq!(None, read_port("8 0"));
    assert_eq!(None, read_port("+"));
    assert_eq!(None, read_port("++1"));
    assert_eq!(None, read_port("٨٠"));
}

#[test]
fn port_with_a_unit_is_refused() {
    let installer_config = store_with(80, "demo");
    assert_eq!(
        PortVerdict::Registered { app_name: "demo".to_string() },
        check_port(&installer_config, 80, None)
    );
    assert_eq!(
        PortVerdict::Registered { app_name: "demo".to_string() },
        check_port(&installer_config, 80, Some(5))
    );
}

#[test]
fn port_held_by_something_else_is_refused() {
    let installer_config = store_with(80, "demo");
    assert_eq!(PortVerdict::Occupied, check_port(&installer_config, 8080, Some(5)));
    assert_eq!(PortVerdict::Free, check_port(&installer_config, 8080, None));
}
