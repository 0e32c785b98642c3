use installer::config::INSTALLER_CONFIG_FILE_NAME;
use installer::http::client::InstallerInfo;
use installer::installer_config::{ConfigError, Installer, InstallerConfig, InstallerData};
use std::cell::RefCell;

fn first_info() -> InstallerInfo {
    InstallerInfo {
        url: Some("1".to_string()),
        installer_token: "2".to_string(),
        app_name: "3".to_string(),
        app_version: "4".to_string(),
        app_file_name: "5".to_string(),
        app_run_port: 6_u32,
        jdk_name: "7".to_string(),
        jdk_version: "8".to_string(),
        jdk_file_name: "9".to_string(),
    }
}

fn second_info() -> InstallerInfo {
    InstallerInfo {
        url: Some("11".to_string()),
        installer_token: "22".to_string(),
        app_name: "33".to_string(),
        app_version: "44".to_string(),
        app_file_name: "55".to_string(),
        app_run_port: 66_u32,
        jdk_name: "77".to_string(),
        jdk_version: "88".to_string(),
        jdk_file_name: "99".to_string(),
    }
}

fn unit(port: u32, token: &str) -> Installer {
    Installer {
        url: "https://platform".to_string(),
        installer_token: token.to_string(),
        app_name: "app".to_string(),
        app_version: "1.0.0".to_string(),
        app_file_name: "app.jar".to_string(),
        app_run_port: port,
        jdk_name: "jdk".to_string(),
        jdk_version: "11".to_string(),
        jdk_file_name: "jdk.zip".to_string(),
    }
}

#[test]
fn from_config_file_not_exist() {
    let installer_config =
        InstallerConfig::create_default_config("not-exist-installer-config.toml", "AA:BB".to_string());
    assert_eq!("not-exist-installer-config.toml", installer_config.file_name());
    assert_eq!(
        &InstallerData { server_token: "AA:BB".to_string(), installers: Vec::new() },
        installer_config.get_data()
    );
}

#[test]
fn from_config_file_exist_has_server_token_and_empty_installer() {
    let data = InstallerData { server_token: "11".to_string(), installers: Vec::new() };
    let installer_config = InstallerConfig::from("exist-installer-config.toml", data).unwrap();
    assert_eq!("exist-installer-config.toml", installer_config.file_name());
    assert_eq!("11", installer_config.get_data().server_token);
    assert!(installer_config.get_data().installers.is_empty());
}

#[test]
fn from_data_with_a_port_twice() {
    let data = InstallerData {
        server_token: "11".to_string(),
        installers: vec![unit(80, "a"), unit(8080, "b"), unit(80, "c")],
    };
    assert!(InstallerConfig::from("twice.toml", data).is_none());
    let data = InstallerData {
        server_token: "11".to_string(),
        installers: vec![unit(80, "a"), unit(8080, "a")],
    };
    assert!(InstallerConfig::from("once.toml", data).is_some());
}

#[test]
fn new_uses_the_usual_file() {
    let installer_config = InstallerConfig::new("AA".to_string());
    assert_eq!("installer_config.toml", INSTALLER_CONFIG_FILE_NAME);
    assert_eq!(INSTALLER_CONFIG_FILE_NAME, installer_config.file_name());
    assert_eq!("AA", installer_config.get_data().server_token);
    assert_eq!(0, installer_config.get_data().installers.len());
}

#[test]
fn add_a_installer_success() {
    let mut installer_config =
        InstallerConfig::create_default_config("add_a_installer_success.toml", "AA".to_string());

    assert_eq!(Ok(()), installer_config.add(first_info()));

    assert_eq!(1, installer_config.get_data().installers.len());
    assert_eq!("AA", installer_config.get_data().server_token);
    assert_eq!(
        Installer {
            url: "1".to_string(),
            installer_token: "2".to_string(),
            app_name: "3".to_string(),
            app_version: "4".to_string(),
            app_file_name: "5".to_string(),
            app_run_port: 6,
            jdk_name: "7".to_string(),
            jdk_version: "8".to_string(),
            jdk_file_name: "9".to_string(),
        },
        installer_config.get_data().installers[0]
    );
}

#[test]
fn add_without_url_is_refused() {
    let mut installer_config = InstallerConfig::new("AA".to_string());
    let mut info = first_info();
    info.url = None;
    assert_eq!(Err(ConfigError::MissingUrl), installer_config.add(info));
    assert!(installer_config.get_data().installers.is_empty());
}

#[test]
fn add_on_a_taken_port_is_refused() {
    let mut installer_config = InstallerConfig::new("AA".to_string());
    assert_eq!(Ok(()), installer_config.add(first_info()));
    let mut again = second_info();
    again.app_run_port = 6;
    assert_eq!(Err(ConfigError::PortTaken), installer_config.add(again));
    assert_eq!(1, installer_config.get_data().installers.len());
    assert_eq!("2", installer_config.get_data().installers[0].installer_token);
}

#[test]
fn update_a_installer_success() {
    let mut installer_config =
        InstallerConfig::create_default_config("update_a_installer_success.toml", "AA".to_string());
    installer_config.add(first_info()).unwrap();

    let mut updated_installer_info = second_info();
    updated_installer_info.app_run_port = 6_u32;
    assert_eq!(Ok(true), installer_config.update(6, updated_installer_info));

    assert_eq!(
        vec![Installer {
            url: "11".to_string(),
            installer_token: "22".to_string(),
            app_name: "33".to_string(),
            app_version: "44".to_string(),
            app_file_name: "55".to_string(),
            app_run_port: 6,
            jdk_name: "77".to_string(),
            jdk_version: "88".to_string(),
            jdk_file_name: "99".to_string(),
        }],
        installer_config.get_data().installers
    );
}

#[test]
fn update_keeps_the_port_of_the_unit() {
    let mut installer_config = InstallerConfig::new("AA".to_string());
    installer_config.add(first_info()).unwrap();
    assert_eq!(Ok(true), installer_config.update(6, second_info()));
    assert_eq!(6, installer_config.get_data().installers[0].app_run_port);
    assert_eq!("22", installer_config.get_data().installers[0].installer_token);
}

#[test]
fn update_of_a_port_without_unit() {
    let mut installer_config = InstallerConfig::new("AA".to_string());
    installer_config.add(first_info()).unwrap();
    let mut without_url = second_info();
    without_url.url = None;
    assert_eq!(Ok(false), installer_config.update(7, without_url));
    assert_eq!(Ok(false), installer_config.update(66, second_info()));
    assert_eq!("2", installer_config.get_data().installers[0].installer_token);
}

#[test]
fn update_without_url_is_refused() {
    let mut installer_config = InstallerConfig::new("AA".to_string());
    installer_config.add(first_info()).unwrap();
    let mut without_url = second_info();
    without_url.url = None;
    assert_eq!(Err(ConfigError::MissingUrl), installer_config.update(6, without_url));
    assert_eq!("1", installer_config.get_data().installers[0].url);
    assert_eq!("4", installer_config.get_data().installers[0].app_version);
}

#[test]
fn get_by_port_not_exist() {
    let installer_config =
        InstallerConfig::create_default_config("get_by_port_not_exist.toml", "AA".to_string());

    assert_eq!(None, installer_config.get_by_port(8080));
}

#[test]
fn get_by_port_one_installer_success() {
    let mut installer_config = InstallerConfig::create_default_config(
        "get_by_port_one_installer_success.toml",
        "AA".to_string(),
    );
    installer_config.add(first_info()).unwrap();

    assert_eq!("1", installer_config.get_by_port(6).unwrap().url);
}

#[test]
fn get_by_port_two_installer_success() {
    let mut installer_config = InstallerConfig::create_default_config(
        "get_by_port_two_installer_success.toml",
        "AA".to_string(),
    );
    installer_config.add(first_info()).unwrap();
    installer_config.add(second_info()).unwrap();

    assert_eq!("11", installer_config.get_by_port(66).unwrap().url);
    assert_eq!("1", installer_config.get_by_port(6).unwrap().url);
    assert_eq!(None, installer_config.get_by_port(60));
}

#[test]
fn remove_by_installer_token_not_exist() {
    let mut installer_config = InstallerConfig::create_default_config(
        "remove_by_installer_token_not_exist.toml",
        "AA".to_string(),
    );

    assert_eq!(0, installer_config.get_data().installers.len());
    installer_config.remove_by_installer_token("not-exist-installer-token");
    assert_eq!(0, installer_config.get_data().installers.len());
}

#[test]
fn remove_by_installer_token_removes_the_first_match_only() {
    let data = InstallerData {
        server_token: "s".to_string(),
        installers: vec![unit(1, "a"), unit(2, "b"), unit(3, "a"), unit(4, "c")],
    };
    let mut installer_config = InstallerConfig::from("f.toml", data).unwrap();
    installer_config.remove_by_installer_token("a");
    let ports: Vec<u32> =
        installer_config.get_data().installers.iter().map(|i| i.app_run_port).collect();
    assert_eq!(vec![2, 3, 4], ports);
    installer_config.remove_by_installer_token("c");
    installer_config.remove_by_installer_token("zz");
    let ports: Vec<u32> =
        installer_config.get_data().installers.iter().map(|i| i.app_run_port).collect();
    assert_eq!(vec![2, 3], ports);
}

#[test]
fn remove_by_port_removes_the_unit_on_the_port() {
    let data = InstallerData {
        server_token: "s".to_string(),
        installers: vec![unit(80, "a"), unit(8080, "a"), unit(808, "b")],
    };
    let mut installer_config = InstallerConfig::from("f.toml", data).unwrap();
    installer_config.remove_by_port(8080);
    installer_config.remove_by_port(8);
    let ports: Vec<u32> =
        installer_config.get_data().installers.iter().map(|i| i.app_run_port).collect();
    assert_eq!(vec![80, 808], ports);
    assert_eq!("s", installer_config.get_data().server_token);
}

#[test]
fn remove_all_success() {
    let mut installer_config =
        InstallerConfig::create_default_config("remove_all_success.toml", "AA".to_string());
    installer_config.add(first_info()).unwrap();
    installer_config.add(second_info()).unwrap();

    assert_eq!(2, installer_config.get_data().installers.len());

    installer_config.remove_all(|_| true);

    assert_eq!(0, installer_config.get_data().installers.len());
    assert_eq!("AA", installer_config.get_data().server_token);
}

#[test]
fn remove_all_keeps_what_the_predicate_refuses() {
    let data = InstallerData {
        server_token: "s".to_string(),
        installers: vec![unit(1, "a"), unit(2, "b"), unit(3, "c"), unit(4, "d"), unit(5, "e")],
    };
    let mut installer_config = InstallerConfig::from("f.toml", data).unwrap();
    let asked = RefCell::new(Vec::new());
    installer_config.remove_all(|installer| {
        asked.borrow_mut().push(installer.app_run_port);
        installer.app_run_port % 2 == 1
    });
    assert_eq!(vec![1, 2, 3, 4, 5], asked.into_inner());
    let ports: Vec<u32> =
        installer_config.get_data().installers.iter().map(|i| i.app_run_port).collect();
    assert_eq!(vec![2, 4], ports);
    installer_config.remove_all(|_| false);
    assert_eq!(2, installer_config.get_data().installers.len());
}

#[test]
fn from_info_takes_every_field() {
    assert_eq!(
        Some(Installer {
            url: "11".to_string(),
            installer_token: "22".to_string(),
            app_name: "33".to_string(),
            app_version: "44".to_string(),
            app_file_name: "55".to_string(),
            app_run_port: 66,
            jdk_name: "77".to_string(),
            jdk_version: "88".to_string(),
            jdk_file_name: "99".to_string(),
        }),
        Installer::from_info(second_info())
    );
    let mut without_url = second_info();
    without_url.url = None;
    assert_eq!(None, Installer::from_info(without_url));
}
