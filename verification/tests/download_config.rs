use installer::config::DOWNLOAD_CONFIG_FILE_NAME;
use installer::download_config::{DownloadConfig, DownloadData, FileMd5Info};

fn record(name: &str, version: &str, md5: &str) -> FileMd5Info {
    FileMd5Info { name: name.to_string(), version: version.to_string(), md5: md5.to_string() }
}

#[test]
fn from_download_config_file_not_exist() {
    let download_config =
        DownloadConfig::create_default_config("from_download_config_file_not_exist.toml");
    assert_eq!("from_download_config_file_not_exist.toml", download_config.file_name());
    assert_eq!(&DownloadData { files: Vec::new() }, download_config.get_data());
}

#[test]
fn from_config_file_exist_has_empty_files() {
    let download_config =
        DownloadConfig::from("empty_files.toml", DownloadData { files: Vec::new() }).unwrap();
    assert_eq!("empty_files.toml", download_config.file_name());
    assert!(download_config.get_data().files.is_empty());
}

#[test]
fn from_data_with_a_key_twice() {
    let data = DownloadData {
        files: vec![record("a", "1", "x"), record("a", "2", "y"), record("a", "1", "z")],
    };
    assert!(DownloadConfig::from("twice.toml", data).is_none());
    let data = DownloadData {
        files: vec![record("a", "1", "x"), record("a", "2", "x"), record("b", "1", "x")],
    };
    assert!(DownloadConfig::from("once.toml", data).is_some());
}

#[test]
fn new_download_config_uses_the_usual_file() {
    assert_eq!("download_config.toml", DOWNLOAD_CONFIG_FILE_NAME);
    let download_config = DownloadConfig::new();
    assert_eq!(DOWNLOAD_CONFIG_FILE_NAME, download_config.file_name());
    assert!(download_config.get_data().files.is_empty());
}

#[test]
fn put_one_file_success() {
    let mut download_config = DownloadConfig::create_default_config("put_one_file_success.toml");
    download_config.put("app_name", "app_version", "md5_value");

    assert_eq!(
        vec![record("app_name", "app_version", "md5_value")],
        download_config.get_data().files
    );
}

#[test]
fn put_one_if_exists_then_override() {
    let mut download_config =
        DownloadConfig::create_default_config("put_one_if_exists_then_override.toml");
    download_config.put("app_name", "app_version", "md5_value");
    download_config.put("app_name", "app_version", "md5_value_1");

    assert_eq!(
        vec![record("app_name", "app_version", "md5_value_1")],
        download_config.get_data().files
    );
}

#[test]
fn put_moves_the_record_to_the_end() {
    let mut download_config = DownloadConfig::new();
    download_config.put("a", "1", "x");
    download_config.put("b", "1", "y");
    download_config.put("a", "2", "z");
    download_config.put("a", "1", "w");
    assert_eq!(
        vec![record("b", "1", "y"), record("a", "2", "z"), record("a", "1", "w")],
        download_config.get_data().files
    );
}

#[test]
fn get_one_file_success() {
    let mut download_config = DownloadConfig::create_default_config("get_one_file_success.toml");
    download_config.put("name_1", "version_1", "m5d_1");

    assert_eq!(
        Some(record("name_1", "version_1", "m5d_1")),
        download_config.get("name_1", "version_1")
    );
}

#[test]
fn get_of_another_key() {
    let mut download_config = DownloadConfig::new();
    download_config.put("name_1", "version_1", "m5d_1");
    download_config.put("name_1", "version_2", "m5d_2");
    assert_eq!(None, DownloadConfig::new().get("name_1", "version_1"));
    let data = DownloadData { files: vec![record("name_1", "version_1", "m5d_1")] };
    assert_eq!(None, DownloadConfig::from("f", data).unwrap().get("name_1", "version_2"));
    let data = DownloadData { files: vec![record("name_1", "version_1", "m5d_1")] };
    assert_eq!(None, DownloadConfig::from("f", data).unwrap().get("version_1", "name_1"));
    assert_eq!(
        Some(record("name_1", "version_2", "m5d_2")),
        download_config.get("name_1", "version_2")
    );
}

#[test]
fn remove_one_file_success() {
    let mut download_config = DownloadConfig::create_default_config("remove_one_file_success.toml");
    download_config.put("name_1", "version_1", "m5d_1");
    download_config.remove("name_1", "version_1");

    assert!(download_config.get_data().files.is_empty());
    assert_eq!(None, download_config.get("name_1", "version_1"));
}

#[test]
fn remove_leaves_other_records() {
    let mut download_config = DownloadConfig::new();
    download_config.put("a", "1", "x");
    download_config.put("b", "1", "y");
    download_config.put("a", "2", "z");
    download_config.remove("b", "1");
    download_config.remove("c", "1");
    assert_eq!(
        vec![record("a", "1", "x"), record("a", "2", "z")],
        download_config.get_data().files
    );
}
