use m3u8_downloader_core::config::{AppConfig, TempNameStrategy};

#[test]
fn default_configuration_under_a_home_directory() {
    let c = AppConfig::default_for_home(Some("/home/user"));
    assert_eq!(c.save_path, "/home/user/Downloads");
    assert_eq!(c.temp_dir, "/home/user/Downloads/.m3u8_temp");
    assert_eq!(c.concurrent_downloads, 16);
    assert_eq!(c.max_retries, 3);
    assert_eq!(c.temp_name_strategy, TempNameStrategy::ContentHash);
}

#[test]
fn default_configuration_without_a_home_directory() {
    let c = AppConfig::default_for_home(None);
    assert_eq!(c.save_path, ".");
    assert_eq!(c.temp_dir, "./.m3u8_temp");
}

#[test]
fn configuration_for_a_save_directory() {
    let c = AppConfig::with_save_path("/data/".to_string());
    assert_eq!(c.save_path, "/data/");
    assert_eq!(c.temp_dir, "/data/.m3u8_temp");
}

#[test]
fn configuration_of_a_queue_task() {
    let c = AppConfig::for_queue_task("/videos".to_string(), 8, TempNameStrategy::ContentHash);
    assert_eq!(c.save_path, "/videos");
    assert_eq!(c.temp_dir, "/videos/./");
    assert_eq!(c.concurrent_downloads, 8);
    assert_eq!(c.max_retries, 3);
    assert_eq!(c.temp_name_strategy, TempNameStrategy::ContentHash);
}
