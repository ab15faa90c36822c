use m3u8_downloader_core::paths::{dirs_default_download, file_stem, join_path};

fn stem(s: &str) -> Option<String> {
    let v: Vec<char> = s.chars().collect();
    file_stem(&v).map(|c| c.into_iter().collect())
}

#[test]
fn joining_paths() {
    assert_eq!(join_path("/a", "b"), "/a/b");
    assert_eq!(join_path("/a/", "b"), "/a/b");
    assert_eq!(join_path("/a", "/b"), "/b");
    assert_eq!(join_path("", "b"), "b");
    assert_eq!(join_path("save", "./"), "save/./");
}

#[test]
fn default_download_directory() {
    assert_eq!(dirs_default_download(Some("/home/u")), "/home/u/Downloads");
    assert_eq!(dirs_default_download(Some("/home/u/")), "/home/u/Downloads");
    assert_eq!(dirs_default_download(None), ".");
}

#[test]
fn file_stems() {
    assert_eq!(stem("dir/video.m3u8"), Some("video".to_string()));
    assert_eq!(stem("video"), Some("video".to_string()));
    assert_eq!(stem("a/b.tar.gz"), Some("b.tar".to_string()));
    assert_eq!(stem(".bashrc"), Some(".bashrc".to_string()));
    assert_eq!(stem("a/b/"), Some("b".to_string()));
    assert_eq!(stem("a/.."), None);
    assert_eq!(stem(""), None);
    assert_eq!(stem("/"), None);
}
