use m3u8_downloader_core::config::TempNameStrategy;
use m3u8_downloader_core::tasks::{
    ensure_mp4_filename, extract_filename_from_url, filename_match_keyword, find_matching_entry,
    parse_task_line, DirEntryInfo, GuiConfig,
};

#[test]
fn task_lines_split_at_a_bar_or_a_comma() {
    assert_eq!(
        parse_task_line("https://a.com/x.m3u8 | my video "),
        ("https://a.com/x.m3u8".to_string(), Some("my video".to_string()))
    );
    assert_eq!(
        parse_task_line("https://a.com/x.m3u8,name.mp4"),
        ("https://a.com/x.m3u8".to_string(), Some("name.mp4".to_string()))
    );
    assert_eq!(parse_task_line("  https://a.com/x.m3u8  "), ("https://a.com/x.m3u8".to_string(), None));
    assert_eq!(parse_task_line("https://a.com/x.m3u8|   "), ("https://a.com/x.m3u8".to_string(), None));
    // a bar takes precedence over an earlier comma
    assert_eq!(parse_task_line("a,b|c"), ("a,b".to_string(), Some("c".to_string())));
    assert_eq!(parse_task_line("a|b,c"), ("a".to_string(), Some("b,c".to_string())));
}

#[test]
fn file_names_end_in_mp4() {
    assert_eq!(ensure_mp4_filename(" video "), "video.mp4");
    assert_eq!(ensure_mp4_filename("Video.MP4"), "Video.MP4");
    assert_eq!(ensure_mp4_filename("clip.ts"), "clip.ts.mp4");
    assert_eq!(ensure_mp4_filename(""), ".mp4");
    let once = ensure_mp4_filename("  a  ");
    assert_eq!(ensure_mp4_filename(&once), once);
}

#[test]
fn file_names_from_urls() {
    assert_eq!(
        extract_filename_from_url("https://a.com/path/movie.m3u8?token=abc#x"),
        Some("movie.mp4".to_string())
    );
    assert_eq!(extract_filename_from_url("  https://a.com/clip.ts  "), Some("clip.ts".to_string()));
    assert_eq!(extract_filename_from_url("https://a.com/a.m3u8.m3u8"), Some("a.mp4.mp4".to_string()));
    assert_eq!(extract_filename_from_url("https://a.com/dir/"), None);
    assert_eq!(extract_filename_from_url("   "), None);
    assert_eq!(extract_filename_from_url("plain"), Some("plain".to_string()));
}

#[test]
fn keywords_for_matching_existing_files() {
    assert_eq!(filename_match_keyword("  My Video.MP4"), "my video");
    assert_eq!(filename_match_keyword("archive.tar.gz"), "archive.tar");
    assert_eq!(filename_match_keyword(".hidden"), ".hidden");
    assert_eq!(filename_match_keyword("dir/Show.mp4"), "show");
    assert_eq!(filename_match_keyword(""), "");
}

#[test]
fn the_first_matching_file_is_found() {
    let entries = vec![
        DirEntryInfo { name: "video".into(), is_file: false },
        DirEntryInfo { name: "x.mp4".into(), is_file: true },
        DirEntryInfo { name: "Holiday VIDEO.mp4".into(), is_file: true },
        DirEntryInfo { name: "video2.mp4".into(), is_file: true },
    ];
    assert_eq!(find_matching_entry("video", &entries), Some("Holiday VIDEO.mp4".to_string()));
    assert_eq!(find_matching_entry("nothing", &entries), None);
    assert_eq!(find_matching_entry("video", &Vec::new()), None);
}

#[test]
fn settings_are_read_line_by_line() {
    let c = GuiConfig::parse(
        "save_path = /data/videos \nconcurrent_downloads=8\r\ntemp_name_strategy=ContentHash\nunknown=1\nno equals sign\n",
    );
    assert_eq!(c.save_path, Some("/data/videos".to_string()));
    assert_eq!(c.concurrent_downloads, Some(8));
    assert_eq!(c.temp_name_strategy, Some(TempNameStrategy::ContentHash));

    let c = GuiConfig::parse("concurrent_downloads=abc\ntemp_name_strategy=whatever");
    assert_eq!(c.save_path, None);
    assert_eq!(c.concurrent_downloads, None);
    assert_eq!(c.temp_name_strategy, Some(TempNameStrategy::Filename));

    let c = GuiConfig::parse("concurrent_downloads=+5\nconcurrent_downloads=6");
    assert_eq!(c.concurrent_downloads, Some(6));
    assert_eq!(GuiConfig::parse("concurrent_downloads=+5").concurrent_downloads, Some(5));
    assert_eq!(GuiConfig::parse("concurrent_downloads=-5").concurrent_downloads, None);
    assert_eq!(GuiConfig::parse("").save_path, None);
}

#[test]
fn settings_written_are_read_back() {
    let text = GuiConfig::render("/data", 4, TempNameStrategy::Filename);
    assert_eq!(text, "save_path=/data\nconcurrent_downloads=4\ntemp_name_strategy=Filename\n");
    let c = GuiConfig::parse(&text);
    assert_eq!(c.save_path, Some("/data".to_string()));
    assert_eq!(c.concurrent_downloads, Some(4));
    assert_eq!(c.temp_name_strategy, Some(TempNameStrategy::Filename));

    let c = GuiConfig::parse(&GuiConfig::render(" /x y ", 12, TempNameStrategy::ContentHash));
    assert_eq!(c.save_path, Some("/x y".to_string()));
    assert_eq!(c.concurrent_downloads, Some(12));
    assert_eq!(c.temp_name_strategy, Some(TempNameStrategy::ContentHash));
}

#[test]
fn an_empty_keyword_matches_nothing() {
    let entries = vec![DirEntryInfo { name: "anything.mp4".into(), is_file: true }];
    assert_eq!(find_matching_entry("", &entries), None);
    assert_eq!(find_matching_entry("any", &entries), Some("anything.mp4".to_string()));
}

#[test]
fn mp4_names_are_trimmed_and_end_in_mp4() {
    for f in [" clip ", "Video.MP4", "a.ts", "", "  x.mp4  "] {
        let r = ensure_mp4_filename(f);
        assert_eq!(r, r.trim());
        assert!(r.to_ascii_lowercase().ends_with(".mp4"));
        assert_eq!(ensure_mp4_filename(&r), r);
    }
    assert_eq!(ensure_mp4_filename(" clip "), "clip.mp4");
}
