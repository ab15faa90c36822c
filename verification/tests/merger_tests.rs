use m3u8_downloader_core::merger::{
    absolute_output_path, ffmpeg_args, ffmpeg_candidates, file_list_content, file_list_name,
    get_ffmpeg_name, merge_result, pick_ffmpeg, segment_path, MergeError,
};

#[test]
fn segment_paths_are_numbered_with_six_digits() {
    assert_eq!(segment_path("/tmp/task", 7), "/tmp/task/seg_000007.ts");
    assert_eq!(segment_path("/tmp/task/", 0), "/tmp/task/seg_000000.ts");
    assert_eq!(segment_path("/tmp/task", 1_234_567), "/tmp/task/seg_1234567.ts");
    assert_ne!(segment_path("/t", 1), segment_path("/t", 10));
}

#[test]
fn ffmpeg_is_looked_for_in_order() {
    assert_eq!(get_ffmpeg_name(true), "ffmpeg.exe");
    assert_eq!(get_ffmpeg_name(false), "ffmpeg");
    let c = ffmpeg_candidates("ffmpeg", Some("/work"), Some("/opt/app"));
    assert_eq!(c, vec!["/work/ffmpeg".to_string(), "/opt/app/ffmpeg".to_string()]);
    assert_eq!(ffmpeg_candidates("ffmpeg", None, Some("/opt/app")), vec!["/opt/app/ffmpeg".to_string()]);
    assert!(ffmpeg_candidates("ffmpeg", None, None).is_empty());
    assert_eq!(pick_ffmpeg("ffmpeg", &c, &vec![false, true]), "/opt/app/ffmpeg");
    assert_eq!(pick_ffmpeg("ffmpeg", &c, &vec![true, true]), "/work/ffmpeg");
    assert_eq!(pick_ffmpeg("ffmpeg", &c, &vec![false, false]), "ffmpeg");
}

#[test]
fn concat_list_names_every_segment() {
    assert!(matches!(file_list_content(0), Err(MergeError::NoSegments)));
    assert_eq!(
        file_list_content(3).unwrap(),
        "file 'seg_000000.ts'\nfile 'seg_000001.ts'\nfile 'seg_000002.ts'\n"
    );
    assert_eq!(file_list_name(), "file_list.txt");
}

#[test]
fn ffmpeg_command_line() {
    let args = ffmpeg_args("/out/video.mp4");
    assert_eq!(
        args,
        vec![
            "-y", "-f", "concat", "-safe", "0", "-fflags", "+genpts", "-i", "file_list.txt", "-c",
            "copy", "/out/video.mp4",
        ]
    );
    assert_eq!(absolute_output_path("video.mp4", false, "/home/u"), "/home/u/video.mp4");
    assert_eq!(absolute_output_path("/abs/video.mp4", true, "/home/u"), "/abs/video.mp4");
}

#[test]
fn exit_status_of_ffmpeg() {
    assert!(merge_result(true, Some(0)).is_ok());
    assert!(matches!(merge_result(false, Some(1)), Err(MergeError::FfmpegError(1))));
    assert!(matches!(merge_result(false, None), Err(MergeError::FfmpegTerminated)));
}

#[test]
fn merge_error_messages() {
    assert_eq!(MergeError::NoSegments.message(), "无分片文件可合并");
    assert_eq!(MergeError::FfmpegError(1).message(), "FFmpeg合并失败，退出代码: 1");
    assert_eq!(MergeError::FfmpegError(-2).message(), "FFmpeg合并失败，退出代码: -2");
    assert_eq!(MergeError::FfmpegTerminated.message(), "FFmpeg进程被意外终止");
    let io = std::io::Error::new(std::io::ErrorKind::Other, "disk full");
    assert_eq!(MergeError::Io(io).message(), "IO 错误: disk full");
}

#[test]
fn segment_files_sort_in_segment_order() {
    let names: Vec<String> = [0usize, 1, 9, 10, 99, 100, 123_456, 999_999].iter().map(|&i| segment_path("", i)).collect();
    let mut sorted = names.clone();
    sorted.sort();
    assert_eq!(names, sorted);
}
