//! Download configuration.
use vstd::prelude::*;
use crate::paths::{join_path, join_path_spec, dirs_default_download, default_download_dir_spec};
use crate::text::string_from_chars;

verus! {

broadcast use vstd::string::group_string_axioms;

/// How the temporary directory of a task is named.
#[derive(Debug, Clone, Copy, PartialEq, Eq, Structural)]
pub enum TempNameStrategy {
    /// The first 12 hex digits of the SHA-256 of the playlist text.
    ContentHash,
    /// The file stem of the playlist URL.
    Filename,
}

/// Download configuration.
#[derive(Debug, Clone)]
pub struct AppConfig {
    /// Number of segments downloaded at the same time.
    pub concurrent_downloads: usize,
    /// Directory the merged video is saved in.
    pub save_path: String,
    /// Retries of a failed segment download.
    pub max_retries: u32,
    /// Directory for temporary segment files.
    pub temp_dir: String,
    /// How the temporary directory of a task is named.
    pub temp_name_strategy: TempNameStrategy,
}

pub open spec fn temp_dir_name() -> Seq<char> {
    seq!['.', 'm', '3', 'u', '8', '_', 't', 'e', 'm', 'p']
}

impl AppConfig {
    /// The default configuration for downloads saved in `save_path`: sixteen
    /// concurrent downloads, three retries, temporary files in
    /// `save_path/.m3u8_temp`, temporary directories named by the playlist content hash.
    pub fn with_save_path(save_path: String) -> (c: AppConfig)
        ensures
            c.concurrent_downloads == 16,
            c.max_retries == 3,
            c.save_path@ == save_path@,
            c.temp_dir@ == join_path_spec(save_path@, temp_dir_name()),
            c.temp_name_strategy == TempNameStrategy::ContentHash,
    {
        let name: Vec<char> = vec!['.', 'm', '3', 'u', '8', '_', 't', 'e', 'm', 'p'];
        let name_s = string_from_chars(name.as_slice());
        proof {
            assert(name_s@ == temp_dir_name());
        }
        let temp_dir = join_path(save_path.as_str(), name_s.as_str());
        AppConfig {
            concurrent_downloads: 16,
            save_path,
            max_retries: 3,
            temp_dir,
            temp_name_strategy: TempNameStrategy::ContentHash,
        }
    }

    /// The configuration of a task started from the batch queue: the
    /// defaults, with the queue's save directory, concurrency and naming
    /// strategy, and the temporary directories made directly inside the
    /// save directory (`save_path` joined with `./`).
    pub fn for_queue_task(save_path: String, concurrent_downloads: usize, strategy: TempNameStrategy) -> (c: AppConfig)
        ensures
            c.concurrent_downloads == concurrent_downloads,
            c.max_retries == 3,
            c.save_path@ == save_path@,
            c.temp_dir@ == join_path_spec(save_path@, "./"@),
            c.temp_name_strategy == strategy,
    {
        let temp_dir = join_path(save_path.as_str(), "./");
        AppConfig {
            concurrent_downloads,
            save_path,
            max_retries: 3,
            temp_dir,
            temp_name_strategy: strategy,
        }
    }

    /// The default configuration, given the user's home directory:
    /// downloads go to its `Downloads` directory, or to `.` when no home
    /// directory is known; sixteen concurrent downloads, three retries,
    /// temporary files in `.m3u8_temp` under the save directory.
    pub fn default_for_home(home: Option<&str>) -> (c: AppConfig)
        ensures
            c.concurrent_downloads == 16,
            c.max_retries == 3,
            c.save_path@ == default_download_dir_spec(match home {
                Some(h) => Some(h@),
                None => None,
            }),
            c.temp_dir@ == join_path_spec(c.save_path@, temp_dir_name()),
            c.temp_name_strategy == TempNameStrategy::ContentHash,
    {
        let save_path = dirs_default_download(home);
        AppConfig::with_save_path(save_path)
    }
}

} // verus!
