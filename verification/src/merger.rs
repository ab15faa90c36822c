//! Merging downloaded segments with FFmpeg: the concat list it reads, the
//! command line, and what its exit status means.
use vstd::prelude::*;
use crate::paths::{
    join_path, join_path_spec, lemma_segment_name_plain, segment_file_name, segment_file_name_exec,
};
use crate::text::{
    concat_str, lines, push_chars, push_signed, push_str, signed_digits, starts_with, string_from_chars,
    strip_cr,
};

verus! {

broadcast use vstd::string::group_string_axioms;

#[verifier::external_type_specification]
#[verifier::external_body]
pub struct ExIoError(std::io::Error);

/// Errors while merging segments.
#[derive(Debug)]
pub enum MergeError {
    /// A file operation failed.
    Io(std::io::Error),
    /// There is nothing to merge.
    NoSegments,
    /// FFmpeg exited with this non-zero code.
    FfmpegError(i32),
    /// FFmpeg was terminated by a signal.
    FfmpegTerminated,
}

pub enum MergeErrorView {
    Io,
    NoSegments,
    FfmpegError(i32),
    FfmpegTerminated,
}

impl View for MergeError {
    type V = MergeErrorView;

    open spec fn view(&self) -> MergeErrorView {
        match self {
            MergeError::Io(_) => MergeErrorView::Io,
            MergeError::NoSegments => MergeErrorView::NoSegments,
            MergeError::FfmpegError(c) => MergeErrorView::FfmpegError(*c),
            MergeError::FfmpegTerminated => MergeErrorView::FfmpegTerminated,
        }
    }
}

/// `std::io::Error`'s `Display` text (its `to_string()`). Nothing is stated
/// of it: it describes the operating system's error.
#[verifier::external_body]
pub(crate) fn io_error_text(e: &std::io::Error) -> (r: String) {
    e.to_string()
}

pub open spec fn io_failed_prefix() -> Seq<char> {
    "IO 错误: "@
}

/// `m` is the message of a merge error `e`: the text of an I/O error comes
/// from the operating system and only its prefix is fixed.
pub open spec fn merge_message_ok(e: MergeErrorView, m: Seq<char>) -> bool {
    match e {
        MergeErrorView::Io => starts_with(m, io_failed_prefix()),
        MergeErrorView::NoSegments => m == "无分片文件可合并"@,
        MergeErrorView::FfmpegError(c) => m == "FFmpeg合并失败，退出代码: "@ + signed_digits(c as int),
        MergeErrorView::FfmpegTerminated => m == "FFmpeg进程被意外终止"@,
    }
}

/// The message of an I/O error with its prefix.
pub(crate) fn io_message(e: &std::io::Error) -> (r: String)
    ensures
        starts_with(r@, io_failed_prefix()),
{
    let t = io_error_text(e);
    let r = concat_str("IO 错误: ", t.as_str());
    proof {
        assert(r@.take(io_failed_prefix().len() as int) =~= io_failed_prefix());
    }
    r
}

impl MergeError {
    /// The error's message, as shown to the user.
    pub fn message(&self) -> (r: String)
        ensures
            merge_message_ok(self@, r@),
    {
        match self {
            MergeError::Io(e) => io_message(e),
            MergeError::NoSegments => "无分片文件可合并".to_owned(),
            MergeError::FfmpegError(c) => {
                let mut out: Vec<char> = Vec::new();
                push_str(&mut out, "FFmpeg合并失败，退出代码: ");
                push_signed(&mut out, *c);
                string_from_chars(out.as_slice())
            },
            MergeError::FfmpegTerminated => "FFmpeg进程被意外终止".to_owned(),
        }
    }
}

/// The path of the temporary file of segment `index` inside `temp_dir`.
pub fn segment_path(temp_dir: &str, index: usize) -> (r: String)
    ensures
        r@ == join_path_spec(temp_dir@, segment_file_name(index as nat)),
{
    let name = segment_file_name_exec(index);
    let name_s = string_from_chars(name.as_slice());
    join_path(temp_dir, name_s.as_str())
}

/// The temporary file of a segment lies directly inside the temporary
/// directory: its path is the directory, a `/` unless the directory is empty
/// or already ends with one, and the segment's file name, which holds no `/`.
pub proof fn law_segment_path_in_dir(temp_dir: Seq<char>, index: nat)
    ensures
        forall|k: int| 0 <= k < segment_file_name(index).len() ==> #[trigger] segment_file_name(index)[k] != '/',
        join_path_spec(temp_dir, segment_file_name(index)) == if temp_dir.len() == 0 || temp_dir.last() == '/' {
            temp_dir + segment_file_name(index)
        } else {
            temp_dir + seq!['/'] + segment_file_name(index)
        },
{
    lemma_segment_name_plain(index);
}

/// The FFmpeg executable's file name on the platform.
pub fn get_ffmpeg_name(windows: bool) -> (r: &'static str)
    ensures
        windows ==> r@ == "ffmpeg.exe"@,
        !windows ==> r@ == "ffmpeg"@,
{
    if windows {
        "ffmpeg.exe"
    } else {
        "ffmpeg"
    }
}

/// Where FFmpeg is looked for, in order: the working directory, then the
/// directory of the running executable (those that are known).
pub fn ffmpeg_candidates(name: &str, current_dir: Option<&str>, exe_dir: Option<&str>) -> (r: Vec<String>)
    ensures
        r@.len() == (if current_dir is Some { 1int } else { 0int }) + (if exe_dir is Some { 1int } else { 0int }),
        current_dir matches Some(d) ==> r@[0]@ == join_path_spec(d@, name@),
        exe_dir matches Some(d) ==> r@[r@.len() - 1]@ == join_path_spec(d@, name@),
{
    let mut r: Vec<String> = Vec::new();
    if let Some(d) = current_dir {
        r.push(join_path(d, name));
    }
    if let Some(d) = exe_dir {
        r.push(join_path(d, name));
    }
    r
}

/// The first candidate that exists, or the bare name, which the system
/// then looks up on its search path.
pub fn pick_ffmpeg(name: &str, candidates: &Vec<String>, exists: &Vec<bool>) -> (r: String)
    requires
        candidates@.len() == exists@.len(),
    ensures
        (exists|i: int| 0 <= i < exists@.len() && exists@[i]) ==> exists|i: int|
            0 <= i < exists@.len() && exists@[i] && r@ == candidates@[i]@ && forall|j: int|
                0 <= j < i ==> !exists@[j],
        (forall|i: int| 0 <= i < exists@.len() ==> !exists@[i]) ==> r@ == name@,
{
    let mut i: usize = 0;
    while i < exists.len()
        invariant
            candidates@.len() == exists@.len(),
            i <= exists.len(),
            forall|j: int| 0 <= j < i ==> !exists@[j],
        decreases exists.len() - i,
    {
        if exists[i] {
            return candidates[i].clone();
        }
        i = i + 1;
    }
    name.to_owned()
}

/// One line of FFmpeg's concat list: `file 'seg_NNNNNN.ts'`.
pub open spec fn list_line(i: nat) -> Seq<char> {
    seq!['f', 'i', 'l', 'e', ' ', '\''] + segment_file_name(i) + seq!['\'', '\n']
}

/// The concat list naming segments `0..n` in order, one per line.
pub open spec fn list_content(n: nat) -> Seq<char>
    decreases n,
{
    if n == 0 {
        seq![]
    } else {
        list_content((n - 1) as nat) + list_line((n - 1) as nat)
    }
}

/// The entry naming segment `i` in the concat list: `file 'seg_NNNNNN.ts'`.
pub open spec fn list_entry(i: nat) -> Seq<char> {
    seq!['f', 'i', 'l', 'e', ' ', '\''] + segment_file_name(i) + seq!['\'']
}

/// The concat list has one line per segment, and line `k` names segment
/// `k`: FFmpeg joins the segments in playlist order.
pub proof fn law_concat_list_in_order(n: nat)
    ensures
        lines(list_content(n)) == Seq::new(n, |k: int| list_entry(k as nat)),
    decreases n,
{
    if n == 0 {
        assert(lines(list_content(0)) == Seq::<Seq<char>>::empty());
        assert(Seq::new(0, |k: int| list_entry(k as nat)) =~= Seq::<Seq<char>>::empty());
    } else {
        let m = (n - 1) as nat;
        law_concat_list_in_order(m);
        let e = list_entry(m);
        lemma_segment_name_plain(m);
        assert forall|k: int| 0 <= k < e.len() implies e[k] != '\n' by {
            if 6 <= k < 6 + segment_file_name(m).len() {
                assert(e[k] == segment_file_name(m)[k - 6]);
            }
        }
        assert(list_line(m) =~= e + seq!['\n']);
        if m > 0 {
            assert(list_content(m).last() == list_line((m - 1) as nat).last());
        }
        assert(list_content(n) =~= list_content(m) + e + seq!['\n']);
        crate::text::lemma_lines_snoc(list_content(m), e);
        assert(strip_cr(e) == e);
        assert(lines(list_content(m)).push(e) =~= Seq::new(n, |k: int| list_entry(k as nat)));
    }
}

/// The text of `file_list.txt` for `segment_count` segments; there must be
/// at least one.
pub fn file_list_content(segment_count: usize) -> (r: Result<String, MergeError>)
    ensures
        segment_count == 0 <==> r is Err,
        r matches Err(e) ==> e is NoSegments,
        r matches Ok(s) ==> s@ == list_content(segment_count as nat),
{
    if segment_count == 0 {
        return Err(MergeError::NoSegments);
    }
    let mut out: Vec<char> = Vec::new();
    let mut i: usize = 0;
    while i < segment_count
        invariant
            i <= segment_count,
            out@ == list_content(i as nat),
        decreases segment_count - i,
    {
        let mut line: Vec<char> = vec!['f', 'i', 'l', 'e', ' ', '\''];
        let name = segment_file_name_exec(i);
        push_chars(&mut line, &name);
        line.push('\'');
        line.push('\n');
        proof {
            assert(line@ =~= list_line(i as nat));
        }
        push_chars(&mut out, &line);
        i = i + 1;
    }
    Ok(string_from_chars(out.as_slice()))
}

/// Name of the concat list inside the temporary directory.
pub fn file_list_name() -> (r: &'static str)
    ensures
        r@ == "file_list.txt"@,
{
    "file_list.txt"
}

/// The arguments FFmpeg is run with (in the temporary directory): read the
/// concat list, regenerate timestamps, copy the streams into `output`,
/// overwriting it.
pub fn ffmpeg_args(output: &str) -> (r: Vec<String>)
    ensures
        r@.len() == 12,
        r@[0]@ == "-y"@,
        r@[1]@ == "-f"@,
        r@[2]@ == "concat"@,
        r@[3]@ == "-safe"@,
        r@[4]@ == "0"@,
        r@[5]@ == "-fflags"@,
        r@[6]@ == "+genpts"@,
        r@[7]@ == "-i"@,
        r@[8]@ == "file_list.txt"@,
        r@[9]@ == "-c"@,
        r@[10]@ == "copy"@,
        r@[11]@ == output@,
{
    let mut r: Vec<String> = Vec::new();
    r.push("-y".to_owned());
    r.push("-f".to_owned());
    r.push("concat".to_owned());
    r.push("-safe".to_owned());
    r.push("0".to_owned());
    r.push("-fflags".to_owned());
    r.push("+genpts".to_owned());
    r.push("-i".to_owned());
    r.push("file_list.txt".to_owned());
    r.push("-c".to_owned());
    r.push("copy".to_owned());
    r.push(output.to_owned());
    r
}

/// The output path FFmpeg is given: relative paths are taken from the
/// working directory, since FFmpeg runs inside the temporary directory.
pub fn absolute_output_path(output: &str, is_absolute: bool, current_dir: &str) -> (r: String)
    ensures
        is_absolute ==> r@ == output@,
        !is_absolute ==> r@ == join_path_spec(current_dir@, output@),
{
    if is_absolute {
        output.to_owned()
    } else {
        join_path(current_dir, output)
    }
}

/// What FFmpeg's exit status means for the merge.
pub fn merge_result(success: bool, code: Option<i32>) -> (r: Result<(), MergeError>)
    ensures
        success <==> r is Ok,
        !success && code is Some ==> (r matches Err(MergeError::FfmpegError(c)) && c == code->0),
        !success && code is None ==> (r matches Err(MergeError::FfmpegTerminated)),
{
    if success {
        Ok(())
    } else {
        match code {
            Some(c) => Err(MergeError::FfmpegError(c)),
            None => Err(MergeError::FfmpegTerminated),
        }
    }
}

} // verus!
