//! Batch conversion planning: the shapes of batch jobs and their tasks, and
//! the pure planning work that turns a playlist and a format list into one
//! pending task per video.

use vstd::prelude::*;
use crate::converter::{OutputFormat, get_extension_for_format};
use crate::extractor::{PlaylistVideo, PlaylistVideoView};
use crate::text::{push_chars, push_str_chars, pad3_chars, spec_pad3};
use crate::trusted::chars_to_string;
use crate::utils::spec_replace_invalid;

verus! {

/// One format a batch job produces.
pub struct BatchFormat {
    pub format: OutputFormat,
    pub quality: String,
    pub enabled: bool,
}

/// The options a batch job runs with.
pub struct BatchOptions {
    pub max_concurrent: usize,
    pub skip_existing: bool,
    pub create_subdirs: bool,
    pub add_index_prefix: bool,
    pub video_limit: Option<usize>,
    pub start_index: usize,
    pub download_thumbnails: bool,
    pub create_playlist_file: bool,
}

/// A batch job's lifecycle state.
#[derive(Debug, Clone, PartialEq)]
pub enum BatchJobStatus {
    Created,
    Starting,
    Running,
    Completed,
    Failed(String),
    Cancelled,
}

/// One batch task's lifecycle state.
#[derive(Debug, Clone, PartialEq)]
pub enum BatchTaskStatus {
    Pending,
    Converting,
    Completed,
    Failed(String),
    Skipped,
}

/// One format conversion's state within a task.
#[derive(Debug, Clone, PartialEq)]
pub enum TaskFormatStatus {
    Pending,
    Converting,
    Completed,
    Failed(String),
    Skipped,
}

/// One format conversion within a batch task.
pub struct BatchTaskFormat {
    pub format: OutputFormat,
    pub quality: String,
    pub output_path: String,
    pub status: TaskFormatStatus,
    pub progress_percent: u32,
    pub error: Option<String>,
}

/// One video's conversion work within a batch job.
pub struct BatchTask {
    pub id: String,
    pub job_id: String,
    pub video_url: String,
    pub video_title: String,
    pub video_index: usize,
    pub formats: Vec<BatchTaskFormat>,
    pub status: BatchTaskStatus,
    pub created_at: u64,
    pub started_at: Option<u64>,
    pub completed_at: Option<u64>,
}

/// The views of a stored video list.
pub open spec fn video_views(s: Seq<PlaylistVideo>) -> Seq<PlaylistVideoView> {
    Seq::new(s.len(), |i: int| s[i]@)
}

/// The videos a batch run covers: those from `start_index` on, cut to
/// `video_limit` when one is set.
pub open spec fn spec_filtered_videos(
    vs: Seq<PlaylistVideoView>,
    start_index: int,
    video_limit: Option<usize>,
) -> Seq<PlaylistVideoView> {
    let start = if start_index < vs.len() {
        start_index
    } else {
        vs.len() as int
    };
    let sk = vs.skip(start);
    match video_limit {
        Some(l) => if l < sk.len() {
            sk.take(l as int)
        } else {
            sk
        },
        None => sk,
    }
}

/// Select the videos a batch run covers, in order.
pub fn filter_videos(videos: &Vec<PlaylistVideo>, options: &BatchOptions) -> (r: Vec<
    PlaylistVideo,
>)
    ensures
        video_views(r@) == spec_filtered_videos(
            video_views(videos@),
            options.start_index as int,
            options.video_limit,
        ),
{
    let ghost target = spec_filtered_videos(
        video_views(videos@),
        options.start_index as int,
        options.video_limit,
    );
    let n = videos.len();
    let start = if options.start_index < n {
        options.start_index
    } else {
        n
    };
    let stop = match options.video_limit {
        Some(l) => if l < n - start {
            start + l
        } else {
            n
        },
        None => n,
    };
    let mut out: Vec<PlaylistVideo> = Vec::new();
    let mut i: usize = start;
    proof {
        assert(target.len() == stop - start);
    }
    while i < stop
        invariant
            start <= i <= stop <= n,
            n == videos@.len(),
            target == spec_filtered_videos(
                video_views(videos@),
                options.start_index as int,
                options.video_limit,
            ),
            target.len() == stop - start,
            forall|q: int| 0 <= q < target.len() ==> target[q] == video_views(videos@)[start + q],
            out@.len() == i - start,
            forall|q: int| 0 <= q < out@.len() ==> (#[trigger] out@[q])@ == target[q],
        decreases stop - i,
    {
        out.push(videos[i].duplicate());
        i = i + 1;
    }
    proof {
        assert(video_views(out@) =~= target);
    }
    out
}

/// The filename written for one video: the (optionally index-prefixed)
/// title with every invalid filename character replaced by an underscore,
/// then the format's extension.
pub open spec fn spec_batch_filename(
    title: Seq<char>,
    index: int,
    add_index_prefix: bool,
    ext: Seq<char>,
) -> Seq<char> {
    let base = if add_index_prefix {
        spec_pad3((index + 1) as nat) + seq!['-'] + title
    } else {
        title
    };
    spec_replace_invalid(base) + seq!['.'] + ext
}

/// The full output path for one video and format under `output_dir`.
pub open spec fn spec_batch_output_path(
    output_dir: Seq<char>,
    title: Seq<char>,
    index: int,
    add_index_prefix: bool,
    ext: Seq<char>,
) -> Seq<char> {
    output_dir + seq!['/'] + spec_batch_filename(title, index, add_index_prefix, ext)
}

/// Replace invalid filename characters by underscores.
fn replace_invalid_chars(v: &Vec<char>) -> (r: Vec<char>)
    ensures
        r@ == spec_replace_invalid(v@),
{
    let mut out: Vec<char> = Vec::new();
    let mut i: usize = 0;
    while i < v.len()
        invariant
            i <= v@.len(),
            out@ == spec_replace_invalid(v@).subrange(0, i as int),
        decreases v@.len() - i,
    {
        let c = v[i];
        let invalid = c == '<' || c == '>' || c == ':' || c == '"' || c == '/' || c == '\\' || c
            == '|' || c == '?' || c == '*';
        if invalid {
            out.push('_');
        } else {
            out.push(c);
        }
        i = i + 1;
        proof {
            assert(out@ =~= spec_replace_invalid(v@).subrange(0, i as int));
        }
    }
    proof {
        assert(out@ =~= spec_replace_invalid(v@));
    }
    out
}

/// Build the output path for one video and format.
pub fn generate_output_path(
    output_dir: &str,
    video: &PlaylistVideo,
    index: usize,
    format: &OutputFormat,
    options: &BatchOptions,
) -> (r: String)
    requires
        index < usize::MAX,
    ensures
        r@ == spec_batch_output_path(
            output_dir@,
            video@.title,
            index as int,
            options.add_index_prefix,
            match format {
                OutputFormat::Mp3 { .. } => "mp3"@,
                OutputFormat::Mp4 { .. } => "mp4"@,
                OutputFormat::Flac => "flac"@,
                OutputFormat::Aac { .. } => "aac"@,
                OutputFormat::Ogg { .. } => "ogg"@,
                OutputFormat::WebM { .. } => "webm"@,
            },
        ),
{
    let mut base: Vec<char> = Vec::new();
    if options.add_index_prefix {
        let p = pad3_chars((index as u64) + 1);
        push_chars(&mut base, &p);
        base.push('-');
    }
    push_str_chars(&mut base, video.title.as_str());
    let cleaned = replace_invalid_chars(&base);
    let mut out: Vec<char> = Vec::new();
    push_str_chars(&mut out, output_dir);
    out.push('/');
    push_chars(&mut out, &cleaned);
    out.push('.');
    push_str_chars(&mut out, get_extension_for_format(format));
    proof {
        assert(out@ =~= spec_batch_output_path(
            output_dir@,
            video@.title,
            index as int,
            options.add_index_prefix,
            match format {
                OutputFormat::Mp3 { .. } => "mp3"@,
                OutputFormat::Mp4 { .. } => "mp4"@,
                OutputFormat::Flac => "flac"@,
                OutputFormat::Aac { .. } => "aac"@,
                OutputFormat::Ogg { .. } => "ogg"@,
                OutputFormat::WebM { .. } => "webm"@,
            },
        ));
    }
    chars_to_string(&out)
}

/// How many of the listed formats are enabled.
pub open spec fn spec_enabled_count(fs: Seq<BatchFormat>) -> int
    decreases fs.len(),
{
    if fs.len() == 0 {
        0
    } else {
        spec_enabled_count(fs.drop_last()) + if fs.last().enabled {
            1int
        } else {
            0int
        }
    }
}

/// Plan the work of one batch job: one pending task per covered video, each
/// holding one pending format conversion per enabled format, numbered by
/// position and stamped with the creation time.
pub fn plan_batch_tasks(
    job_id: &str,
    videos: &Vec<PlaylistVideo>,
    formats: &Vec<BatchFormat>,
    options: &BatchOptions,
    output_dir: &str,
    now: u64,
) -> (r: Vec<BatchTask>)
    ensures
        ({
            let covered = spec_filtered_videos(
                video_views(videos@),
                options.start_index as int,
                options.video_limit,
            );
            &&& r@.len() == covered.len()
            &&& forall|i: int|
                0 <= i < r@.len() ==> {
                    let t = #[trigger] r@[i];
                    &&& t.job_id@ == job_id@
                    &&& t.video_index == i
                    &&& t.video_url@ == covered[i].url
                    &&& t.video_title@ == covered[i].title
                    &&& t.status is Pending
                    &&& t.created_at == now
                    &&& t.started_at is None
                    &&& t.completed_at is None
                    &&& t.formats@.len() == spec_enabled_count(formats@)
                }
        }),
{
    let covered = filter_videos(videos, options);
    proof {
        assert(covered.len() == covered@.len());
    }
    let mut tasks: Vec<BatchTask> = Vec::new();
    let mut i: usize = 0;
    let ghost cv = spec_filtered_videos(
        video_views(videos@),
        options.start_index as int,
        options.video_limit,
    );
    while i < covered.len()
        invariant
            i <= covered@.len(),
            cv == spec_filtered_videos(
                video_views(videos@),
                options.start_index as int,
                options.video_limit,
            ),
            video_views(covered@) == cv,
            covered@.len() == cv.len(),
            tasks@.len() == i,
            forall|q: int|
                0 <= q < i ==> {
                    let t = #[trigger] tasks@[q];
                    &&& t.job_id@ == job_id@
                    &&& t.video_index == q
                    &&& t.video_url@ == cv[q].url
                    &&& t.video_title@ == cv[q].title
                    &&& t.status is Pending
                    &&& t.created_at == now
                    &&& t.started_at is None
                    &&& t.completed_at is None
                    &&& t.formats@.len() == spec_enabled_count(formats@)
                },
        decreases covered@.len() - i,
    {
        let video = &covered[i];
        let mut task_formats: Vec<BatchTaskFormat> = Vec::new();
        let mut k: usize = 0;
        while k < formats.len()
            invariant
                k <= formats@.len(),
                i < covered@.len(),
                task_formats@.len() == spec_enabled_count(formats@.subrange(0, k as int)),
            decreases formats@.len() - k,
        {
            proof {
                assert(formats@.subrange(0, k as int + 1).drop_last() =~= formats@.subrange(
                    0,
                    k as int,
                ));
            }
            if formats[k].enabled {
                proof {
                    assert(covered.len() == covered@.len());
                }
                let bf = &formats[k];
                let fmt_copy = duplicate_format(&bf.format);
                let path = generate_output_path(output_dir, video, i, &bf.format, options);
                task_formats.push(
                    BatchTaskFormat {
                        format: fmt_copy,
                        quality: bf.quality.clone(),
                        output_path: path,
                        status: TaskFormatStatus::Pending,
                        progress_percent: 0,
                        error: None,
                    },
                );
            }
            k = k + 1;
        }
        proof {
            assert(formats@.subrange(0, formats@.len() as int) =~= formats@);
        }
        tasks.push(
            BatchTask {
                id: String::new(),
                job_id: String::from_str(job_id),
                video_url: video.url.clone(),
                video_title: video.title.clone(),
                video_index: i,
                formats: task_formats,
                status: BatchTaskStatus::Pending,
                created_at: now,
                started_at: None,
                completed_at: None,
            },
        );
        i = i + 1;
    }
    tasks
}

/// An independent copy of an output format.
fn duplicate_format(f: &OutputFormat) -> (r: OutputFormat)
    ensures
        match f {
            OutputFormat::Mp3 { bitrate } => r matches OutputFormat::Mp3 { bitrate: b } && b
                == bitrate,
            OutputFormat::Mp4 { resolution } => r matches OutputFormat::Mp4 { resolution: s }
                && s@ == resolution@,
            OutputFormat::Flac => r is Flac,
            OutputFormat::Aac { bitrate } => r matches OutputFormat::Aac { bitrate: b } && b
                == bitrate,
            OutputFormat::Ogg { quality } => r matches OutputFormat::Ogg { quality: q } && q
                == quality,
            OutputFormat::WebM { resolution } => r matches OutputFormat::WebM { resolution: s }
                && s@ == resolution@,
        },
{
    match f {
        OutputFormat::Mp3 { bitrate } => OutputFormat::Mp3 { bitrate: *bitrate },
        OutputFormat::Mp4 { resolution } => OutputFormat::Mp4 { resolution: resolution.clone() },
        OutputFormat::Flac => OutputFormat::Flac,
        OutputFormat::Aac { bitrate } => OutputFormat::Aac { bitrate: *bitrate },
        OutputFormat::Ogg { quality } => OutputFormat::Ogg { quality: *quality },
        OutputFormat::WebM { resolution } => OutputFormat::WebM { resolution: resolution.clone() },
    }
}

} // verus!
