//! Library scans: the scan progress state, and what is recorded of each
//! file found.

use vstd::prelude::*;
use crate::digest::{hex_lower, md5_digest, md5_hex};
use crate::error::AppError;
use crate::modules::files::service::{file_kind, kind_for_extension, kind_of_ext, lower_ext, lowercase_extension};
use crate::num::{decimal_int, parse_i64, parse_signed64, push_decimal_i64};
use crate::path::{extension, file_name, file_stem, file_stem_of, join, lemma_stem_and_extension, path_join};
use crate::text::{chars_eq, chars_of, concat_chars, string_from_chars};
use vstd::string::StringSliceAdditionalSpecFns;

verus! {

broadcast use vstd::string::group_string_axioms;

/// Progress of the library scan.
#[derive(Clone, Debug)]
pub struct ScanState {
    /// `idle`, `scanning`, `done` or `error`.
    pub status: String,
    /// Files found by the running or last scan.
    pub total: i64,
    /// Files handled so far.
    pub processed: i64,
    /// The file being handled.
    pub current_file: String,
    /// Whether a scan is running.
    pub running: bool,
}

/// The effect of starting a scan on `before`: refused, with nothing
/// changed, while one runs; otherwise the scan runs with cleared counters.
pub open spec fn begin_outcome(before: ScanState, after: ScanState, r: Result<(), AppError>) -> bool {
    if before.running {
        r matches Err(AppError::Conflict(m)) && m@ == "scan already running"@ && after == before
    } else {
        &&& r is Ok
        &&& after.running
        &&& after.status@ == "scanning"@
        &&& after.total == 0
        &&& after.processed == 0
        &&& after.current_file == before.current_file
    }
}

/// The effect of ending a scan: no longer running, `done` or `error`.
pub open spec fn finish_outcome(before: ScanState, after: ScanState, succeeded: bool) -> bool {
    &&& !after.running
    &&& after.status@ == (if succeeded {
        "done"@
    } else {
        "error"@
    })
    &&& after.total == before.total
    &&& after.processed == before.processed
    &&& after.current_file == before.current_file
}

impl ScanState {
    /// The state before any scan.
    pub fn new() -> (r: Self)
        ensures
            r.status@ == "idle"@,
            r.total == 0,
            r.processed == 0,
            r.current_file@.len() == 0,
            !r.running,
    {
        ScanState {
            status: "idle".to_string(),
            total: 0,
            processed: 0,
            current_file: String::new(),
            running: false,
        }
    }

    /// Starts a scan. Refused, with nothing changed, while one is running.
    pub fn begin(&mut self) -> (r: Result<(), AppError>)
        ensures
            begin_outcome(*old(self), *final(self), r),
    {
        if self.running {
            return Err(AppError::Conflict("scan already running".to_string()));
        }
        self.running = true;
        self.status = "scanning".to_string();
        self.total = 0;
        self.processed = 0;
        Ok(())
    }

    /// Records how many files the scan found.
    pub fn set_total(&mut self, total: usize)
        ensures
            final(self).total == total as i64,
            final(self).status == old(self).status,
            final(self).processed == old(self).processed,
            final(self).current_file == old(self).current_file,
            final(self).running == old(self).running,
    {
        self.total = total as i64;
    }

    /// Records that the file at position `index` (from 0), `path`, is being
    /// handled.
    pub fn record_file(&mut self, index: usize, path: String)
        requires
            index < i64::MAX,
        ensures
            final(self).processed == index + 1,
            final(self).current_file@ == path@,
            final(self).status == old(self).status,
            final(self).total == old(self).total,
            final(self).running == old(self).running,
    {
        self.processed = index as i64 + 1;
        self.current_file = path;
    }

    /// Ends the scan: `done` when it succeeded, else `error`.
    pub fn finish(&mut self, succeeded: bool)
        ensures
            finish_outcome(*old(self), *final(self), succeeded),
    {
        self.status = if succeeded {
            "done".to_string()
        } else {
            "error".to_string()
        };
        self.running = false;
    }
}

/// Scans never overlap: once a scan has started, starting another is
/// refused as a conflict and changes nothing.
pub proof fn lemma_no_overlapping_scans(
    s0: ScanState,
    s1: ScanState,
    r1: Result<(), AppError>,
    s2: ScanState,
    r2: Result<(), AppError>,
)
    requires
        begin_outcome(s0, s1, r1),
        r1 is Ok,
        begin_outcome(s1, s2, r2),
    ensures
        r2 matches Err(AppError::Conflict(m)) && m@ == "scan already running"@,
        s2 == s1,
{
}

/// Once a scan has ended, whether it succeeded or not, the next one starts.
pub proof fn lemma_scan_restarts_after_finish(
    s1: ScanState,
    s2: ScanState,
    succeeded: bool,
    s3: ScanState,
    r3: Result<(), AppError>,
)
    requires
        finish_outcome(s1, s2, succeeded),
        begin_outcome(s2, s3, r3),
    ensures
        r3 is Ok,
        s3.running,
{
}

/// The media kind of a scanned file, by its lowercase extension.
pub fn classify_by_extension(path: &str) -> (r: String)
    ensures
        r@ == kind_of_ext(lower_ext(path@)),
{
    let e = lowercase_extension(path);
    kind_for_extension(&e)
}

/// A file that is not a directory is classified the same way by a scan and
/// by a directory listing.
pub proof fn lemma_scan_and_listing_agree(name: Seq<char>)
    ensures
        file_kind(name, false) == kind_of_ext(lower_ext(name)),
{
}

/// The title recorded for a scanned file: its file stem, or empty.
pub open spec fn title_of(relative_path: Seq<char>) -> Seq<char> {
    match file_stem(relative_path) {
        Some(s) => s,
        None => Seq::<char>::empty(),
    }
}

/// The title of a scanned file is its file name without the extension:
/// the title, a dot and the extension make up the file name; without an
/// extension the title is the file name; without a file name it is empty.
pub proof fn lemma_title_is_name_without_extension(relative_path: Seq<char>)
    ensures
        file_name(relative_path) is None ==> title_of(relative_path) == Seq::<char>::empty(),
        file_name(relative_path) matches Some(n) ==> match extension(relative_path) {
            Some(e) => title_of(relative_path) + seq!['.'] + e == n,
            None => title_of(relative_path) == n,
        },
{
    if file_name(relative_path) is Some {
        lemma_stem_and_extension(file_name(relative_path)->Some_0);
    }
}

/// What a scan records of a file at `relative_path` before probing it.
#[derive(Clone, Debug)]
pub struct IndexPlan {
    pub file_type: String,
    pub title: String,
    /// Whether the file is probed for video metadata.
    pub probe: bool,
}

/// What a scan records of the file at `relative_path`.
pub fn index_plan(relative_path: &str) -> (r: IndexPlan)
    ensures
        r.file_type@ == kind_of_ext(lower_ext(relative_path@)),
        r.title@ == title_of(relative_path@),
        file_name(relative_path@) is None ==> r.title@.len() == 0,
        file_name(relative_path@) matches Some(n) ==> match extension(relative_path@) {
            Some(e) => r.title@ + seq!['.'] + e == n,
            None => r.title@ == n,
        },
        r.probe == (kind_of_ext(lower_ext(relative_path@)) == "video"@),
{
    let file_type = classify_by_extension(relative_path);
    let pc = chars_of(relative_path);
    let title = match file_stem_of(&pc) {
        Some(s) => string_from_chars(&s),
        None => String::new(),
    };
    let ft = chars_of(file_type.as_str());
    let video = chars_of("video");
    let probe = chars_eq(&ft, &video);
    proof {
        lemma_title_is_name_without_extension(relative_path@);
    }
    IndexPlan { file_type, title, probe }
}

/// The relative path of `name` inside the scanned directory `relative_dir`
/// (empty for the library root).
pub fn child_path(relative_dir: &str, name: &str) -> (r: String)
    ensures
        r@ == path_join(relative_dir@, name@),
{
    let d = chars_of(relative_dir);
    let n = chars_of(name);
    let j = join(&d, &n);
    string_from_chars(&j)
}

/// The full path of a scanned file.
pub fn media_full_path(library_path: &str, relative_path: &str) -> (r: String)
    ensures
        r@ == path_join(library_path@, relative_path@),
{
    child_path(library_path, relative_path)
}

/// File name of a media file's thumbnail: the MD5 of its full path in
/// hexadecimal, then `.jpg`.
pub fn media_thumb_name(full_path: &str) -> (r: String)
    ensures
        r@ == hex_lower(md5_digest(full_path.spec_bytes())) + ".jpg"@,
{
    let h = md5_hex(full_path);
    let ext = chars_of(".jpg");
    let n = concat_chars(&h, &ext);
    string_from_chars(&n)
}

/// One stream of a media probe, as far as a scan reads it.
#[derive(Clone, Debug)]
pub struct ProbeStream {
    pub codec_type: Option<String>,
    pub codec_name: Option<String>,
    pub width: Option<i64>,
    pub height: Option<i64>,
}

/// A media probe, as far as a scan reads it: its streams (none when the
/// probe holds no stream list) and the container's bit rate text.
#[derive(Clone, Debug)]
pub struct ProbeOutput {
    pub streams: Option<Vec<ProbeStream>>,
    pub bit_rate: Option<String>,
}

/// What a scan records from a probe.
#[derive(Clone, Debug)]
pub struct ProbeSummary {
    pub codec: Option<String>,
    pub resolution: Option<String>,
    pub bitrate: Option<i64>,
}

/// A video stream.
pub open spec fn is_video_stream(s: ProbeStream) -> bool {
    s.codec_type matches Some(t) && t@ == "video"@
}

/// Position of the first video stream.
pub open spec fn first_video(streams: Seq<ProbeStream>) -> Option<int>
    decreases streams.len(),
{
    if streams.len() == 0 {
        None
    } else if is_video_stream(streams[0]) {
        Some(0)
    } else {
        match first_video(streams.drop_first()) {
            Some(i) => Some(i + 1),
            None => None,
        }
    }
}

/// `WIDTHxHEIGHT`.
pub open spec fn resolution_text(w: i64, h: i64) -> Seq<char> {
    decimal_int(w as int) + seq!['x'] + decimal_int(h as int)
}

/// `sum` is what a scan records from `probe`: the first video stream's
/// codec and size, and the bit rate when it reads as an integer.
pub open spec fn summary_of(probe: ProbeOutput, sum: ProbeSummary) -> bool {
    match probe.streams {
        None => false,
        Some(v) => {
            let first = first_video(v@);
            &&& match first {
                None => sum.codec is None && sum.resolution is None,
                Some(i) => {
                    let s = v@[i];
                    &&& match s.codec_name {
                        Some(c) => sum.codec matches Some(x) && x@ == c@,
                        None => sum.codec is None,
                    }
                    &&& match (s.width, s.height) {
                        (Some(w), Some(h)) => sum.resolution matches Some(x) && x@
                            == resolution_text(w, h),
                        _ => sum.resolution is None,
                    }
                },
            }
            &&& match probe.bit_rate {
                Some(b) => match parse_signed64(b@) {
                    Some(n) => sum.bitrate == Some(n as i64),
                    None => sum.bitrate is None,
                },
                None => sum.bitrate is None,
            }
        },
    }
}

fn find_video(v: &Vec<ProbeStream>) -> (r: Option<usize>)
    ensures
        r matches Some(i) ==> first_video(v@) == Some(i as int) && i < v@.len(),
        r is None ==> first_video(v@) is None,
{
    let mut i: usize = 0;
    let video = chars_of("video");
    assert(v@.skip(0) =~= v@);
    while i < v.len()
        invariant
            i <= v@.len(),
            video@ == "video"@,
            forall|j: int| 0 <= j < i ==> !is_video_stream(#[trigger] v@[j]),
            first_video(v@) == match first_video(v@.skip(i as int)) {
                Some(k) => Some(k + i),
                None => None,
            },
        decreases v@.len() - i,
    {
        let ghost rest = v@.skip(i as int);
        assert(rest[0] == v@[i as int]);
        assert(rest.drop_first() =~= v@.skip(i + 1));
        let is_video = match &v[i].codec_type {
            Some(t) => {
                let tc = chars_of(t.as_str());
                chars_eq(&tc, &video)
            },
            None => false,
        };
        if is_video {
            return Some(i);
        }
        i = i + 1;
    }
    None
}

/// What a scan records from `probe`; nothing when the probe holds no
/// stream list.
pub fn summarize_probe(probe: &ProbeOutput) -> (r: Option<ProbeSummary>)
    ensures
        r matches Some(sum) ==> summary_of(*probe, sum),
        r is None ==> probe.streams is None,
{
    let streams = match &probe.streams {
        Some(v) => v,
        None => return None,
    };
    let (codec, resolution) = match find_video(streams) {
        None => (None, None),
        Some(i) => {
            let s = &streams[i];
            let codec = match &s.codec_name {
                Some(c) => Some(c.clone()),
                None => None,
            };
            let resolution = match (s.width, s.height) {
                (Some(w), Some(h)) => {
                    let mut v: Vec<char> = Vec::new();
                    push_decimal_i64(&mut v, w);
                    v.push('x');
                    push_decimal_i64(&mut v, h);
                    assert(v@ =~= resolution_text(w, h));
                    Some(string_from_chars(&v))
                },
                _ => None,
            };
            (codec, resolution)
        },
    };
    let bitrate = match &probe.bit_rate {
        Some(b) => {
            let bc = chars_of(b.as_str());
            parse_i64(&bc)
        },
        None => None,
    };
    Some(ProbeSummary { codec, resolution, bitrate })
}

} // verus!
