//! Decisions of the download worker: how a task is downloaded, what an
//! aria2 status means for a task, and how HTTP downloads resume.

use vstd::prelude::*;
use crate::modules::download::aria2::{
    count_of, download_name, eta_of, is_magnet_or_torrent, is_torrent_url, mapped_status_of,
    Aria2Status,
};
use crate::modules::stream::service::{content_range_text, range_of};
use crate::num::{decimal, lemma_decimal_value, lemma_parse_decimal, parse_u64, parse_unsigned, push_decimal};
use crate::path::{file_name, file_name_of};
use crate::text::{chars_eq, chars_of, has_prefix, lemma_split_last_piece, lemma_split_no_sep, lemma_split_nonempty, split_chars, split_on, starts_with, string_from_chars, sub_chars, trim_char, trim_matches_char, trim_whitespace, trim_ws, views};

verus! {

broadcast use vstd::string::group_string_axioms;

/// How a queued task is downloaded.
#[derive(Clone, Debug)]
pub enum TaskRoute {
    /// Handed to aria2.
    Aria2,
    /// Failed at once with this message.
    Reject(String),
    /// Downloaded over HTTP by the server itself.
    Http,
}

/// How a queued task for `url` is downloaded: by aria2 when it is
/// available; otherwise torrents and magnet links fail, the rest go over
/// HTTP.
pub fn route_task(aria2_available: bool, url: &str) -> (r: TaskRoute)
    ensures
        aria2_available ==> r is Aria2,
        !aria2_available && is_torrent_url(url@) ==> (r matches TaskRoute::Reject(m) && m@
            == "aria2 not available — install aria2c for BT/magnet support"@),
        !aria2_available && !is_torrent_url(url@) ==> r is Http,
{
    if aria2_available {
        TaskRoute::Aria2
    } else if is_magnet_or_torrent(url) {
        TaskRoute::Reject("aria2 not available — install aria2c for BT/magnet support".to_string())
    } else {
        TaskRoute::Http
    }
}

/// What a finished aria2 download does to its task.
#[derive(Clone, Debug)]
pub enum TerminalAction {
    /// Still running: nothing.
    Continue,
    /// Mark the task completed.
    Complete,
    /// Mark the task failed with this message.
    Fail(String),
}

/// What aria2's status of a download does to its task: a completed
/// download completes it; a failed one with an error message fails it.
pub fn terminal_action(s: &Aria2Status) -> (r: TerminalAction)
    ensures
        mapped_status_of(s.status@) == "completed"@ ==> r is Complete,
        mapped_status_of(s.status@) == "failed"@ ==> match s.error_message {
            Some(e) => r matches TerminalAction::Fail(m) && m@ == e@,
            None => r is Continue,
        },
        mapped_status_of(s.status@) != "completed"@ && mapped_status_of(s.status@) != "failed"@
            ==> r is Continue,
{
    proof {
        reveal_strlit("completed");
        reveal_strlit("failed");
        assert("failed"@.len() != "completed"@.len());
    }
    let mapped = s.mapped_status();
    let mc = chars_of(mapped.as_str());
    let completed = chars_of("completed");
    let failed = chars_of("failed");
    if chars_eq(&mc, &completed) {
        TerminalAction::Complete
    } else if chars_eq(&mc, &failed) {
        match &s.error_message {
            Some(e) => {
                let m = e.clone();
                assert(m@ == e@);
                TerminalAction::Fail(m)
            },
            None => TerminalAction::Continue,
        }
    } else {
        TerminalAction::Continue
    }
}

/// Whether a waiting download has been followed by another (a torrent
/// whose metadata has arrived).
pub open spec fn has_successor(s: Aria2Status) -> bool {
    &&& s.status@ == "waiting"@
    &&& s.followed_by matches Some(f) && f@.len() > 0
}

/// The download a waiting aria2 download has been followed by (a torrent
/// whose metadata has arrived), which the task now tracks.
pub fn followed_gid(s: &Aria2Status) -> (r: Option<String>)
    ensures
        has_successor(*s) ==> (r matches Some(g) && g@ == s.followed_by->0@[0]@),
        !has_successor(*s) ==> r is None,
{
    let st = chars_of(s.status.as_str());
    let waiting = chars_of("waiting");
    if chars_eq(&st, &waiting) {
        if let Some(f) = &s.followed_by {
            if f.len() > 0 {
                return Some(f[0].clone());
            }
        }
    }
    None
}

/// What one round of aria2 polling does to a tracked task.
#[derive(Clone, Debug)]
pub struct SyncPlan {
    /// Position of the task's status among those polled.
    pub status_index: usize,
    /// The name to record when the task has none yet.
    pub file_name: Option<String>,
    pub speed: i64,
    pub size: i64,
    pub eta: i64,
    pub terminal: TerminalAction,
    /// The download the task tracks from now on.
    pub new_gid: Option<String>,
}

/// Position of the first status whose download is `gid`.
pub open spec fn first_with_gid(statuses: Seq<Aria2Status>, gid: Seq<char>) -> Option<int>
    decreases statuses.len(),
{
    if statuses.len() == 0 {
        None
    } else if statuses[0].gid@ == gid {
        Some(0)
    } else {
        match first_with_gid(statuses.drop_first(), gid) {
            Some(i) => Some(i + 1),
            None => None,
        }
    }
}

/// The remaining byte count of a status fits in an `i64`.
pub open spec fn eta_defined(s: Aria2Status) -> bool {
    i64::MIN <= count_of(s.total_length@) - count_of(s.completed_length@) <= i64::MAX
}

fn find_gid(statuses: &Vec<Aria2Status>, gid: &str) -> (r: Option<usize>)
    ensures
        r matches Some(i) ==> first_with_gid(statuses@, gid@) == Some(i as int) && i
            < statuses@.len() && statuses@[i as int].gid@ == gid@,
        r is None ==> first_with_gid(statuses@, gid@) is None,
{
    let g = chars_of(gid);
    let mut i: usize = 0;
    assert(statuses@.skip(0) =~= statuses@);
    while i < statuses.len()
        invariant
            i <= statuses@.len(),
            g@ == gid@,
            first_with_gid(statuses@, gid@) == match first_with_gid(
                statuses@.skip(i as int),
                gid@,
            ) {
                Some(k) => Some(k + i),
                None => None,
            },
        decreases statuses@.len() - i,
    {
        let ghost rest = statuses@.skip(i as int);
        assert(rest[0] == statuses@[i as int]);
        assert(rest.drop_first() =~= statuses@.skip(i + 1));
        let c = chars_of(statuses[i].gid.as_str());
        if chars_eq(&c, &g) {
            return Some(i);
        }
        i = i + 1;
    }
    None
}

/// What polling aria2 does to the task tracking download `gid`, given the
/// active and waiting statuses aria2 reported: nothing when none of them is
/// that download; otherwise its name, progress figures, end and successor
/// from the first status of that download.
pub fn plan_sync(gid: &str, statuses: &Vec<Aria2Status>) -> (r: Option<SyncPlan>)
    requires
        forall|i: int|
            0 <= i < statuses@.len() && (#[trigger] statuses@[i]).gid@ == gid@ ==> eta_defined(
                statuses@[i],
            ),
    ensures
        first_with_gid(statuses@, gid@) is None ==> r is None,
        first_with_gid(statuses@, gid@) matches Some(i) ==> (r matches Some(p) && {
            let s = statuses@[i];
            &&& p.status_index == i
            &&& match download_name(s.files@, s.files@.len()) {
                Some(n) => p.file_name matches Some(x) && x@ == n,
                None => p.file_name is None,
            }
            &&& p.speed as int == count_of(s.download_speed@)
            &&& p.size as int == count_of(s.total_length@)
            &&& p.eta as int == eta_of(
                count_of(s.total_length@),
                count_of(s.completed_length@),
                count_of(s.download_speed@),
            )
            &&& (mapped_status_of(s.status@) == "completed"@ ==> p.terminal is Complete)
            &&& (mapped_status_of(s.status@) == "failed"@ ==> match s.error_message {
                Some(e) => p.terminal matches TerminalAction::Fail(m) && m@ == e@,
                None => p.terminal is Continue,
            })
            &&& (mapped_status_of(s.status@) != "completed"@ && mapped_status_of(s.status@)
                != "failed"@ ==> p.terminal is Continue)
            &&& (has_successor(s) ==> (p.new_gid matches Some(g) && g@ == s.followed_by->0@[0]@))
            &&& (!has_successor(s) ==> p.new_gid is None)
        }),
{
    match find_gid(statuses, gid) {
        None => None,
        Some(i) => {
            let s = &statuses[i];
            Some(
                SyncPlan {
                    status_index: i,
                    file_name: s.file_name(),
                    speed: s.speed_bytes(),
                    size: s.total_bytes(),
                    eta: s.eta(),
                    terminal: terminal_action(s),
                    new_gid: followed_gid(s),
                },
            )
        },
    }
}

/// What becomes of a task whose HTTP download ended.
#[derive(Clone, Debug, PartialEq, Eq)]
pub enum HttpOutcome {
    Completed,
    /// Stopped because the user paused it: the task is left as it is.
    Paused,
    Failed,
}

/// The end of an HTTP download: completed when it succeeded; otherwise
/// paused when the user cancelled it, else failed.
pub fn http_outcome(succeeded: bool, cancelled: bool) -> (r: HttpOutcome)
    ensures
        succeeded ==> r == HttpOutcome::Completed,
        !succeeded && cancelled ==> r == HttpOutcome::Paused,
        !succeeded && !cancelled ==> r == HttpOutcome::Failed,
{
    if succeeded {
        HttpOutcome::Completed
    } else if cancelled {
        HttpOutcome::Paused
    } else {
        HttpOutcome::Failed
    }
}

/// The file an HTTP download is saved as: the URL's file name, or
/// `download`.
pub fn url_file_name(url: &str) -> (r: String)
    ensures
        r@ == match file_name(url@) {
            Some(n) => n,
            None => "download"@,
        },
{
    let u = chars_of(url);
    match file_name_of(&u) {
        Some(n) => string_from_chars(&n),
        None => "download".to_string(),
    }
}

/// The `Range` header that resumes a download after `downloaded` bytes.
pub open spec fn resume_range_text(downloaded: nat) -> Seq<char> {
    "bytes="@ + decimal(downloaded) + seq!['-']
}

/// The `Range` header value that resumes a download after `downloaded`
/// bytes.
pub fn range_request_value(downloaded: u64) -> (r: String)
    ensures
        r@ == resume_range_text(downloaded as nat),
{
    let mut v = chars_of("bytes=");
    push_decimal(&mut v, downloaded);
    v.push('-');
    assert(v@ =~= resume_range_text(downloaded as nat));
    string_from_chars(&v)
}

/// Whether an HTTP status lets a download go on: any success, or 206.
pub fn response_accepted(status: u16) -> (r: bool)
    ensures
        r == ((200 <= status <= 299) || status == 206),
{
    (200 <= status && status <= 299) || status == 206
}

/// The size of a download: on a resumed download, the total after the
/// last `/` of `Content-Range`; on a fresh one, `Content-Length`; 0 when
/// unknown.
pub open spec fn total_size_of(
    downloaded: nat,
    content_range: Option<Seq<char>>,
    content_length: Option<nat>,
) -> nat {
    if downloaded > 0 {
        match content_range {
            Some(c) => match parse_unsigned(split_on(c, '/').last(), u64::MAX as nat) {
                Some(n) => n,
                None => 0,
            },
            None => 0,
        }
    } else {
        match content_length {
            Some(n) => n,
            None => 0,
        }
    }
}

/// The size of a download from its response headers (see `total_size_of`).
pub fn total_size(downloaded: u64, content_range: Option<&str>, content_length: Option<u64>) -> (r:
    u64)
    ensures
        r as nat == total_size_of(
            downloaded as nat,
            match content_range {
                Some(c) => Some(c@),
                None => None,
            },
            match content_length {
                Some(n) => Some(n as nat),
                None => None,
            },
        ),
{
    if downloaded > 0 {
        match content_range {
            Some(c) => {
                let cc = chars_of(c);
                let parts = split_chars(&cc, '/');
                proof { lemma_split_nonempty(c@, '/'); }
                assert(views(parts@).last() == parts@[parts@.len() - 1]@);
                match parse_u64(&parts[parts.len() - 1]) {
                    Some(n) => n,
                    None => 0,
                }
            },
            None => 0,
        }
    } else {
        match content_length {
            Some(n) => n,
            None => 0,
        }
    }
}

/// Position of the first `''` in `s`.
pub open spec fn first_double_quote(s: Seq<char>) -> Option<int>
    decreases s.len(),
{
    if s.len() < 2 {
        None
    } else if s[0] == '\'' && s[1] == '\'' {
        Some(0)
    } else {
        match first_double_quote(s.drop_first()) {
            Some(i) => Some(i + 1),
            None => None,
        }
    }
}

/// The file name a `Content-Disposition` header's parts give: the first
/// part that, trimmed, is `filename=NAME` (quotes stripped) or
/// `filename*=CHARSET''NAME`.
pub open spec fn disposition_name(parts: Seq<Seq<char>>) -> Option<Seq<char>>
    decreases parts.len(),
{
    if parts.len() == 0 {
        None
    } else {
        let p = trim_ws(parts[0]);
        if has_prefix(p, "filename="@) {
            Some(trim_char(p.subrange(9, p.len() as int), '"'))
        } else if has_prefix(p, "filename*="@) && first_double_quote(
            p.subrange(10, p.len() as int),
        ) is Some {
            let rest = p.subrange(10, p.len() as int);
            let i = first_double_quote(rest)->0;
            Some(rest.subrange(i + 2, rest.len() as int))
        } else {
            disposition_name(parts.drop_first())
        }
    }
}

fn find_double_quote(s: &[char]) -> (r: Option<usize>)
    ensures
        r matches Some(i) ==> first_double_quote(s@) == Some(i as int) && i + 2 <= s@.len(),
        r is None ==> first_double_quote(s@) is None,
{
    let mut i: usize = 0;
    assert(s@.skip(0) =~= s@);
    while i < s.len() && s.len() - i > 1
        invariant
            i <= s@.len(),
            first_double_quote(s@) == match first_double_quote(s@.skip(i as int)) {
                Some(k) => Some(k + i),
                None => None,
            },
        decreases s@.len() - i,
    {
        let ghost rest = s@.skip(i as int);
        assert(rest[0] == s@[i as int] && rest[1] == s@[i + 1]);
        assert(rest.drop_first() =~= s@.skip(i + 1));
        if s[i] == '\'' && s[i + 1] == '\'' {
            return Some(i);
        }
        i = i + 1;
    }
    assert(s@.skip(i as int).len() < 2);
    None
}

/// The file name a `Content-Disposition` header gives, if any.
pub fn parse_content_disposition(header: &str) -> (r: Option<String>)
    ensures
        r matches Some(n) ==> disposition_name(split_on(header@, ';')) == Some(n@),
        r is None ==> disposition_name(split_on(header@, ';')) is None,
{
    let h = chars_of(header);
    let parts = split_chars(&h, ';');
    let plain = chars_of("filename=");
    let star = chars_of("filename*=");
    assert(plain@.len() == 9) by {
        reveal_strlit("filename=");
    }
    assert(star@.len() == 10) by {
        reveal_strlit("filename*=");
    }
    let ghost ps = views(parts@);
    let mut i: usize = 0;
    assert(ps.skip(0) =~= ps);
    while i < parts.len()
        invariant
            i <= parts@.len(),
            ps == views(parts@),
            ps == split_on(header@, ';'),
            plain@ == "filename="@,
            star@ == "filename*="@,
            plain@.len() == 9,
            star@.len() == 10,
            disposition_name(ps) == disposition_name(ps.skip(i as int)),
        decreases parts@.len() - i,
    {
        let ghost rest = ps.skip(i as int);
        assert(rest[0] == parts@[i as int]@);
        assert(rest.drop_first() =~= ps.skip(i + 1));
        let p = trim_whitespace(&parts[i]);
        if starts_with(&p, &plain) {
            let name = sub_chars(&p, 9, p.len());
            let t = trim_matches_char(&name, '"');
            return Some(string_from_chars(&t));
        }
        if starts_with(&p, &star) {
            let name = sub_chars(&p, 10, p.len());
            if let Some(idx) = find_double_quote(&name) {
                let n = sub_chars(&name, idx + 2, name.len());
                return Some(string_from_chars(&n));
            }
        }
        i = i + 1;
    }
    None
}

/// A resumed download is served from where it stopped: the `Range`
/// header it sends after `downloaded` bytes asks for the rest of a file of
/// `size` bytes.
pub proof fn lemma_resume_range_is_served(downloaded: nat, size: nat)
    requires
        downloaded < size,
        size <= u64::MAX,
    ensures
        range_of(resume_range_text(downloaded), size) == Some((downloaded, (size - 1) as nat)),
{
    let d = decimal(downloaded);
    let h = resume_range_text(downloaded);
    reveal_strlit("bytes=");
    lemma_decimal_value(downloaded);
    lemma_parse_decimal(downloaded, u64::MAX as nat);
    assert(h.subrange(0, 6) =~= "bytes="@);
    let rest = h.subrange(6, h.len() as int);
    assert(rest =~= d.push('-'));
    assert(!d.contains('-')) by {
        if d.contains('-') {
            let i = choose|i: int| 0 <= i < d.len() && d[i] == '-';
            assert(crate::num::is_digit(d[i]));
        }
    }
    lemma_split_no_sep(d, '-');
    assert(d.push('-').drop_last() =~= d);
    assert(split_on(rest, '-') =~= seq![d, Seq::<char>::empty()]);
}

/// A resumed download learns the whole size from the server's
/// `Content-Range`: what it reads after the last `/` is the file size.
pub proof fn lemma_served_total_is_read(
    downloaded: nat,
    start: nat,
    end: nat,
    size: nat,
    content_length: Option<nat>,
)
    requires
        downloaded > 0,
        size <= u64::MAX,
    ensures
        total_size_of(downloaded, Some(content_range_text(start, end, size)), content_length)
            == size,
{
    let c = content_range_text(start, end, size);
    let p = "bytes "@ + decimal(start) + seq!['-'] + decimal(end);
    let b = decimal(size);
    lemma_decimal_value(size);
    lemma_parse_decimal(size, u64::MAX as nat);
    assert(c =~= p.push('/') + b);
    assert(!b.contains('/')) by {
        if b.contains('/') {
            let i = choose|i: int| 0 <= i < b.len() && b[i] == '/';
            assert(crate::num::is_digit(b[i]));
        }
    }
    lemma_split_last_piece(p, b, '/');
}

} // verus!
