//! What the server reads from aria2: download statuses and the RPC address.

use vstd::prelude::*;
use crate::num::{decimal, parse_i64, parse_signed64, push_decimal};
use crate::path::{file_name, file_name_of};
use crate::text::{chars_eq, chars_of, concat_chars, ends_with, has_prefix, has_suffix, starts_with, string_from_chars};

verus! {

broadcast use vstd::string::group_string_axioms;

/// Whether `url` is handed to a BitTorrent client: a magnet link or a
/// `.torrent` file.
pub open spec fn is_torrent_url(url: Seq<char>) -> bool {
    has_prefix(url, "magnet:"@) || has_suffix(url, ".torrent"@)
}

/// Whether `url` is a magnet link or a `.torrent` file.
pub fn is_magnet_or_torrent(url: &str) -> (r: bool)
    ensures
        r == is_torrent_url(url@),
{
    let u = chars_of(url);
    let m = chars_of("magnet:");
    let t = chars_of(".torrent");
    starts_with(&u, &m) || ends_with(&u, &t)
}

/// The aria2 JSON-RPC endpoint on this machine at `port`.
pub fn rpc_url(port: u16) -> (r: String)
    ensures
        r@ == "http://127.0.0.1:"@ + decimal(port as nat) + "/jsonrpc"@,
{
    let mut v = chars_of("http://127.0.0.1:");
    push_decimal(&mut v, port as u64);
    let tail = chars_of("/jsonrpc");
    let w = concat_chars(&v, &tail);
    string_from_chars(&w)
}

/// The secret token as aria2 expects it first in every call's parameters.
pub fn rpc_token(secret: &str) -> (r: String)
    ensures
        r@ == "token:"@ + secret@,
{
    let a = chars_of("token:");
    let b = chars_of(secret);
    let w = concat_chars(&a, &b);
    string_from_chars(&w)
}

/// One file of an aria2 download.
#[derive(Clone, Debug)]
pub struct Aria2File {
    pub path: String,
    pub length: String,
    pub completed_length: String,
    pub selected: Option<String>,
}

/// The status aria2 reports of one download.
#[derive(Clone, Debug)]
pub struct Aria2Status {
    pub gid: String,
    pub status: String,
    pub total_length: String,
    pub completed_length: String,
    pub download_speed: String,
    pub upload_speed: String,
    pub files: Vec<Aria2File>,
    pub error_message: Option<String>,
    pub followed_by: Option<Vec<String>>,
}

/// A byte count as aria2 writes it, read as an integer; 0 when it does not
/// read as one.
pub open spec fn count_of(s: Seq<char>) -> int {
    match parse_signed64(s) {
        Some(n) => n,
        None => 0,
    }
}

fn count(s: &String) -> (r: i64)
    ensures
        r as int == count_of(s@),
{
    let c = chars_of(s.as_str());
    match parse_i64(&c) {
        Some(n) => n,
        None => 0,
    }
}

/// `a / b` rounded toward zero, as Rust's integer division rounds.
pub open spec fn div_toward_zero(a: int, b: int) -> int {
    if a >= 0 {
        a / b
    } else {
        -((-a) / b)
    }
}

/// The estimated seconds left: remaining bytes over speed, 0 when stalled.
pub open spec fn eta_of(total: int, completed: int, speed: int) -> int {
    if speed > 0 {
        div_toward_zero(total - completed, speed)
    } else {
        0
    }
}

/// The task status a download's aria2 status maps to.
pub open spec fn mapped_status_of(status: Seq<char>) -> Seq<char> {
    if status == "active"@ {
        "downloading"@
    } else if status == "waiting"@ {
        "queued"@
    } else if status == "paused"@ {
        "paused"@
    } else if status == "error"@ {
        "failed"@
    } else if status == "complete"@ {
        "completed"@
    } else if status == "removed"@ {
        "removed"@
    } else {
        "queued"@
    }
}

/// Every aria2 status maps to one of the task statuses.
pub proof fn lemma_mapped_status_is_task_status(status: Seq<char>)
    ensures
        ({
            let m = mapped_status_of(status);
            m == "downloading"@ || m == "queued"@ || m == "paused"@ || m == "failed"@ || m
                == "completed"@ || m == "removed"@
        }),
{
}

/// Whether a file is the one a download is named after: it is selected, or
/// it is the only one.
pub open spec fn names_download(f: Aria2File, count: nat) -> bool {
    (f.selected matches Some(s) && s@ == "true"@) || count == 1
}

/// The name of a download: the file name of the first file that names it
/// and has one.
pub open spec fn download_name(files: Seq<Aria2File>, count: nat) -> Option<Seq<char>>
    decreases files.len(),
{
    if files.len() == 0 {
        None
    } else if names_download(files[0], count) && file_name(files[0].path@) is Some {
        file_name(files[0].path@)
    } else {
        download_name(files.drop_first(), count)
    }
}

/// Whether `f` can name a download: it names it and has a file name.
pub open spec fn gives_name(f: Aria2File, count: nat) -> bool {
    names_download(f, count) && file_name(f.path@) is Some
}

/// A download is named after the first of its files that is selected (or
/// is the only one) and has a file name; it has no name when none does.
pub proof fn lemma_download_name_first(files: Seq<Aria2File>, count: nat)
    ensures
        download_name(files, count) matches Some(n) ==> exists|i: int|
            0 <= i < files.len() && gives_name(files[i], count) && file_name(files[i].path@)
                == Some(n) && forall|j: int| 0 <= j < i ==> !gives_name(#[trigger] files[j], count),
        download_name(files, count) is None ==> forall|i: int|
            0 <= i < files.len() ==> !gives_name(#[trigger] files[i], count),
    decreases files.len(),
{
    if files.len() > 0 {
        let t = files.drop_first();
        lemma_download_name_first(t, count);
        if gives_name(files[0], count) {
            assert(0 <= 0 < files.len() && gives_name(files[0], count) && file_name(files[0].path@)
                == download_name(files, count));
        } else {
            assert forall|j: int| 1 <= j < files.len() implies files[j] == #[trigger] t[j - 1] by {}
            if download_name(t, count) is Some {
                let n = download_name(t, count)->Some_0;
                let i = choose|i: int|
                    0 <= i < t.len() && gives_name(t[i], count) && file_name(t[i].path@) == Some(n)
                        && forall|j: int| 0 <= j < i ==> !gives_name(#[trigger] t[j], count);
                assert(files[i + 1] == t[i]);
                assert forall|j: int| 0 <= j < i + 1 implies !gives_name(#[trigger] files[j], count) by {
                    if j > 0 {
                        assert(files[j] == t[j - 1]);
                    }
                }
            } else {
                assert forall|i: int| 0 <= i < files.len() implies !gives_name(#[trigger] files[i], count) by {
                    if i > 0 {
                        assert(files[i] == t[i - 1]);
                    }
                }
            }
        }
    }
}

impl Aria2Status {
    /// Total size in bytes.
    pub fn total_bytes(&self) -> (r: i64)
        ensures
            r as int == count_of(self.total_length@),
    {
        count(&self.total_length)
    }

    /// Bytes downloaded.
    pub fn completed_bytes(&self) -> (r: i64)
        ensures
            r as int == count_of(self.completed_length@),
    {
        count(&self.completed_length)
    }

    /// Download speed in bytes per second.
    pub fn speed_bytes(&self) -> (r: i64)
        ensures
            r as int == count_of(self.download_speed@),
    {
        count(&self.download_speed)
    }

    /// Estimated seconds left.
    pub fn eta(&self) -> (r: i64)
        requires
            i64::MIN <= count_of(self.total_length@) - count_of(self.completed_length@)
                <= i64::MAX,
        ensures
            r as int == eta_of(
                count_of(self.total_length@),
                count_of(self.completed_length@),
                count_of(self.download_speed@),
            ),
    {
        let speed = self.speed_bytes();
        let remaining = self.total_bytes() - self.completed_bytes();
        if speed > 0 {
            remaining / speed
        } else {
            0
        }
    }

    /// The download's name, from its files.
    pub fn file_name(&self) -> (r: Option<String>)
        ensures
            r matches Some(n) ==> download_name(self.files@, self.files@.len()) == Some(n@),
            r is None ==> download_name(self.files@, self.files@.len()) is None,
            r matches Some(n) ==> exists|i: int|
                0 <= i < self.files@.len() && gives_name(self.files@[i], self.files@.len())
                    && file_name(self.files@[i].path@) == Some(n@) && forall|j: int|
                    0 <= j < i ==> !gives_name(#[trigger] self.files@[j], self.files@.len()),
            r is None ==> forall|i: int|
                0 <= i < self.files@.len() ==> !gives_name(
                    #[trigger] self.files@[i],
                    self.files@.len(),
                ),
    {
        let n = self.files.len();
        let t = chars_of("true");
        let mut i: usize = 0;
        assert(self.files@.skip(0) =~= self.files@);
        while i < n
            invariant
                n == self.files@.len(),
                i <= n,
                t@ == "true"@,
                download_name(self.files@, n as nat) == download_name(self.files@.skip(i as int), n as nat),
            decreases n - i,
        {
            let f = &self.files[i];
            let ghost rest = self.files@.skip(i as int);
            assert(rest[0] == *f);
            assert(rest.drop_first() =~= self.files@.skip(i + 1));
            let selected = match &f.selected {
                Some(s) => {
                    let sc = chars_of(s.as_str());
                    chars_eq(&sc, &t)
                },
                None => false,
            };
            if selected || n == 1 {
                let pc = chars_of(f.path.as_str());
                if let Some(name) = file_name_of(&pc) {
                    proof {
                        lemma_download_name_first(self.files@, self.files@.len());
                    }
                    return Some(string_from_chars(&name));
                }
            }
            i = i + 1;
        }
        proof {
            lemma_download_name_first(self.files@, self.files@.len());
        }
        None
    }

    /// The task status this download maps to.
    pub fn mapped_status(&self) -> (r: String)
        ensures
            r@ == mapped_status_of(self.status@),
    {
        let s = chars_of(self.status.as_str());
        let is = |lit: &str| -> (b: bool)
            ensures
                b == (s@ == lit@),
            {
                let l = chars_of(lit);
                chars_eq(&s, &l)
            };
        if is("active") {
            "downloading".to_string()
        } else if is("waiting") {
            "queued".to_string()
        } else if is("paused") {
            "paused".to_string()
        } else if is("error") {
            "failed".to_string()
        } else if is("complete") {
            "completed".to_string()
        } else if is("removed") {
            "removed".to_string()
        } else {
            "queued".to_string()
        }
    }
}

} // verus!
