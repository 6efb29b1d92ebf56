//! BitTorrent session settings: the public trackers announced to.

use vstd::prelude::*;
use crate::text::{chars_eq, chars_of};

verus! {

broadcast use vstd::string::group_string_axioms;

/// Name for what `url::Url::parse` makes of a text: its serialization when
/// the text is a valid absolute URL, nothing otherwise.
pub uninterp spec fn url_parse(s: Seq<char>) -> Option<Seq<char>>;

/// The URL `s` parses as, written back as text.
///
/// Trusted: calls `url::Url::parse` and keeps `Url::as_str` of the result;
/// the contract claims only that the outcome is the fixed function
/// `url_parse` of the input text.
#[verifier::external_body]
fn parse_url(s: &str) -> (r: Option<String>)
    ensures
        r matches Some(u) ==> url_parse(s@) == Some(u@),
        r is None ==> url_parse(s@) is None,
{
    match url::Url::parse(s) {
        Ok(u) => Some(u.as_str().to_string()),
        Err(_) => None,
    }
}

/// The public trackers announced to when DHT is unreachable.
pub open spec fn fallback_trackers() -> Seq<Seq<char>> {
    seq![
        "udp://tracker.opentrackr.org:1337/announce"@,
        "udp://tracker.openbittorrent.com:6969/announce"@,
        "udp://open.demonii.com:1337/announce"@,
        "udp://tracker.torrent.eu.org:451/announce"@,
        "http://tracker.opentrackr.org:1337/announce"@,
    ]
}

/// Whether the text `x` is one of `v`'s.
pub open spec fn holds_text(v: Seq<String>, x: Seq<char>) -> bool {
    exists|i: int| 0 <= i < v.len() && v[i]@ == x
}

/// Whether `x` is what one of the fallback trackers parses as.
pub open spec fn is_fallback_url(x: Seq<char>) -> bool {
    exists|k: int| 0 <= k < fallback_trackers().len() && url_parse(fallback_trackers()[k]) == Some(x)
}

/// No URL occurs twice.
pub open spec fn distinct(v: Seq<String>) -> bool {
    forall|i: int, j: int| 0 <= i < j < v.len() ==> v[i]@ != v[j]@
}

fn contains_text(v: &Vec<String>, s: &String) -> (r: bool)
    ensures
        r == holds_text(v@, s@),
{
    let sc = chars_of(s.as_str());
    let mut i: usize = 0;
    while i < v.len()
        invariant
            i <= v@.len(),
            sc@ == s@,
            forall|j: int| 0 <= j < i ==> v@[j]@ != s@,
        decreases v@.len() - i,
    {
        let c = chars_of(v[i].as_str());
        if chars_eq(&c, &sc) {
            return true;
        }
        i = i + 1;
    }
    false
}

/// Adds the URL `text` parses as to `set`, unless it is invalid or already
/// there.
fn add_tracker(set: &mut Vec<String>, text: &str)
    requires
        distinct(old(set)@),
    ensures
        distinct(final(set)@),
        forall|x: Seq<char>|
            #[trigger] holds_text(final(set)@, x) <==> (holds_text(old(set)@, x) || url_parse(
                text@,
            ) == Some(x)),
{
    if let Some(u) = parse_url(text) {
        if !contains_text(set, &u) {
            let ghost before = set@;
            set.push(u);
            assert forall|x: Seq<char>| holds_text(set@, x) implies (holds_text(before, x)
                || url_parse(text@) == Some(x)) by {
                let i = choose|i: int| 0 <= i < set@.len() && set@[i]@ == x;
                if i < before.len() {
                    assert(before[i] == set@[i]);
                }
            }
            assert forall|x: Seq<char>|
                (holds_text(before, x) || url_parse(text@) == Some(x)) implies holds_text(
                set@,
                x,
            ) by {
                if holds_text(before, x) {
                    let i = choose|i: int| 0 <= i < before.len() && before[i]@ == x;
                    assert(set@[i] == before[i]);
                } else {
                    assert(set@[before.len() as int]@ == x);
                }
            }
        }
    }
}

/// The trackers a BitTorrent session is created with: every fallback
/// tracker that is a valid URL, each once.
pub fn default_trackers() -> (r: Vec<String>)
    ensures
        distinct(r@),
        forall|x: Seq<char>| #[trigger] holds_text(r@, x) <==> is_fallback_url(x),
{
    let mut set: Vec<String> = Vec::new();
    let ghost t = fallback_trackers();
    add_tracker(&mut set, "udp://tracker.opentrackr.org:1337/announce");
    add_tracker(&mut set, "udp://tracker.openbittorrent.com:6969/announce");
    add_tracker(&mut set, "udp://open.demonii.com:1337/announce");
    add_tracker(&mut set, "udp://tracker.torrent.eu.org:451/announce");
    add_tracker(&mut set, "http://tracker.opentrackr.org:1337/announce");
    assert forall|x: Seq<char>| #[trigger] holds_text(set@, x) <==> is_fallback_url(x) by {
        if exists|k: int| 0 <= k < t.len() && url_parse(t[k]) == Some(x) {
            let k = choose|k: int| 0 <= k < t.len() && url_parse(t[k]) == Some(x);
            assert(k == 0 || k == 1 || k == 2 || k == 3 || k == 4);
        }
        if url_parse(t[0]) == Some(x) || url_parse(t[1]) == Some(x) || url_parse(t[2]) == Some(x)
            || url_parse(t[3]) == Some(x) || url_parse(t[4]) == Some(x) {
            if url_parse(t[0]) == Some(x) {
                assert(url_parse(t[0]) == Some(x));
            } else if url_parse(t[1]) == Some(x) {
                assert(url_parse(t[1]) == Some(x));
            } else if url_parse(t[2]) == Some(x) {
                assert(url_parse(t[2]) == Some(x));
            } else if url_parse(t[3]) == Some(x) {
                assert(url_parse(t[3]) == Some(x));
            } else {
                assert(url_parse(t[4]) == Some(x));
            }
        }
    }
    set
}

} // verus!
