//! What the info page decides: the background video playlist, the player's
//! track name and its clock.

use vstd::prelude::*;
use vstd::string::StringExecFns;
use crate::text::{after_last_slash, decimal, digit_char, push_decimal};

verus! {

broadcast use vstd::string::group_string_axioms;

/// The background video after the one at `index` ends: the next in the
/// playlist, wrapping to the first; with no videos the index stays.
pub fn next_video_index(index: usize, len: usize) -> (r: usize)
    requires
        len == 0 || index < usize::MAX,
    ensures
        r == (if len == 0 {
            index as int
        } else {
            (index + 1) % (len as int)
        }),
{
    if len == 0 {
        return index;
    }
    (index + 1) % len
}

/// The URL of the background video at `index`, or the empty string when the
/// playlist has none there.
pub fn current_video_src(playlist: &[String], index: usize) -> (r: String)
    ensures
        r@ == (if index < playlist@.len() {
            playlist@[index as int]@
        } else {
            Seq::empty()
        }),
{
    if index < playlist.len() {
        playlist[index].clone()
    } else {
        String::new()
    }
}

/// The name the player shows for the track playing: the last segment of its
/// URL, or a dash when nothing plays.
pub open spec fn track_label_text(current: Option<Seq<char>>) -> Seq<char> {
    match current {
        Some(url) => after_last_slash(url),
        None => "—"@,
    }
}

/// The part of `url` after its last `/`.
pub fn file_name_of(url: &str) -> (r: String)
    ensures
        r@ == after_last_slash(url@),
{
    let n = url.unicode_len();
    let mut k: usize = n;
    assert(url@.take(n as int) =~= url@);
    assert(url@.subrange(n as int, n as int) =~= Seq::<char>::empty());
    assert(after_last_slash(url@) =~= after_last_slash(url@.take(n as int)) + url@.subrange(n as int, n as int));
    while k > 0 && url.get_char(k - 1) != '/'
        invariant
            n == url@.len(),
            k <= n,
            after_last_slash(url@) == after_last_slash(url@.take(k as int)) + url@.subrange(
                k as int,
                n as int,
            ),
        decreases k,
    {
        let ghost t = url@.take(k as int);
        assert(t.drop_last() =~= url@.take(k - 1));
        assert(url@.subrange(k - 1, n as int) =~= seq![t.last()] + url@.subrange(k as int, n as int));
        assert(after_last_slash(t) == after_last_slash(t.drop_last()).push(t.last()));
        assert(after_last_slash(t.drop_last()).push(t.last()) + url@.subrange(k as int, n as int)
            =~= after_last_slash(t.drop_last()) + url@.subrange(k - 1, n as int));
        k = k - 1;
    }
    assert(after_last_slash(url@.take(k as int)) =~= Seq::<char>::empty());
    assert(after_last_slash(url@) =~= url@.subrange(k as int, n as int));
    String::from_str(url.substring_char(k, n))
}

/// The name the player shows for the track playing.
pub fn track_label(current: Option<&str>) -> (r: String)
    ensures
        r@ == track_label_text(
            match current {
                Some(s) => Some(s@),
                None => None,
            },
        ),
{
    match current {
        Some(url) => file_name_of(url),
        None => "—".to_string(),
    }
}

/// `n` written with two digits at least.
pub open spec fn two_digits(n: nat) -> Seq<char> {
    if n < 10 {
        "0"@ + decimal(n)
    } else {
        decimal(n)
    }
}

/// A duration of `total_secs` whole seconds as minutes and seconds: `m:ss`.
pub fn format_clock(total_secs: u64) -> (r: String)
    ensures
        r@ == decimal((total_secs / 60) as nat) + ":"@ + two_digits((total_secs % 60) as nat),
        r@ == decimal((total_secs / 60) as nat) + seq![':'] + seq![
            digit_char(((total_secs % 60) / 10) as int),
            digit_char((total_secs % 10) as int),
        ],
{
    let mut s = String::new();
    push_decimal(&mut s, total_secs / 60);
    s.append(":");
    let secs = total_secs % 60;
    if secs < 10 {
        s.append("0");
    }
    push_decimal(&mut s, secs);
    proof {
        reveal_strlit(":");
        reveal_strlit("0");
    }
    assert(s@ =~= decimal((total_secs / 60) as nat) + ":"@ + two_digits((total_secs % 60) as nat));
    proof {
        lemma_seconds_are_two_digits((total_secs % 60) as nat);
        assert((total_secs % 60) % 10 == total_secs % 10);
        assert(":"@ =~= seq![':']);
        assert(s@ =~= decimal((total_secs / 60) as nat) + seq![':'] + seq![
            digit_char(((total_secs % 60) / 10) as int),
            digit_char((total_secs % 10) as int),
        ]);
    }
    s
}

/// The seconds of the clock are always exactly two digits, tens then units:
/// a count below 100 is written as the digit of its tens (`0` below ten)
/// followed by the digit of its units.
pub proof fn lemma_seconds_are_two_digits(n: nat)
    requires
        n < 100,
    ensures
        two_digits(n) == seq![digit_char((n / 10) as int), digit_char((n % 10) as int)],
{
    reveal_strlit("0");
    if n < 10 {
        assert(digit_char(0) == '0');
        assert(two_digits(n) =~= seq![digit_char((n / 10) as int), digit_char((n % 10) as int)]);
    } else {
        assert(decimal((n / 10) as nat) == seq![digit_char((n / 10) as int)]);
        assert(two_digits(n) =~= seq![digit_char((n / 10) as int), digit_char((n % 10) as int)]);
    }
}

/// The videos to play in turn once the catalog changes: its shuffled videos
/// when it has loaded and holds any, and none otherwise.
pub fn video_playlist(loaded: bool, videos: &[String]) -> (r: Vec<String>)
    ensures
        r@ == (if loaded && videos@.len() > 0 {
            videos@
        } else {
            Seq::empty()
        }),
{
    let mut out: Vec<String> = Vec::new();
    if !loaded {
        return out;
    }
    let mut i: usize = 0;
    while i < videos.len()
        invariant
            i <= videos@.len(),
            out@ == videos@.take(i as int),
        decreases videos@.len() - i,
    {
        out.push(videos[i].clone());
        i = i + 1;
        assert(out@ =~= videos@.take(i as int));
    }
    assert(videos@.take(i as int) =~= videos@);
    out
}

} // verus!
