use crate::action::{Action, Arg};
use crate::events::{listed_ids, spawned_window};
use crate::json::json_parse;
use vstd::prelude::*;
use vstd::string::{StrSliceExecFns, StringExecFns};

verus! {

/// A program to spawn: the command line that starts it, and the program
/// identity (`app_id`) its windows report.
pub struct App {
    pub cmd: &'static str,
    pub id: &'static str,
}

/// What one read from the event stream gave.
pub enum StreamRead {
    /// One line of text, with its line break if it had one.
    Line(String),
    /// The read failed, timed out, or found the connection closed.
    Ended,
}

/// Where a spawn correlation stands after one read.
#[derive(PartialEq, Eq, Structural, Debug, Clone, Copy)]
pub enum SpawnProgress {
    /// The spawned program's window was found and is now known.
    Matched(u64),
    /// Keep reading.
    Waiting,
    /// The stream ended; the window was not identified.
    StreamEnded,
}

/// Whether `c` has the Unicode White_Space property.
pub open spec fn is_white_space(c: char) -> bool {
    let u = c as u32;
    (0x9 <= u <= 0xd) || u == 0x20 || u == 0x85 || u == 0xa0 || u == 0x1680 || (0x2000 <= u
        <= 0x200a) || u == 0x2028 || u == 0x2029 || u == 0x202f || u == 0x205f || u == 0x3000
}

/// The known identifiers after the bootstrap reads `line`: a line that is
/// not JSON changes nothing.
pub open spec fn absorb_line(known: Set<u64>, line: Seq<char>) -> Set<u64> {
    match json_parse(line) {
        Some(j) => known.union(listed_ids(j)),
        None => known,
    }
}

/// The window that `line` reports as created by a spawn of `app`.
pub open spec fn spawn_outcome(known: Set<u64>, app: Seq<char>, line: Seq<char>) -> Option<u64> {
    match json_parse(line) {
        Some(j) => spawned_window(known, app, j),
        None => None,
    }
}

/// Whether `c` has the Unicode White_Space property, as `char::is_whitespace` tests it.
pub fn white_space(c: char) -> (r: bool)
    ensures
        r == is_white_space(c),
{
    let u = c as u32;
    (0x9 <= u && u <= 0xd) || u == 0x20 || u == 0x85 || u == 0xa0 || u == 0x1680 || (0x2000 <= u
        && u <= 0x200a) || u == 0x2028 || u == 0x2029 || u == 0x202f || u == 0x205f || u == 0x3000
}

/// The words found and the word under way after reading the first `k`
/// characters of `s`, where words are separated by white space.
pub open spec fn scan_words(s: Seq<char>, k: int) -> (Seq<Seq<char>>, Seq<char>)
    decreases k,
{
    if k <= 0 {
        (Seq::empty(), Seq::empty())
    } else {
        let (done, cur) = scan_words(s, k - 1);
        if !is_white_space(s[k - 1]) {
            (done, cur.push(s[k - 1]))
        } else if cur.len() == 0 {
            (done, cur)
        } else {
            (done.push(cur), Seq::empty())
        }
    }
}

/// The words of `s`: its maximal runs of characters without the White_Space
/// property, in order, as `str::split_whitespace` gives them.
pub open spec fn words(s: Seq<char>) -> Seq<Seq<char>> {
    let (done, cur) = scan_words(s, s.len() as int);
    if cur.len() == 0 {
        done
    } else {
        done.push(cur)
    }
}

/// The texts of `v`.
pub open spec fn texts(v: Seq<String>) -> Seq<Seq<char>> {
    v.map_values(|w: String| w@)
}

/// The words of `s`, split at white space.
pub fn split_words(s: &str) -> (r: Vec<String>)
    ensures
        texts(r@) == words(s@),
{
    let n = s.unicode_len();
    let mut done: Vec<String> = Vec::new();
    let mut start: usize = 0;
    let mut i: usize = 0;
    assert(texts(done@) =~= Seq::<Seq<char>>::empty());
    assert(s@.subrange(0, 0) =~= Seq::<char>::empty());
    while i < n
        invariant
            n == s@.len(),
            start <= i <= n,
            scan_words(s@, i as int) == (texts(done@), s@.subrange(start as int, i as int)),
        decreases n - i,
    {
        let c = s.get_char(i);
        if white_space(c) {
            if start < i {
                let w = s.substring_char(start, i);
                let ghost before = done@;
                done.push(String::from_str(w));
                assert(texts(done@) =~= texts(before).push(w@));
            }
            start = i + 1;
            assert(s@.subrange(start as int, i + 1) =~= Seq::<char>::empty());
        } else {
            assert(s@.subrange(start as int, i + 1) =~= s@.subrange(start as int, i as int).push(c));
        }
        i = i + 1;
    }
    if start < n {
        let w = s.substring_char(start, n);
        let ghost before = done@;
        done.push(String::from_str(w));
        assert(texts(done@) =~= texts(before).push(w@));
    }
    done
}

/// The action that starts `app`: `Spawn` with its command line split into
/// words at white space.
pub fn spawn_action(app: &App) -> (r: Action)
    ensures
        r.verb@ == "Spawn"@,
        r.fields@.len() == 1,
        r.fields@[0].0@ == "command"@,
        r.fields@[0].1 matches Arg::StrList(ws) && texts(ws@) == words(app.cmd@),
{
    let words = split_words(app.cmd);
    Action::new("Spawn").with("command", Arg::StrList(words))
}

} // verus!
