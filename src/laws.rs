use crate::events::{listed_ids, spawned_window};
use crate::json::{field, json_parse, Json};
use crate::session::{absorb_line, spawn_outcome};
use vstd::prelude::*;

verus! {

/// The identifiers that the bulk event on `line` lists; none where the line
/// is not JSON.
pub open spec fn line_ids(line: Seq<char>) -> Set<u64> {
    match json_parse(line) {
        Some(j) => listed_ids(j),
        None => Set::empty(),
    }
}

/// Every identifier that some line of `lines` lists.
pub open spec fn all_listed(lines: Seq<Seq<char>>) -> Set<u64> {
    Set::new(|id: u64| exists|i: int| 0 <= i < lines.len() && #[trigger] line_ids(lines[i]).contains(id))
}

/// The known identifiers after the bootstrap reads `lines` in order,
/// starting from `known`.
pub open spec fn replay(known: Set<u64>, lines: Seq<Seq<char>>) -> Set<u64>
    decreases lines.len(),
{
    if lines.len() == 0 {
        known
    } else {
        absorb_line(replay(known, lines.drop_last()), lines.last())
    }
}

/// The window that a spawn wait reading `lines` in order settles on: the
/// first one that matches. Until a match the known identifiers stay as
/// they were.
pub open spec fn first_match(known: Set<u64>, app: Seq<char>, lines: Seq<Seq<char>>) -> Option<u64>
    decreases lines.len(),
{
    if lines.len() == 0 {
        None
    } else {
        match spawn_outcome(known, app, lines[0]) {
            Some(id) => Some(id),
            None => first_match(known, app, lines.drop_first()),
        }
    }
}

/// The bootstrap leaves exactly the union of the identifiers it started
/// with and of those that every line it read lists.
pub proof fn lemma_bootstrap_is_union(known: Set<u64>, lines: Seq<Seq<char>>)
    ensures
        replay(known, lines) == known.union(all_listed(lines)),
    decreases lines.len(),
{
    if lines.len() == 0 {
        assert(all_listed(lines) =~= Set::empty());
        assert(known.union(Set::empty()) =~= known);
    } else {
        let front = lines.drop_last();
        lemma_bootstrap_is_union(known, front);
        assert forall|id: u64| #[trigger] all_listed(lines).contains(id) <==> (all_listed(
            front,
        ).contains(id) || line_ids(lines.last()).contains(id)) by {
            if all_listed(lines).contains(id) {
                let i = choose|i: int| 0 <= i < lines.len() && #[trigger] line_ids(lines[i]).contains(id);
                if i < lines.len() - 1 {
                    assert(front[i] == lines[i]);
                }
            }
            if all_listed(front).contains(id) {
                let i = choose|i: int| 0 <= i < front.len() && #[trigger] line_ids(front[i]).contains(id);
                assert(front[i] == lines[i]);
            }
            if line_ids(lines.last()).contains(id) {
                assert(line_ids(lines[lines.len() - 1]).contains(id));
            }
        }
        assert(replay(known, lines) =~= known.union(all_listed(lines)));
    }
}

/// The bootstrap's result depends neither on the order of the lines nor on
/// how often each occurs: two replays of the same set of lines agree.
pub proof fn lemma_bootstrap_order_free(known: Set<u64>, a: Seq<Seq<char>>, b: Seq<Seq<char>>)
    requires
        a.to_set() == b.to_set(),
    ensures
        replay(known, a) == replay(known, b),
{
    lemma_bootstrap_is_union(known, a);
    lemma_bootstrap_is_union(known, b);
    assert forall|id: u64| all_listed(a).contains(id) implies all_listed(b).contains(id) by {
        let i = choose|i: int| 0 <= i < a.len() && #[trigger] line_ids(a[i]).contains(id);
        assert(a.to_set().contains(a[i]));
        assert(b.contains(a[i]));
        let k = choose|k: int| 0 <= k < b.len() && b[k] == a[i];
        assert(line_ids(b[k]).contains(id));
    }
    assert forall|id: u64| all_listed(b).contains(id) implies all_listed(a).contains(id) by {
        let i = choose|i: int| 0 <= i < b.len() && #[trigger] line_ids(b[i]).contains(id);
        assert(b.to_set().contains(b[i]));
        assert(a.contains(b[i]));
        let k = choose|k: int| 0 <= k < a.len() && a[k] == b[i];
        assert(line_ids(a[k]).contains(id));
    }
    assert(all_listed(a) =~= all_listed(b));
}

/// A window that was known before the spawn is never taken for the spawned
/// one, whatever event about it arrives.
pub proof fn lemma_known_window_never_matches(
    known: Set<u64>,
    app: Seq<char>,
    lines: Seq<Seq<char>>,
    w: u64,
)
    requires
        known.contains(w),
    ensures
        first_match(known, app, lines) != Some(w),
    decreases lines.len(),
{
    if lines.len() > 0 {
        lemma_known_window_never_matches(known, app, lines.drop_first(), w);
    }
}

/// The wait settles on the first line that reports a new window of the
/// program, however many events about other windows, known ones of the
/// same program included, come before it.
pub proof fn lemma_new_window_matches(
    known: Set<u64>,
    app: Seq<char>,
    lines: Seq<Seq<char>>,
    k: int,
    w: u64,
)
    requires
        0 <= k < lines.len(),
        spawn_outcome(known, app, lines[k]) == Some(w),
        forall|i: int| 0 <= i < k ==> spawn_outcome(known, app, #[trigger] lines[i]) is None,
    ensures
        first_match(known, app, lines) == Some(w),
    decreases k,
{
    if k > 0 {
        let rest = lines.drop_first();
        assert forall|i: int| 0 <= i < k - 1 implies spawn_outcome(known, app, #[trigger] rest[i])
            is None by {
            assert(rest[i] == lines[i + 1]);
        }
        assert(rest[k - 1] == lines[k]);
        assert(spawn_outcome(known, app, lines[0]) is None);
        lemma_new_window_matches(known, app, rest, k - 1, w);
    }
}

/// A matched window is committed: it is known afterwards, and no later
/// spawn, of any program, matches it again.
pub proof fn lemma_match_commits_once(
    known: Set<u64>,
    app: Seq<char>,
    line: Seq<char>,
    w: u64,
    later_app: Seq<char>,
    later: Seq<Seq<char>>,
)
    requires
        spawn_outcome(known, app, line) == Some(w),
    ensures
        !known.contains(w),
        known.insert(w).contains(w),
        first_match(known.insert(w), later_app, later) != Some(w),
{
    lemma_known_window_never_matches(known.insert(w), later_app, later, w);
}

/// A record given at the top level of the payload and one nested under
/// its `window` member give the same outcome when they carry the same `id`
/// and `app_id`.
pub proof fn lemma_flat_or_wrapped(
    known: Set<u64>,
    app: Seq<char>,
    flat: Json,
    wrapped: Json,
    payload: Json,
    record: Json,
)
    requires
        field(flat, "WindowOpenedOrChanged"@) == Some(payload),
        field(payload, "window"@) is None,
        field(wrapped, "WindowOpenedOrChanged"@) matches Some(p) && field(p, "window"@) == Some(
            record,
        ),
        field(record, "id"@) == field(payload, "id"@),
        field(record, "app_id"@) == field(payload, "app_id"@),
    ensures
        spawned_window(known, app, flat) == spawned_window(known, app, wrapped),
{
}

/// A line that is not JSON changes nothing: neither the bootstrap nor a
/// spawn wait is affected by it, wherever it stands among the lines read.
pub proof fn lemma_unparsable_line_ignored(
    known: Set<u64>,
    app: Seq<char>,
    before: Seq<Seq<char>>,
    bad: Seq<char>,
    after: Seq<Seq<char>>,
)
    requires
        json_parse(bad) is None,
    ensures
        absorb_line(known, bad) == known,
        spawn_outcome(known, app, bad) is None,
        replay(known, before + seq![bad] + after) == replay(known, before + after),
        first_match(known, app, before + seq![bad] + after) == first_match(
            known,
            app,
            before + after,
        ),
{
    let with = before + seq![bad] + after;
    let without = before + after;
    lemma_bootstrap_is_union(known, with);
    lemma_bootstrap_is_union(known, without);
    assert forall|id: u64| all_listed(with).contains(id) implies all_listed(without).contains(id) by {
        let i = choose|i: int| 0 <= i < with.len() && #[trigger] line_ids(with[i]).contains(id);
        if i < before.len() {
            assert(without[i] == with[i]);
        } else if i > before.len() {
            assert(without[i - 1] == with[i]);
        }
    }
    assert forall|id: u64| all_listed(without).contains(id) implies all_listed(with).contains(id) by {
        let i = choose|i: int| 0 <= i < without.len() && #[trigger] line_ids(without[i]).contains(id);
        if i < before.len() {
            assert(without[i] == with[i]);
        } else {
            assert(without[i] == with[i + 1]);
        }
    }
    assert(all_listed(with) =~= all_listed(without));
    lemma_first_match_skip(known, app, before, bad, after);
}

/// Reading one more line after no match so far gives the outcome of that
/// line alone.
pub proof fn lemma_first_match_push(
    known: Set<u64>,
    app: Seq<char>,
    lines: Seq<Seq<char>>,
    line: Seq<char>,
)
    requires
        first_match(known, app, lines) is None,
    ensures
        first_match(known, app, lines.push(line)) == spawn_outcome(known, app, line),
    decreases lines.len(),
{
    let pushed = lines.push(line);
    if lines.len() > 0 {
        assert(pushed[0] == lines[0]);
        assert(spawn_outcome(known, app, lines[0]) is None);
        lemma_first_match_push(known, app, lines.drop_first(), line);
        assert(pushed.drop_first() =~= lines.drop_first().push(line));
    } else {
        assert(pushed[0] == line);
        assert(pushed.drop_first() =~= Seq::<Seq<char>>::empty());
        assert(first_match(known, app, pushed.drop_first()) is None);
    }
}

proof fn lemma_first_match_skip(
    known: Set<u64>,
    app: Seq<char>,
    before: Seq<Seq<char>>,
    bad: Seq<char>,
    after: Seq<Seq<char>>,
)
    requires
        json_parse(bad) is None,
    ensures
        first_match(known, app, before + seq![bad] + after) == first_match(
            known,
            app,
            before + after,
        ),
    decreases before.len(),
{
    let with = before + seq![bad] + after;
    let without = before + after;
    if before.len() == 0 {
        assert(with.drop_first() =~= after);
        assert(without =~= after);
    } else {
        lemma_first_match_skip(known, app, before.drop_first(), bad, after);
        assert(with.drop_first() =~= before.drop_first() + seq![bad] + after);
        assert(without.drop_first() =~= before.drop_first() + after);
        assert(with[0] == before[0]);
        assert(without[0] == before[0]);
    }
}

} // verus!
