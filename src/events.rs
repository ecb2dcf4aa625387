use crate::json::{field, Json};
use vstd::prelude::*;
use vstd::string::StrSliceExecFns;

verus! {

/// The identifiers that a bulk "windows changed" event lists: every element
/// of its array that has an unsigned integer `id`. Any other value lists none.
pub open spec fn listed_ids(j: Json) -> Set<u64> {
    match field(j, "WindowsChanged"@) {
        Some(Json::Array(ws)) => listed_in(ws@, ws@.len() as int),
        _ => Set::empty(),
    }
}

/// The identifiers among the first `k` window records of `ws`.
pub open spec fn listed_in(ws: Seq<Json>, k: int) -> Set<u64> {
    Set::new(|id: u64| exists|i: int| 0 <= i < k && #[trigger] field(ws[i], "id"@) == Some(Json::UInt(id)))
}

/// The window record of a single "window opened or changed" event: the
/// payload's `window` member where it has one, else the payload itself.
pub open spec fn window_record(j: Json) -> Option<Json> {
    match field(j, "WindowOpenedOrChanged"@) {
        Some(p) => match field(p, "window"@) {
            Some(w) => Some(w),
            None => Some(p),
        },
        None => None,
    }
}

/// The window that the event `j` reports as created by a spawn of the
/// program `app`, given the identifiers `known` already: a single-window
/// event whose record has an unsigned integer `id` not in `known` and a
/// string `app_id` equal to `app`.
pub open spec fn spawned_window(known: Set<u64>, app: Seq<char>, j: Json) -> Option<u64> {
    match window_record(j) {
        Some(w) => match (field(w, "id"@), field(w, "app_id"@)) {
            (Some(Json::UInt(id)), Some(Json::Str(a))) => {
                if !known.contains(id) && a@ == app {
                    Some(id)
                } else {
                    None
                }
            },
            _ => None,
        },
        None => None,
    }
}

/// Whether two texts hold the same characters.
pub fn same_text(a: &str, b: &str) -> (r: bool)
    ensures
        r == (a@ == b@),
{
    let n = a.unicode_len();
    if n != b.unicode_len() {
        return false;
    }
    let mut i: usize = 0;
    while i < n
        invariant
            n == a@.len(),
            n == b@.len(),
            i <= n,
            forall|k: int| 0 <= k < i ==> a@[k] == b@[k],
        decreases n - i,
    {
        if a.get_char(i) != b.get_char(i) {
            return false;
        }
        i = i + 1;
    }
    assert(a@ =~= b@);
    true
}

/// The window record of a single "window opened or changed" event.
pub fn window_record_of(j: &Json) -> (r: Option<&Json>)
    ensures
        match window_record(*j) {
            Some(w) => r is Some && *r->0 == w,
            None => r is None,
        },
{
    match j.get("WindowOpenedOrChanged") {
        Some(p) => match p.get("window") {
            Some(w) => Some(w),
            None => Some(p),
        },
        None => None,
    }
}

} // verus!
