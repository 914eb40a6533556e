//! Reading the class of the focused window from the bytes of an X11 window property.

use vstd::prelude::*;
use vstd::utf8::{decode_utf8, valid_utf8};

use crate::text::{chars_of, string_of};

verus! {

/// The bytes of a window property with its inner NUL separators turned into `:` and a
/// final NUL dropped.
pub open spec fn joined_property(bytes: Seq<u8>) -> Seq<u8> {
    let v = Seq::new(
        bytes.len(),
        |i: int| if bytes[i] == 0 && i + 1 < bytes.len() { 58u8 } else { bytes[i] },
    );
    if v.len() > 0 && v.last() == 0 {
        v.drop_last()
    } else {
        v
    }
}

/// Calls `String::from_utf8`, which gives the text that UTF-8 bytes encode, or an error
/// (here `None`) when they are no valid UTF-8.
#[verifier::external_body]
fn utf8_to_string(bytes: Vec<u8>) -> (r: Option<String>)
    ensures
        r is Some <==> valid_utf8(bytes@),
        r matches Some(s) ==> s@ == decode_utf8(bytes@),
{
    String::from_utf8(bytes).ok()
}

/// The text of a window property's bytes: the strings it holds (separated by NUL bytes)
/// joined by `:`, when that is valid UTF-8.
pub fn window_property_text(bytes: &[u8]) -> (r: Option<String>)
    ensures
        r is Some <==> valid_utf8(joined_property(bytes@)),
        r matches Some(s) ==> s@ == decode_utf8(joined_property(bytes@)),
{
    let n = bytes.len();
    let mut v: Vec<u8> = Vec::new();
    let mut i: usize = 0;
    while i < n
        invariant
            i <= n == bytes@.len(),
            v@.len() == i,
            forall|k: int| 0 <= k < i ==> #[trigger] v@[k] == if bytes@[k] == 0 && k + 1 < n { 58u8 } else { bytes@[k] },
        decreases n - i,
    {
        if bytes[i] == 0 && i + 1 < n {
            v.push(58u8);
        } else {
            v.push(bytes[i]);
        }
        i = i + 1;
    }
    let ghost full = v@;
    assert(full =~= Seq::new(
        bytes@.len(),
        |i: int| if bytes@[i] == 0 && i + 1 < bytes@.len() { 58u8 } else { bytes@[i] },
    ));
    if v.len() > 0 && v[v.len() - 1] == 0 {
        v.pop();
        assert(v@ =~= full.drop_last());
    }
    utf8_to_string(v)
}

/// Whether `pat` occurs in `s` at position `i`.
pub open spec fn occurs_at(s: Seq<char>, pat: Seq<char>, i: int) -> bool {
    0 <= i && i + pat.len() <= s.len() && s.subrange(i, i + pat.len()) == pat
}

/// Whether a text holds another.
pub fn contains_text(s: &str, pat: &str) -> (r: bool)
    ensures
        r == exists|i: int| occurs_at(s@, pat@, i),
{
    let sv = chars_of(s);
    let pv = chars_of(pat);
    if pv.len() > sv.len() {
        assert forall|i: int| !occurs_at(s@, pat@, i) by {}
        return false;
    }
    let mut i: usize = 0;
    while i <= sv.len() - pv.len()
        invariant
            sv@ == s@,
            pv@ == pat@,
            pv@.len() <= sv@.len(),
            i <= sv@.len() - pv@.len() + 1,
            forall|j: int| 0 <= j < i ==> !occurs_at(s@, pat@, j),
        decreases sv@.len() - i,
    {
        let mut k: usize = 0;
        while k < pv.len() && sv[i + k] == pv[k]
            invariant
                sv@ == s@,
                pv@ == pat@,
                i + pv@.len() <= sv@.len(),
                sv@.len() <= usize::MAX,
                k <= pv@.len(),
                forall|m: int| 0 <= m < k ==> sv@[i + m] == pv@[m],
            decreases pv@.len() - k,
        {
            k = k + 1;
        }
        if k == pv.len() {
            assert(s@.subrange(i as int, i + pat@.len()) =~= pat@);
            assert(occurs_at(s@, pat@, i as int));
            return true;
        }
        assert(s@.subrange(i as int, i + pat@.len())[k as int] != pat@[k as int]);
        i = i + 1;
    }
    assert forall|j: int| !occurs_at(s@, pat@, j) by {
        if 0 <= j && j + pat@.len() <= s@.len() {
            assert(j < i);
        }
    }
    false
}

/// Whether a window class names a focus proxy window, which the class lookup skips.
pub fn is_focus_proxy(class: &str) -> (r: bool)
    ensures
        r == exists|i: int| occurs_at(class@, "FocusProxy"@, i),
{
    contains_text(class, "FocusProxy")
}

/// The characters of a text other than `"`, in order.
pub open spec fn without_quotes(s: Seq<char>) -> Seq<char>
    decreases s.len(),
{
    if s.len() == 0 {
        Seq::empty()
    } else {
        without_quotes(s.drop_last()) + if s.last() == '"' {
            Seq::empty()
        } else {
            seq![s.last()]
        }
    }
}

/// A window class with its double quotes removed.
pub fn strip_quotes(class: &str) -> (r: String)
    ensures
        r@ == without_quotes(class@),
{
    let v = chars_of(class);
    let mut out: Vec<char> = Vec::new();
    let mut i: usize = 0;
    while i < v.len()
        invariant
            v@ == class@,
            i <= v@.len(),
            out@ == without_quotes(v@.take(i as int)),
        decreases v@.len() - i,
    {
        assert(v@.take(i + 1).drop_last() =~= v@.take(i as int));
        if v[i] != '"' {
            out.push(v[i]);
        }
        i = i + 1;
    }
    assert(v@.take(v@.len() as int) =~= v@);
    string_of(&out)
}

/// How many windows, from the focused one up its ancestors, the class lookup visits.
pub const MAX_WM_CLASS_WINDOWS: u32 = 5;

/// Whether the class lookup reads the properties of a window: while fewer than
/// `MAX_WM_CLASS_WINDOWS` windows were visited, and the window is one (not 0).
pub fn visit_window(visited: u32, window: u64) -> (r: bool)
    ensures
        r == (visited < MAX_WM_CLASS_WINDOWS && window != 0),
{
    visited < MAX_WM_CLASS_WINDOWS && window != 0
}

/// The class that a window's property gives, unless the window is a focus proxy.
pub fn class_of_window(property: Option<String>) -> (r: Option<String>)
    ensures
        match property {
            Some(s) => if exists|i: int| occurs_at(s@, "FocusProxy"@, i) {
                r is None
            } else {
                r == Some(s)
            },
            None => r is None,
        },
{
    match property {
        Some(s) => {
            if is_focus_proxy(s.as_str()) {
                None
            } else {
                Some(s)
            }
        },
        None => None,
    }
}

/// The window the class lookup visits next: the parent, unless the window is a top-level
/// one (its parent is the root) or has none.
pub fn next_window(root: u64, parent: u64) -> (r: Option<u64>)
    ensures
        r == (if root == parent || parent == 0 { None } else { Some(parent) }),
{
    if root == parent || parent == 0 {
        None
    } else {
        Some(parent)
    }
}

/// The class of the focused window: the one `WM_CLASS` gives, else the GTK application id,
/// with its double quotes removed.
pub fn pick_window_class(wm_class: Option<String>, gtk_id: Option<String>) -> (r: Option<String>)
    ensures
        match (wm_class, gtk_id) {
            (Some(w), _) => r matches Some(t) && t@ == without_quotes(w@),
            (None, Some(g)) => r matches Some(t) && t@ == without_quotes(g@),
            (None, None) => r is None,
        },
{
    match wm_class {
        Some(w) => Some(strip_quotes(w.as_str())),
        None => match gtk_id {
            Some(g) => Some(strip_quotes(g.as_str())),
            None => None,
        },
    }
}

} // verus!
