//! Choosing the window of a process to capture, and cleaning up its title.
use vstd::prelude::*;
use crate::text::{trimmed, trim_chars, str_chars, chars_to_string};

verus! {

/// A native window handle.
pub type NativeHwnd = isize;

/// A visible, uncloaked window of the process, with its frame's area.
#[derive(Debug, Clone, Copy)]
pub struct WindowCandidate {
    pub hwnd: NativeHwnd,
    pub area: i64,
    pub foreground: bool,
    pub root_owner: bool,
}

/// A window's frame rectangle.
#[derive(Debug, Clone, Copy)]
pub struct FrameRect {
    pub left: i32,
    pub top: i32,
    pub right: i32,
    pub bottom: i32,
}

/// The candidate for a window with frame `rect`: `None` where the frame is empty;
/// its area saturates at `i64::MAX`.
pub open spec fn candidate_spec(
    hwnd: NativeHwnd,
    rect: FrameRect,
    foreground: bool,
    root_owner: bool,
) -> Option<WindowCandidate> {
    let width = rect.right - rect.left;
    let height = rect.bottom - rect.top;
    if width <= 0 || height <= 0 {
        None
    } else {
        Some(
            WindowCandidate {
                hwnd,
                area: if width * height > i64::MAX {
                    i64::MAX
                } else {
                    (width * height) as i64
                },
                foreground,
                root_owner,
            },
        )
    }
}

/// The candidate for a window with frame `rect`, or `None` where the frame has no area.
/// Each side of the frame fits an `i32`.
pub fn window_candidate(hwnd: NativeHwnd, rect: FrameRect, foreground: bool, root_owner: bool) -> (r:
    Option<WindowCandidate>)
    requires
        i32::MIN <= rect.right - rect.left <= i32::MAX,
        i32::MIN <= rect.bottom - rect.top <= i32::MAX,
    ensures
        r == candidate_spec(hwnd, rect, foreground, root_owner),
{
    let width: i64 = (rect.right - rect.left) as i64;
    let height: i64 = (rect.bottom - rect.top) as i64;
    if width <= 0 || height <= 0 {
        return None;
    }
    let area: i64 = match width.checked_mul(height) {
        Some(a) => a,
        None => i64::MAX,
    };
    Some(WindowCandidate { hwnd, area, foreground, root_owner })
}

/// Whether `a` ranks strictly before `b`: the foreground window first, then a root
/// owner, then the larger area.
pub open spec fn ranks_before(a: WindowCandidate, b: WindowCandidate) -> bool {
    if a.foreground != b.foreground {
        a.foreground
    } else if a.root_owner != b.root_owner {
        a.root_owner
    } else {
        a.area > b.area
    }
}

/// Whether `i` is the best candidate: none ranks before it, and every one before it
/// ranks below it.
pub open spec fn is_best(c: Seq<WindowCandidate>, i: int) -> bool {
    &&& 0 <= i < c.len()
    &&& forall|j: int| 0 <= j < c.len() ==> !ranks_before(#[trigger] c[j], c[i])
    &&& forall|j: int| 0 <= j < i ==> ranks_before(c[i], #[trigger] c[j])
}

fn ranks_before_exec(a: &WindowCandidate, b: &WindowCandidate) -> (r: bool)
    ensures
        r == ranks_before(*a, *b),
{
    if a.foreground != b.foreground {
        a.foreground
    } else if a.root_owner != b.root_owner {
        a.root_owner
    } else {
        a.area > b.area
    }
}

/// The window to capture among a process's candidates: the first of the best ranked.
pub fn resolve_process_window(candidates: &Vec<WindowCandidate>) -> (r: Option<NativeHwnd>)
    ensures
        candidates@.len() == 0 ==> r is None,
        candidates@.len() > 0 ==> exists|i: int|
            is_best(candidates@, i) && r == Some(#[trigger] candidates@[i].hwnd),
{
    if candidates.len() == 0 {
        return None;
    }
    let mut best: usize = 0;
    let mut k: usize = 1;
    while k < candidates.len()
        invariant
            1 <= k <= candidates@.len(),
            best < k,
            forall|j: int| 0 <= j < k ==> !ranks_before(#[trigger] candidates@[j], candidates@[best as int]),
            forall|j: int| 0 <= j < best ==> ranks_before(candidates@[best as int], #[trigger] candidates@[j]),
        decreases candidates@.len() - k,
    {
        if ranks_before_exec(&candidates[k], &candidates[best]) {
            best = k;
        }
        k = k + 1;
    }
    assert(is_best(candidates@, best as int));
    Some(candidates[best].hwnd)
}

/// The title of a window as shown: its text trimmed, `None` where nothing is left.
pub fn resolve_process_window_title(raw: Option<String>) -> (r: Option<String>)
    ensures
        match raw {
            None => r is None,
            Some(t) => if trimmed(t@).len() == 0 {
                r is None
            } else {
                r matches Some(s) && s@ == trimmed(t@)
            },
        },
{
    match raw {
        None => None,
        Some(t) => {
            let chars = str_chars(t.as_str());
            let kept = trim_chars(chars.as_slice());
            if kept.len() == 0 {
                None
            } else {
                Some(chars_to_string(kept.as_slice()))
            }
        },
    }
}

} // verus!
