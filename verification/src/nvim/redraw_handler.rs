//! What a redraw call leaves to do: the redraw mode and the pending popup menu action.

use vstd::prelude::*;

use crate::value::take_front;

verus! {

/// Whether a draw should be queued and, if so, which caches to invalidate first.
#[derive(Clone, Copy, Debug, PartialEq, Eq, PartialOrd, Ord)]
pub enum RedrawMode {
    /// No redraw required
    Nothing,
    /// A redraw is required, but only the state of the cursor has changed
    Cursor,
    /// A redraw is required and no glyphs have changed, but the snapshot cache must be cleared
    ClearCache,
    /// A redraw is required and glyphs have changed
    All,
}

/// The rank of a mode: more work ranks higher.
pub open spec fn mode_rank(m: RedrawMode) -> int {
    match m {
        RedrawMode::Nothing => 0,
        RedrawMode::Cursor => 1,
        RedrawMode::ClearCache => 2,
        RedrawMode::All => 3,
    }
}

/// The mode that does the work of both.
pub open spec fn mode_max(a: RedrawMode, b: RedrawMode) -> RedrawMode {
    if mode_rank(a) >= mode_rank(b) {
        a
    } else {
        b
    }
}

/// Accumulating redraw modes does not depend on their order or on repeats, and a call that
/// needs no redraw adds nothing.
pub proof fn law_redraw_modes_accumulate(a: RedrawMode, b: RedrawMode, c: RedrawMode)
    ensures
        mode_max(a, b) == mode_max(b, a),
        mode_max(mode_max(a, b), c) == mode_max(a, mode_max(b, c)),
        mode_max(a, a) == a,
        mode_max(a, RedrawMode::Nothing) == a,
        mode_rank(mode_max(a, b)) >= mode_rank(a),
{
}

pub fn max_mode(a: RedrawMode, b: RedrawMode) -> (r: RedrawMode)
    ensures
        r == mode_max(a, b),
{
    let ra = match a {
        RedrawMode::Nothing => 0u8,
        RedrawMode::Cursor => 1u8,
        RedrawMode::ClearCache => 2u8,
        RedrawMode::All => 3u8,
    };
    let rb = match b {
        RedrawMode::Nothing => 0u8,
        RedrawMode::Cursor => 1u8,
        RedrawMode::ClearCache => 2u8,
        RedrawMode::All => 3u8,
    };
    if ra >= rb {
        a
    } else {
        b
    }
}

/// A completion item of the popup menu.
#[derive(PartialEq, Eq, Debug, Clone)]
pub struct PopupMenuItem {
    pub word: String,
    pub kind: String,
    pub menu: String,
    pub info: String,
}

/// Why a completion item could not be read.
pub open spec fn popup_item_error(len: nat) -> Seq<char> {
    if len == 0 {
        "Complete item is missing word"@
    } else if len == 1 {
        "Complete item is missing kind"@
    } else if len == 2 {
        "Complete item is missing menu"@
    } else {
        "Complete item is missing info"@
    }
}

impl PopupMenuItem {
    /// The item made of the first four columns: word, kind, menu and info.
    pub fn new(menu: Vec<String>) -> (r: Result<Self, String>)
        ensures
            menu@.len() >= 4 ==> r == Ok::<PopupMenuItem, String>(
                PopupMenuItem { word: menu@[0], kind: menu@[1], menu: menu@[2], info: menu@[3] },
            ),
            menu@.len() < 4 ==> (r matches Err(e) && e@ == popup_item_error(menu@.len())),
    {
        let ghost orig = menu@;
        let mut menu = menu;
        let word = match take_front(&mut menu) {
            Some(w) => w,
            None => {
                return Err("Complete item is missing word".to_owned());
            },
        };
        let kind = match take_front(&mut menu) {
            Some(w) => w,
            None => {
                return Err("Complete item is missing kind".to_owned());
            },
        };
        let m = match take_front(&mut menu) {
            Some(w) => w,
            None => {
                return Err("Complete item is missing menu".to_owned());
            },
        };
        let info = match take_front(&mut menu) {
            Some(w) => w,
            None => {
                return Err("Complete item is missing info".to_owned());
            },
        };
        Ok(PopupMenuItem { word, kind, menu: m, info })
    }
}

/// The next pending popup menu action before a redraw is performed.
#[derive(Debug, PartialEq)]
pub enum PendingPopupMenu {
    Show { items: Vec<PopupMenuItem>, selected: Option<u32>, pos: (u64, u64) },
    Select(Option<u32>),
    Hide,
    Empty,
}

impl Clone for PendingPopupMenu {
    fn clone(&self) -> Self {
        match self {
            PendingPopupMenu::Show { items, selected, pos } => PendingPopupMenu::Show {
                items: items.clone(),
                selected: *selected,
                pos: (pos.0, pos.1),
            },
            PendingPopupMenu::Select(s) => PendingPopupMenu::Select(*s),
            PendingPopupMenu::Hide => PendingPopupMenu::Hide,
            PendingPopupMenu::Empty => PendingPopupMenu::Empty,
        }
    }
}

impl Default for PendingPopupMenu {
    fn default() -> (r: Self)
        ensures
            r is Empty,
    {
        PendingPopupMenu::Empty
    }
}

/// The pending action after `other` arrives: nothing changes for `None`, a selection changes
/// the selection of a pending show, and otherwise `other` replaces what was pending.
pub open spec fn pending_after(p: PendingPopupMenu, other: PendingPopupMenu) -> PendingPopupMenu {
    match other {
        PendingPopupMenu::Empty => p,
        PendingPopupMenu::Select(s) => match p {
            PendingPopupMenu::Show { items, selected, pos } => PendingPopupMenu::Show {
                items,
                selected: s,
                pos,
            },
            _ => other,
        },
        _ => other,
    }
}

/// Pending popup actions combine as the last one says: nothing pending changes nothing, a
/// hide replaces what was pending, and a show stays pending with the selection of any later
/// selection.
pub proof fn law_pending_popupmenu_last_action_wins(
    p: PendingPopupMenu,
    items: Vec<PopupMenuItem>,
    selected: Option<u32>,
    pos: (u64, u64),
    s: Option<u32>,
)
    ensures
        pending_after(p, PendingPopupMenu::Empty) == p,
        pending_after(p, PendingPopupMenu::Hide) == PendingPopupMenu::Hide,
        pending_after(pending_after(p, PendingPopupMenu::Show { items, selected, pos }), PendingPopupMenu::Select(s))
            == (PendingPopupMenu::Show { items, selected: s, pos }),
{
}

impl PendingPopupMenu {
    pub fn update(&mut self, other: Self)
        ensures
            *final(self) == pending_after(*old(self), other),
    {
        if let PendingPopupMenu::Empty = other {
            return;
        }
        if let PendingPopupMenu::Select(new_selected) = other {
            if let PendingPopupMenu::Show { selected, .. } = self {
                *selected = new_selected;
                return;
            }
        }
        *self = other;
    }

    /// Hands out the pending action and leaves none pending.
    pub fn take(&mut self) -> (r: Self)
        ensures
            r == *old(self),
            *final(self) is Empty,
    {
        let mut r = PendingPopupMenu::Empty;
        std::mem::swap(self, &mut r);
        r
    }
}

/// The state a redraw call updates.
pub struct RedrawState {
    pub pending_redraw: RedrawMode,
    pub pending_popupmenu: PendingPopupMenu,
}

/// Ends a redraw call that asked for `mode`. On a flush, the accumulated mode and popup menu
/// action are handed out and the state is reset; otherwise `mode` is accumulated and nothing
/// is handed out.
pub fn finish_call(state: &mut RedrawState, mode: RedrawMode, flush: bool) -> (r: (RedrawMode, PendingPopupMenu))
    ensures
        flush ==> r == (old(state).pending_redraw, old(state).pending_popupmenu)
            && final(state).pending_redraw == RedrawMode::Nothing && final(state).pending_popupmenu is Empty,
        !flush ==> r.0 == RedrawMode::Nothing && r.1 is Empty && final(state).pending_redraw == mode_max(
            old(state).pending_redraw,
            mode,
        ) && final(state).pending_popupmenu == old(state).pending_popupmenu,
{
    if flush {
        let mode = state.pending_redraw;
        state.pending_redraw = RedrawMode::Nothing;
        (mode, state.pending_popupmenu.take())
    } else {
        state.pending_redraw = max_mode(state.pending_redraw, mode);
        (RedrawMode::Nothing, PendingPopupMenu::Empty)
    }
}

/// The message for a UI extension that Neovim does not support.
pub open spec fn unsupported_message(ext: Seq<char>) -> Seq<char> {
    ext + " is not supported by your version of neovim, please update!"@
}

/// The index of the first unsupported extension.
pub open spec fn first_unsupported(opts: Seq<(&str, bool)>) -> Option<int> {
    if exists|i: int| 0 <= i < opts.len() && !opts[i].1 {
        Some(choose|i: int| 0 <= i < opts.len() && !opts[i].1 && forall|j: int| 0 <= j < i ==> opts[j].1)
    } else {
        None
    }
}

/// What setting the UI extensions `opts` to `enable` leads to: `Ok(true)` when every one is
/// supported and all are to be set; when one is not, `Ok(false)` (nothing to set) on disabling
/// and the error for the first unsupported one on enabling.
pub fn set_ui_opt_plan(opts: &[(&str, bool)], enable: bool) -> (r: Result<bool, String>)
    ensures
        first_unsupported(opts@) is None ==> r == Ok::<bool, String>(true),
        first_unsupported(opts@) matches Some(i) ==> if enable {
            r matches Err(e) && e@ == unsupported_message(opts@[i].0@)
        } else {
            r == Ok::<bool, String>(false)
        },
{
    let mut i: usize = 0;
    while i < opts.len()
        invariant
            i <= opts@.len(),
            forall|j: int| 0 <= j < i ==> opts@[j].1,
        decreases opts.len() - i,
    {
        if !opts[i].1 {
            let ghost k = choose|k: int| 0 <= k < opts@.len() && !opts@[k].1 && forall|j: int| 0 <= j < k ==> opts@[j].1;
            assert(k == i) by {
                if k < i {
                } else if k > i {
                }
            }
            if enable {
                let msg = opts[i].0.to_owned();
                let msg = msg.concat(" is not supported by your version of neovim, please update!");
                return Err(msg);
            } else {
                return Ok(false);
            }
        }
        i = i + 1;
    }
    Ok(true)
}

} // verus!
