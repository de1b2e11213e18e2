//! Applies a batch of redraw events to the grids and the popup menu.

use vstd::prelude::*;

use super::event::{PopupMenuItem, RedrawEvent};
use super::ext_line_grid::{
    grid_cleared, grid_cursor_moved, grid_fresh, grid_line_written, grid_resized, grid_scrolled, line_allowed,
    scroll_allowed, ExtLineGrid, ExtLineGridMap,
};
use super::ext_popup_menu::{ExtPopupMenu, ExtPopupMenuState};

verus! {

/// What changed since the last flush, beyond the grids.
#[derive(Debug, Default)]
pub struct FlushState {
    pub popup_changed: bool,
    pub tabline_changed: bool,
}

/// A shown popup menu, its items as a sequence.
pub struct MenuView {
    pub items: Seq<PopupMenuItem>,
    pub selected: Option<usize>,
    pub row: usize,
    pub col: usize,
    pub grid: u64,
}

/// What a popup menu shows, `None` while hidden.
pub open spec fn menu_view(m: Option<ExtPopupMenuState>) -> Option<MenuView> {
    match m {
        Some(s) => Some(MenuView { items: s.items@, selected: s.selected, row: s.row, col: s.col, grid: s.grid }),
        None => None,
    }
}

/// The state a batch of redraw events acts on.
pub struct RedrawView {
    pub grids: Map<u64, ExtLineGrid>,
    pub menu: Option<MenuView>,
    pub popup_changed: bool,
    pub tabline_changed: bool,
}

/// The grids other than `grid` are left as they were.
pub open spec fn others_kept(before: Map<u64, ExtLineGrid>, after: Map<u64, ExtLineGrid>, grid: u64) -> bool {
    forall|k: u64| k != grid && #[trigger] before.contains_key(k) ==> after[k] == before[k]
}

/// How one event changes the grids: each grid event acts on the grid it names, creating it
/// only on a resize and changing nothing when it does not exist; other events leave them.
pub open spec fn grids_step(b: Map<u64, ExtLineGrid>, a: Map<u64, ExtLineGrid>, ev: RedrawEvent) -> bool {
    match ev {
        RedrawEvent::GridResize { grid, width, height } => {
            &&& a.dom() == b.dom().insert(grid)
            &&& others_kept(b, a, grid)
            &&& b.contains_key(grid) ==> grid_resized(b[grid]@, a[grid]@, width as usize, height as usize)
            &&& !b.contains_key(grid) ==> grid_fresh(a[grid]@, width as usize, height as usize)
        },
        RedrawEvent::GridClear { grid } => {
            &&& a.dom() == b.dom()
            &&& others_kept(b, a, grid)
            &&& b.contains_key(grid) ==> grid_cleared(b[grid]@, a[grid]@)
        },
        RedrawEvent::GridDestroy { grid } => a == b.remove(grid),
        RedrawEvent::GridScroll { grid, top, bottom, left, right, rows, columns } => {
            &&& a.dom() == b.dom()
            &&& others_kept(b, a, grid)
            &&& b.contains_key(grid) ==> grid_scrolled(b[grid]@, a[grid]@, top, bottom, left, right, rows)
        },
        RedrawEvent::GridLine { grid, row, column_start, cells } => {
            &&& a.dom() == b.dom()
            &&& others_kept(b, a, grid)
            &&& b.contains_key(grid) ==> grid_line_written(b[grid]@, a[grid]@, row as usize, column_start as usize, cells@)
        },
        RedrawEvent::GridCursorGoto { grid, row, column } => {
            &&& a.dom() == b.dom()
            &&& others_kept(b, a, grid)
            &&& b.contains_key(grid) ==> grid_cursor_moved(b[grid]@, a[grid]@, row as usize, column as usize)
        },
        _ => a == b,
    }
}

/// An optional index as the popup menu keeps it.
pub open spec fn menu_index(s: Option<u64>) -> Option<usize> {
    match s {
        Some(i) => Some(i as usize),
        None => None,
    }
}

/// How one event changes the popup menu: shown with the event's items, selection and
/// position, reselected while shown, or hidden.
pub open spec fn menu_step(b: Option<MenuView>, ev: RedrawEvent) -> Option<MenuView> {
    match ev {
        RedrawEvent::PopupmenuShow { items, selected, row, col, grid } => Some(
            MenuView { items: items@, selected: menu_index(selected), row: row as usize, col: col as usize, grid },
        ),
        RedrawEvent::PopupmenuSelect { selected } => match b {
            Some(s) => Some(MenuView { selected: menu_index(selected), ..s }),
            None => None,
        },
        RedrawEvent::PopupmenuHide => None,
        _ => b,
    }
}

/// One event applied: the grids and the menu change as above, and a shown menu marks the
/// popup changed.
pub open spec fn redraw_step(b: RedrawView, a: RedrawView, ev: RedrawEvent) -> bool {
    &&& grids_step(b.grids, a.grids, ev)
    &&& a.menu == menu_step(b.menu, ev)
    &&& a.popup_changed == (b.popup_changed || ev is PopupmenuShow)
    &&& a.tabline_changed == b.tabline_changed
}

/// The event can be applied to the grids: a scroll or a line fits the grid it names.
pub open spec fn grid_event_allowed(grids: Map<u64, ExtLineGrid>, ev: RedrawEvent) -> bool {
    match ev {
        RedrawEvent::GridScroll { grid, top, bottom, left, right, rows, columns } => grids.contains_key(grid)
            ==> scroll_allowed(grids[grid]@, top, bottom, left, right, rows),
        RedrawEvent::GridLine { grid, row, column_start, cells } => grids.contains_key(grid) ==> line_allowed(
            grids[grid]@,
            row as usize,
            column_start as usize,
            cells@,
        ),
        _ => true,
    }
}

/// The event can be applied in state `s`.
pub open spec fn event_allowed(s: RedrawView, ev: RedrawEvent) -> bool {
    grid_event_allowed(s.grids, ev)
}

/// Whether `ev` can be applied to `grids`: a scroll or a line must fit the grid it names.
pub fn redraw_event_fits(grids: &ExtLineGridMap, ev: &RedrawEvent) -> (r: bool)
    ensures
        r == grid_event_allowed(grids.grids(), *ev),
{
    match ev {
        RedrawEvent::GridScroll { grid, top, bottom, left, right, rows, columns } => {
            let g = match grids.get(grid) {
                Some(g) => g,
                None => {
                    return true;
                },
            };
            if *top > usize::MAX as u64 || *bottom > usize::MAX as u64 || *left > usize::MAX as u64 || *right
                > usize::MAX as u64 || *rows == i64::MIN {
                return false;
            }
            if *rows > 0 && *rows as u64 > *bottom {
                return false;
            }
            let up = if *rows < 0 { (-*rows) as u64 } else { *rows as u64 };
            if *rows < 0 && (up > usize::MAX as u64 || *top > usize::MAX as u64 - up) {
                return false;
            }
            let moves = *rows != 0 && *bottom > *top && *bottom - *top > up;
            if moves {
                *bottom <= g.rows() as u64 && *left <= *right && *right <= g.columns() as u64
            } else {
                true
            }
        },
        RedrawEvent::GridLine { grid, row, column_start, cells } => {
            let g = match grids.get(grid) {
                Some(g) => g,
                None => {
                    return true;
                },
            };
            let row = *row as usize;
            let start = *column_start as usize;
            match super::ext_line_grid::expanded_len(cells.as_slice()) {
                Some(n) => row < g.rows() && start <= g.columns() && n <= g.columns() - start,
                None => false,
            }
        },
        _ => true,
    }
}

/// `trace` is a run of the first `n` events from its first state.
pub open spec fn redraw_run(trace: Seq<RedrawView>, evs: Seq<RedrawEvent>, n: int) -> bool {
    &&& trace.len() == n + 1
    &&& forall|j: int| 0 <= j < n ==> #[trigger] redraw_step(trace[j], trace[j + 1], evs[j])
}

/// Every event, in whatever state the events before it leave, can be applied.
pub open spec fn events_allowed(s0: RedrawView, evs: Seq<RedrawEvent>) -> bool {
    forall|trace: Seq<RedrawView>, i: int|
        0 <= i < evs.len() && trace[0] == s0 && redraw_run(trace, evs, i) ==> event_allowed(
            #[trigger] trace[i],
            #[trigger] evs[i],
        )
}

/// An empty batch changes nothing: its only run ends where it starts.
pub proof fn law_empty_batch_changes_nothing(trace: Seq<RedrawView>, evs: Seq<RedrawEvent>)
    requires
        evs.len() == 0,
        redraw_run(trace, evs, 0),
    ensures
        trace.last() == trace[0],
{
}

/// In a run, each shown popup menu is what the state after its event holds, and a hide leaves
/// no menu.
pub proof fn law_menu_follows_last_show_or_hide(trace: Seq<RedrawView>, evs: Seq<RedrawEvent>, i: int)
    requires
        0 <= i < evs.len(),
        redraw_run(trace, evs, evs.len() as int),
    ensures
        evs[i] is PopupmenuHide ==> trace[i + 1].menu is None,
        evs[i] matches RedrawEvent::PopupmenuShow { items, selected, row, col, grid } ==> trace[i + 1].menu == Some(
            MenuView { items: items@, selected: menu_index(selected), row: row as usize, col: col as usize, grid },
        ),
{
    assert(redraw_step(trace[i], trace[i + 1], evs[i]));
}

/// The state the three parts make up.
pub open spec fn redraw_view(flush_state: FlushState, grids: ExtLineGridMap, popup_menu: ExtPopupMenu) -> RedrawView {
    RedrawView {
        grids: grids.grids(),
        menu: menu_view(popup_menu.shown()),
        popup_changed: flush_state.popup_changed,
        tabline_changed: flush_state.tabline_changed,
    }
}

/// A copy of the items.
fn copy_items(items: &Vec<PopupMenuItem>) -> (r: Vec<PopupMenuItem>)
    ensures
        r@ == items@,
{
    let mut r: Vec<PopupMenuItem> = Vec::new();
    let mut i: usize = 0;
    while i < items.len()
        invariant
            i <= items@.len(),
            r@ == items@.subrange(0, i as int),
        decreases items@.len() - i,
    {
        r.push(items[i].copy());
        assert(items@.subrange(0, i + 1) == items@.subrange(0, i as int).push(items@[i as int]));
        i = i + 1;
    }
    assert(items@.subrange(0, items@.len() as int) == items@);
    r
}

/// An optional index as the popup menu keeps it.
fn to_menu_index(s: Option<u64>) -> (r: Option<usize>)
    ensures
        r == menu_index(s),
{
    match s {
        Some(i) => Some(i as usize),
        None => None,
    }
}

/// Applies `events` in order to the grids, the popup menu and the flush state; tells whether
/// the batch holds a flush.
pub fn handle_redraw_event(
    flush_state: &mut FlushState,
    grids: &mut ExtLineGridMap,
    popup_menu: &mut ExtPopupMenu,
    events: &[RedrawEvent],
) -> (flushed: bool)
    requires
        old(grids).wf(),
        events_allowed(redraw_view(*old(flush_state), *old(grids), *old(popup_menu)), events@),
    ensures
        final(grids).wf(),
        flushed == exists|i: int| 0 <= i < events@.len() && events@[i] is Flush,
        exists|trace: Seq<RedrawView>|
            #![trigger redraw_run(trace, events@, events@.len() as int)]
            trace[0] == redraw_view(*old(flush_state), *old(grids), *old(popup_menu)) && redraw_run(
                trace,
                events@,
                events@.len() as int,
            ) && trace.last() == redraw_view(*final(flush_state), *final(grids), *final(popup_menu)),
{
    let ghost s0 = redraw_view(*flush_state, *grids, *popup_menu);
    let ghost mut trace: Seq<RedrawView> = seq![s0];
    let mut flushed = false;
    let mut i: usize = 0;
    while i < events.len()
        invariant
            i <= events@.len(),
            grids.wf(),
            events_allowed(s0, events@),
            trace[0] == s0,
            redraw_run(trace, events@, i as int),
            trace.last() == redraw_view(*flush_state, *grids, *popup_menu),
            flushed == exists|j: int| 0 <= j < i && events@[j] is Flush,
        decreases events@.len() - i,
    {
        let ghost before = redraw_view(*flush_state, *grids, *popup_menu);
        assert(trace[i as int] == before);
        assert(event_allowed(trace[i as int], events@[i as int]));
        match &events[i] {
            RedrawEvent::GridResize { grid, width, height } => {
                grids.grid_resize(grid, *width as usize, *height as usize);
            },
            RedrawEvent::GridClear { grid } => {
                grids.grid_clear(grid);
            },
            RedrawEvent::GridDestroy { grid } => {
                grids.grid_destroy(grid);
            },
            RedrawEvent::GridScroll { grid, top, bottom, left, right, rows, columns } => {
                grids.grid_scroll(grid, *top, *bottom, *left, *right, *rows, *columns);
            },
            RedrawEvent::GridLine { grid, row, column_start, cells } => {
                grids.grid_line(grid, *row as usize, *column_start as usize, cells.as_slice());
            },
            RedrawEvent::GridCursorGoto { grid, row, column } => {
                grids.grid_cursor_goto(grid, *row as usize, *column as usize);
            },
            RedrawEvent::Flush => {
                flushed = true;
            },
            RedrawEvent::PopupmenuShow { items, selected, row, col, grid } => {
                popup_menu.show(copy_items(items), to_menu_index(*selected), *row as usize, *col as usize, *grid);
                flush_state.popup_changed = true;
            },
            RedrawEvent::PopupmenuSelect { selected } => {
                popup_menu.select(to_menu_index(*selected));
            },
            RedrawEvent::PopupmenuHide => {
                popup_menu.hide_menu();
            },
            _ => {},
        }
        let ghost after = redraw_view(*flush_state, *grids, *popup_menu);
        proof {
            let t2 = trace.push(after);
            assert(grids_step(before.grids, after.grids, events@[i as int]));
            assert(after.menu == menu_step(before.menu, events@[i as int]));
            assert(after.popup_changed == (before.popup_changed || events@[i as int] is PopupmenuShow));
            assert(redraw_step(before, after, events@[i as int]));
            assert forall|j: int| 0 <= j < i + 1 implies #[trigger] redraw_step(t2[j], t2[j + 1], events@[j]) by {
                if j < i {
                    assert(t2[j] == trace[j]);
                    assert(t2[j + 1] == trace[j + 1]);
                }
            }
            trace = t2;
        }
        i = i + 1;
    }
    flushed
}

} // verus!
