//! What the completion popup menu sends to Neovim when a row is picked.

use vstd::prelude::*;

use crate::nvim::redraw_handler::PopupMenuItem;

verus! {

/// How many moves take the selection from `selected` to `target`; with no selection
/// (`selected < 0`) the first move selects the first row.
pub open spec fn scroll_count(selected: int, target: int) -> int {
    if selected < 0 {
        target + 1
    } else if target > selected {
        target - selected
    } else {
        selected - target
    }
}

pub fn find_scroll_count(selected_idx: i32, target_idx: i32) -> (r: i32)
    requires
        i32::MIN <= scroll_count(selected_idx as int, target_idx as int) <= i32::MAX,
    ensures
        r == scroll_count(selected_idx as int, target_idx as int),
{
    if selected_idx < 0 {
        target_idx + 1
    } else if target_idx > selected_idx {
        target_idx - selected_idx
    } else {
        selected_idx - target_idx
    }
}

/// `key` written `n` times.
pub open spec fn repeated(key: Seq<char>, n: nat) -> Seq<char>
    decreases n,
{
    if n == 0 {
        Seq::empty()
    } else {
        repeated(key, (n - 1) as nat) + key
    }
}

/// The previously selected row as the menu compares it: its index read as an `i32`, `-1` for
/// none.
pub open spec fn previous_index(prev: Option<u32>) -> int {
    match prev {
        Some(p) => if p <= i32::MAX {
            p as int
        } else {
            p - 0x1_0000_0000
        },
        None => -1,
    }
}

/// The keys that move the selection from `prev` to row `idx` and then run `last_command`:
/// `<C-n>` per row down or `<C-p>` per row up; `None` when `idx` is already selected.
pub open spec fn list_select_keys(prev: Option<u32>, idx: u32, last_command: Seq<char>) -> Option<Seq<char>> {
    let p = previous_index(prev);
    if p == idx {
        None
    } else {
        let key = if idx > p { "<C-n>"@ } else { "<C-p>"@ };
        Some(repeated(key, scroll_count(p, idx as int) as nat) + last_command)
    }
}

fn previous_i32(prev: Option<u32>) -> (r: i32)
    ensures
        r == previous_index(prev),
{
    match prev {
        Some(p) => if p <= 0x7fff_ffff {
            p as i32
        } else {
            ((p as i64) - 0x1_0000_0000) as i32
        },
        None => -1,
    }
}

/// The input that selects row `idx` of the popup menu after row `prev` was selected, followed
/// by `last_command`; `None` when there is nothing to send.
pub fn list_select_input(prev: Option<u32>, idx: u32, last_command: &str) -> (r: Option<String>)
    requires
        idx <= i32::MAX,
        previous_index(prev) < 0 ==> idx < i32::MAX,
    ensures
        r.is_some() == list_select_keys(prev, idx, last_command@).is_some(),
        r matches Some(s) ==> s@ == list_select_keys(prev, idx, last_command@).unwrap(),
{
    let p = previous_i32(prev);
    let target = idx as i32;
    if p == target {
        return None;
    }
    let count = find_scroll_count(p, target);
    let key = if target > p { "<C-n>" } else { "<C-p>" };
    let mut keys = String::new();
    let mut i: i32 = 0;
    while i < count
        invariant
            0 <= i <= count,
            count == scroll_count(p as int, target as int),
            keys@ == repeated(key@, i as nat),
        decreases count - i,
    {
        keys = keys.concat(key);
        i = i + 1;
    }
    Some(keys.concat(last_command))
}


/// Picking a row sends keys that move the selection onto it: from the previous row `p` (`-1`
/// with none selected), `idx - p` times `<C-n>` (one row down each) when the picked row lies
/// below, `p - idx` times `<C-p>` (one row up each) when it lies above, then `last_command`;
/// nothing when it is already selected.
pub proof fn law_select_keys_reach_the_picked_row(prev: Option<u32>, idx: u32, last_command: Seq<char>)
    requires
        idx <= i32::MAX,
        previous_index(prev) >= -1,
    ensures
        ({
            let p = previous_index(prev);
            &&& p == idx ==> list_select_keys(prev, idx, last_command) is None
            &&& p < idx ==> list_select_keys(prev, idx, last_command) == Some(
                repeated("<C-n>"@, (idx - p) as nat) + last_command,
            )
            &&& p > idx ==> list_select_keys(prev, idx, last_command) == Some(
                repeated("<C-p>"@, (p - idx) as nat) + last_command,
            )
        }),
{
}

/// The display width that `unicode-width` gives a string when ambiguous characters count as
/// two columns.
pub uninterp spec fn text_width_cjk(s: Seq<char>) -> usize;

/// The display width of `s` in columns, ambiguous characters counting double
/// (unicode-width's `UnicodeWidthStr::width_cjk`).
#[verifier::external_body]
fn str_width_cjk(s: &str) -> (r: usize)
    ensures
        r == text_width_cjk(s@),
{
    unicode_width::UnicodeWidthStr::width_cjk(s)
}

/// Among the first `n` widths, the first of the widest that is wider than nothing: its index
/// (`-1` where all are zero) and its width.
pub open spec fn widest_upto(ws: Seq<usize>, n: int) -> (int, usize)
    decreases n,
{
    if n <= 0 {
        (-1, 0)
    } else {
        let (k, w) = widest_upto(ws, n - 1);
        if ws[n - 1] > w {
            (n - 1, ws[n - 1])
        } else {
            (k, w)
        }
    }
}

/// An optional index as an integer, `-1` for none.
pub open spec fn index_of(k: Option<usize>) -> int {
    match k {
        Some(k) => k as int,
        None => -1,
    }
}

/// The widest entry of `ws` as an index, `None` where every width is zero.
pub open spec fn widest_of(ws: Seq<usize>) -> Option<usize> {
    let k = widest_upto(ws, ws.len() as int).0;
    if k < 0 {
        None
    } else {
        Some(k as usize)
    }
}

/// The widths of the words, kinds and menu texts of the items.
pub open spec fn word_widths(items: Seq<PopupMenuItem>) -> Seq<usize> {
    items.map_values(|i: PopupMenuItem| text_width_cjk(i.word@))
}

pub open spec fn kind_widths(items: Seq<PopupMenuItem>) -> Seq<usize> {
    items.map_values(|i: PopupMenuItem| text_width_cjk(i.kind@))
}

pub open spec fn menu_widths(items: Seq<PopupMenuItem>) -> Seq<usize> {
    items.map_values(|i: PopupMenuItem| text_width_cjk(i.menu@))
}

/// The rows whose word, kind and menu text are widest, each the first of the widest; `None`
/// for a column whose texts all have no width.
pub open spec fn widest_entries_of(items: Seq<PopupMenuItem>) -> (Option<usize>, Option<usize>, Option<usize>) {
    (widest_of(word_widths(items)), widest_of(kind_widths(items)), widest_of(menu_widths(items)))
}

proof fn lemma_widest_bounds(ws: Seq<usize>, n: int)
    requires
        0 <= n <= ws.len(),
    ensures
        -1 <= widest_upto(ws, n).0 < n,
        widest_upto(ws, n).0 >= 0 ==> widest_upto(ws, n).1 == ws[widest_upto(ws, n).0],
        widest_upto(ws, n).0 < 0 ==> widest_upto(ws, n).1 == 0,
    decreases n,
{
    if n > 0 {
        lemma_widest_bounds(ws, n - 1);
    }
}

/// Finds the rows with the widest word, kind and menu text, which size the menu's columns.
pub fn widest_entries(items: &Vec<PopupMenuItem>) -> (r: (Option<usize>, Option<usize>, Option<usize>))
    ensures
        r == widest_entries_of(items@),
{
    let ghost ww = word_widths(items@);
    let ghost kw = kind_widths(items@);
    let ghost mw = menu_widths(items@);
    let mut word: (Option<usize>, usize) = (None, 0);
    let mut kind: (Option<usize>, usize) = (None, 0);
    let mut menu: (Option<usize>, usize) = (None, 0);
    let mut i: usize = 0;
    while i < items.len()
        invariant
            i <= items@.len(),
            ww == word_widths(items@),
            kw == kind_widths(items@),
            mw == menu_widths(items@),
            index_of(word.0) == widest_upto(ww, i as int).0 && word.1 == widest_upto(ww, i as int).1,
            index_of(kind.0) == widest_upto(kw, i as int).0 && kind.1 == widest_upto(kw, i as int).1,
            index_of(menu.0) == widest_upto(mw, i as int).0 && menu.1 == widest_upto(mw, i as int).1,
        decreases items@.len() - i,
    {
        let item = &items[i];
        let kind_width = str_width_cjk(item.kind.as_str());
        let word_width = str_width_cjk(item.word.as_str());
        let menu_width = str_width_cjk(item.menu.as_str());
        assert(ww[i as int] == word_width && kw[i as int] == kind_width && mw[i as int] == menu_width);
        if kind_width > kind.1 {
            kind = (Some(i), kind_width);
        }
        if word_width > word.1 {
            word = (Some(i), word_width);
        }
        if menu_width > menu.1 {
            menu = (Some(i), menu_width);
        }
        i = i + 1;
    }
    proof {
        lemma_widest_bounds(ww, items@.len() as int);
        lemma_widest_bounds(kw, items@.len() as int);
        lemma_widest_bounds(mw, items@.len() as int);
    }
    (word.0, kind.0, menu.0)
}

/// The room in pixels that a column gets beyond its widest text.
pub const COLUMN_PADDING: i32 = 10;

/// The pixel widths of the menu's columns: the word column, and the kind and menu columns
/// where any row has such a text.
#[derive(Debug, Clone, Copy, PartialEq, Eq)]
pub struct ColumnWidths {
    pub word: i32,
    pub kind: Option<i32>,
    pub menu: Option<i32>,
}

/// The smaller of two integers.
pub open spec fn min_int(a: int, b: int) -> int {
    if a < b {
        a
    } else {
        b
    }
}

/// The columns for a menu at most `max_width` wide whose widest word, kind and menu texts
/// measure `word_px`, `kind_px` and `menu_px` pixels: each column its text and the padding,
/// the word column cut to what the kind column leaves, the menu column to what both leave.
pub open spec fn column_widths_of(max_width: int, word_px: int, kind_px: Option<i32>, menu_px: Option<i32>) -> (int, Option<int>, Option<int>) {
    let word_column = word_px + COLUMN_PADDING;
    let (word, kind) = match kind_px {
        Some(k) => (min_int(max_width - (k + COLUMN_PADDING), word_column), Some(k + COLUMN_PADDING)),
        None => (min_int(max_width, word_column), None),
    };
    let taken = match kind {
        Some(k) => k,
        None => 0,
    };
    let menu = match menu_px {
        Some(m) => Some(min_int(m + COLUMN_PADDING, max_width - word - taken)),
        None => None,
    };
    (word, kind, menu)
}

/// Every sum and difference that the column widths take stays in `i32`.
pub open spec fn column_widths_fit(max_width: int, word_px: int, kind_px: Option<i32>, menu_px: Option<i32>) -> bool {
    let word_column = word_px + COLUMN_PADDING;
    let kind_column = match kind_px {
        Some(k) => k + COLUMN_PADDING,
        None => 0,
    };
    let (word, _, _) = column_widths_of(max_width, word_px, kind_px, menu_px);
    &&& i32::MIN <= word_column <= i32::MAX
    &&& i32::MIN <= kind_column <= i32::MAX
    &&& i32::MIN <= max_width - kind_column <= i32::MAX
    &&& menu_px is Some ==> {
        &&& i32::MIN <= menu_px->0 + COLUMN_PADDING <= i32::MAX
        &&& i32::MIN <= max_width - word <= i32::MAX
        &&& i32::MIN <= max_width - word - kind_column <= i32::MAX
    }
}

/// Sizes the menu's columns from the pixel widths of the widest texts: the word column gets
/// its text and the padding, cut to what the kind column leaves of `max_width`; the menu
/// column gets what is left after both, at most its text and the padding.
pub fn column_widths(max_width: i32, word_px: i32, kind_px: Option<i32>, menu_px: Option<i32>) -> (r: ColumnWidths)
    requires
        column_widths_fit(max_width as int, word_px as int, kind_px, menu_px),
    ensures
        ({
            let (w, k, m) = column_widths_of(max_width as int, word_px as int, kind_px, menu_px);
            &&& r.word == w
            &&& r.kind.is_some() == k.is_some()
            &&& r.kind matches Some(rk) ==> rk == k->0
            &&& r.menu.is_some() == m.is_some()
            &&& r.menu matches Some(rm) ==> rm == m->0
        }),
        r.word + (match r.kind {
            Some(k) => k as int,
            None => 0,
        }) + (match r.menu {
            Some(m) => m as int,
            None => 0,
        }) <= max_width,
{
    let word_column_width = word_px + COLUMN_PADDING;
    let (word_col_width, kind_col_width) = match kind_px {
        Some(k) => {
            let kind_width = k + COLUMN_PADDING;
            let room = max_width - kind_width;
            (if room < word_column_width { room } else { word_column_width }, Some(kind_width))
        },
        None => (if max_width < word_column_width { max_width } else { word_column_width }, None),
    };
    let menu_col_width = match menu_px {
        Some(m) => {
            let taken = match kind_col_width {
                Some(k) => k,
                None => 0,
            };
            let space_left = max_width - word_col_width - taken;
            let wanted = m + COLUMN_PADDING;
            Some(if wanted < space_left { wanted } else { space_left })
        },
        None => None,
    };
    ColumnWidths { word: word_col_width, kind: kind_col_width, menu: menu_col_width }
}

} // verus!
