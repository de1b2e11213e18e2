//! Decoding of the arguments of the popup menu calls of a `redraw` batch.

use vstd::prelude::*;

use super::redraw_handler::{popup_item_error, PendingPopupMenu, PopupMenuItem};
use crate::value::{i64_of, u64_of, Value};

verus! {

/// Why the arguments of a redraw call could not be decoded.
#[derive(Debug, PartialEq)]
pub enum RedrawCallError {
    Message(String),
    /// A value that is neither an index nor `-1`, to be reported with the value shown.
    NotOptionalIndex(Value),
}

/// What an error holds, its message as characters.
pub enum RedrawCallErrorView {
    Message(Seq<char>),
    NotOptionalIndex(Value),
}

impl View for RedrawCallError {
    type V = RedrawCallErrorView;

    open spec fn view(&self) -> RedrawCallErrorView {
        match self {
            RedrawCallError::Message(s) => RedrawCallErrorView::Message(s@),
            RedrawCallError::NotOptionalIndex(v) => RedrawCallErrorView::NotOptionalIndex(*v),
        }
    }
}

/// Neovim's optional row index: an index that fits a `u32`, or `-1` for none.
pub open spec fn optional_u32_of(v: Value) -> Result<Option<u32>, RedrawCallErrorView> {
    match u64_of(v) {
        Some(u) => if u <= u32::MAX {
            Ok(Some(u as u32))
        } else {
            Err(RedrawCallErrorView::Message("out of range integral type conversion attempted"@))
        },
        None => if i64_of(v) == Some(-1i64) {
            Ok(None)
        } else {
            Err(RedrawCallErrorView::NotOptionalIndex(v))
        },
    }
}

/// The strings of the columns of one menu item.
pub open spec fn column_strings(cols: Seq<Value>) -> Result<Seq<String>, Seq<char>>
    decreases cols.len(),
{
    if cols.len() == 0 {
        Ok(Seq::empty())
    } else {
        match column_strings(cols.drop_last()) {
            Err(e) => Err(e),
            Ok(done) => match cols.last() {
                Value::String(Some(s)) => Ok(done.push(s)),
                Value::String(None) => Err("Can't convert to utf8 string"@),
                _ => Err("Can't convert to string"@),
            },
        }
    }
}

/// The column strings of each menu item.
pub open spec fn item_columns(items: Seq<Value>) -> Result<Seq<Seq<String>>, Seq<char>>
    decreases items.len(),
{
    if items.len() == 0 {
        Ok(Seq::empty())
    } else {
        match item_columns(items.drop_last()) {
            Err(e) => Err(e),
            Ok(done) => match items.last() {
                Value::Array(cols) => match column_strings(cols@) {
                    Ok(c) => Ok(done.push(c)),
                    Err(e) => Err(e),
                },
                _ => Err("Failed to get menu item array"@),
            },
        }
    }
}

/// The menu items made of the column strings, the first incomplete one failing.
pub open spec fn menu_items_of(lists: Seq<Seq<String>>) -> Result<Seq<PopupMenuItem>, Seq<char>>
    decreases lists.len(),
{
    if lists.len() == 0 {
        Ok(Seq::empty())
    } else {
        match menu_items_of(lists.drop_last()) {
            Err(e) => Err(e),
            Ok(done) => {
                let c = lists.last();
                if c.len() >= 4 {
                    Ok(done.push(PopupMenuItem { word: c[0], kind: c[1], menu: c[2], info: c[3] }))
                } else {
                    Err(popup_item_error(c.len()))
                }
            },
        }
    }
}

/// The row and column, each an unsigned integer.
pub open spec fn menu_position(args: Seq<Value>) -> Result<(u64, u64), Seq<char>> {
    if args.len() < 3 {
        Err("Failed to get popupmenu row"@)
    } else {
        match u64_of(args[2]) {
            None => Err("Can't convert argument to u64"@),
            Some(row) => if args.len() < 4 {
                Err("Failed to get popupmenu col"@)
            } else {
                match u64_of(args[3]) {
                    None => Err("Can't convert argument to u64"@),
                    Some(col) => Ok((row, col)),
                }
            },
        }
    }
}

/// What a `popupmenu_show` call with `args` asks: the items, the selected row and the
/// position, each read in turn, the first failure giving the error.
pub open spec fn popupmenu_show_of(args: Seq<Value>) -> Result<(Seq<PopupMenuItem>, Option<u32>, (u64, u64)), RedrawCallErrorView> {
    if args.len() == 0 {
        Err(RedrawCallErrorView::Message("Menu list array is missing"@))
    } else {
        let lists = match args[0] {
            Value::Array(items) => item_columns(items@),
            _ => Err("Failed to get menu list array"@),
        };
        match lists {
            Err(e) => Err(RedrawCallErrorView::Message(e)),
            Ok(lists) => match menu_items_of(lists) {
                Err(e) => Err(RedrawCallErrorView::Message(e)),
                Ok(items) => if args.len() < 2 {
                    Err(RedrawCallErrorView::Message("Failed to get selected popupmenu row"@))
                } else {
                    match optional_u32_of(args[1]) {
                        Err(e) => Err(e),
                        Ok(selected) => match menu_position(args) {
                            Err(e) => Err(RedrawCallErrorView::Message(e)),
                            Ok(pos) => Ok((items, selected, pos)),
                        },
                    }
                },
            },
        }
    }
}

/// Takes the value at `i` out of `v`, leaving `Nil` there.
fn take_at(v: &mut Vec<Value>, i: usize) -> (r: Value)
    requires
        i < old(v)@.len(),
    ensures
        r == old(v)@[i as int],
        final(v)@ == old(v)@.update(i as int, Value::Nil),
{
    let mut x = Value::Nil;
    std::mem::swap(&mut x, &mut v[i]);
    x
}

fn message(text: &str) -> (r: RedrawCallError)
    ensures
        r@ == RedrawCallErrorView::Message(text@),
{
    RedrawCallError::Message(text.to_owned())
}

/// Reads Neovim's optional row index.
pub fn optional_u32(v: Value) -> (r: Result<Option<u32>, RedrawCallError>)
    ensures
        match r {
            Ok(o) => optional_u32_of(v) == Ok::<Option<u32>, RedrawCallErrorView>(o),
            Err(e) => optional_u32_of(v) == Err::<Option<u32>, RedrawCallErrorView>(e@),
        },
{
    match v.as_u64() {
        Some(u) => if u <= 0xffff_ffff {
            Ok(Some(u as u32))
        } else {
            Err(message("out of range integral type conversion attempted"))
        },
        None => match v.as_i64() {
            Some(n) if n == -1 => Ok(None),
            _ => Err(RedrawCallError::NotOptionalIndex(v)),
        },
    }
}

fn column_strings_of(cols: Vec<Value>) -> (r: Result<Vec<String>, String>)
    ensures
        match r {
            Ok(c) => column_strings(cols@) == Ok::<Seq<String>, Seq<char>>(c@),
            Err(e) => column_strings(cols@) == Err::<Seq<String>, Seq<char>>(e@),
        },
{
    let ghost orig = cols@;
    let mut rest = cols;
    let mut out: Vec<String> = Vec::new();
    let mut i: usize = 0;
    while i < rest.len()
        invariant
            orig == cols@,
            i <= rest@.len(),
            rest@.len() == orig.len(),
            forall|j: int| i <= j < orig.len() ==> rest@[j] == orig[j],
            column_strings(orig.subrange(0, i as int)) == Ok::<Seq<String>, Seq<char>>(out@),
        decreases rest@.len() - i,
    {
        assert(orig.subrange(0, i + 1).drop_last() == orig.subrange(0, i as int));
        assert(orig.subrange(0, i + 1).last() == orig[i as int]);
        match take_at(&mut rest, i) {
            Value::String(Some(s)) => {
                out.push(s);
            },
            Value::String(None) => {
                proof {
                    assert(column_strings(orig.subrange(0, i + 1)) == Err::<Seq<String>, Seq<char>>("Can't convert to utf8 string"@));
                    lemma_column_strings_err(orig, i as int + 1);
                }
                return Err("Can't convert to utf8 string".to_owned());
            },
            _ => {
                proof {
                    assert(column_strings(orig.subrange(0, i + 1)) == Err::<Seq<String>, Seq<char>>("Can't convert to string"@));
                    lemma_column_strings_err(orig, i as int + 1);
                }
                return Err("Can't convert to string".to_owned());
            },
        }
        i = i + 1;
    }
    assert(orig.subrange(0, orig.len() as int) == orig);
    Ok(out)
}

proof fn lemma_column_strings_err(cols: Seq<Value>, k: int)
    requires
        0 <= k <= cols.len(),
        column_strings(cols.subrange(0, k)) is Err,
    ensures
        column_strings(cols) == column_strings(cols.subrange(0, k)),
    decreases cols.len() - k,
{
    if k < cols.len() {
        assert(cols.subrange(0, k + 1).drop_last() == cols.subrange(0, k));
        lemma_column_strings_err(cols, k + 1);
    } else {
        assert(cols.subrange(0, k) == cols);
    }
}

proof fn lemma_item_columns_err(items: Seq<Value>, k: int)
    requires
        0 <= k <= items.len(),
        item_columns(items.subrange(0, k)) is Err,
    ensures
        item_columns(items) == item_columns(items.subrange(0, k)),
    decreases items.len() - k,
{
    if k < items.len() {
        assert(items.subrange(0, k + 1).drop_last() == items.subrange(0, k));
        lemma_item_columns_err(items, k + 1);
    } else {
        assert(items.subrange(0, k) == items);
    }
}

proof fn lemma_menu_items_err(lists: Seq<Seq<String>>, k: int)
    requires
        0 <= k <= lists.len(),
        menu_items_of(lists.subrange(0, k)) is Err,
    ensures
        menu_items_of(lists) == menu_items_of(lists.subrange(0, k)),
    decreases lists.len() - k,
{
    if k < lists.len() {
        assert(lists.subrange(0, k + 1).drop_last() == lists.subrange(0, k));
        lemma_menu_items_err(lists, k + 1);
    } else {
        assert(lists.subrange(0, k) == lists);
    }
}

fn item_columns_of(items: Vec<Value>) -> (r: Result<Vec<Vec<String>>, String>)
    ensures
        match r {
            Ok(c) => item_columns(items@) == Ok::<Seq<Seq<String>>, Seq<char>>(c@.map_values(|v: Vec<String>| v@)),
            Err(e) => item_columns(items@) == Err::<Seq<Seq<String>>, Seq<char>>(e@),
        },
{
    let ghost orig = items@;
    let mut rest = items;
    let mut out: Vec<Vec<String>> = Vec::new();
    assert(out@.map_values(|v: Vec<String>| v@) =~= Seq::<Seq<String>>::empty());
    let mut i: usize = 0;
    while i < rest.len()
        invariant
            orig == items@,
            i <= rest@.len(),
            rest@.len() == orig.len(),
            forall|j: int| i <= j < orig.len() ==> rest@[j] == orig[j],
            item_columns(orig.subrange(0, i as int)) == Ok::<Seq<Seq<String>>, Seq<char>>(
                out@.map_values(|v: Vec<String>| v@),
            ),
        decreases rest@.len() - i,
    {
        assert(orig.subrange(0, i + 1).drop_last() == orig.subrange(0, i as int));
        assert(orig.subrange(0, i + 1).last() == orig[i as int]);
        match take_at(&mut rest, i) {
            Value::Array(cols) => match column_strings_of(cols) {
                Ok(c) => {
                    let ghost before = out@;
                    out.push(c);
                    assert(out@.map_values(|v: Vec<String>| v@) =~= before.map_values(|v: Vec<String>| v@).push(c@));
                },
                Err(e) => {
                    proof {
                        assert(item_columns(orig.subrange(0, i + 1)) == Err::<Seq<Seq<String>>, Seq<char>>(e@));
                        lemma_item_columns_err(orig, i as int + 1);
                    }
                    return Err(e);
                },
            },
            _ => {
                proof {
                    assert(item_columns(orig.subrange(0, i + 1)) == Err::<Seq<Seq<String>>, Seq<char>>("Failed to get menu item array"@));
                    lemma_item_columns_err(orig, i as int + 1);
                }
                return Err("Failed to get menu item array".to_owned());
            },
        }
        i = i + 1;
    }
    assert(orig.subrange(0, orig.len() as int) == orig);
    Ok(out)
}

fn menu_items_from(lists: Vec<Vec<String>>) -> (r: Result<Vec<PopupMenuItem>, String>)
    ensures
        match r {
            Ok(items) => menu_items_of(lists@.map_values(|v: Vec<String>| v@)) == Ok::<Seq<PopupMenuItem>, Seq<char>>(items@),
            Err(e) => menu_items_of(lists@.map_values(|v: Vec<String>| v@)) == Err::<Seq<PopupMenuItem>, Seq<char>>(e@),
        },
{
    let ghost orig = lists@.map_values(|v: Vec<String>| v@);
    let mut rest = lists;
    let mut out: Vec<PopupMenuItem> = Vec::new();
    let mut i: usize = 0;
    while i < rest.len()
        invariant
            orig == lists@.map_values(|v: Vec<String>| v@),
            i <= rest@.len(),
            rest@.len() == orig.len(),
            forall|j: int| i <= j < orig.len() ==> rest@[j]@ == orig[j],
            menu_items_of(orig.subrange(0, i as int)) == Ok::<Seq<PopupMenuItem>, Seq<char>>(out@),
        decreases rest@.len() - i,
    {
        assert(orig.subrange(0, i + 1).drop_last() == orig.subrange(0, i as int));
        assert(orig.subrange(0, i + 1).last() == orig[i as int]);
        let mut cols: Vec<String> = Vec::new();
        std::mem::swap(&mut cols, &mut rest[i]);
        assert(cols@ == orig[i as int]);
        match PopupMenuItem::new(cols) {
            Ok(item) => {
                out.push(item);
            },
            Err(e) => {
                proof {
                    assert(menu_items_of(orig.subrange(0, i + 1)) == Err::<Seq<PopupMenuItem>, Seq<char>>(e@));
                    lemma_menu_items_err(orig, i as int + 1);
                }
                return Err(e);
            },
        }
        i = i + 1;
    }
    assert(orig.subrange(0, orig.len() as int) == orig);
    Ok(out)
}

/// Decodes the arguments of a `popupmenu_show` call into the pending show.
pub fn popupmenu_show_args(args: Vec<Value>) -> (r: Result<PendingPopupMenu, RedrawCallError>)
    ensures
        match r {
            Ok(p) => p matches PendingPopupMenu::Show { items, selected, pos } && popupmenu_show_of(args@) == Ok::<
                (Seq<PopupMenuItem>, Option<u32>, (u64, u64)),
                RedrawCallErrorView,
            >((items@, selected, pos)),
            Err(e) => popupmenu_show_of(args@) == Err::<(Seq<PopupMenuItem>, Option<u32>, (u64, u64)), RedrawCallErrorView>(e@),
        },
{
    let ghost orig = args@;
    let mut args = args;
    if args.len() == 0 {
        return Err(message("Menu list array is missing"));
    }
    let lists = match take_at(&mut args, 0) {
        Value::Array(items) => item_columns_of(items),
        _ => Err("Failed to get menu list array".to_owned()),
    };
    let lists = match lists {
        Ok(l) => l,
        Err(e) => {
            return Err(RedrawCallError::Message(e));
        },
    };
    let items = match menu_items_from(lists) {
        Ok(items) => items,
        Err(e) => {
            return Err(RedrawCallError::Message(e));
        },
    };
    if args.len() < 2 {
        return Err(message("Failed to get selected popupmenu row"));
    }
    let selected = match optional_u32(take_at(&mut args, 1)) {
        Ok(s) => s,
        Err(e) => {
            return Err(e);
        },
    };
    if args.len() < 3 {
        return Err(message("Failed to get popupmenu row"));
    }
    let row = match args[2].as_u64() {
        Some(r) => r,
        None => {
            return Err(message("Can't convert argument to u64"));
        },
    };
    if args.len() < 4 {
        return Err(message("Failed to get popupmenu col"));
    }
    let col = match args[3].as_u64() {
        Some(c) => c,
        None => {
            return Err(message("Can't convert argument to u64"));
        },
    };
    Ok(PendingPopupMenu::Show { items, selected, pos: (row, col) })
}

/// Decodes the arguments of a `popupmenu_select` call into the pending selection.
pub fn popupmenu_select_args(args: Vec<Value>) -> (r: Result<PendingPopupMenu, RedrawCallError>)
    requires
        args@.len() >= 1,
    ensures
        match r {
            Ok(p) => p matches PendingPopupMenu::Select(s) && optional_u32_of(args@[0]) == Ok::<Option<u32>, RedrawCallErrorView>(s),
            Err(e) => optional_u32_of(args@[0]) == Err::<Option<u32>, RedrawCallErrorView>(e@),
        },
{
    let mut args = args;
    match optional_u32(take_at(&mut args, 0)) {
        Ok(s) => Ok(PendingPopupMenu::Select(s)),
        Err(e) => Err(e),
    }
}

} // verus!
