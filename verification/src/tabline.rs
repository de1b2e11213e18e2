//! What the tab line asks of Neovim when a tab is picked, moved or closed.

use vstd::prelude::*;

use crate::nvim::ext_tabline::Tabpage;
use crate::ui::{decimal_string, decimal_text};

verus! {

/// Two tabpage handles name the same tabpage.
pub open spec fn same_tabpage(a: &Tabpage, b: &Tabpage) -> bool {
    a.ext.0 == b.ext.0 && a.ext.1@ == b.ext.1@
}

fn tabpage_eq(a: &Tabpage, b: &Tabpage) -> (r: bool)
    ensures
        r == same_tabpage(a, b),
{
    if a.ext.0 != b.ext.0 || a.ext.1.len() != b.ext.1.len() {
        return false;
    }
    let mut i: usize = 0;
    while i < a.ext.1.len()
        invariant
            a.ext.1@.len() == b.ext.1@.len(),
            i <= a.ext.1@.len(),
            forall|j: int| 0 <= j < i ==> a.ext.1@[j] == b.ext.1@[j],
        decreases a.ext.1@.len() - i,
    {
        if a.ext.1[i] != b.ext.1[i] {
            return false;
        }
        i = i + 1;
    }
    assert(a.ext.1@ =~= b.ext.1@);
    true
}

/// The tabpage to make current when the tab at `idx` is picked, where it is not the selected
/// one already.
pub fn switch_page<'a>(tabpages: &'a Vec<Tabpage>, selected: Option<&Tabpage>, idx: u32) -> (r: Option<&'a Tabpage>)
    requires
        idx < tabpages@.len(),
    ensures
        match selected {
            Some(s) => if same_tabpage(&tabpages@[idx as int], s) {
                r is None
            } else {
                r == Some(&tabpages@[idx as int])
            },
            None => r == Some(&tabpages@[idx as int]),
        },
{
    let target = &tabpages[idx as usize];
    match selected {
        Some(s) => if tabpage_eq(target, s) {
            None
        } else {
            Some(target)
        },
        None => Some(target),
    }
}

/// The command that moves the tab at `idx` to the place of the tab at `new_idx`: the tab is
/// addressed by its number and, as `:tabmove` counts before the move, a tab moved right goes
/// one further.
pub open spec fn reorder_command(idx: u32, new_idx: u32) -> Seq<char> {
    let target: nat = if new_idx > idx {
        (new_idx + 1) as nat
    } else {
        new_idx as nat
    };
    decimal_text((idx + 1) as nat) + "tabd tabm "@ + decimal_text(target)
}

pub fn reorder_page(idx: u32, new_idx: u32) -> (r: String)
    requires
        idx < u32::MAX,
        new_idx > idx ==> new_idx < u32::MAX,
    ensures
        r@ == reorder_command(idx, new_idx),
{
    proof {
        reveal_strlit("tabd tabm ");
    }
    let target = if new_idx > idx {
        new_idx + 1
    } else {
        new_idx
    };
    decimal_string(idx + 1).concat("tabd tabm ").concat(decimal_string(target).as_str())
}

/// The command that closes the tab at `idx`, addressed by its number.
pub fn close_tab(idx: u32) -> (r: String)
    requires
        idx < u32::MAX,
    ensures
        r@ == "tabc "@ + decimal_text((idx + 1) as nat),
{
    proof {
        reveal_strlit("tabc ");
    }
    "tabc ".to_string().concat(decimal_string(idx + 1).as_str())
}

} // verus!
