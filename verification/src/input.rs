//! Key presses written in Neovim input notation.

use vstd::prelude::*;

use crate::text::{char_is_ascii, char_is_ascii_alnum, is_ascii_alnum, is_ascii_char, str_chars, str_eq, string_from_chars, string_push};

verus! {

/// The modifier keys held with a key press.
#[derive(Debug, Clone, Copy, PartialEq, Eq)]
pub struct ModifierType {
    pub shift: bool,
    pub control: bool,
    pub alt: bool,
    pub meta: bool,
    pub super_key: bool,
}

impl ModifierType {
    /// No modifier held.
    pub fn empty() -> (r: Self)
        ensures
            !r.shift && !r.control && !r.alt && !r.meta && !r.super_key,
    {
        ModifierType { shift: false, control: false, alt: false, meta: false, super_key: false }
    }
}

/// The key name after the special cases: `Ctrl-6` and `Ctrl-2` alone stand for `^` and `@`,
/// and `<` is written `lt`.
pub open spec fn key_name(s: Seq<char>, m: ModifierType) -> Seq<char> {
    let v = if m.control && !m.shift && !m.alt && !m.meta {
        if s == seq!['6'] {
            seq!['^']
        } else if s == seq!['2'] {
            seq!['@']
        } else {
            s
        }
    } else {
        s
    };
    if v == seq!['<'] {
        seq!['l', 't']
    } else {
        v
    }
}

/// Whether the shift modifier is written: not for a single ASCII character that is not a letter
/// or digit, as shift is part of that character already.
pub open spec fn shift_written(s: Seq<char>, m: ModifierType) -> bool {
    m.shift && !(s.len() == 1 && is_ascii_char(s[0]) && !is_ascii_alnum(s[0]))
}

/// The modifier prefix: `S`, `C` and `A` in that order, each followed by `sep`.
pub open spec fn modifier_prefix(s: Seq<char>, m: ModifierType, sep: Seq<char>) -> Seq<char> {
    (if shift_written(s, m) { seq!['S'] + sep } else { Seq::empty() }) + (if m.control {
        seq!['C'] + sep
    } else {
        Seq::empty()
    }) + (if m.alt || m.meta { seq!['A'] + sep } else { Seq::empty() })
}

/// The Neovim input for the key `s` pressed with `m`.
pub open spec fn key_input(s: Seq<char>, m: ModifierType) -> Seq<char> {
    let sep = if s.len() == 0 { Seq::empty() } else { seq!['-'] };
    let joined = modifier_prefix(s, m, sep) + key_name(s, m);
    if s.len() > 0 && joined.len() > 1 {
        seq!['<'] + joined + seq!['>']
    } else {
        joined
    }
}

fn push_all(r: &mut Vec<char>, s: &[char])
    ensures
        final(r)@ == old(r)@ + s@,
{
    let mut i: usize = 0;
    while i < s.len()
        invariant
            i <= s@.len(),
            r@ == old(r)@ + s@.subrange(0, i as int),
        decreases s.len() - i,
    {
        r.push(s[i]);
        assert(s@.subrange(0, i + 1) == s@.subrange(0, i as int).push(s@[i as int]));
        i = i + 1;
    }
    assert(s@.subrange(0, s@.len() as int) == s@);
}

/// The Neovim input notation for the key `in_str` pressed with the modifiers `in_state`.
pub fn keyval_to_input_string(in_str: &str, in_state: ModifierType) -> (r: String)
    ensures
        r@ == key_input(in_str@, in_state),
{
    let chars = str_chars(in_str);
    let empty = chars.len() == 0;
    let state = in_state;
    let mut val: Vec<char> = Vec::new();
    if state.control && !state.shift && !state.alt && !state.meta && chars.len() == 1 && chars[0] == '6' {
        val.push('^');
    } else if state.control && !state.shift && !state.alt && !state.meta && chars.len() == 1
        && chars[0] == '2' {
        val.push('@');
    } else {
        push_all(&mut val, chars.as_slice());
    }
    proof {
        if chars@.len() == 1 && chars@[0] == '6' {
            assert(chars@ =~= seq!['6']);
        }
        if chars@.len() == 1 && chars@[0] == '2' {
            assert(chars@ =~= seq!['2']);
        }
        if chars@ == seq!['6'] || chars@ == seq!['2'] {
            assert(chars@.len() == 1);
        }
    }
    assert(val@ =~= if state.control && !state.shift && !state.alt && !state.meta {
        if chars@ == seq!['6'] {
            seq!['^']
        } else if chars@ == seq!['2'] {
            seq!['@']
        } else {
            chars@
        }
    } else {
        chars@
    });
    let ghost v_before = val@;
    proof {
        if v_before.len() == 1 && v_before[0] == '<' {
            assert(v_before =~= seq!['<']);
        }
    }
    if val.len() == 1 && val[0] == '<' {
        val = Vec::new();
        val.push('l');
        val.push('t');
        assert(val@ =~= seq!['l', 't']);
    }
    assert(val@ == key_name(in_str@, in_state));
    let mut shift = state.shift;
    if chars.len() == 1 {
        let ch = chars[0];
        if char_is_ascii(ch) && !char_is_ascii_alnum(ch) {
            shift = false;
        }
    }
    assert(shift == shift_written(in_str@, in_state));
    let mut joined: Vec<char> = Vec::new();
    if shift {
        joined.push('S');
        if !empty {
            joined.push('-');
        }
    }
    if state.control {
        joined.push('C');
        if !empty {
            joined.push('-');
        }
    }
    if state.alt || state.meta {
        joined.push('A');
        if !empty {
            joined.push('-');
        }
    }
    let ghost sep = if chars@.len() == 0 { Seq::<char>::empty() } else { seq!['-'] };
    assert(joined@ =~= modifier_prefix(in_str@, in_state, sep));
    push_all(&mut joined, val.as_slice());
    if !empty && joined.len() > 1 {
        let mut r = String::new();
        string_push(&mut r, '<');
        let inner = string_from_chars(joined.as_slice(), 0, joined.len());
        let r = r.concat(inner.as_str());
        let mut r = r;
        string_push(&mut r, '>');
        assert(joined@.subrange(0, joined@.len() as int) == joined@);
        assert(joined@ == modifier_prefix(in_str@, in_state, sep) + key_name(in_str@, in_state));
        assert(r@ =~= seq!['<'] + joined@ + seq!['>']);
        r
    } else {
        assert(joined@.subrange(0, joined@.len() as int) == joined@);
        assert(joined@ == modifier_prefix(in_str@, in_state, sep) + key_name(in_str@, in_state));
        string_from_chars(joined.as_slice(), 0, joined.len())
    }
}

/// The Neovim key name for the GDK key names that have one.
pub open spec fn mapped_key_name(v: Seq<char>) -> Option<Seq<char>> {
    if v == "F1"@ { Some("F1"@) }
    else if v == "F2"@ { Some("F2"@) }
    else if v == "F3"@ { Some("F3"@) }
    else if v == "F4"@ { Some("F4"@) }
    else if v == "F5"@ { Some("F5"@) }
    else if v == "F6"@ { Some("F6"@) }
    else if v == "F7"@ { Some("F7"@) }
    else if v == "F8"@ { Some("F8"@) }
    else if v == "F9"@ { Some("F9"@) }
    else if v == "F10"@ { Some("F10"@) }
    else if v == "F11"@ { Some("F11"@) }
    else if v == "F12"@ { Some("F12"@) }
    else if v == "Left"@ { Some("Left"@) }
    else if v == "Right"@ { Some("Right"@) }
    else if v == "Up"@ { Some("Up"@) }
    else if v == "Down"@ { Some("Down"@) }
    else if v == "Home"@ { Some("Home"@) }
    else if v == "End"@ { Some("End"@) }
    else if v == "BackSpace"@ { Some("BS"@) }
    else if v == "Delete"@ { Some("Del"@) }
    else if v == "Page_Up"@ { Some("PageUp"@) }
    else if v == "Page_Down"@ { Some("PageDown"@) }
    else if v == "Escape"@ { Some("Esc"@) }
    else if v == "Tab"@ { Some("Tab"@) }
    else if v == "ISO_Left_Tab"@ { Some("Tab"@) }
    else if v == "Return"@ { Some("CR"@) }
    else if v == "Enter"@ { Some("CR"@) }
    else if v == "Insert"@ { Some("Insert"@) }
    else { None }
}

/// The key names of the table have these lengths, and those of one length differ.
proof fn lemma_key_names_differ()
    ensures
        "BS"@.len() == 2,
        "BackSpace"@.len() == 9,
        "CR"@.len() == 2,
        "Del"@.len() == 3,
        "Delete"@.len() == 6,
        "Down"@.len() == 4,
        "End"@.len() == 3,
        "Enter"@.len() == 5,
        "Esc"@.len() == 3,
        "Escape"@.len() == 6,
        "F1"@.len() == 2,
        "F10"@.len() == 3,
        "F11"@.len() == 3,
        "F12"@.len() == 3,
        "F2"@.len() == 2,
        "F3"@.len() == 2,
        "F4"@.len() == 2,
        "F5"@.len() == 2,
        "F6"@.len() == 2,
        "F7"@.len() == 2,
        "F8"@.len() == 2,
        "F9"@.len() == 2,
        "Home"@.len() == 4,
        "ISO_Left_Tab"@.len() == 12,
        "Insert"@.len() == 6,
        "Left"@.len() == 4,
        "PageDown"@.len() == 8,
        "PageUp"@.len() == 6,
        "Page_Down"@.len() == 9,
        "Page_Up"@.len() == 7,
        "Return"@.len() == 6,
        "Right"@.len() == 5,
        "Tab"@.len() == 3,
        "Up"@.len() == 2,
        "BS"@ != "CR"@,
        "BS"@ != "F1"@,
        "BS"@ != "F2"@,
        "BS"@ != "F3"@,
        "BS"@ != "F4"@,
        "BS"@ != "F5"@,
        "BS"@ != "F6"@,
        "BS"@ != "F7"@,
        "BS"@ != "F8"@,
        "BS"@ != "F9"@,
        "BS"@ != "Up"@,
        "BackSpace"@ != "Page_Down"@,
        "CR"@ != "F1"@,
        "CR"@ != "F2"@,
        "CR"@ != "F3"@,
        "CR"@ != "F4"@,
        "CR"@ != "F5"@,
        "CR"@ != "F6"@,
        "CR"@ != "F7"@,
        "CR"@ != "F8"@,
        "CR"@ != "F9"@,
        "CR"@ != "Up"@,
        "Del"@ != "End"@,
        "Del"@ != "Esc"@,
        "Del"@ != "F10"@,
        "Del"@ != "F11"@,
        "Del"@ != "F12"@,
        "Del"@ != "Tab"@,
        "Delete"@ != "Escape"@,
        "Delete"@ != "Insert"@,
        "Delete"@ != "PageUp"@,
        "Delete"@ != "Return"@,
        "Down"@ != "Home"@,
        "Down"@ != "Left"@,
        "End"@ != "Esc"@,
        "End"@ != "F10"@,
        "End"@ != "F11"@,
        "End"@ != "F12"@,
        "End"@ != "Tab"@,
        "Enter"@ != "Right"@,
        "Esc"@ != "F10"@,
        "Esc"@ != "F11"@,
        "Esc"@ != "F12"@,
        "Esc"@ != "Tab"@,
        "Escape"@ != "Insert"@,
        "Escape"@ != "PageUp"@,
        "Escape"@ != "Return"@,
        "F1"@ != "F2"@,
        "F1"@ != "F3"@,
        "F1"@ != "F4"@,
        "F1"@ != "F5"@,
        "F1"@ != "F6"@,
        "F1"@ != "F7"@,
        "F1"@ != "F8"@,
        "F1"@ != "F9"@,
        "F1"@ != "Up"@,
        "F10"@ != "F11"@,
        "F10"@ != "F12"@,
        "F10"@ != "Tab"@,
        "F11"@ != "F12"@,
        "F11"@ != "Tab"@,
        "F12"@ != "Tab"@,
        "F2"@ != "F3"@,
        "F2"@ != "F4"@,
        "F2"@ != "F5"@,
        "F2"@ != "F6"@,
        "F2"@ != "F7"@,
        "F2"@ != "F8"@,
        "F2"@ != "F9"@,
        "F2"@ != "Up"@,
        "F3"@ != "F4"@,
        "F3"@ != "F5"@,
        "F3"@ != "F6"@,
        "F3"@ != "F7"@,
        "F3"@ != "F8"@,
        "F3"@ != "F9"@,
        "F3"@ != "Up"@,
        "F4"@ != "F5"@,
        "F4"@ != "F6"@,
        "F4"@ != "F7"@,
        "F4"@ != "F8"@,
        "F4"@ != "F9"@,
        "F4"@ != "Up"@,
        "F5"@ != "F6"@,
        "F5"@ != "F7"@,
        "F5"@ != "F8"@,
        "F5"@ != "F9"@,
        "F5"@ != "Up"@,
        "F6"@ != "F7"@,
        "F6"@ != "F8"@,
        "F6"@ != "F9"@,
        "F6"@ != "Up"@,
        "F7"@ != "F8"@,
        "F7"@ != "F9"@,
        "F7"@ != "Up"@,
        "F8"@ != "F9"@,
        "F8"@ != "Up"@,
        "F9"@ != "Up"@,
        "Home"@ != "Left"@,
        "Insert"@ != "PageUp"@,
        "Insert"@ != "Return"@,
        "PageUp"@ != "Return"@,
{
    reveal_strlit("BS");
    reveal_strlit("BackSpace");
    reveal_strlit("CR");
    reveal_strlit("Del");
    reveal_strlit("Delete");
    reveal_strlit("Down");
    reveal_strlit("End");
    reveal_strlit("Enter");
    reveal_strlit("Esc");
    reveal_strlit("Escape");
    reveal_strlit("F1");
    reveal_strlit("F10");
    reveal_strlit("F11");
    reveal_strlit("F12");
    reveal_strlit("F2");
    reveal_strlit("F3");
    reveal_strlit("F4");
    reveal_strlit("F5");
    reveal_strlit("F6");
    reveal_strlit("F7");
    reveal_strlit("F8");
    reveal_strlit("F9");
    reveal_strlit("Home");
    reveal_strlit("ISO_Left_Tab");
    reveal_strlit("Insert");
    reveal_strlit("Left");
    reveal_strlit("PageDown");
    reveal_strlit("PageUp");
    reveal_strlit("Page_Down");
    reveal_strlit("Page_Up");
    reveal_strlit("Return");
    reveal_strlit("Right");
    reveal_strlit("Tab");
    reveal_strlit("Up");
    assert("BS"@[0] != "CR"@[0]);
    assert("BS"@[0] != "F1"@[0]);
    assert("BS"@[0] != "F2"@[0]);
    assert("BS"@[0] != "F3"@[0]);
    assert("BS"@[0] != "F4"@[0]);
    assert("BS"@[0] != "F5"@[0]);
    assert("BS"@[0] != "F6"@[0]);
    assert("BS"@[0] != "F7"@[0]);
    assert("BS"@[0] != "F8"@[0]);
    assert("BS"@[0] != "F9"@[0]);
    assert("BS"@[0] != "Up"@[0]);
    assert("BackSpace"@[0] != "Page_Down"@[0]);
    assert("CR"@[0] != "F1"@[0]);
    assert("CR"@[0] != "F2"@[0]);
    assert("CR"@[0] != "F3"@[0]);
    assert("CR"@[0] != "F4"@[0]);
    assert("CR"@[0] != "F5"@[0]);
    assert("CR"@[0] != "F6"@[0]);
    assert("CR"@[0] != "F7"@[0]);
    assert("CR"@[0] != "F8"@[0]);
    assert("CR"@[0] != "F9"@[0]);
    assert("CR"@[0] != "Up"@[0]);
    assert("Del"@[0] != "End"@[0]);
    assert("Del"@[0] != "Esc"@[0]);
    assert("Del"@[0] != "F10"@[0]);
    assert("Del"@[0] != "F11"@[0]);
    assert("Del"@[0] != "F12"@[0]);
    assert("Del"@[0] != "Tab"@[0]);
    assert("Delete"@[0] != "Escape"@[0]);
    assert("Delete"@[0] != "Insert"@[0]);
    assert("Delete"@[0] != "PageUp"@[0]);
    assert("Delete"@[0] != "Return"@[0]);
    assert("Down"@[0] != "Home"@[0]);
    assert("Down"@[0] != "Left"@[0]);
    assert("End"@[1] != "Esc"@[1]);
    assert("End"@[0] != "F10"@[0]);
    assert("End"@[0] != "F11"@[0]);
    assert("End"@[0] != "F12"@[0]);
    assert("End"@[0] != "Tab"@[0]);
    assert("Enter"@[0] != "Right"@[0]);
    assert("Esc"@[0] != "F10"@[0]);
    assert("Esc"@[0] != "F11"@[0]);
    assert("Esc"@[0] != "F12"@[0]);
    assert("Esc"@[0] != "Tab"@[0]);
    assert("Escape"@[0] != "Insert"@[0]);
    assert("Escape"@[0] != "PageUp"@[0]);
    assert("Escape"@[0] != "Return"@[0]);
    assert("F1"@[1] != "F2"@[1]);
    assert("F1"@[1] != "F3"@[1]);
    assert("F1"@[1] != "F4"@[1]);
    assert("F1"@[1] != "F5"@[1]);
    assert("F1"@[1] != "F6"@[1]);
    assert("F1"@[1] != "F7"@[1]);
    assert("F1"@[1] != "F8"@[1]);
    assert("F1"@[1] != "F9"@[1]);
    assert("F1"@[0] != "Up"@[0]);
    assert("F10"@[2] != "F11"@[2]);
    assert("F10"@[2] != "F12"@[2]);
    assert("F10"@[0] != "Tab"@[0]);
    assert("F11"@[2] != "F12"@[2]);
    assert("F11"@[0] != "Tab"@[0]);
    assert("F12"@[0] != "Tab"@[0]);
    assert("F2"@[1] != "F3"@[1]);
    assert("F2"@[1] != "F4"@[1]);
    assert("F2"@[1] != "F5"@[1]);
    assert("F2"@[1] != "F6"@[1]);
    assert("F2"@[1] != "F7"@[1]);
    assert("F2"@[1] != "F8"@[1]);
    assert("F2"@[1] != "F9"@[1]);
    assert("F2"@[0] != "Up"@[0]);
    assert("F3"@[1] != "F4"@[1]);
    assert("F3"@[1] != "F5"@[1]);
    assert("F3"@[1] != "F6"@[1]);
    assert("F3"@[1] != "F7"@[1]);
    assert("F3"@[1] != "F8"@[1]);
    assert("F3"@[1] != "F9"@[1]);
    assert("F3"@[0] != "Up"@[0]);
    assert("F4"@[1] != "F5"@[1]);
    assert("F4"@[1] != "F6"@[1]);
    assert("F4"@[1] != "F7"@[1]);
    assert("F4"@[1] != "F8"@[1]);
    assert("F4"@[1] != "F9"@[1]);
    assert("F4"@[0] != "Up"@[0]);
    assert("F5"@[1] != "F6"@[1]);
    assert("F5"@[1] != "F7"@[1]);
    assert("F5"@[1] != "F8"@[1]);
    assert("F5"@[1] != "F9"@[1]);
    assert("F5"@[0] != "Up"@[0]);
    assert("F6"@[1] != "F7"@[1]);
    assert("F6"@[1] != "F8"@[1]);
    assert("F6"@[1] != "F9"@[1]);
    assert("F6"@[0] != "Up"@[0]);
    assert("F7"@[1] != "F8"@[1]);
    assert("F7"@[1] != "F9"@[1]);
    assert("F7"@[0] != "Up"@[0]);
    assert("F8"@[1] != "F9"@[1]);
    assert("F8"@[0] != "Up"@[0]);
    assert("F9"@[0] != "Up"@[0]);
    assert("Home"@[0] != "Left"@[0]);
    assert("Insert"@[0] != "PageUp"@[0]);
    assert("Insert"@[0] != "Return"@[0]);
    assert("PageUp"@[0] != "Return"@[0]);
}

/// GDK keys that mean the same key to Neovim: the two tab keys, and the two enter keys.
pub open spec fn same_key_meaning(a: Seq<char>, b: Seq<char>) -> bool {
    ||| a == b
    ||| (a == "Tab"@ || a == "ISO_Left_Tab"@) && (b == "Tab"@ || b == "ISO_Left_Tab"@)
    ||| (a == "Return"@ || a == "Enter"@) && (b == "Return"@ || b == "Enter"@)
}

/// Two GDK keys are sent under the same Neovim name only when they mean the same key: the
/// deleting keys, the paging keys, the arrows and the function keys each keep a name of their
/// own.
pub proof fn law_distinct_keys_keep_distinct_names(a: Seq<char>, b: Seq<char>)
    requires
        mapped_key_name(a) is Some,
        mapped_key_name(a) == mapped_key_name(b),
    ensures
        same_key_meaning(a, b),
{
    lemma_key_names_differ();
}

/// Each GDK key name is sent as the Neovim key of the same meaning: `BackSpace` as `BS`,
/// `Delete` as `Del`, `Page_Up`/`Page_Down` as `PageUp`/`PageDown`, `Escape` as `Esc`, both
/// tab keys as `Tab`, both enter keys as `CR`, and the function, arrow, `Home`, `End` and
/// `Insert` keys under their own names. No other GDK key has a Neovim name.
pub proof fn law_named_keys_map_to_their_neovim_names()
    ensures
        forall|v: Seq<char>| #[trigger] mapped_key_name(v) is Some ==> v == "F1"@ || v == "F2"@ || v == "F3"@ || v == "F4"@ || v == "F5"@ || v == "F6"@ || v == "F7"@ || v == "F8"@ || v == "F9"@ || v == "F10"@ || v == "F11"@ || v == "F12"@ || v == "Left"@ || v == "Right"@ || v == "Up"@ || v == "Down"@ || v == "Home"@ || v == "End"@ || v == "BackSpace"@ || v == "Delete"@ || v == "Page_Up"@ || v == "Page_Down"@ || v == "Escape"@ || v == "Tab"@ || v == "ISO_Left_Tab"@ || v == "Return"@ || v == "Enter"@ || v == "Insert"@,
        mapped_key_name("F1"@) == Some("F1"@),
        mapped_key_name("F2"@) == Some("F2"@),
        mapped_key_name("F3"@) == Some("F3"@),
        mapped_key_name("F4"@) == Some("F4"@),
        mapped_key_name("F5"@) == Some("F5"@),
        mapped_key_name("F6"@) == Some("F6"@),
        mapped_key_name("F7"@) == Some("F7"@),
        mapped_key_name("F8"@) == Some("F8"@),
        mapped_key_name("F9"@) == Some("F9"@),
        mapped_key_name("F10"@) == Some("F10"@),
        mapped_key_name("F11"@) == Some("F11"@),
        mapped_key_name("F12"@) == Some("F12"@),
        mapped_key_name("Left"@) == Some("Left"@),
        mapped_key_name("Right"@) == Some("Right"@),
        mapped_key_name("Up"@) == Some("Up"@),
        mapped_key_name("Down"@) == Some("Down"@),
        mapped_key_name("Home"@) == Some("Home"@),
        mapped_key_name("End"@) == Some("End"@),
        mapped_key_name("BackSpace"@) == Some("BS"@),
        mapped_key_name("Delete"@) == Some("Del"@),
        mapped_key_name("Page_Up"@) == Some("PageUp"@),
        mapped_key_name("Page_Down"@) == Some("PageDown"@),
        mapped_key_name("Escape"@) == Some("Esc"@),
        mapped_key_name("Tab"@) == Some("Tab"@),
        mapped_key_name("ISO_Left_Tab"@) == Some("Tab"@),
        mapped_key_name("Return"@) == Some("CR"@),
        mapped_key_name("Enter"@) == Some("CR"@),
        mapped_key_name("Insert"@) == Some("Insert"@),
{
    lemma_key_names_differ();
}

fn map_keyval(v: &str) -> (r: Option<&'static str>)
    ensures
        r.is_some() == mapped_key_name(v@).is_some(),
        r matches Some(s) ==> s@ == mapped_key_name(v@).unwrap(),
{
    if str_eq(v, "F1") { Some("F1") }
    else if str_eq(v, "F2") { Some("F2") }
    else if str_eq(v, "F3") { Some("F3") }
    else if str_eq(v, "F4") { Some("F4") }
    else if str_eq(v, "F5") { Some("F5") }
    else if str_eq(v, "F6") { Some("F6") }
    else if str_eq(v, "F7") { Some("F7") }
    else if str_eq(v, "F8") { Some("F8") }
    else if str_eq(v, "F9") { Some("F9") }
    else if str_eq(v, "F10") { Some("F10") }
    else if str_eq(v, "F11") { Some("F11") }
    else if str_eq(v, "F12") { Some("F12") }
    else if str_eq(v, "Left") { Some("Left") }
    else if str_eq(v, "Right") { Some("Right") }
    else if str_eq(v, "Up") { Some("Up") }
    else if str_eq(v, "Down") { Some("Down") }
    else if str_eq(v, "Home") { Some("Home") }
    else if str_eq(v, "End") { Some("End") }
    else if str_eq(v, "BackSpace") { Some("BS") }
    else if str_eq(v, "Delete") { Some("Del") }
    else if str_eq(v, "Page_Up") { Some("PageUp") }
    else if str_eq(v, "Page_Down") { Some("PageDown") }
    else if str_eq(v, "Escape") { Some("Esc") }
    else if str_eq(v, "Tab") { Some("Tab") }
    else if str_eq(v, "ISO_Left_Tab") { Some("Tab") }
    else if str_eq(v, "Return") { Some("CR") }
    else if str_eq(v, "Enter") { Some("CR") }
    else if str_eq(v, "Insert") { Some("Insert") }
    else { None }
}

/// The input for a key given by its GDK name and the character it types: the named keys Neovim
/// knows by name first, then the typed character; `None` for a key with neither.
pub fn convert_key(keyval_name: Option<&str>, keyval_char: Option<char>, modifiers: ModifierType) -> (r: Option<String>)
    ensures
        match keyval_name {
            Some(n) if mapped_key_name(n@).is_some() => r matches Some(s) && s@ == key_input(
                mapped_key_name(n@).unwrap(),
                modifiers,
            ),
            _ => match keyval_char {
                Some(ch) => r matches Some(s) && s@ == key_input(seq![ch], modifiers),
                None => r is None,
            },
        },
{
    if let Some(name) = keyval_name {
        if let Some(cnvt) = map_keyval(name) {
            return Some(keyval_to_input_string(cnvt, modifiers));
        }
    }
    match keyval_char {
        Some(ch) => {
            let mut s = String::new();
            string_push(&mut s, ch);
            Some(keyval_to_input_string(s.as_str(), modifiers))
        },
        None => None,
    }
}

} // verus!
