//! The main window's title, made of the current file, its state and the argument list.

use vstd::prelude::*;

use crate::text::string_from_chars;

verus! {

/// What `std::path::Path::strip_prefix` gives for `path` and `base` as text: the rest of `path`
/// after the leading components that make up `base`, or `None` where `base` does not lead it.
pub uninterp spec fn path_relative_to(path: Seq<char>, base: Seq<char>) -> Option<Seq<char>>;

/// `path` relative to `base` (std's `Path::strip_prefix`, read back as text).
#[verifier::external_body]
fn strip_path_prefix(path: &str, base: &str) -> (r: Option<String>)
    ensures
        r.is_some() == path_relative_to(path@, base@).is_some(),
        r matches Some(s) ==> s@ == path_relative_to(path@, base@)->0,
{
    match std::path::Path::new(path).strip_prefix(base) {
        Ok(rel) => match rel.to_str() {
            Some(s) => Some(s.to_owned()),
            None => None,
        },
        Err(_) => None,
    }
}

/// The decimal digit `d`.
pub open spec fn digit_char(d: nat) -> char {
    ((d + '0' as nat) as u32) as char
}

/// `n` written in decimal, without leading zeros.
pub open spec fn decimal_text(n: nat) -> Seq<char>
    decreases n,
{
    if n < 10 {
        seq![digit_char(n)]
    } else {
        decimal_text(n / 10).push(digit_char(n % 10))
    }
}

/// `n` in decimal.
pub fn decimal_string(n: u32) -> (r: String)
    ensures
        r@ == decimal_text(n as nat),
{
    let mut digits: Vec<char> = Vec::new();
    let mut m = n;
    while m >= 10
        invariant
            decimal_text(n as nat) == decimal_text(m as nat) + digits@.reverse(),
        decreases m,
    {
        let d = m % 10;
        let c = char_of_digit(d);
        proof {
            assert(decimal_text(m as nat) == decimal_text((m / 10) as nat).push(digit_char(d as nat)));
            assert(digits@.push(c).reverse() =~= seq![c] + digits@.reverse());
            assert(decimal_text((m / 10) as nat).push(c) + digits@.reverse() =~= decimal_text((m / 10) as nat) + (seq![c]
                + digits@.reverse()));
        }
        digits.push(c);
        m = m / 10;
    }
    let c = char_of_digit(m);
    proof {
        assert(decimal_text(m as nat) == seq![c]);
        assert(digits@.push(c).reverse() =~= seq![c] + digits@.reverse());
    }
    digits.push(c);
    let mut out: Vec<char> = Vec::new();
    let mut i = digits.len();
    while i > 0
        invariant
            i <= digits@.len(),
            out@ == digits@.subrange(i as int, digits@.len() as int).reverse(),
        decreases i,
    {
        i = i - 1;
        out.push(digits[i]);
        assert(digits@.subrange(i as int, digits@.len() as int).reverse() =~= digits@.subrange(
            i + 1,
            digits@.len() as int,
        ).reverse().push(digits@[i as int]));
    }
    assert(digits@.subrange(0, digits@.len() as int) =~= digits@);
    string_from_chars(out.as_slice(), 0, out.len())
}

fn char_of_digit(d: u32) -> (c: char)
    requires
        d < 10,
    ensures
        c == digit_char(d as nat),
{
    if d == 0 {
        '0'
    } else if d == 1 {
        '1'
    } else if d == 2 {
        '2'
    } else if d == 3 {
        '3'
    } else if d == 4 {
        '4'
    } else if d == 5 {
        '5'
    } else if d == 6 {
        '6'
    } else if d == 7 {
        '7'
    } else if d == 8 {
        '8'
    } else {
        '9'
    }
}

/// `parts` joined with single spaces.
pub open spec fn joined(parts: Seq<Seq<char>>) -> Seq<char>
    decreases parts.len(),
{
    if parts.len() == 0 {
        Seq::empty()
    } else if parts.len() == 1 {
        parts[0]
    } else {
        joined(parts.drop_last()) + seq![' '] + parts.last()
    }
}

/// The file named in the title: `[No Name]` for no file, else its path relative to the
/// working directory where it lies in it, else its path.
pub open spec fn title_file(file_path: Seq<char>, dir: Seq<char>) -> Seq<char> {
    if file_path.len() == 0 {
        "[No Name]"@
    } else {
        match path_relative_to(file_path, dir) {
            Some(rel) => rel,
            None => file_path,
        }
    }
}

/// The parts of the window title: the file; `+` where it is modified, `-` where it cannot be;
/// in the long form the working directory as shown in parentheses; the position in the
/// argument list where it has more than one file; and in the long form the application's name.
pub open spec fn title_parts(
    file_path: Seq<char>,
    dir: Seq<char>,
    dir_shown: Seq<char>,
    argidx: u32,
    argc: u32,
    modified: bool,
    modifiable: bool,
    long: bool,
) -> Seq<Seq<char>> {
    let state: Seq<Seq<char>> = if modifiable {
        if modified {
            seq!["+"@]
        } else {
            Seq::empty()
        }
    } else {
        seq!["-"@]
    };
    let dir_part: Seq<Seq<char>> = if long {
        seq!["("@ + dir_shown + ")"@]
    } else {
        Seq::empty()
    };
    let args: Seq<Seq<char>> = if argc > 1 {
        seq!["("@ + decimal_text(argidx as nat) + " of "@ + decimal_text(argc as nat) + ")"@]
    } else {
        Seq::empty()
    };
    let name: Seq<Seq<char>> = if long {
        seq!["- neovim-gtk"@]
    } else {
        Seq::empty()
    };
    seq![title_file(file_path, dir)] + state + dir_part + args + name
}

/// The title names the file first, then marks it: `+` right after the file exactly when the
/// buffer can be changed and was, `-` right after it exactly when it cannot be changed, in the
/// short and the long form alike; no later part is such a mark. The long form goes on with the
/// working directory as shown, in parentheses, and ends with the application's name; where
/// the argument list has more than one file, its position follows the directory.
pub proof fn law_title_marks_modified_and_readonly(
    file_path: Seq<char>,
    dir: Seq<char>,
    dir_shown: Seq<char>,
    argidx: u32,
    argc: u32,
    modified: bool,
    modifiable: bool,
    long: bool,
)
    ensures
        ({
            let ps = title_parts(file_path, dir, dir_shown, argidx, argc, modified, modifiable, long);
            &&& ps.len() >= 1
            &&& ps[0] == title_file(file_path, dir)
            &&& (ps.len() > 1 && ps[1] == "+"@) <==> (modifiable && modified)
            &&& (ps.len() > 1 && ps[1] == "-"@) <==> !modifiable
            &&& forall|k: int| 2 <= k < ps.len() ==> #[trigger] ps[k] != "+"@ && ps[k] != "-"@
            &&& ({
                let marks: int = if modifiable && !modified { 0 } else { 1 };
                &&& ps.len() == 1 + marks + (if long { 2int } else { 0int }) + (if argc > 1 { 1int } else { 0int })
                &&& long ==> ps[1 + marks] == "("@ + dir_shown + ")"@ && ps.last() == "- neovim-gtk"@
                &&& argc > 1 ==> ps[1 + marks + (if long { 1int } else { 0int })] == "("@ + decimal_text(argidx as nat)
                    + " of "@ + decimal_text(argc as nat) + ")"@
            })
        }),
{
    reveal_strlit("+");
    reveal_strlit("-");
    reveal_strlit("(");
    reveal_strlit(")");
    reveal_strlit("- neovim-gtk");
    let ps = title_parts(file_path, dir, dir_shown, argidx, argc, modified, modifiable, long);
    let st: Seq<Seq<char>> = if !modifiable {
        seq!["-"@]
    } else if modified {
        seq!["+"@]
    } else {
        Seq::empty()
    };
    let rest: Seq<Seq<char>> = ps.subrange(1 + st.len() as int, ps.len() as int);
    assert(ps.subrange(1, 1 + st.len() as int) =~= st);
    assert forall|k: int| 0 <= k < rest.len() implies (#[trigger] rest[k]).len() > 1 && (rest[k][0] == '('
        || rest[k].len() == 12) by {
        let d = dir_shown;
        let a = decimal_text(argidx as nat);
        let c = decimal_text(argc as nat);
        assert(("("@ + d + ")"@)[0] == '(');
        assert(("("@ + a + " of "@ + c + ")"@)[0] == '(');
    }
    assert forall|k: int| 2 <= k < ps.len() implies #[trigger] ps[k] != "+"@ && ps[k] != "-"@ by {
        if k >= 1 + st.len() {
            assert(ps[k] == rest[k - 1 - st.len()]);
        }
    }
    assert("+"@[0] != "-"@[0]);
    if ps.len() > 1 && st.len() == 0 {
        assert(ps[1] == rest[0]);
        assert(rest[0].len() > 1);
    }
}

/// The window title for the file `file_path` in the working directory `dir`, shown as
/// `dir_shown` in the long form.
pub fn format_window_title(
    file_path: &str,
    dir: &str,
    dir_shown: &str,
    argidx: u32,
    argc: u32,
    modified: bool,
    modifiable: bool,
    long: bool,
) -> (r: String)
    ensures
        r@ == joined(title_parts(file_path@, dir@, dir_shown@, argidx, argc, modified, modifiable, long)),
{
    proof {
        reveal_strlit("[No Name]");
        reveal_strlit("+");
        reveal_strlit("-");
        reveal_strlit("(");
        reveal_strlit(")");
        reveal_strlit(" of ");
        reveal_strlit("- neovim-gtk");
    }
    let mut parts: Vec<String> = Vec::new();
    let filename = if file_path.is_empty() {
        "[No Name]".to_string()
    } else {
        match strip_path_prefix(file_path, dir) {
            Some(rel) => rel,
            None => file_path.to_string(),
        }
    };
    parts.push(filename);
    if modifiable {
        if modified {
            parts.push("+".to_string());
        }
    } else {
        parts.push("-".to_string());
    }
    if long {
        parts.push("(".to_string().concat(dir_shown).concat(")"));
    }
    if argc > 1 {
        let a = decimal_string(argidx);
        let c = decimal_string(argc);
        parts.push("(".to_string().concat(a.as_str()).concat(" of ").concat(c.as_str()).concat(")"));
    }
    if long {
        parts.push("- neovim-gtk".to_string());
    }
    assert(parts@.map_values(|p: String| p@) =~= title_parts(
        file_path@,
        dir@,
        dir_shown@,
        argidx,
        argc,
        modified,
        modifiable,
        long,
    ));
    join_with_spaces(&parts)
}

/// The strings of `parts` joined with single spaces.
fn join_with_spaces(parts: &Vec<String>) -> (r: String)
    ensures
        r@ == joined(parts@.map_values(|p: String| p@)),
{
    let ghost ps = parts@.map_values(|p: String| p@);
    let mut out = String::new();
    let mut i: usize = 0;
    while i < parts.len()
        invariant
            i <= parts@.len(),
            ps == parts@.map_values(|p: String| p@),
            out@ == joined(ps.subrange(0, i as int)),
        decreases parts@.len() - i,
    {
        assert(ps.subrange(0, i + 1).drop_last() =~= ps.subrange(0, i as int));
        if i > 0 {
            crate::text::string_push(&mut out, ' ');
        }
        out = out.concat(parts[i].as_str());
        proof {
            if i == 0 {
                assert(ps.subrange(0, 1) =~= seq![ps[0]]);
                assert(out@ =~= ps[0]);
            }
        }
        i = i + 1;
    }
    assert(ps.subrange(0, parts@.len() as int) =~= ps);
    out
}

/// Whether a window shows a title: an ordinary window on a normal or terminal buffer.
pub open spec fn titled_window(win_type: Seq<char>, buf_type: Seq<char>) -> bool {
    win_type.len() == 0 && (buf_type.len() == 0 || buf_type == "terminal"@)
}

/// Whether the window with type `win_type` and buffer type `buf_type` gets the title;
/// popups and special buffers never do.
pub fn wants_title(win_type: &str, buf_type: &str) -> (r: bool)
    ensures
        r == titled_window(win_type@, buf_type@),
{
    proof {
        reveal_strlit("terminal");
    }
    win_type.is_empty() && (buf_type.is_empty() || crate::text::str_eq(buf_type, "terminal"))
}

} // verus!
