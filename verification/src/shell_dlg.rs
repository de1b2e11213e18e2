//! Whether the window may close while buffers have unsaved changes, and the question asked
//! about them.

use vstd::prelude::*;

use crate::nvim::ext::CallError;
use crate::value::Value;

verus! {

/// Whether a buffer counts as modified from the answer to reading its `modified` option: only a
/// boolean answer says so.
pub open spec fn modified_of(answer: Result<Value, CallError>) -> bool {
    match answer {
        Ok(Value::Boolean(b)) => b,
        _ => false,
    }
}

/// A buffer's name from the answer to reading it, `<Error>` where the call failed.
pub open spec fn buffer_name_of(answer: Result<String, CallError>) -> Seq<char> {
    match answer {
        Ok(name) => name@,
        Err(_) => "<Error>"@,
    }
}

/// The names of the modified buffers among the first `n`, in order.
pub open spec fn changed_names(buffers: Seq<(Result<Value, CallError>, Result<String, CallError>)>, n: int) -> Seq<Seq<char>>
    decreases n,
{
    if n <= 0 {
        Seq::empty()
    } else if modified_of(buffers[n - 1].0) {
        changed_names(buffers, n - 1).push(buffer_name_of(buffers[n - 1].1))
    } else {
        changed_names(buffers, n - 1)
    }
}

/// The names of the buffers with unsaved changes, from the answers Neovim gave for each buffer
/// to reading its `modified` option and its name.
pub fn get_changed_buffers(buffers: &Vec<(Result<Value, CallError>, Result<String, CallError>)>) -> (r: Vec<String>)
    ensures
        r@.map_values(|s: String| s@) == changed_names(buffers@, buffers@.len() as int),
{
    proof {
        reveal_strlit("<Error>");
    }
    let mut names: Vec<String> = Vec::new();
    let mut i: usize = 0;
    while i < buffers.len()
        invariant
            i <= buffers@.len(),
            names@.map_values(|s: String| s@) == changed_names(buffers@, i as int),
        decreases buffers@.len() - i,
    {
        let modified = match &buffers[i].0 {
            Ok(Value::Boolean(b)) => *b,
            _ => false,
        };
        if modified {
            let name = match &buffers[i].1 {
                Ok(name) => name.clone(),
                Err(_) => "<Error>".to_string(),
            };
            assert(name@ == buffer_name_of(buffers@[i as int].1));
            names.push(name);
            assert(names@.map_values(|s: String| s@) =~= changed_names(buffers@, i as int).push(buffer_name_of(buffers@[i as int].1)));
        }
        i = i + 1;
    }
    names
}

/// A buffer's name as the question lists it, `<No name>` for a buffer without one.
pub open spec fn listed_name(name: Seq<char>) -> Seq<char> {
    if name.len() == 0 {
        "<No name>"@
    } else {
        name
    }
}

/// The first `n` names, one per line.
pub open spec fn name_lines(names: Seq<Seq<char>>, n: int) -> Seq<char>
    decreases n,
{
    if n <= 0 {
        Seq::empty()
    } else if n == 1 {
        listed_name(names[0])
    } else {
        name_lines(names, n - 1) + seq!['\n'] + listed_name(names[n - 1])
    }
}

/// The question asked before closing with unsaved buffers.
pub open spec fn not_saved_question(names: Seq<Seq<char>>) -> Seq<char> {
    "Save changes to '"@ + name_lines(names, names.len() as int) + "'?"@
}

/// The question asked before closing the window while the buffers `changed_bufs` have unsaved
/// changes.
pub fn not_saved_message(changed_bufs: &Vec<String>) -> (r: String)
    ensures
        r@ == not_saved_question(changed_bufs@.map_values(|s: String| s@)),
{
    proof {
        reveal_strlit("<No name>");
        reveal_strlit("Save changes to '");
        reveal_strlit("'?");
    }
    let ghost names = changed_bufs@.map_values(|s: String| s@);
    let mut lines = String::new();
    let mut i: usize = 0;
    while i < changed_bufs.len()
        invariant
            i <= changed_bufs@.len(),
            names == changed_bufs@.map_values(|s: String| s@),
            lines@ == name_lines(names, i as int),
        decreases changed_bufs@.len() - i,
    {
        if i > 0 {
            crate::text::string_push(&mut lines, '\n');
        }
        let name = changed_bufs[i].as_str();
        if name.is_empty() {
            lines = lines.concat("<No name>");
        } else {
            lines = lines.concat(name);
        }
        i = i + 1;
    }
    "Save changes to '".to_string().concat(lines.as_str()).concat("'?")
}

/// What closing the window does.
#[derive(Debug, Clone, Copy, PartialEq, Eq, Structural)]
pub enum CloseDecision {
    /// The window closes.
    Close,
    /// The window stays open.
    Keep,
    /// The window stays open while the user is asked whether to save the changed buffers.
    AskToSave,
}

/// Whether the window closes: it does once closing was confirmed, without a running Neovim,
/// with no unsaved buffer, or where the buffers could not be read; it stays while Neovim waits
/// at a blocking prompt; with unsaved buffers the user is asked first.
pub open spec fn close_decision_of(
    exit_confirmed: bool,
    nvim_running: bool,
    blocked: bool,
    changed: Option<Seq<Seq<char>>>,
) -> CloseDecision {
    if exit_confirmed || !nvim_running {
        CloseDecision::Close
    } else if blocked {
        CloseDecision::Keep
    } else {
        match changed {
            Some(names) => if names.len() > 0 {
                CloseDecision::AskToSave
            } else {
                CloseDecision::Close
            },
            None => CloseDecision::Close,
        }
    }
}

/// Decides whether the window may close, from whether closing was confirmed, whether Neovim
/// runs and waits at a blocking prompt, and the unsaved buffers (`None` where they could not be
/// read).
pub fn can_close_window(exit_confirmed: bool, nvim_running: bool, blocked: bool, changed: Option<&Vec<String>>) -> (r:
    CloseDecision)
    ensures
        r == close_decision_of(
            exit_confirmed,
            nvim_running,
            blocked,
            match changed {
                Some(v) => Some(v@.map_values(|s: String| s@)),
                None => None,
            },
        ),
{
    if exit_confirmed || !nvim_running {
        CloseDecision::Close
    } else if blocked {
        CloseDecision::Keep
    } else {
        match changed {
            Some(names) => if names.len() > 0 {
                CloseDecision::AskToSave
            } else {
                CloseDecision::Close
            },
            None => CloseDecision::Close,
        }
    }
}

/// The user's answer to the question about unsaved buffers.
#[derive(Debug, Clone, Copy, PartialEq, Eq, Structural)]
pub enum SaveAnswer {
    Yes,
    No,
    Cancel,
}

/// Whether the window closes after the user's answer: on `Yes` once all buffers were written
/// (`wrote_all` tells whether `:wa` succeeded), on `No` at once, on `Cancel` not at all.
pub fn closes_after_answer(answer: SaveAnswer, wrote_all: bool) -> (r: bool)
    ensures
        r == match answer {
            SaveAnswer::Yes => wrote_all,
            SaveAnswer::No => true,
            SaveAnswer::Cancel => false,
        },
{
    match answer {
        SaveAnswer::Yes => wrote_all,
        SaveAnswer::No => true,
        SaveAnswer::Cancel => false,
    }
}

} // verus!
