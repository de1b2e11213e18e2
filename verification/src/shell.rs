//! Decisions of the editor shell: resize and focus requests to Neovim, and dropped files.

use vstd::prelude::*;

use crate::misc::{decode_uri, decoded_uri, escape_filename, filename_escaped};
use crate::text::{contains_text, str_contains};

verus! {

/// The resize requests to Neovim: the size last committed, the size to commit next, and
/// whether a committer is running.
#[derive(Debug, Clone, Copy, PartialEq, Eq)]
pub struct ResizeRequests {
    /// The most recently submitted resize request, if any. This might not have been received by
    /// Neovim yet.
    pub current: Option<(i64, i64)>,
    /// The next resize request to submit to Neovim, if any.
    pub requested: Option<(i64, i64)>,
    /// Whether a committer is running.
    pub active: bool,
}

/// What asking for size `size` leaves and whether a committer must be started: nothing
/// happens before the UI is attached or when `size` is already asked for; asking for the
/// committed size cancels what was asked for; otherwise `size` is asked for, and a committer
/// is started unless one is running.
pub open spec fn resize_requested(s: ResizeRequests, size: (i64, i64)) -> (ResizeRequests, bool) {
    if s.current is None || s.requested == Some(size) {
        (s, false)
    } else if s.current == Some(size) {
        (ResizeRequests { requested: None, ..s }, false)
    } else if s.active {
        (ResizeRequests { requested: Some(size), ..s }, false)
    } else {
        (ResizeRequests { requested: Some(size), active: true, ..s }, true)
    }
}

/// What a committer's step leaves and the size it commits: the size asked for becomes the
/// committed one; with nothing asked for, the committer stops.
pub open spec fn resize_committed(s: ResizeRequests) -> (ResizeRequests, Option<(i64, i64)>) {
    match s.requested {
        Some(size) => (ResizeRequests { current: Some(size), requested: None, ..s }, Some(size)),
        None => (ResizeRequests { active: false, ..s }, None),
    }
}

impl ResizeRequests {
    pub fn new() -> (r: Self)
        ensures
            r == (ResizeRequests { current: None, requested: None, active: false }),
    {
        ResizeRequests { current: None, requested: None, active: false }
    }

    /// Asks for size `size`; tells whether a committer must be started.
    pub fn request(&mut self, size: (i64, i64)) -> (spawn: bool)
        ensures
            (*final(self), spawn) == resize_requested(*old(self), size),
    {
        if self.current.is_none() {
            return false;
        }
        if self.requested == Some(size) {
            return false;
        } else if self.current == Some(size) {
            self.requested = None;
            return false;
        }
        self.requested = Some(size);
        if self.active {
            return false;
        }
        self.active = true;
        true
    }

    /// One step of the committer: the size to commit now, or `None` when it is done.
    pub fn next_commit(&mut self) -> (r: Option<(i64, i64)>)
        ensures
            (*final(self), r) == resize_committed(*old(self)),
    {
        let req = self.requested;
        self.requested = None;
        match req {
            Some(size) => {
                self.current = Some(size);
                Some(size)
            },
            None => {
                self.active = false;
                None
            },
        }
    }
}

/// At most one committer runs: one is started only when none was running, and it is marked
/// running; and once the UI is attached, the size asked for last is what is pending, unless it
/// is the committed size.
pub proof fn law_one_committer_and_last_request_pending(s: ResizeRequests, size: (i64, i64))
    ensures
        resize_requested(s, size).1 ==> !s.active && resize_requested(s, size).0.active,
        s.active ==> resize_requested(s, size).0.active,
        s.current is Some ==> (resize_requested(s, size).0.requested == Some(size) || (s.current == Some(size)
            && resize_requested(s, size).0.requested is None)),
{
}

/// The committer commits the size asked for last and stops only when nothing is left to
/// commit; what it commits becomes the committed size.
pub proof fn law_committer_commits_last_request(s: ResizeRequests, size: (i64, i64))
    requires
        s.current is Some,
        s.current != Some(size),
    ensures
        resize_committed(resize_requested(s, size).0).1 == Some(size),
        resize_committed(resize_requested(s, size).0).0.current == Some(size),
        resize_committed(resize_committed(resize_requested(s, size).0).0).1 is None,
{
}

/// The focus state to report to Neovim: the last one sent, the next one to send, and whether
/// a sender is running.
#[derive(Debug, Clone, Copy, PartialEq, Eq)]
pub struct FocusState {
    /// The last focus state sent to Neovim, which may or may not have been received yet.
    pub last: bool,
    /// The next focus state to send, equal to `last` when there is nothing new.
    pub next: bool,
    /// Whether a sender is running.
    pub is_pending: bool,
}

/// What a focus change to `state` leaves and whether a sender must be started: nothing for
/// the state already to be sent; otherwise `state` is to be sent, by a new sender only where
/// none runs and Neovim is there.
pub open spec fn focus_changed(s: FocusState, state: bool, nvim_available: bool) -> (FocusState, bool) {
    if s.next == state {
        (s, false)
    } else if s.is_pending || !nvim_available {
        (FocusState { next: state, ..s }, false)
    } else {
        (FocusState { next: state, is_pending: true, ..s }, true)
    }
}

/// What a sender's step leaves and the state it sends: the next state when it differs from
/// the last one sent; otherwise the sender stops.
pub open spec fn focus_sent(s: FocusState) -> (FocusState, Option<bool>) {
    if s.next == s.last {
        (FocusState { is_pending: false, ..s }, None)
    } else {
        (FocusState { last: s.next, ..s }, Some(s.next))
    }
}

impl FocusState {
    pub fn new() -> (r: Self)
        ensures
            r == (FocusState { last: true, next: true, is_pending: false }),
    {
        FocusState { last: true, next: true, is_pending: false }
    }

    /// Notes a focus change to `state`; tells whether a sender must be started.
    pub fn update(&mut self, state: bool, nvim_available: bool) -> (spawn: bool)
        ensures
            (*final(self), spawn) == focus_changed(*old(self), state, nvim_available),
    {
        if self.next == state {
            return false;
        }
        self.next = state;
        if self.is_pending {
            false
        } else if nvim_available {
            self.is_pending = true;
            true
        } else {
            false
        }
    }

    /// One step of the sender: the focus state to send now, or `None` when it is done.
    pub fn next_event(&mut self) -> (r: Option<bool>)
        ensures
            (*final(self), r) == focus_sent(*old(self)),
    {
        if self.next == self.last {
            self.is_pending = false;
            return None;
        }
        self.last = self.next;
        Some(self.next)
    }
}

/// The sender sends only changes, and when it stops Neovim has been sent the latest state.
pub proof fn law_sender_ends_on_latest_state(s: FocusState)
    ensures
        focus_sent(s).1 matches Some(x) ==> x != s.last && x == s.next && focus_sent(s).0.last == s.next,
        focus_sent(focus_sent(s).0).1 is None,
        focus_sent(focus_sent(s).0).0.last == s.next,
        !focus_sent(focus_sent(s).0).0.is_pending,
{
}

/// The command that fires the focus autocommand, where one is defined.
pub fn focus_autocmd(gained: bool) -> (r: String)
    ensures
        r@ == if gained {
            "if exists('#FocusGained')|doau FocusGained|endif"@
        } else {
            "if exists('#FocusLost')|doau FocusLost|endif"@
        },
{
    if gained {
        "if exists('#FocusGained')|doau FocusGained|endif".to_owned()
    } else {
        "if exists('#FocusLost')|doau FocusLost|endif".to_owned()
    }
}

/// The `:argadd` command for the URIs dropped on the window: each local file, decoded and
/// escaped, after `ar`; URIs that do not decode are left out.
pub open spec fn drop_command_of(uris: Seq<Seq<char>>) -> Seq<char>
    decreases uris.len(),
{
    if uris.len() == 0 {
        "ar"@
    } else {
        match decoded_uri(uris.last()) {
            Some(name) => drop_command_of(uris.drop_last()) + seq![' '] + filename_escaped(name),
            None => drop_command_of(uris.drop_last()),
        }
    }
}

/// Builds the command that adds the dropped files to the argument list.
pub fn drop_command(uris: &[String]) -> (r: String)
    requires
        forall|i: int| 0 <= i < uris@.len() ==> vstd::utf8::is_char_boundary(vstd::utf8::encode_utf8((#[trigger] uris@[i])@), 8),
    ensures
        r@ == drop_command_of(uris@.map_values(|u: String| u@)),
{
    let ghost us = uris@.map_values(|u: String| u@);
    let mut command = "ar".to_owned();
    let mut i: usize = 0;
    while i < uris.len()
        invariant
            i <= uris@.len(),
            us == uris@.map_values(|u: String| u@),
            forall|i: int| 0 <= i < uris@.len() ==> vstd::utf8::is_char_boundary(vstd::utf8::encode_utf8((#[trigger] uris@[i])@), 8),
            command@ == drop_command_of(us.subrange(0, i as int)),
        decreases uris@.len() - i,
    {
        assert(us.subrange(0, i + 1).drop_last() == us.subrange(0, i as int));
        assert(us.subrange(0, i + 1).last() == uris@[i as int]@);
        let uri = uris[i].as_str();
        assert(uri@ == uris@[i as int]@);
        if let Some(filename) = decode_uri(uri) {
            let mut c = command;
            crate::text::string_push(&mut c, ' ');
            command = c.concat(escape_filename(filename.as_str()).as_str());
        }
        i = i + 1;
    }
    assert(us.subrange(0, us.len() as int) == us);
    command
}


/// Whether the completion menu shows a preview, from the `completeopt` option: where it holds
/// `preview`.
pub fn set_completeopts(options: &str) -> (r: bool)
    ensures
        r == contains_text(options@, "preview"@),
{
    str_contains(options, "preview")
}

/// What pasting from the register of `clipboard` sends: in Insert or Normal mode the command
/// `normal! "{clipboard}P` (`true`), else the input `<C-r>{clipboard}` (`false`).
pub fn edit_paste(insert_or_normal: bool, clipboard: &str) -> (r: (bool, String))
    ensures
        r.0 == insert_or_normal,
        insert_or_normal ==> r.1@ == "normal! \""@ + clipboard@ + "P"@,
        !insert_or_normal ==> r.1@ == "<C-r>"@ + clipboard@,
{
    if insert_or_normal {
        (true, "normal! \"".to_string().concat(clipboard).concat("P"))
    } else {
        (false, "<C-r>".to_string().concat(clipboard))
    }
}

/// The command that copies into the register of `clipboard`.
pub fn edit_copy(clipboard: &str) -> (r: String)
    ensures
        r@ == "normal! \""@ + clipboard@ + "y"@,
{
    "normal! \"".to_string().concat(clipboard).concat("y")
}

} // verus!
