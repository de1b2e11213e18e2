//! Errors from Neovim requests that are part of its regular operation.

use vstd::prelude::*;

use crate::text::{str_chars, string_from_chars};

verus! {

/// The part of an RPC call error that tells what Neovim answered.
#[derive(Debug, PartialEq)]
pub enum CallError {
    /// Neovim answered with an error code and message.
    NeovimError(Option<i64>, String),
    /// The call failed for another reason.
    Other,
}

/// An error from a Neovim request that is part of Neovim's regular operation, possibly with a
/// message meant for the messages buffer.
#[derive(PartialEq, Eq, Debug)]
pub enum NormalError {
    /// A Neovim request was interrupted by the user
    KeyboardInterrupt,
    /// A Neovim error with a message for the messages buffer
    Message { source: String, message: String, code: u32 },
}

/// What a normal error holds, its strings as characters.
pub enum NormalErrorView {
    KeyboardInterrupt,
    Message { source: Seq<char>, message: Seq<char>, code: u32 },
}

impl View for NormalError {
    type V = NormalErrorView;

    open spec fn view(&self) -> NormalErrorView {
        match self {
            NormalError::KeyboardInterrupt => NormalErrorView::KeyboardInterrupt,
            NormalError::Message { source, message, code } => NormalErrorView::Message {
                source: source@,
                message: message@,
                code: *code,
            },
        }
    }
}

/// The value of a decimal digit.
pub open spec fn digit_value(c: char) -> int {
    c as int - '0' as int
}

pub open spec fn is_digit(c: char) -> bool {
    '0' <= c && c <= '9'
}

/// The number the decimal digits `s` write.
pub open spec fn decimal_value(s: Seq<char>) -> int
    decreases s.len(),
{
    if s.len() == 0 {
        0
    } else {
        decimal_value(s.drop_last()) * 10 + digit_value(s.last())
    }
}

/// `s` without one leading `+`.
pub open spec fn unsigned_digits(s: Seq<char>) -> Seq<char> {
    if s.len() > 0 && s[0] == '+' {
        s.drop_first()
    } else {
        s
    }
}

pub open spec fn all_digits(t: Seq<char>) -> bool {
    forall|i: int| 0 <= i < t.len() ==> is_digit(#[trigger] t[i])
}

/// What reading `s` as a `u32` gives, as `str::parse::<u32>` reads it: an optional `+` then
/// one or more decimal digits, whose value must fit.
pub open spec fn parsed_u32(s: Seq<char>) -> Option<u32> {
    let t = unsigned_digits(s);
    if t.len() > 0 && all_digits(t) && decimal_value(t) <= u32::MAX {
        Some(decimal_value(t) as u32)
    } else {
        None
    }
}

proof fn lemma_decimal_prefix(s: Seq<char>, k: int)
    requires
        0 <= k <= s.len(),
        forall|i: int| 0 <= i < s.len() ==> is_digit(#[trigger] s[i]),
    ensures
        0 <= decimal_value(s.subrange(0, k)) <= decimal_value(s),
    decreases s.len() - k,
{
    if k < s.len() {
        assert(s.subrange(0, k + 1).drop_last() == s.subrange(0, k));
        assert(is_digit(s[k]));
        lemma_decimal_prefix(s, k + 1);
    } else {
        assert(s.subrange(0, k) == s);
        lemma_decimal_nonneg(s);
    }
}

proof fn lemma_decimal_nonneg(s: Seq<char>)
    requires
        forall|i: int| 0 <= i < s.len() ==> is_digit(#[trigger] s[i]),
    ensures
        decimal_value(s) >= 0,
    decreases s.len(),
{
    if s.len() > 0 {
        assert(is_digit(s[s.len() - 1]));
        lemma_decimal_nonneg(s.drop_last());
    }
}

/// Reads `s[from..to]` as a `u32` the way `str::parse::<u32>` does.
pub fn parse_u32(s: &[char], from: usize, to: usize) -> (r: Option<u32>)
    requires
        from <= to <= s@.len(),
    ensures
        r == parsed_u32(s@.subrange(from as int, to as int)),
{
    let ghost whole = s@.subrange(from as int, to as int);
    let mut i = from;
    if i < to && s[i] == '+' {
        i = i + 1;
    }
    let ghost t = s@.subrange(i as int, to as int);
    assert(t == unsigned_digits(whole));
    if i == to {
        return None;
    }
    let start = i;
    let mut val: u64 = 0;
    while i < to
        invariant
            start <= i <= to <= s@.len(),
            start < to,
            t == s@.subrange(start as int, to as int),
            whole == s@.subrange(from as int, to as int),
            t == unsigned_digits(whole),
            forall|j: int| start <= j < i ==> is_digit(#[trigger] s@[j]),
            val == decimal_value(s@.subrange(start as int, i as int)),
            val <= u32::MAX,
        decreases to - i,
    {
        let c = s[i];
        if !('0' <= c && c <= '9') {
            assert(t[i - start] == c);
            assert(!is_digit(t[i - start]));
            assert(!all_digits(t));
            return None;
        }
        let d = (c as u32 - '0' as u32) as u64;
        assert(s@.subrange(start as int, i + 1).drop_last() == s@.subrange(start as int, i as int));
        val = val * 10 + d;
        assert(s@.subrange(start as int, i + 1).last() == c);
        assert(val == decimal_value(s@.subrange(start as int, i + 1)));
        if val > 0xffff_ffff {
            proof {
                if all_digits(t) {
                    lemma_decimal_prefix(t, i + 1 - start);
                    assert(t.subrange(0, i + 1 - start) == s@.subrange(start as int, i + 1));
                }
            }
            return None;
        }
        i = i + 1;
    }
    assert(s@.subrange(start as int, to as int) == t);
    Some(val as u32)
}

/// The first index of `c` in `s`.
pub open spec fn first_index_of(s: Seq<char>, c: char) -> Option<int>
    decreases s.len(),
{
    if s.len() == 0 {
        None
    } else if s[0] == c {
        Some(0)
    } else {
        match first_index_of(s.drop_first(), c) {
            Some(i) => Some(i + 1),
            None => None,
        }
    }
}

/// The first index where `a` is directly followed by `b` in `s`.
pub open spec fn first_pair_index(s: Seq<char>, a: char, b: char) -> Option<int>
    decreases s.len(),
{
    if s.len() < 2 {
        None
    } else if s[0] == a && s[1] == b {
        Some(0)
    } else {
        match first_pair_index(s.drop_first(), a, b) {
            Some(i) => Some(i + 1),
            None => None,
        }
    }
}

/// The normal error an RPC error with `code` and `msg` is: `Keyboard interrupt`, or
/// `Vim(<source>):E<code>:...` with the message after `):`; nothing else is one.
pub open spec fn normal_error_of(code: Option<i64>, msg: Seq<char>) -> Option<NormalErrorView> {
    if code != Some(0i64) {
        None
    } else if msg == "Keyboard interrupt"@ {
        Some(NormalErrorView::KeyboardInterrupt)
    } else if msg.len() >= 4 && msg.subrange(0, 4) == "Vim("@ {
        let rest = msg.subrange(4, msg.len() as int);
        match first_pair_index(rest, ')', ':') {
            None => None,
            Some(p) => {
                let source = rest.subrange(0, p);
                let message = rest.subrange(p + 2, rest.len() as int);
                if message.len() > 0 && message[0] == 'E' {
                    let m = message.drop_first();
                    match first_index_of(m, ':') {
                        None => None,
                        Some(q) => match parsed_u32(m.subrange(0, q)) {
                            Some(n) => Some(NormalErrorView::Message { source, message, code: n }),
                            None => None,
                        },
                    }
                } else {
                    None
                }
            },
        }
    } else {
        None
    }
}

/// The first index of `c` in `s[from..]`, counted from `from`.
fn find_char(s: &[char], from: usize, c: char) -> (r: Option<usize>)
    requires
        from <= s@.len(),
    ensures
        r matches Some(i) ==> from <= i < s@.len(),
        r.is_some() == first_index_of(s@.subrange(from as int, s@.len() as int), c).is_some(),
        r matches Some(i) ==> first_index_of(s@.subrange(from as int, s@.len() as int), c) == Some(i - from),
    decreases s@.len() - from,
{
    let ghost t = s@.subrange(from as int, s@.len() as int);
    if from == s.len() {
        return None;
    }
    assert(t.drop_first() == s@.subrange(from + 1, s@.len() as int));
    if s[from] == c {
        Some(from)
    } else {
        find_char(s, from + 1, c)
    }
}

/// The first index of the pair `a b` in `s[from..]`, counted from `from`.
fn find_pair(s: &[char], from: usize, a: char, b: char) -> (r: Option<usize>)
    requires
        from <= s@.len(),
    ensures
        r matches Some(i) ==> from <= i && i + 2 <= s@.len(),
        r.is_some() == first_pair_index(s@.subrange(from as int, s@.len() as int), a, b).is_some(),
        r matches Some(i) ==> first_pair_index(s@.subrange(from as int, s@.len() as int), a, b) == Some(i - from),
    decreases s@.len() - from,
{
    let ghost t = s@.subrange(from as int, s@.len() as int);
    if s.len() - from < 2 {
        return None;
    }
    assert(t.drop_first() == s@.subrange(from + 1, s@.len() as int));
    if s[from] == a && s[from + 1] == b {
        Some(from)
    } else {
        find_pair(s, from + 1, a, b)
    }
}

impl NormalError {
    /// Check if this error has the given code
    pub fn has_code(&self, code: u32) -> (r: bool)
        ensures
            r == (self@ matches NormalErrorView::Message { code: c, .. } && c == code),
    {
        match self {
            NormalError::Message { code: our_code, .. } => *our_code == code,
            _ => false,
        }
    }

    /// The normal error that the call error `err` is, if it is one.
    pub fn try_from(err: &CallError) -> (r: Result<NormalError, ()>)
        ensures
            match err {
                CallError::NeovimError(code, msg) => match normal_error_of(*code, msg@) {
                    Some(v) => r matches Ok(e) && e@ == v,
                    None => r is Err,
                },
                CallError::Other => r is Err,
            },
    {
        match err {
            CallError::NeovimError(code, message) => Self::from_message(*code, message.as_str()),
            CallError::Other => Err(()),
        }
    }

    fn from_message(code: Option<i64>, message: &str) -> (r: Result<NormalError, ()>)
        ensures
            match normal_error_of(code, message@) {
                Some(v) => r matches Ok(e) && e@ == v,
                None => r is Err,
            },
    {
        match code {
            Some(0) => {},
            _ => {
                return Err(());
            },
        }
        if crate::text::str_eq(message, "Keyboard interrupt") {
            return Ok(NormalError::KeyboardInterrupt);
        }
        let chars = str_chars(message);
        if chars.len() < 4 || chars[0] != 'V' || chars[1] != 'i' || chars[2] != 'm' || chars[3] != '(' {
            proof {
                reveal_strlit("Vim(");
                if chars@.len() >= 4 && chars@.subrange(0, 4) == "Vim("@ {
                    assert(chars@.subrange(0, 4)[0] == 'V');
                    assert(chars@.subrange(0, 4)[1] == 'i');
                    assert(chars@.subrange(0, 4)[2] == 'm');
                    assert(chars@.subrange(0, 4)[3] == '(');
                }
            }
            return Err(());
        }
        proof {
            reveal_strlit("Vim(");
            assert(chars@.subrange(0, 4) =~= "Vim("@);
        }
        let ghost rest = chars@.subrange(4, chars@.len() as int);
        let p = match find_pair(chars.as_slice(), 4, ')', ':') {
            Some(p) => p,
            None => {
                return Err(());
            },
        };
        let ghost pr = p - 4;
        let ghost message_s = rest.subrange(pr + 2, rest.len() as int);
        assert(message_s == chars@.subrange(p + 2, chars@.len() as int));
        if p + 2 >= chars.len() || chars[p + 2] != 'E' {
            return Err(());
        }
        let ghost m = message_s.drop_first();
        assert(m == chars@.subrange(p + 3, chars@.len() as int));
        let q = match find_char(chars.as_slice(), p + 3, ':') {
            Some(q) => q,
            None => {
                return Err(());
            },
        };
        assert(m.subrange(0, q - (p + 3)) == chars@.subrange(p + 3, q as int));
        let n = match parse_u32(chars.as_slice(), p + 3, q) {
            Some(n) => n,
            None => {
                return Err(());
            },
        };
        let source = string_from_chars(chars.as_slice(), 4, p);
        let msg = string_from_chars(chars.as_slice(), p + 2, chars.len());
        assert(source@ == rest.subrange(0, pr));
        Ok(NormalError::Message { source, message: msg, code: n })
    }
}

} // verus!
