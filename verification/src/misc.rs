//! Text helpers: comma splitting and VimL escaping.

use vstd::prelude::*;

use crate::text::{is_ascii_alnum, is_ascii_char, str_chars, string_push};

verus! {

/// Replaces, from left to right and without overlap, every backslash-comma pair by a comma.
pub open spec fn unescape_commas(s: Seq<char>) -> Seq<char>
    decreases s.len(),
{
    if s.len() == 0 {
        Seq::empty()
    } else if s.len() >= 2 && s[0] == '\\' && s[1] == ',' {
        seq![','] + unescape_commas(s.subrange(2, s.len() as int))
    } else {
        seq![s[0]] + unescape_commas(s.subrange(1, s.len() as int))
    }
}

/// Whether the character at `i` is a separating comma: a comma not preceded by a backslash.
pub open spec fn is_separator(s: Seq<char>, i: int) -> bool {
    s[i] == ',' && !(i > 0 && s[i - 1] == '\\')
}

/// Scans `s` and returns the finished pieces and the piece still open at the end.
/// Finished pieces are already unescaped; the open piece is raw.
pub open spec fn comma_scan(s: Seq<char>) -> (Seq<Seq<char>>, Seq<char>)
    decreases s.len(),
{
    if s.len() == 0 {
        (Seq::empty(), Seq::empty())
    } else {
        let (items, item) = comma_scan(s.drop_last());
        if is_separator(s, s.len() - 1) {
            (items.push(unescape_commas(item)), Seq::empty())
        } else {
            (items, item.push(s.last()))
        }
    }
}

/// The pieces of `s` split at its separating commas, each unescaped; an empty last piece is
/// dropped.
pub open spec fn comma_split(s: Seq<char>) -> Seq<Seq<char>> {
    let (items, item) = comma_scan(s);
    if item.len() > 0 {
        items.push(unescape_commas(item))
    } else {
        items
    }
}

/// `s` with every comma escaped as a backslash-comma pair.
pub open spec fn escape_commas(s: Seq<char>) -> Seq<char>
    decreases s.len(),
{
    if s.len() == 0 {
        Seq::empty()
    } else if s[0] == ',' {
        seq!['\\', ','] + escape_commas(s.drop_first())
    } else {
        seq![s[0]] + escape_commas(s.drop_first())
    }
}

/// `items` with their commas escaped, joined with commas.
pub open spec fn join_escaped(items: Seq<Seq<char>>) -> Seq<char>
    decreases items.len(),
{
    if items.len() <= 1 {
        if items.len() == 1 {
            escape_commas(items[0])
        } else {
            Seq::empty()
        }
    } else {
        join_escaped(items.drop_last()) + seq![','] + escape_commas(items.last())
    }
}

/// Every comma of `x` follows a backslash within `x`.
pub open spec fn commas_escaped(x: Seq<char>) -> bool {
    forall|j: int| 0 <= j < x.len() && #[trigger] x[j] == ',' ==> j > 0 && x[j - 1] == '\\'
}

proof fn lemma_escape_commas_shape(s: Seq<char>)
    requires
        !s.contains('\\'),
    ensures
        commas_escaped(escape_commas(s)),
        escape_commas(s).len() > 0 ==> escape_commas(s).last() != '\\',
        escape_commas(s).len() == 0 <==> s.len() == 0,
        unescape_commas(escape_commas(s)) == s,
    decreases s.len(),
{
    if s.len() > 0 {
        let rest = s.drop_first();
        assert(!rest.contains('\\')) by {
            if rest.contains('\\') {
                let k = choose|k: int| 0 <= k < rest.len() && rest[k] == '\\';
                assert(s[k + 1] == '\\');
            }
        }
        lemma_escape_commas_shape(rest);
        let e = escape_commas(s);
        let er = escape_commas(rest);
        let head: Seq<char> = if s[0] == ',' { seq!['\\', ','] } else { seq![s[0]] };
        assert(e == head + er);
        assert(s[0] != '\\') by {
            assert(s.contains(s[0]) ==> s[0] != '\\');
            assert(s[0] == s[0]);
        }
        assert forall|j: int| 0 <= j < e.len() && #[trigger] e[j] == ',' implies j > 0 && e[j - 1] == '\\' by {
            if j >= head.len() {
                assert(er[j - head.len()] == ',');
                if j - head.len() == 0 {
                    assert(false);
                }
            }
        }
        if s[0] == ',' {
            assert(e.subrange(2, e.len() as int) =~= er);
        } else {
            assert(e.subrange(1, e.len() as int) =~= er);
        }
        assert(seq![s[0]] + rest =~= s);
    }
}

proof fn lemma_scan_escaped_tail(s: Seq<char>, x: Seq<char>)
    requires
        commas_escaped(x),
    ensures
        comma_scan(s + x) == (comma_scan(s).0, comma_scan(s).1 + x),
    decreases x.len(),
{
    if x.len() == 0 {
        assert(s + x =~= s);
        assert(comma_scan(s).1 + x =~= comma_scan(s).1);
    } else {
        let xd = x.drop_last();
        assert(commas_escaped(xd)) by {
            assert forall|j: int| 0 <= j < xd.len() && #[trigger] xd[j] == ',' implies j > 0 && xd[j - 1] == '\\' by {
                assert(x[j] == ',');
            }
        }
        lemma_scan_escaped_tail(s, xd);
        let t = s + x;
        assert(t.drop_last() =~= s + xd);
        let last = t.len() - 1;
        assert(t[last] == x.last());
        assert(!is_separator(t, last)) by {
            if x.last() == ',' {
                assert(x[x.len() - 1] == ',');
                assert(x.len() - 1 > 0 && x[x.len() - 2] == '\\');
                assert(t[last - 1] == x[x.len() - 2]);
            }
        }
        assert(comma_scan(s).1 + xd + seq![x.last()] =~= comma_scan(s).1 + x);
    }
}

/// Splitting undoes joining: items without backslashes, their commas escaped and joined with
/// commas, split back into the same items, where the last is not empty (an empty last piece is
/// dropped).
pub proof fn law_split_undoes_escaped_join(items: Seq<Seq<char>>)
    requires
        items.len() > 0,
        items.last().len() > 0,
        forall|k: int| 0 <= k < items.len() ==> !(#[trigger] items[k]).contains('\\'),
    ensures
        comma_split(join_escaped(items)) == items,
{
    lemma_scan_join(items);
    lemma_escape_commas_shape(items.last());
    assert(items.drop_last().push(items.last()) =~= items);
}

proof fn lemma_scan_join(items: Seq<Seq<char>>)
    requires
        items.len() > 0,
        forall|k: int| 0 <= k < items.len() ==> !(#[trigger] items[k]).contains('\\'),
    ensures
        comma_scan(join_escaped(items)) == (items.drop_last(), escape_commas(items.last())),
        join_escaped(items).len() > 0 ==> join_escaped(items).last() != '\\',
    decreases items.len(),
{
    let n = items.len() as int;
    lemma_escape_commas_shape(items.last());
    if n == 1 {
        lemma_scan_escaped_tail(Seq::empty(), escape_commas(items[0]));
        assert(Seq::<char>::empty() + escape_commas(items[0]) =~= escape_commas(items[0]));
        assert(comma_scan(Seq::<char>::empty()).1 + escape_commas(items[0]) =~= escape_commas(items[0]));
        assert(items.drop_last() =~= Seq::<Seq<char>>::empty());
    } else {
        let front = items.drop_last();
        assert forall|k: int| 0 <= k < front.len() implies !(#[trigger] front[k]).contains('\\') by {
            assert(front[k] == items[k]);
        }
        lemma_scan_join(front);
        lemma_escape_commas_shape(front.last());
        let s = join_escaped(front);
        let sc = s + seq![','];
        assert(sc.drop_last() =~= s);
        assert(is_separator(sc, sc.len() - 1));
        assert(comma_scan(sc) == (front.drop_last().push(unescape_commas(escape_commas(front.last()))), Seq::<char>::empty()));
        assert(front.drop_last().push(front.last()) =~= front);
        lemma_scan_escaped_tail(sc, escape_commas(items.last()));
        assert(Seq::<char>::empty() + escape_commas(items.last()) =~= escape_commas(items.last()));
        assert(join_escaped(items) == sc + escape_commas(items.last()));
        let j = join_escaped(items);
        if escape_commas(items.last()).len() == 0 {
            assert(j =~= sc);
        } else {
            assert(j.last() == escape_commas(items.last()).last());
        }
    }
}

/// Split comma separated parameters at `,` except where escaped as `\,`.
pub fn split_at_comma(source: &str) -> (r: Vec<String>)
    ensures
        r@.len() == comma_split(source@).len(),
        forall|i: int| 0 <= i < r@.len() ==> #[trigger] r@[i]@ == comma_split(source@)[i],
{
    let chars = str_chars(source);
    let mut items: Vec<String> = Vec::new();
    let mut item: Vec<char> = Vec::new();
    let mut escaped = false;
    let mut i: usize = 0;
    while i < chars.len()
        invariant
            i <= chars.len(),
            chars@ == source@,
            items@.len() == comma_scan(chars@.subrange(0, i as int)).0.len(),
            forall|j: int| 0 <= j < items@.len() ==> #[trigger] items@[j]@ == comma_scan(chars@.subrange(0, i as int)).0[j],
            item@ == comma_scan(chars@.subrange(0, i as int)).1,
            escaped == (i > 0 && chars@[i - 1] == '\\'),
        decreases chars.len() - i,
    {
        let ch = chars[i];
        let ghost pre = chars@.subrange(0, i as int);
        let ghost cur = chars@.subrange(0, i + 1);
        assert(cur.drop_last() == pre);
        if ch == ',' && !escaped {
            let piece = unescape(&item);
            items.push(piece);
            item = Vec::new();
        } else {
            item.push(ch);
        }
        escaped = ch == '\\';
        i = i + 1;
    }
    assert(chars@.subrange(0, chars.len() as int) == chars@);
    if item.len() > 0 {
        let piece = unescape(&item);
        items.push(piece);
    }
    items
}

/// Applies `unescape_commas` to a character vector.
fn unescape(item: &Vec<char>) -> (r: String)
    ensures
        r@ == unescape_commas(item@),
{
    let mut r = String::new();
    let mut i: usize = 0;
    assert(item@.subrange(0, item@.len() as int) == item@);
    assert(r@ + unescape_commas(item@) == unescape_commas(item@));
    while i < item.len()
        invariant
            i <= item.len(),
            r@ + unescape_commas(item@.subrange(i as int, item@.len() as int)) == unescape_commas(item@),
        decreases item.len() - i,
    {
        let ghost rest = item@.subrange(i as int, item@.len() as int);
        if i + 1 < item.len() && item[i] == '\\' && item[i + 1] == ',' {
            assert(rest.subrange(2, rest.len() as int) == item@.subrange(i + 2, item@.len() as int));
            assert(r@.push(',') + unescape_commas(item@.subrange(i + 2, item@.len() as int))
                == r@ + (seq![','] + unescape_commas(item@.subrange(i + 2, item@.len() as int))));
            string_push(&mut r, ',');
            i = i + 2;
        } else {
            assert(rest.subrange(1, rest.len() as int) == item@.subrange(i + 1, item@.len() as int));
            assert(r@.push(item@[i as int]) + unescape_commas(item@.subrange(i + 1, item@.len() as int))
                == r@ + (seq![item@[i as int]] + unescape_commas(item@.subrange(i + 1, item@.len() as int))));
            string_push(&mut r, item[i]);
            i = i + 1;
        }
    }
    assert(item@.subrange(item@.len() as int, item@.len() as int) == Seq::<char>::empty());
    assert(unescape_commas(Seq::<char>::empty()) == Seq::<char>::empty());
    assert(r@ + Seq::<char>::empty() == r@);
    r
}

} // verus!

verus! {

/// The VimL-escaped form of one character.
pub open spec fn viml_escape_char(c: char) -> Seq<char> {
    if c == '\\' {
        seq!['\\', '\\']
    } else if c == '"' {
        seq!['\\', '"']
    } else {
        seq![c]
    }
}

/// `s` with every backslash doubled and every double quote preceded by a backslash.
pub open spec fn viml_escaped(s: Seq<char>) -> Seq<char>
    decreases s.len(),
{
    if s.len() == 0 {
        Seq::empty()
    } else {
        viml_escaped(s.drop_last()) + viml_escape_char(s.last())
    }
}

/// Escape a VimL expression so that it may be included in double quotes.
pub fn viml_escape(viml: &str) -> (r: String)
    ensures
        r@ == viml_escaped(viml@),
{
    let chars = str_chars(viml);
    let mut r = String::new();
    let mut i: usize = 0;
    while i < chars.len()
        invariant
            i <= chars.len(),
            r@ == viml_escaped(chars@.subrange(0, i as int)),
        decreases chars.len() - i,
    {
        let c = chars[i];
        assert(chars@.subrange(0, i + 1).drop_last() == chars@.subrange(0, i as int));
        if c == '\\' {
            string_push(&mut r, '\\');
            string_push(&mut r, '\\');
        } else if c == '"' {
            string_push(&mut r, '\\');
            string_push(&mut r, '"');
        } else {
            string_push(&mut r, c);
        }
        assert(r@ == viml_escaped(chars@.subrange(0, i as int)) + viml_escape_char(c));
        i = i + 1;
    }
    assert(chars@.subrange(0, chars.len() as int) == chars@);
    r
}

/// Characters that a file name keeps unescaped: ASCII letters and digits and `._/-`, plus
/// every non-ASCII character.
pub open spec fn is_plain_filename_char(c: char) -> bool {
    !is_ascii_char(c) || is_ascii_alnum(c) || c == '.' || c == '_' || c == '/' || c == '-'
}

/// `s` with a backslash put before every character that is not plain.
pub open spec fn filename_escaped(s: Seq<char>) -> Seq<char>
    decreases s.len(),
{
    if s.len() == 0 {
        Seq::empty()
    } else if is_plain_filename_char(s.last()) {
        filename_escaped(s.drop_last()).push(s.last())
    } else {
        filename_escaped(s.drop_last()).push('\\').push(s.last())
    }
}

/// Escape special ASCII characters with a backslash.
pub fn escape_filename(filename: &str) -> (r: String)
    ensures
        r@ == filename_escaped(filename@),
{
    backslash_matches(SPECIAL_CHARS, filename, ESCAPED_MATCH)
}

/// The characters a file name has escaped, as a regular expression: ASCII characters other
/// than letters, digits, `.`, `_`, `/` and `-`.
pub const SPECIAL_CHARS: &'static str = "[[:ascii:]&&[^0-9a-zA-Z._/-]]";

/// The replacement that puts a backslash before a whole match.
pub const ESCAPED_MATCH: &'static str = "\\$0";

/// `text` with every match of `pattern` replaced by `replacement` (regex's `Regex::new` and
/// `Regex::replace_all`). For the pattern of special file-name characters, which matches one
/// such character at a time, and the replacement `\$0`, where `$0` stands for the whole match
/// and the backslash for itself, that puts a backslash before each special character.
#[verifier::external_body]
fn backslash_matches(pattern: &str, text: &str, replacement: &str) -> (r: String)
    requires
        pattern@ == SPECIAL_CHARS@,
        replacement@ == ESCAPED_MATCH@,
    ensures
        r@ == filename_escaped(text@),
{
    regex::Regex::new(pattern).unwrap().replace_all(text, replacement).into_owned()
}

/// Reads escaped text back: a backslash stands for the character after it.
pub open spec fn backslash_unescaped(s: Seq<char>) -> Seq<char>
    decreases s.len(),
{
    if s.len() == 0 {
        s
    } else if s[0] == '\\' && s.len() >= 2 {
        seq![s[1]] + backslash_unescaped(s.subrange(2, s.len() as int))
    } else {
        seq![s[0]] + backslash_unescaped(s.subrange(1, s.len() as int))
    }
}

proof fn lemma_unescape_after(e: Seq<char>, c: char, x: Seq<char>)
    requires
        e == seq![c] || (e == seq!['\\', c]),
        e == seq![c] ==> c != '\\',
    ensures
        backslash_unescaped(e + x) == seq![c] + backslash_unescaped(x),
{
    let y = e + x;
    if e.len() == 1 {
        assert(y.subrange(1, y.len() as int) =~= x);
    } else {
        assert(y.subrange(2, y.len() as int) =~= x);
    }
}

proof fn lemma_viml_escaped_concat(a: Seq<char>, b: Seq<char>)
    ensures
        viml_escaped(a + b) == viml_escaped(a) + viml_escaped(b),
    decreases b.len(),
{
    if b.len() == 0 {
        assert(a + b =~= a);
        assert(viml_escaped(a) + viml_escaped(b) =~= viml_escaped(a));
    } else {
        assert((a + b).drop_last() =~= a + b.drop_last());
        lemma_viml_escaped_concat(a, b.drop_last());
        assert(viml_escaped(a) + viml_escaped(b) =~= viml_escaped(a) + viml_escaped(b.drop_last()) + viml_escape_char(b.last()));
    }
}

/// VimL escaping loses nothing: reading the escaped text back, a backslash standing for the
/// character after it, gives back the unescaped text.
pub proof fn law_viml_escape_reversible(s: Seq<char>)
    ensures
        backslash_unescaped(viml_escaped(s)) == s,
    decreases s.len(),
{
    if s.len() > 0 {
        let c = s[0];
        let rest = s.subrange(1, s.len() as int);
        assert(s =~= seq![c] + rest);
        lemma_viml_escaped_concat(seq![c], rest);
        assert(seq![c].drop_last() =~= Seq::<char>::empty());
        assert(viml_escaped(Seq::<char>::empty()) == Seq::<char>::empty());
        assert(viml_escaped(seq![c]) == viml_escaped(Seq::<char>::empty()) + viml_escape_char(c));
        assert(viml_escaped(seq![c]) =~= viml_escape_char(c));
        lemma_unescape_after(viml_escape_char(c), c, viml_escaped(rest));
        law_viml_escape_reversible(rest);
        assert(seq![c] + rest =~= s);
    } else {
        assert(viml_escaped(s) =~= Seq::<char>::empty());
    }
}

proof fn lemma_filename_escaped_concat(a: Seq<char>, b: Seq<char>)
    ensures
        filename_escaped(a + b) == filename_escaped(a) + filename_escaped(b),
    decreases b.len(),
{
    if b.len() == 0 {
        assert(a + b =~= a);
        assert(filename_escaped(a) + filename_escaped(b) =~= filename_escaped(a));
    } else {
        assert((a + b).drop_last() =~= a + b.drop_last());
        assert((a + b).last() == b.last());
        lemma_filename_escaped_concat(a, b.drop_last());
        if is_plain_filename_char(b.last()) {
            assert(filename_escaped(a) + filename_escaped(b) =~= (filename_escaped(a) + filename_escaped(b.drop_last())).push(b.last()));
        } else {
            assert(filename_escaped(a) + filename_escaped(b) =~= (filename_escaped(a) + filename_escaped(b.drop_last())).push('\\').push(b.last()));
        }
    }
}

/// Escaping a file name loses nothing: reading the escaped name back, a backslash standing
/// for the character after it, gives back the unescaped name.
pub proof fn law_escape_filename_reversible(s: Seq<char>)
    ensures
        backslash_unescaped(filename_escaped(s)) == s,
    decreases s.len(),
{
    if s.len() > 0 {
        let c = s[0];
        let rest = s.subrange(1, s.len() as int);
        assert(s =~= seq![c] + rest);
        lemma_filename_escaped_concat(seq![c], rest);
        assert(seq![c].drop_last() =~= Seq::<char>::empty());
        assert(seq![c].last() == c);
        assert(filename_escaped(Seq::<char>::empty()) == Seq::<char>::empty());
        if is_plain_filename_char(c) {
            assert(filename_escaped(seq![c]) =~= seq![c]);
        } else {
            assert(filename_escaped(seq![c]) =~= seq!['\\', c]);
        }
        lemma_unescape_after(filename_escaped(seq![c]), c, filename_escaped(rest));
        law_escape_filename_reversible(rest);
    } else {
        assert(filename_escaped(s) =~= Seq::<char>::empty());
    }
}

/// What percent-decoding the bytes of a string and reading them back as UTF-8 gives: `None`
/// where the decoded bytes are not valid UTF-8.
pub uninterp spec fn percent_decoded_utf8(s: Seq<char>) -> Option<Seq<char>>;

/// Percent-decodes `s` with `percent_encoding::percent_decode` and reads the result as UTF-8
/// with `PercentDecode::decode_utf8`. The result is taken to be a function of `s` alone; how
/// `%XX` sequences and UTF-8 are read is left to that crate.
#[verifier::external_body]
fn percent_decode_str(s: &str) -> (r: Option<String>)
    ensures
        r.is_some() == percent_decoded_utf8(s@).is_some(),
        r matches Some(t) ==> t@ == percent_decoded_utf8(s@).unwrap(),
{
    match percent_encoding::percent_decode(s.as_bytes()).decode_utf8() {
        Ok(decoded) => Some(decoded.into_owned()),
        Err(_) => None,
    }
}

/// The prefix of a local file URI.
pub open spec fn file_uri_prefix() -> Seq<char> {
    seq!['f', 'i', 'l', 'e', ':', '/', '/', '/']
}

/// What `decode_uri` gives for `uri`.
pub open spec fn decoded_uri(uri: Seq<char>) -> Option<Seq<char>> {
    if uri.len() >= 8 && uri.subrange(0, 8) == file_uri_prefix() {
        match percent_decoded_utf8(uri.subrange(8, uri.len() as int)) {
            Some(path) => Some(seq!['/'] + path),
            None => None,
        }
    } else {
        None
    }
}

/// Decode a file URI: `file:///path/to/a%20file.ext` gives `/path/to/a file.ext`. The URI
/// splits at its eighth byte, which must start a character.
pub fn decode_uri(uri: &str) -> (r: Option<String>)
    requires
        vstd::utf8::is_char_boundary(vstd::string::StringSliceAdditionalSpecFns::spec_bytes(uri), 8),
    ensures
        r.is_some() == decoded_uri(uri@).is_some(),
        r matches Some(p) ==> p@ == decoded_uri(uri@).unwrap(),
{
    let chars = str_chars(uri);
    let prefix: [char; 8] = ['f', 'i', 'l', 'e', ':', '/', '/', '/'];
    if chars.len() < 8 {
        return None;
    }
    let mut k: usize = 0;
    assert(prefix@ =~= file_uri_prefix());
    while k < 8
        invariant
            k <= 8,
            prefix@ == file_uri_prefix(),
            chars.len() >= 8,
            chars@ == uri@,
            forall|j: int| 0 <= j < k ==> chars@[j] == file_uri_prefix()[j],
        decreases 8 - k,
    {
        if chars[k] != prefix[k] {
            assert(chars@.subrange(0, 8)[k as int] != file_uri_prefix()[k as int]);
            return None;
        }
        k = k + 1;
    }
    assert(chars@.subrange(0, 8) =~= file_uri_prefix());
    let rest = crate::text::string_from_chars(chars.as_slice(), 8, chars.len());
    assert(rest@ == uri@.subrange(8, uri@.len() as int));
    match percent_decode_str(rest.as_str()) {
        Some(path) => {
            let mut r = String::new();
            string_push(&mut r, '/');
            let r = r.concat(path.as_str());
            Some(r)
        },
        None => None,
    }
}

/// The version below which Neovim is not supported.
pub open spec fn minimum_supported_nvim_version() -> Seq<char> {
    seq!['0', '.', '3', '.', '2']
}

/// Info text.
pub fn about_comments() -> (r: String)
    ensures
        r@ == "Build on top of neovim\nMinimum supported neovim version: "@
            + minimum_supported_nvim_version(),
{
    let head = "Build on top of neovim\nMinimum supported neovim version: ".to_owned();
    let version = "0.3.2";
    proof {
        reveal_strlit("0.3.2");
    }
    head.concat(version)
}

/// Whether `c` separates path components.
pub open spec fn is_path_separator(c: char) -> bool {
    c == '/' || c == '\\'
}

/// `s` with every trailing `.git` removed, repeatedly.
pub open spec fn trim_git_suffixes(s: Seq<char>) -> Seq<char>
    decreases s.len(),
{
    if s.len() >= 4 && s.subrange(s.len() - 4, s.len() as int) == seq!['.', 'g', 'i', 't'] {
        trim_git_suffixes(s.subrange(0, s.len() - 4))
    } else {
        s
    }
}

/// The name of a plugin given by its repository path: what follows the last path separator,
/// with trailing `.git` removed; `None` when there is no separator or nothing follows it.
pub open spec fn plugin_name_of(path: Seq<char>) -> Option<Seq<char>> {
    if exists|k: int| 0 <= k < path.len() && is_path_separator(path[k]) {
        let k = choose|k: int|
            0 <= k < path.len() && is_path_separator(path[k]) && forall|j: int|
                k < j < path.len() ==> !is_path_separator(path[j]);
        if k + 1 < path.len() {
            Some(trim_git_suffixes(path).subrange(k + 1, trim_git_suffixes(path).len() as int))
        } else {
            None
        }
    } else {
        None
    }
}

} // verus!

verus! {

/// Removes every trailing `.git` from `s`.
#[verifier::spinoff_prover]
fn trim_git(s: &Vec<char>) -> (r: Vec<char>)
    ensures
        r@ == trim_git_suffixes(s@),
{
    let mut n: usize = s.len();
    assert(s@.subrange(0, s@.len() as int) == s@);
    while n >= 4 && s[n - 4] == '.' && s[n - 3] == 'g' && s[n - 2] == 'i' && s[n - 1] == 't'
        invariant
            n <= s.len(),
            trim_git_suffixes(s@.subrange(0, n as int)) == trim_git_suffixes(s@),
        decreases n,
    {
        let ghost t = s@.subrange(0, n as int);
        assert(t.subrange(t.len() - 4, t.len() as int) =~= seq!['.', 'g', 'i', 't']);
        assert(t.subrange(0, t.len() - 4) == s@.subrange(0, n - 4));
        n = n - 4;
    }
    let ghost t = s@.subrange(0, n as int);
    if n >= 4 {
        assert(t.subrange(t.len() - 4, t.len() as int)[0] == s@[n - 4]);
        assert(t.subrange(t.len() - 4, t.len() as int)[1] == s@[n - 3]);
        assert(t.subrange(t.len() - 4, t.len() as int)[2] == s@[n - 2]);
        assert(t.subrange(t.len() - 4, t.len() as int)[3] == s@[n - 1]);
        assert(t.subrange(t.len() - 4, t.len() as int) != seq!['.', 'g', 'i', 't']);
    }
    assert(s@.subrange(0, s@.len() as int) == s@);
    let mut r: Vec<char> = Vec::new();
    let mut i: usize = 0;
    while i < n
        invariant
            i <= n <= s.len(),
            r@ == s@.subrange(0, i as int),
        decreases n - i,
    {
        r.push(s[i]);
        assert(s@.subrange(0, i + 1) == s@.subrange(0, i as int).push(s@[i as int]));
        i = i + 1;
    }
    r
}

/// The name of a plugin from its repository path or URL.
pub fn extract_name(path: &str) -> (r: Option<String>)
    ensures
        r.is_some() == plugin_name_of(path@).is_some(),
        r matches Some(name) ==> name@ == plugin_name_of(path@).unwrap(),
{
    let chars = str_chars(path);
    let mut k: usize = chars.len();
    while k > 0 && !(chars[k - 1] == '/' || chars[k - 1] == '\\')
        invariant
            k <= chars.len(),
            chars@ == path@,
            forall|j: int| k <= j < chars.len() ==> !is_path_separator(chars@[j]),
        decreases k,
    {
        k = k - 1;
    }
    if k == 0 {
        assert(!exists|j: int| 0 <= j < path@.len() && is_path_separator(path@[j]));
        return None;
    }
    let idx = k - 1;
    assert(is_path_separator(path@[idx as int]));
    let ghost chosen = choose|j: int|
        0 <= j < path@.len() && is_path_separator(path@[j]) && forall|m: int|
            j < m < path@.len() ==> !is_path_separator(path@[m]);
    assert(chosen == idx) by {
        if chosen < idx {
        } else if chosen > idx {
        }
    }
    if idx + 1 < chars.len() {
        let trimmed = trim_git(&chars);
        proof {
            lemma_trim_git_keeps_separator(path@, idx as int);
        }
        let name = crate::text::string_from_chars(trimmed.as_slice(), idx + 1, trimmed.len());
        Some(name)
    } else {
        None
    }
}

/// Trimming `.git` never reaches past a path separator.
proof fn lemma_trim_git_keeps_separator(s: Seq<char>, k: int)
    requires
        0 <= k < s.len(),
        is_path_separator(s[k]),
    ensures
        k < trim_git_suffixes(s).len(),
        trim_git_suffixes(s).len() <= s.len(),
    decreases s.len(),
{
    if s.len() >= 4 && s.subrange(s.len() - 4, s.len() as int) == seq!['.', 'g', 'i', 't'] {
        if k >= s.len() - 4 {
            assert(s.subrange(s.len() - 4, s.len() as int)[k - (s.len() - 4)] == s[k]);
        }
        lemma_trim_git_keeps_separator(s.subrange(0, s.len() - 4), k);
    }
}

/// The name a plugin is added under: the name typed in, unless it is blank; then the name
/// taken from its repository path, or where the path gives none, the path itself.
pub open spec fn plugin_entry_name(name: Seq<char>, path: Seq<char>) -> Seq<char> {
    if crate::text::is_blank_text(name) {
        match plugin_name_of(path) {
            Some(n) => n,
            None => path,
        }
    } else {
        name
    }
}

/// The name a plugin is added under, from the name and path typed into the dialog.
pub fn plugin_entry_name_of(name: &str, path: &str) -> (r: String)
    ensures
        r@ == plugin_entry_name(name@, path@),
{
    if crate::text::str_is_blank(name) {
        match extract_name(path) {
            Some(n) => n,
            None => path.to_owned(),
        }
    } else {
        name.to_owned()
    }
}

} // verus!
