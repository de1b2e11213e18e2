//! The prompt lines the external command line shows before what is typed.

use std::rc::Rc;

use vstd::prelude::*;

use crate::nvim::gui_event::newline_scan;
use crate::text::{str_chars, string_from_chars};
use crate::ui_model::highlight::Highlight;
use crate::ui_model::{real_cursor_col, with_cell, written_cell};
use crate::ui_model::model_layout::{
    cursor_at, empty_layout, insert_shift_ok, lines_view, replace_ok, replaced, widths_of, with_inserted, with_lines,
    HighlightedLine, HighlightedRange, LayoutView, ModelLayout, RangeView,
};

verus! {

/// The extended grapheme clusters that `unicode-segmentation` splits a string into.
pub uninterp spec fn extended_graphemes(s: Seq<char>) -> Seq<Seq<char>>;

/// The extended grapheme clusters of `s`, each as a string (unicode-segmentation's
/// `UnicodeSegmentation::graphemes` with `is_extended`).
#[verifier::external_body]
fn graphemes_of(s: &str) -> (r: Vec<String>)
    ensures
        r@.len() == extended_graphemes(s@).len(),
        forall|i: int| 0 <= i < r@.len() ==> #[trigger] r@[i]@ == extended_graphemes(s@)[i],
{
    unicode_segmentation::UnicodeSegmentation::graphemes(s, true).map(|g| g.to_owned()).collect()
}

/// A line without the carriage return that ended it.
pub open spec fn without_cr(l: Seq<char>) -> Seq<char> {
    if l.len() > 0 && l.last() == '\r' {
        l.drop_last()
    } else {
        l
    }
}

/// The lines of `s` as `str::lines` gives them: split at `\n`, a `\r` right before a `\n`
/// dropped, and no empty line after a final line ending.
pub open spec fn text_lines(s: Seq<char>) -> Seq<Seq<char>> {
    let (done, cur) = newline_scan(s);
    let ended = done.map_values(|l: Seq<char>| without_cr(l));
    if cur.len() == 0 {
        ended
    } else {
        ended.push(cur)
    }
}

/// The lines of `s`, as `str::lines` gives them.
pub fn lines_of(s: &str) -> (r: Vec<String>)
    ensures
        r@.len() == text_lines(s@).len(),
        forall|i: int| 0 <= i < r@.len() ==> #[trigger] r@[i]@ == text_lines(s@)[i],
{
    let chars = str_chars(s);
    let n = chars.len();
    let mut out: Vec<String> = Vec::new();
    let mut start: usize = 0;
    let mut i: usize = 0;
    while i < n
        invariant
            start <= i <= n,
            n == chars@.len(),
            chars@ == s@,
            out@.len() == newline_scan(chars@.subrange(0, i as int)).0.len(),
            forall|k: int| 0 <= k < out@.len() ==> #[trigger] out@[k]@ == without_cr(newline_scan(chars@.subrange(0, i as int)).0[k]),
            newline_scan(chars@.subrange(0, i as int)).1 == chars@.subrange(start as int, i as int),
        decreases n - i,
    {
        assert(chars@.subrange(0, i + 1).drop_last() == chars@.subrange(0, i as int));
        assert(chars@.subrange(0, i + 1).last() == chars@[i as int]);
        if chars[i] == '\n' {
            let ghost line = chars@.subrange(start as int, i as int);
            let end = if i > start && chars[i - 1] == '\r' { i - 1 } else { i };
            assert(line.len() > 0 ==> line.last() == chars@[i - 1]);
            assert(chars@.subrange(start as int, end as int) == without_cr(line));
            out.push(string_from_chars(chars.as_slice(), start, end));
            start = i + 1;
            assert(chars@.subrange(start as int, i + 1) =~= Seq::<char>::empty());
        } else {
            assert(chars@.subrange(start as int, i + 1) == chars@.subrange(start as int, i as int).push(chars@[i as int]));
        }
        i = i + 1;
    }
    assert(chars@.subrange(0, n as int) == chars@);
    let ghost scan = newline_scan(chars@);
    if start < n {
        out.push(string_from_chars(chars.as_slice(), start, n));
    }
    assert(out@.len() == text_lines(s@).len());
    out
}

/// `n` single spaces.
pub open spec fn spaces(n: nat) -> Seq<Seq<char>> {
    Seq::new(n, |k: int| seq![' '])
}

/// The prompt lines, each with the default highlight and its graphemes: the first character
/// of the command line padded with spaces to the indent (its bytes counted), or else the
/// lines of the prompt split into graphemes.
pub open spec fn prompt_lines_of(firstc: &str, prompt: Seq<char>, indent: u64) -> Seq<Seq<Seq<char>>> {
    let firstc_bytes = vstd::string::StringSliceAdditionalSpecFns::spec_bytes(firstc).len() as usize;
    if firstc@.len() > 0 {
        if firstc_bytes >= indent as usize {
            seq![seq![firstc@]]
        } else {
            seq![seq![firstc@] + spaces((indent as usize - firstc_bytes) as nat)]
        }
    } else if prompt.len() > 0 {
        text_lines(prompt).map_values(|l: Seq<char>| extended_graphemes(l))
    } else {
        Seq::empty()
    }
}

/// The graphemes of a line of prompt output, as characters.
pub open spec fn line_graphemes(l: (Rc<Highlight>, Vec<String>)) -> Seq<Seq<char>> {
    l.1@.map_values(|g: String| g@)
}

/// The prompt lines of the command line and the number of graphemes of the last one, where
/// what is typed starts.
pub fn prompt_lines(firstc: &str, prompt: &str, indent: u64, default_hl: &Rc<Highlight>) -> (r: (usize, Vec<(Rc<Highlight>, Vec<String>)>))
    ensures
        r.1@.len() == prompt_lines_of(firstc, prompt@, indent).len(),
        forall|i: int| 0 <= i < r.1@.len() ==> #[trigger] line_graphemes(r.1@[i]) == prompt_lines_of(firstc, prompt@, indent)[i]
            && *r.1@[i].0 == **default_hl,
        r.0 == if r.1@.len() > 0 { r.1@.last().1@.len() } else { 0 },
{
    let mut lines: Vec<(Rc<Highlight>, Vec<String>)> = Vec::new();
    if !firstc.is_empty() {
        let bytes = firstc.len();
        let mut graphemes: Vec<String> = Vec::new();
        graphemes.push(firstc.to_owned());
        if bytes < indent as usize {
            let mut k = bytes;
            while k < indent as usize
                invariant
                    bytes <= k <= indent as usize,
                    graphemes@.len() == 1 + (k - bytes),
                    graphemes@[0]@ == firstc@,
                    forall|j: int| 1 <= j < graphemes@.len() ==> #[trigger] graphemes@[j]@ == seq![' '],
                decreases indent as usize - k,
            {
                let mut sp = String::new();
                crate::text::string_push(&mut sp, ' ');
                graphemes.push(sp);
                k = k + 1;
            }
        }
        let ghost want = prompt_lines_of(firstc, prompt@, indent)[0];
        proof {
            if bytes < indent as usize {
                assert(want == seq![firstc@] + spaces((indent as usize - bytes) as nat));
                assert forall|j: int| 0 <= j < graphemes@.len() implies #[trigger] graphemes@[j]@ == want[j] by {
                    if j >= 1 {
                        assert(want[j] == spaces((indent as usize - bytes) as nat)[j - 1]);
                    }
                }
            } else {
                assert(want == seq![firstc@]);
            }
        }
        assert(graphemes@.map_values(|g: String| g@) =~= want);
        lines.push((crate::shared::rc_clone(default_hl), graphemes));
    } else if !prompt.is_empty() {
        let texts = lines_of(prompt);
        let ghost target = prompt_lines_of(firstc, prompt@, indent);
        let mut i: usize = 0;
        while i < texts.len()
            invariant
                i <= texts@.len(),
                texts@.len() == text_lines(prompt@).len(),
                forall|j: int| 0 <= j < texts@.len() ==> #[trigger] texts@[j]@ == text_lines(prompt@)[j],
                target == prompt_lines_of(firstc, prompt@, indent),
                firstc@.len() == 0,
                prompt@.len() > 0,
                lines@.len() == i,
                forall|j: int| 0 <= j < i ==> #[trigger] line_graphemes(lines@[j]) == target[j] && *lines@[j].0 == **default_hl,
            decreases texts@.len() - i,
        {
            let g = graphemes_of(texts[i].as_str());
            assert(g@.map_values(|s: String| s@) =~= extended_graphemes(texts@[i as int]@));
            lines.push((crate::shared::rc_clone(default_hl), g));
            i = i + 1;
        }
    }
    let offset = if lines.len() > 0 {
        lines[lines.len() - 1].1.len()
    } else {
        0
    };
    (offset, lines)
}


/// A range of typed text: its highlight and its text split into graphemes.
pub open spec fn attributed_range(hl: Highlight, text: Seq<char>) -> RangeView {
    RangeView { highlight: hl, graphemes: extended_graphemes(text) }
}

/// The ranges of a line as what they hold.
pub open spec fn line_view(l: Seq<HighlightedRange>) -> Seq<RangeView> {
    l.map_values(|r: HighlightedRange| r@)
}

/// The typed content of the command line as one line of ranges: each piece of text with its
/// highlight, split into graphemes.
pub fn attributed_line(content: &Vec<(Rc<Highlight>, String)>) -> (r: HighlightedLine)
    ensures
        r@.len() == content@.len(),
        forall|i: int| 0 <= i < content@.len() ==> #[trigger] r@[i]@ == attributed_range(*content@[i].0, content@[i].1@),
{
    let mut line: HighlightedLine = Vec::new();
    let mut i: usize = 0;
    while i < content.len()
        invariant
            i <= content@.len(),
            line@.len() == i,
            forall|j: int| 0 <= j < i ==> #[trigger] line@[j]@ == attributed_range(*content@[j].0, content@[j].1@),
        decreases content@.len() - i,
    {
        let graphemes = graphemes_of(content[i].1.as_str());
        let range = HighlightedRange { highlight: crate::shared::rc_clone(&content[i].0), graphemes };
        assert(range@.graphemes =~= extended_graphemes(content@[i as int].1@));
        line.push(range);
        i = i + 1;
    }
    line
}

/// The lines a level of the command line shows: each prompt line as one range with the
/// default highlight, the typed content appended to the last of them, or alone where there is
/// no prompt line.
pub open spec fn cmdline_lines_of(prompt: Seq<Seq<Seq<char>>>, default_hl: Highlight, content: Seq<RangeView>) -> Seq<Seq<RangeView>> {
    let ps = prompt.map_values(|g: Seq<Seq<char>>| seq![RangeView { highlight: default_hl, graphemes: g }]);
    if ps.len() == 0 {
        seq![content]
    } else {
        ps.drop_last().push(ps.last() + content)
    }
}

/// Where the typed content starts in the last line: the graphemes of the last prompt line.
pub open spec fn prompt_offset_of(prompt: Seq<Seq<Seq<char>>>) -> int {
    if prompt.len() > 0 {
        prompt.last().len() as int
    } else {
        0
    }
}

/// The lines of a command line level, made of its prompt and its typed content, and the
/// grapheme at which the typed content starts.
pub fn cmdline_lines(firstc: &str, prompt: &str, indent: u64, default_hl: &Rc<Highlight>, content: HighlightedLine) -> (r: (
    Vec<HighlightedLine>,
    usize,
))
    ensures
        lines_view(r.0@) == cmdline_lines_of(prompt_lines_of(firstc, prompt@, indent), **default_hl, line_view(content@)),
        r.1 == prompt_offset_of(prompt_lines_of(firstc, prompt@, indent)),
{
    let ghost target = prompt_lines_of(firstc, prompt@, indent);
    let (prompt_offset, mut pl) = prompt_lines(firstc, prompt, indent, default_hl);
    let ghost pv = pl@;
    proof {
        if pv.len() > 0 {
            assert(line_graphemes(pv[pv.len() - 1]) == target[target.len() - 1]);
            assert(line_graphemes(pv[pv.len() - 1]).len() == pv[pv.len() - 1].1@.len());
        }
    }
    let ghost ps = target.map_values(|g: Seq<Seq<char>>| seq![RangeView { highlight: **default_hl, graphemes: g }]);
    let mut lines: Vec<HighlightedLine> = Vec::new();
    let mut content = content;
    while pl.len() > 0
        invariant
            pv.len() == target.len(),
            forall|i: int| 0 <= i < pv.len() ==> #[trigger] line_graphemes(pv[i]) == target[i] && *pv[i].0 == **default_hl,
            ps == target.map_values(|g: Seq<Seq<char>>| seq![RangeView { highlight: **default_hl, graphemes: g }]),
            lines@.len() + pl@.len() == pv.len(),
            pl@ == pv.subrange(lines@.len() as int, pv.len() as int),
            lines_view(lines@) == ps.subrange(0, lines@.len() as int),
        decreases pl@.len(),
    {
        let ghost j = lines@.len() as int;
        let (hl, graphemes) = pl.remove(0);
        let mut line: HighlightedLine = Vec::new();
        line.push(HighlightedRange { highlight: hl, graphemes });
        assert(line_graphemes(pv[j]) == target[j]);
        assert(lines_view(lines@.push(line)) =~= ps.subrange(0, j + 1)) by {
            assert(line@.map_values(|r: HighlightedRange| r@) =~= ps[j]);
        }
        lines.push(line);
        assert(pl@ =~= pv.subrange(lines@.len() as int, pv.len() as int));
    }
    if lines.len() == 0 {
        lines.push(content);
        assert(lines_view(lines@) =~= seq![line_view(content@)]);
    } else {
        let ghost before = lines@;
        let mut last = lines.pop().unwrap();
        let ghost last_view = line_view(last@);
        let ghost content_view = line_view(content@);
        last.append(&mut content);
        assert(line_view(last@) =~= last_view + content_view);
        lines.push(last);
        assert(lines_view(lines@) =~= ps.drop_last().push(ps.last() + content_view)) by {
            assert(lines_view(before) =~= ps);
            assert(lines_view(before.drop_last()) =~= ps.drop_last());
        }
    }
    (lines, prompt_offset)
}


/// `lines` laid out from the top of `l`.
pub open spec fn laid_out(l: LayoutView, lines: Seq<Seq<RangeView>>) -> LayoutView {
    replaced(with_lines(l, lines), 0, 0, widths_of(lines))
}

/// Whether `lines` can be laid out from the top of `l`.
pub open spec fn lays_out(l: LayoutView, lines: Seq<Seq<RangeView>>) -> bool {
    replace_ok(with_lines(l, lines), 0, 0, widths_of(lines))
}

/// `l` with `lines` added after its lines and laid out from the first row after them.
pub open spec fn appended(l: LayoutView, lines: Seq<Seq<RangeView>>) -> LayoutView {
    replaced(with_lines(l, l.lines + lines), l.rows_filled as int, l.lines.len() as int, widths_of(l.lines + lines))
}

/// Whether `lines` can be added after the lines of `l`.
pub open spec fn appends(l: LayoutView, lines: Seq<Seq<RangeView>>) -> bool {
    replace_ok(with_lines(l, l.lines + lines), l.rows_filled as int, l.lines.len() as int, widths_of(l.lines + lines))
}

/// One level of the external command line: its laid-out lines and the grapheme at which the
/// typed content starts in the last of them.
pub struct Level {
    pub model_layout: ModelLayout,
    pub prompt_offset: usize,
}

impl Level {
    /// A level `columns` wide showing `lines`; `None` where they do not fit a model that wide.
    pub fn from_lines(lines: Vec<HighlightedLine>, columns: u64) -> (r: Option<Level>)
        requires
            columns <= usize::MAX,
        ensures
            r.is_some() == lays_out(empty_layout(columns as usize), lines_view(lines@)),
            r matches Some(level) ==> {
                &&& level.model_layout.wf()
                &&& level.model_layout@ == laid_out(empty_layout(columns as usize), lines_view(lines@))
                &&& level.prompt_offset == 0
            },
    {
        let mut model_layout = ModelLayout::new(columns);
        if model_layout.try_layout(lines) {
            Some(Level { model_layout, prompt_offset: 0 })
        } else {
            None
        }
    }

    /// A level `columns` wide showing the command line's prompt and typed content, with the
    /// cursor `pos` graphemes into the typed content; `None` where the lines do not fit.
    pub fn from_ctx(
        firstc: &str,
        prompt: &str,
        indent: u64,
        default_hl: &Rc<Highlight>,
        content: HighlightedLine,
        pos: usize,
        columns: u64,
    ) -> (r: Option<Level>)
        requires
            columns <= usize::MAX,
            prompt_offset_of(prompt_lines_of(firstc, prompt@, indent)) + pos <= usize::MAX,
        ensures
            ({
                let prompt_view = prompt_lines_of(firstc, prompt@, indent);
                let lines = cmdline_lines_of(prompt_view, **default_hl, line_view(content@));
                let offset = prompt_offset_of(prompt_view);
                &&& r.is_some() == lays_out(empty_layout(columns as usize), lines)
                &&& r matches Some(level) ==> {
                    &&& level.model_layout.wf()
                    &&& level.model_layout@ == cursor_at(laid_out(empty_layout(columns as usize), lines), (offset + pos) as usize)
                    &&& level.prompt_offset == offset
                }
            }),
    {
        let (lines, prompt_offset) = cmdline_lines(firstc, prompt, indent, default_hl, content);
        match Level::from_lines(lines, columns) {
            Some(mut level) => {
                level.prompt_offset = prompt_offset;
                level.set_cursor(pos);
                Some(level)
            },
            None => None,
        }
    }

    /// Shows the command line's prompt and typed content in place of the level's lines, with
    /// the cursor `pos` graphemes into the typed content; tells whether the lines fit, the level
    /// unchanged where they do not.
    pub fn replace_from_ctx(
        &mut self,
        firstc: &str,
        prompt: &str,
        indent: u64,
        default_hl: &Rc<Highlight>,
        content: HighlightedLine,
        pos: usize,
    ) -> (r: bool)
        requires
            old(self).model_layout.wf(),
            prompt_offset_of(prompt_lines_of(firstc, prompt@, indent)) + pos <= usize::MAX,
        ensures
            final(self).model_layout.wf(),
            ({
                let prompt_view = prompt_lines_of(firstc, prompt@, indent);
                let lines = cmdline_lines_of(prompt_view, **default_hl, line_view(content@));
                let offset = prompt_offset_of(prompt_view);
                &&& r == lays_out(old(self).model_layout@, lines)
                &&& r ==> final(self).model_layout@ == cursor_at(laid_out(old(self).model_layout@, lines), (offset + pos) as usize)
                    && final(self).prompt_offset == offset
                &&& !r ==> final(self).model_layout@ == old(self).model_layout@ && final(self).prompt_offset == old(self).prompt_offset
            }),
    {
        let (lines, prompt_offset) = cmdline_lines(firstc, prompt, indent, default_hl, content);
        if self.replace_line(lines, false) {
            self.prompt_offset = prompt_offset;
            self.set_cursor(pos);
            true
        } else {
            false
        }
    }

    /// Puts the cursor `pos` graphemes into the typed content.
    pub fn set_cursor(&mut self, pos: usize)
        requires
            old(self).prompt_offset + pos <= usize::MAX,
        ensures
            final(self).prompt_offset == old(self).prompt_offset,
            final(self).model_layout.wf() == old(self).model_layout.wf(),
            final(self).model_layout@ == cursor_at(old(self).model_layout@, (old(self).prompt_offset + pos) as usize),
    {
        self.model_layout.set_cursor(self.prompt_offset + pos);
    }

    /// Shows `lines` in place of the level's lines, or after them where `append`; tells whether
    /// they fit, the level unchanged where they do not.
    pub fn replace_line(&mut self, lines: Vec<HighlightedLine>, append: bool) -> (r: bool)
        requires
            old(self).model_layout.wf(),
        ensures
            final(self).model_layout.wf(),
            final(self).prompt_offset == old(self).prompt_offset,
            append ==> r == appends(old(self).model_layout@, lines_view(lines@)),
            !append ==> r == lays_out(old(self).model_layout@, lines_view(lines@)),
            r && append ==> final(self).model_layout@ == appended(old(self).model_layout@, lines_view(lines@)),
            r && !append ==> final(self).model_layout@ == laid_out(old(self).model_layout@, lines_view(lines@)),
            !r ==> final(self).model_layout@ == old(self).model_layout@,
    {
        if append {
            self.model_layout.try_layout_append(lines)
        } else {
            self.model_layout.try_layout(lines)
        }
    }

    /// Types `c` at the cursor, shifting what follows where `shift`; tells whether it fit, the
    /// level unchanged where it did not.
    pub fn insert(&mut self, c: String, shift: bool, default_hl: &Rc<Highlight>) -> (r: bool)
        requires
            old(self).model_layout.wf(),
        ensures
            final(self).model_layout.wf(),
            final(self).prompt_offset == old(self).prompt_offset,
            ({
                let l = old(self).model_layout@;
                r == (c@.len() == 0 || (shift && insert_shift_ok(l, c@)) || (!shift && l.model.cur_row < l.model.rows
                    && real_cursor_col(l.model) < l.model.columns))
            }),
            r ==> final(self).model_layout@ == ({
                let l = old(self).model_layout@;
                if c@.len() == 0 {
                    l
                } else if shift {
                    laid_out(with_inserted(l, c@), with_inserted(l, c@).lines)
                } else {
                    LayoutView {
                        model: with_cell(
                            l.model,
                            l.model.cur_row as int,
                            real_cursor_col(l.model) as int,
                            written_cell(c@, false, **default_hl),
                        ),
                        ..l
                    }
                }
            }),
            !r ==> final(self).model_layout@ == old(self).model_layout@,
    {
        self.model_layout.try_insert_char(c, shift, crate::shared::rc_clone(default_hl))
    }
}

} // verus!
