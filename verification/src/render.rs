//! Planning the drawing of the grid: which rectangles of background, strikethrough and
//! underline each row needs, with runs of alike cells drawn as one.

use vstd::prelude::*;

use crate::ui_model::highlight::Highlight;
use crate::ui_model::line::Line;

verus! {

/// What a planned rectangle draws.
#[derive(Debug, Clone, Copy, PartialEq, Eq, Structural)]
pub enum RenderStepKind {
    Background,
    Underline,
    Undercurl,
    Strikethrough,
}

/// A rectangle to draw: its kind, its color as a 24-bit RGB value, the cells it spans and the
/// position (row, column) of its first cell.
#[derive(Debug, Clone, Copy, PartialEq, Eq)]
pub struct RenderStep {
    pub color: u32,
    pub kind: RenderStepKind,
    pub len: usize,
    pub pos: (usize, usize),
}

/// The colors the highlights give a cell: its foreground, its background where it differs from
/// none, and its special color where it has one.
#[derive(Debug, Clone, Copy, PartialEq, Eq, Structural)]
pub struct CellColors {
    pub fg: u32,
    pub bg: Option<u32>,
    pub sp: Option<u32>,
}

/// The color of an undercurl without a special color.
pub const COLOR_RED: u32 = 0xff0000;

/// A step of one cell.
pub open spec fn new_step(kind: RenderStepKind, color: u32, pos: (usize, usize)) -> RenderStep {
    RenderStep { color, kind, len: 1, pos }
}

/// Whether a cell of `kind` and `color` continues `s`.
pub open spec fn continues(s: RenderStep, kind: RenderStepKind, color: u32) -> bool {
    s.kind == kind && s.color == color
}

/// `s` one cell longer.
pub open spec fn lengthened(s: RenderStep) -> RenderStep {
    RenderStep { len: (s.len + 1) as usize, ..s }
}

impl RenderStep {
    pub fn new(kind: RenderStepKind, color: u32, pos: (usize, usize)) -> (r: Self)
        ensures
            r == new_step(kind, color, pos),
    {
        RenderStep { color, kind, pos, len: 1 }
    }

    /// Takes in one more cell of `kind` and `color` where it continues this step; tells whether
    /// it did.
    pub fn extend(&mut self, kind: RenderStepKind, color: u32) -> (r: bool)
        requires
            old(self).len < usize::MAX,
        ensures
            r == continues(*old(self), kind, color),
            *final(self) == if r { lengthened(*old(self)) } else { *old(self) },
    {
        if kind == self.kind && color == self.color {
            self.len = self.len + 1;
            true
        } else {
            false
        }
    }
}

/// The line drawn under a cell, with its color: an undercurl in the special color or red, or
/// an underline in the special color or the foreground.
pub open spec fn underline_of(hl: Highlight, c: CellColors) -> Option<(RenderStepKind, u32)> {
    if hl.undercurl {
        Some((
            RenderStepKind::Undercurl,
            match c.sp {
                Some(sp) => sp,
                None => COLOR_RED,
            },
        ))
    } else if hl.underline {
        Some((
            RenderStepKind::Underline,
            match c.sp {
                Some(sp) => sp,
                None => c.fg,
            },
        ))
    } else {
        None
    }
}

/// The background a cell needs drawn: its own, where it has one other than the default.
pub open spec fn drawn_bg(c: CellColors, default_bg: u32) -> Option<u32> {
    match c.bg {
        Some(bg) => if bg != default_bg {
            Some(bg)
        } else {
            None
        },
        None => None,
    }
}

/// The background plan after a cell at `pos` that needs background `bg`: the steps finished
/// so far and the step still open. A cell continuing the open step lengthens it; any other
/// cell finishes it, and a cell with a background opens a step of its own.
pub open spec fn bg_step(done: Seq<RenderStep>, pending: Option<RenderStep>, bg: Option<u32>, pos: (usize, usize)) -> (
    Seq<RenderStep>,
    Option<RenderStep>,
) {
    match bg {
        Some(color) => match pending {
            Some(p) => if continues(p, RenderStepKind::Background, color) {
                (done, Some(lengthened(p)))
            } else {
                (done.push(p), Some(new_step(RenderStepKind::Background, color, pos)))
            },
            None => (done, Some(new_step(RenderStepKind::Background, color, pos))),
        },
        None => match pending {
            Some(p) => (done.push(p), None),
            None => (done, None),
        },
    }
}

/// The background plan of row `row` after its first `n` cells, from the steps `done`.
pub open spec fn bg_plan_upto(
    done: Seq<RenderStep>,
    bgs: Seq<Option<u32>>,
    row: usize,
    n: int,
) -> (Seq<RenderStep>, Option<RenderStep>)
    decreases n,
{
    if n <= 0 {
        (done, None)
    } else {
        let (d, p) = bg_plan_upto(done, bgs, row, n - 1);
        bg_step(d, p, bgs[n - 1], (row, (n - 1) as usize))
    }
}

/// The background steps of a row appended to `done`: the plan with its open step finished.
pub open spec fn bg_plan(done: Seq<RenderStep>, bgs: Seq<Option<u32>>, row: usize) -> Seq<RenderStep> {
    let (d, p) = bg_plan_upto(done, bgs, row, bgs.len() as int);
    match p {
        Some(p) => d.push(p),
        None => d,
    }
}

/// The strikethrough and underline plan after a cell: the steps so far and the open
/// strikethrough and underline steps by index. A struck-through cell continues the open
/// strikethrough step in its foreground or opens a new one; an underlined cell does likewise
/// with the open underline step; a cell without them closes the open step.
pub open spec fn fmt_step(
    ops: Seq<RenderStep>,
    strike: Option<usize>,
    under: Option<usize>,
    hl: Highlight,
    c: CellColors,
    pos: (usize, usize),
) -> (Seq<RenderStep>, Option<usize>, Option<usize>) {
    let (ops1, strike1) = if hl.strikethrough {
        match strike {
            Some(i) => if continues(ops[i as int], RenderStepKind::Strikethrough, c.fg) {
                (ops.update(i as int, lengthened(ops[i as int])), strike)
            } else {
                (ops.push(new_step(RenderStepKind::Strikethrough, c.fg, pos)), Some(ops.len() as usize))
            },
            None => (ops.push(new_step(RenderStepKind::Strikethrough, c.fg, pos)), Some(ops.len() as usize)),
        }
    } else {
        (ops, None)
    };
    match underline_of(hl, c) {
        Some((kind, color)) => match under {
            Some(i) => if continues(ops1[i as int], kind, color) {
                (ops1.update(i as int, lengthened(ops1[i as int])), strike1, under)
            } else {
                (ops1.push(new_step(kind, color, pos)), strike1, Some(ops1.len() as usize))
            },
            None => (ops1.push(new_step(kind, color, pos)), strike1, Some(ops1.len() as usize)),
        },
        None => (ops1, strike1, None),
    }
}

/// The strikethrough and underline plan of row `row` after its first `n` cells, from `ops`.
pub open spec fn fmt_plan_upto(
    ops: Seq<RenderStep>,
    hls: Seq<Highlight>,
    colors: Seq<CellColors>,
    row: usize,
    n: int,
) -> (Seq<RenderStep>, Option<usize>, Option<usize>)
    decreases n,
{
    if n <= 0 {
        (ops, None, None)
    } else {
        let (o, s, u) = fmt_plan_upto(ops, hls, colors, row, n - 1);
        fmt_step(o, s, u, hls[n - 1], colors[n - 1], (row, (n - 1) as usize))
    }
}

/// The highlights of a row's cells.
pub open spec fn row_highlights(line: &Line) -> Seq<Highlight> {
    line.view_line().cells.map_values(|c: crate::ui_model::cell::CellView| c.hl)
}

/// The backgrounds a row's cells need drawn.
pub open spec fn row_bgs(colors: Seq<CellColors>, default_bg: u32) -> Seq<Option<u32>> {
    colors.map_values(|c: CellColors| drawn_bg(c, default_bg))
}

/// An open step of row `row` at index `i` of `ops` that ends just before cell `col`.
pub open spec fn open_step_at(ops: Seq<RenderStep>, i: usize, row: usize, col: int, from: int) -> bool {
    &&& from <= i < ops.len()
    &&& ops[i as int].pos.0 == row
    &&& ops[i as int].pos.1 + ops[i as int].len == col
}

/// Plans the background rectangles of row `row`, whose cells have the colors `colors`, and
/// appends them to `steps`: each run of cells with the same background other than
/// `default_bg` becomes one step.
pub fn plan_row_bg(steps: &mut Vec<RenderStep>, colors: &Vec<CellColors>, default_bg: u32, row: usize)
    ensures
        final(steps)@ == bg_plan(old(steps)@, row_bgs(colors@, default_bg), row),
{
    let ghost bgs = row_bgs(colors@, default_bg);
    let ghost start = steps@;
    let mut pending: Option<RenderStep> = None;
    let mut col: usize = 0;
    while col < colors.len()
        invariant
            col <= colors@.len(),
            bgs == row_bgs(colors@, default_bg),
            (steps@, pending) == bg_plan_upto(start, bgs, row, col as int),
            pending matches Some(p) ==> p.pos.0 == row && p.pos.1 + p.len == col,
        decreases colors@.len() - col,
    {
        let c = colors[col];
        assert(bgs[col as int] == drawn_bg(c, default_bg));
        let bg = match c.bg {
            Some(bg) => if bg != default_bg {
                Some(bg)
            } else {
                None
            },
            None => None,
        };
        match bg {
            Some(color) => {
                let mut opened = true;
                match pending {
                    Some(mut p) => {
                        if p.extend(RenderStepKind::Background, color) {
                            pending = Some(p);
                            opened = false;
                        } else {
                            steps.push(p);
                        }
                    },
                    None => {},
                }
                if opened {
                    pending = Some(RenderStep::new(RenderStepKind::Background, color, (row, col)));
                }
            },
            None => {
                match pending {
                    Some(p) => {
                        steps.push(p);
                    },
                    None => {},
                }
                pending = None;
            },
        }
        col = col + 1;
    }
    match pending {
        Some(p) => {
            steps.push(p);
        },
        None => {},
    }
}

/// Plans the strikethrough and underline rectangles of row `row` and appends them to `ops`:
/// each run of struck-through cells with the same foreground, and each run of cells with the
/// same kind and color of line under them, becomes one step.
pub fn plan_row_fmt(ops: &mut Vec<RenderStep>, line: &Line, colors: &Vec<CellColors>, row: usize)
    requires
        colors@.len() == line.view_line().cells.len(),
    ensures
        final(ops)@ == fmt_plan_upto(old(ops)@, row_highlights(line), colors@, row, colors@.len() as int).0,
{
    let ghost hls = row_highlights(line);
    let ghost start = old(ops)@;
    let ghost from = old(ops)@.len() as int;
    let mut strike: Option<usize> = None;
    let mut under: Option<usize> = None;
    let mut col: usize = 0;
    while col < colors.len()
        invariant
            col <= colors@.len(),
            colors@.len() == line.view_line().cells.len(),
            hls == row_highlights(line),
            from == start.len(),
            (ops@, strike, under) == fmt_plan_upto(start, hls, colors@, row, col as int),
            ops@.len() >= from,
            strike matches Some(i) ==> open_step_at(ops@, i, row, col as int, from),
            under matches Some(i) ==> open_step_at(ops@, i, row, col as int, from),
            strike matches Some(i) ==> under != Some(i),
            forall|k: int| from <= k < ops@.len() ==> (#[trigger] ops@[k]).pos.0 == row && ops@[k].pos.1 + ops@[k].len <= col,
        decreases colors@.len() - col,
    {
        let ghost before = ops@;
        let c = colors[col];
        let hl = *line.line[col].hl;
        assert(hls[col as int] == hl);
        if hl.strikethrough {
            let mut extended = false;
            match strike {
                Some(i) => {
                    let mut step = ops[i];
                    extended = step.extend(RenderStepKind::Strikethrough, c.fg);
                    if extended {
                        ops.set(i, step);
                    }
                },
                None => {},
            }
            if !extended {
                strike = Some(ops.len());
                ops.push(RenderStep::new(RenderStepKind::Strikethrough, c.fg, (row, col)));
            }
        } else {
            strike = None;
        }
        let kind_color = if hl.undercurl {
            Some((
                RenderStepKind::Undercurl,
                match c.sp {
                    Some(sp) => sp,
                    None => COLOR_RED,
                },
            ))
        } else if hl.underline {
            Some((
                RenderStepKind::Underline,
                match c.sp {
                    Some(sp) => sp,
                    None => c.fg,
                },
            ))
        } else {
            None
        };
        assert(kind_color == underline_of(hl, c));
        match kind_color {
            Some((kind, color)) => {
                let mut extended = false;
                match under {
                    Some(i) => {
                        let mut step = ops[i];
                        extended = step.extend(kind, color);
                        if extended {
                            ops.set(i, step);
                        }
                    },
                    None => {},
                }
                if !extended {
                    under = Some(ops.len());
                    ops.push(RenderStep::new(kind, color, (row, col)));
                }
            },
            None => {
                under = None;
            },
        }
        assert(forall|k: int| from <= k < ops@.len() ==> (#[trigger] ops@[k]).pos.0 == row && ops@[k].pos.1 + ops@[k].len <= col + 1);
        col = col + 1;
    }
}

/// The rectangles of a whole grid: the background steps of every row, in order, and then
/// every row's strikethrough and underline steps, each run limited to its row.
pub open spec fn plan_of(
    hls: Seq<Seq<Highlight>>,
    colors: Seq<Seq<CellColors>>,
    default_bg: u32,
    n: int,
) -> (Seq<RenderStep>, Seq<RenderStep>)
    decreases n,
{
    if n <= 0 {
        (Seq::empty(), Seq::empty())
    } else {
        let (bg, fmt) = plan_of(hls, colors, default_bg, n - 1);
        let row = (n - 1) as usize;
        (
            bg_plan(bg, row_bgs(colors[n - 1], default_bg), row),
            fmt_plan_upto(fmt, hls[n - 1], colors[n - 1], row, colors[n - 1].len() as int).0,
        )
    }
}

/// The highlights of every row of a grid.
pub open spec fn grid_highlights(lines: Seq<Line>) -> Seq<Seq<Highlight>> {
    lines.map_values(|l: Line| row_highlights(&l))
}

/// Plans the drawing of a grid whose cells have the colors `colors`: the background
/// rectangles, drawn first, and the strikethrough and underline rectangles, drawn after the
/// text.
pub fn plan_snapshot(lines: &[Line], colors: &Vec<Vec<CellColors>>, default_bg: u32) -> (r: (Vec<RenderStep>, Vec<RenderStep>))
    requires
        colors@.len() == lines@.len(),
        forall|i: int| 0 <= i < lines@.len() ==> (#[trigger] colors@[i])@.len() == lines@[i].view_line().cells.len(),
    ensures
        (r.0@, r.1@) == plan_of(grid_highlights(lines@), colors@.map_values(|v: Vec<CellColors>| v@), default_bg, lines@.len() as int),
{
    let ghost hls = grid_highlights(lines@);
    let ghost cs = colors@.map_values(|v: Vec<CellColors>| v@);
    let mut bg_steps: Vec<RenderStep> = Vec::new();
    let mut fmt_steps: Vec<RenderStep> = Vec::new();
    let mut row: usize = 0;
    while row < lines.len()
        invariant
            row <= lines@.len(),
            colors@.len() == lines@.len(),
            forall|i: int| 0 <= i < lines@.len() ==> (#[trigger] colors@[i])@.len() == lines@[i].view_line().cells.len(),
            hls == grid_highlights(lines@),
            cs == colors@.map_values(|v: Vec<CellColors>| v@),
            (bg_steps@, fmt_steps@) == plan_of(hls, cs, default_bg, row as int),
        decreases lines@.len() - row,
    {
        assert(cs[row as int] == colors@[row as int]@);
        assert(hls[row as int] == row_highlights(&lines@[row as int]));
        plan_row_bg(&mut bg_steps, &colors[row], default_bg, row);
        plan_row_fmt(&mut fmt_steps, &lines[row], &colors[row], row);
        row = row + 1;
    }
    (bg_steps, fmt_steps)
}


/// Step `s` covers cell `col` of its row.
pub open spec fn covers(s: RenderStep, col: int) -> bool {
    s.pos.1 <= col < s.pos.1 + s.len
}

/// `steps` are the background plan of row `row` over its first `n` cells, whose backgrounds
/// are `bgs`: steps of that row, in order without overlap, each covering cells that all need
/// its color, every cell that needs a background covered, and no two touching steps of one
/// color.
#[verifier::opaque]
pub open spec fn bg_plan_exact(steps: Seq<RenderStep>, bgs: Seq<Option<u32>>, row: usize, n: int) -> bool {
    &&& forall|k: int| 0 <= k < steps.len() ==> (#[trigger] steps[k]).pos.0 == row && steps[k].len >= 1 && steps[k].pos.1
        + steps[k].len <= n
    &&& forall|a: int, b: int| 0 <= a < b < steps.len() ==> (#[trigger] steps[a]).pos.1 + steps[a].len <= (#[trigger] steps[b]).pos.1
    &&& forall|k: int, col: int| 0 <= k < steps.len() && #[trigger] covers(steps[k], col) ==> bgs[col] == Some(steps[k].color)
    &&& forall|col: int| 0 <= col < n && (#[trigger] bgs[col]) is Some ==> exists|k: int| 0 <= k < steps.len() && #[trigger] covers(steps[k], col)
    &&& forall|k: int|
        #![trigger steps[k], steps[k + 1]]
        0 <= k < steps.len() - 1 && steps[k].pos.1 + steps[k].len == steps[k + 1].pos.1 ==> steps[k].color != steps[k + 1].color
}

/// The steps a background plan has opened since `from`: those finished and the open one.
pub open spec fn opened(d: Seq<RenderStep>, p: Option<RenderStep>, from: int) -> Seq<RenderStep> {
    let fin = d.subrange(from, d.len() as int);
    match p {
        Some(p) => fin.push(p),
        None => fin,
    }
}

proof fn lemma_exact_extend(o0: Seq<RenderStep>, bgs: Seq<Option<u32>>, row: usize, col: int)
    requires
        bg_plan_exact(o0, bgs, row, col),
        o0.len() > 0,
        o0.last().pos.1 + o0.last().len == col,
        0 <= col < bgs.len() <= usize::MAX,
        bgs[col] == Some(o0.last().color),
    ensures
        bg_plan_exact(o0.update(o0.len() - 1, lengthened(o0.last())), bgs, row, col + 1),
{
    reveal(bg_plan_exact);
    let o = o0.update(o0.len() - 1, lengthened(o0.last()));
    let last = o0.len() - 1;
    assert forall|k: int, c: int| 0 <= k < o.len() && #[trigger] covers(o[k], c) implies bgs[c] == Some(o[k].color) by {
        if k < last || c < col {
            assert(covers(o0[k], c));
        }
    }
    assert forall|c: int| 0 <= c < col + 1 && (#[trigger] bgs[c]) is Some implies exists|k: int|
        0 <= k < o.len() && #[trigger] covers(o[k], c) by {
        if c < col {
            let k = choose|k: int| 0 <= k < o0.len() && #[trigger] covers(o0[k], c);
            if k == last {
                assert(covers(o[last], c));
            } else {
                assert(covers(o[k], c));
            }
        } else {
            assert(covers(o[last], c));
        }
    }
    assert forall|a: int, b: int| 0 <= a < b < o.len() implies (#[trigger] o[a]).pos.1 + o[a].len <= (#[trigger] o[b]).pos.1 by {
        assert(o0[a].pos.1 + o0[a].len <= o0[b].pos.1);
    }
    assert forall|k: int|
        #![trigger o[k], o[k + 1]]
        0 <= k < o.len() - 1 && o[k].pos.1 + o[k].len == o[k + 1].pos.1 implies o[k].color != o[k + 1].color by {
        assert(o0[k].pos.1 + o0[k].len == o0[k + 1].pos.1);
        assert(o0[k].color != o0[k + 1].color);
    }
}

proof fn lemma_exact_open(o0: Seq<RenderStep>, bgs: Seq<Option<u32>>, row: usize, col: int, color: u32)
    requires
        bg_plan_exact(o0, bgs, row, col),
        0 <= col < bgs.len() <= usize::MAX,
        bgs[col] == Some(color),
        o0.len() > 0 && o0.last().pos.1 + o0.last().len == col ==> o0.last().color != color,
    ensures
        bg_plan_exact(o0.push(new_step(RenderStepKind::Background, color, (row, col as usize))), bgs, row, col + 1),
{
    reveal(bg_plan_exact);
    let o = o0.push(new_step(RenderStepKind::Background, color, (row, col as usize)));
    assert forall|k: int, c: int| 0 <= k < o.len() && #[trigger] covers(o[k], c) implies bgs[c] == Some(o[k].color) by {
        if k < o0.len() {
            assert(covers(o0[k], c));
        }
    }
    assert forall|c: int| 0 <= c < col + 1 && (#[trigger] bgs[c]) is Some implies exists|k: int|
        0 <= k < o.len() && #[trigger] covers(o[k], c) by {
        if c < col {
            let k = choose|k: int| 0 <= k < o0.len() && #[trigger] covers(o0[k], c);
            assert(covers(o[k], c));
        } else {
            assert(covers(o[o0.len() as int], c));
        }
    }
    assert forall|a: int, b: int| 0 <= a < b < o.len() implies (#[trigger] o[a]).pos.1 + o[a].len <= (#[trigger] o[b]).pos.1 by {
        if b < o0.len() {
            assert(o0[a].pos.1 + o0[a].len <= o0[b].pos.1);
        } else {
            assert(o0[a].pos.1 + o0[a].len <= col);
        }
    }
    assert forall|k: int|
        #![trigger o[k], o[k + 1]]
        0 <= k < o.len() - 1 && o[k].pos.1 + o[k].len == o[k + 1].pos.1 implies o[k].color != o[k + 1].color by {
        if k < o0.len() - 1 {
            assert(o0[k].pos.1 + o0[k].len == o0[k + 1].pos.1);
            assert(o0[k].color != o0[k + 1].color);
        }
    }
}

proof fn lemma_exact_skip(o0: Seq<RenderStep>, bgs: Seq<Option<u32>>, row: usize, col: int)
    requires
        bg_plan_exact(o0, bgs, row, col),
        0 <= col < bgs.len(),
        bgs[col] is None,
    ensures
        bg_plan_exact(o0, bgs, row, col + 1),
{
    reveal(bg_plan_exact);
    assert forall|c: int| 0 <= c < col + 1 && (#[trigger] bgs[c]) is Some implies exists|k: int|
        0 <= k < o0.len() && #[trigger] covers(o0[k], c) by {}
}

proof fn lemma_bg_plan_upto(done: Seq<RenderStep>, bgs: Seq<Option<u32>>, row: usize, n: int)
    requires
        0 <= n <= bgs.len(),
        bgs.len() <= usize::MAX,
    ensures
        ({
            let (d, p) = bg_plan_upto(done, bgs, row, n);
            &&& d.len() >= done.len()
            &&& d.subrange(0, done.len() as int) == done
            &&& bg_plan_exact(opened(d, p, done.len() as int), bgs, row, n)
            &&& p matches Some(q) ==> q.pos.1 + q.len == n && q.pos.0 == row && q.len >= 1
            &&& p is Some ==> opened(d, p, done.len() as int).len() > 0 && opened(d, p, done.len() as int).last() == p->0
            &&& p is None && n > 0 ==> bgs[n - 1] is None
        }),
    decreases n,
{
    if n > 0 {
        lemma_bg_plan_upto(done, bgs, row, n - 1);
        let (d0, p0) = bg_plan_upto(done, bgs, row, n - 1);
        let (d, p) = bg_plan_upto(done, bgs, row, n);
        let from = done.len() as int;
        let o0 = opened(d0, p0, from);
        let o = opened(d, p, from);
        let col = n - 1;
        assert(d0.subrange(0, from) == done);
        match bgs[col] {
            Some(color) => {
                match p0 {
                    Some(q) => {
                        if continues(q, RenderStepKind::Background, color) {
                            assert(o =~= o0.update(o0.len() - 1, lengthened(q)));
                            lemma_exact_extend(o0, bgs, row, col);
                        } else {
                            assert(d.subrange(0, from) =~= d0.subrange(0, from));
                            assert(o =~= o0.push(new_step(RenderStepKind::Background, color, (row, col as usize))));
                            lemma_exact_open(o0, bgs, row, col, color);
                        }
                    },
                    None => {
                        assert(o =~= o0.push(new_step(RenderStepKind::Background, color, (row, col as usize))));
                        if o0.len() > 0 && o0.last().pos.1 + o0.last().len == col {
                            reveal(bg_plan_exact);
                            let last = o0.len() - 1;
                            assert(covers(o0[last], col - 1));
                        }
                        lemma_exact_open(o0, bgs, row, col, color);
                    },
                }
            },
            None => {
                match p0 {
                    Some(q) => {
                        assert(d.subrange(0, from) =~= d0.subrange(0, from));
                        assert(o =~= o0);
                    },
                    None => {
                        assert(o =~= o0);
                    },
                }
                lemma_exact_skip(o0, bgs, row, col);
            },
        }
    } else {
        reveal(bg_plan_exact);
        assert(opened(done, None, done.len() as int) =~= Seq::<RenderStep>::empty());
        assert(done.subrange(0, done.len() as int) =~= done);
    }
}

/// A row's background plan draws exactly what its cells need: the steps it adds after `done`
/// are steps of that row, in order without overlap, each over cells that all need its color,
/// together over every cell that needs a background, with no two touching steps of one color;
/// `done` stays as it was.
pub proof fn law_background_plan_is_exact(done: Seq<RenderStep>, bgs: Seq<Option<u32>>, row: usize)
    requires
        bgs.len() <= usize::MAX,
    ensures
        bg_plan(done, bgs, row).len() >= done.len(),
        bg_plan(done, bgs, row).subrange(0, done.len() as int) == done,
        bg_plan_exact(
            bg_plan(done, bgs, row).subrange(done.len() as int, bg_plan(done, bgs, row).len() as int),
            bgs,
            row,
            bgs.len() as int,
        ),
{
    lemma_bg_plan_upto(done, bgs, row, bgs.len() as int);
    let (d, p) = bg_plan_upto(done, bgs, row, bgs.len() as int);
    let r = bg_plan(done, bgs, row);
    assert(r.subrange(0, done.len() as int) =~= d.subrange(0, done.len() as int));
    assert(r.subrange(done.len() as int, r.len() as int) =~= opened(d, p, done.len() as int));
}


/// A strikethrough step, as opposed to a line under the text.
pub open spec fn is_strike(s: RenderStep) -> bool {
    s.kind == RenderStepKind::Strikethrough
}

/// The strikethrough (`strike`) or the line under the text (`!strike`) that a cell needs, with
/// its color.
pub open spec fn fmt_needed(hl: Highlight, c: CellColors, strike: bool) -> Option<(RenderStepKind, u32)> {
    if strike {
        if hl.strikethrough {
            Some((RenderStepKind::Strikethrough, c.fg))
        } else {
            None
        }
    } else {
        underline_of(hl, c)
    }
}

/// The steps of one kind of line, strikethrough or under the text, that a row's plan added to
/// `ops` after index `from`, over its first `n` cells: steps of that row, in order without
/// overlap, each over cells that all need its kind and color, together over every cell that
/// needs that kind of line.
#[verifier::opaque]
pub open spec fn fmt_plan_exact(
    ops: Seq<RenderStep>,
    from: int,
    hls: Seq<Highlight>,
    colors: Seq<CellColors>,
    row: usize,
    n: int,
    strike: bool,
) -> bool {
    &&& forall|k: int| from <= k < ops.len() && is_strike(#[trigger] ops[k]) == strike ==> ops[k].pos.0 == row && ops[k].len >= 1
        && ops[k].pos.1 + ops[k].len <= n
    &&& forall|k: int, col: int| from <= k < ops.len() && is_strike(ops[k]) == strike && #[trigger] covers(ops[k], col) ==> fmt_needed(
        hls[col],
        colors[col],
        strike,
    ) == Some((ops[k].kind, ops[k].color))
    &&& forall|col: int| 0 <= col < n && (#[trigger] fmt_needed(hls[col], colors[col], strike)) is Some ==> exists|k: int|
        from <= k < ops.len() && is_strike(ops[k]) == strike && #[trigger] covers(ops[k], col)
    &&& forall|a: int, b: int| from <= a < b < ops.len() && is_strike(#[trigger] ops[a]) == strike && is_strike(#[trigger] ops[b]) == strike
        ==> ops[a].pos.1 + ops[a].len <= ops[b].pos.1
}

/// The open step of one kind, if any, is the last of that kind and ends at cell `n`; where
/// none is open, cell `n - 1` needs no such line.
pub open spec fn fmt_open_ok(
    ops: Seq<RenderStep>,
    from: int,
    idx: Option<usize>,
    hls: Seq<Highlight>,
    colors: Seq<CellColors>,
    n: int,
    strike: bool,
) -> bool {
    match idx {
        Some(i) => {
            &&& from <= i < ops.len()
            &&& is_strike(ops[i as int]) == strike
            &&& ops[i as int].pos.1 + ops[i as int].len == n
            &&& forall|k: int| from <= k < ops.len() && is_strike(#[trigger] ops[k]) == strike ==> k <= i
        },
        None => n > 0 ==> fmt_needed(hls[n - 1], colors[n - 1], strike) is None,
    }
}

/// One kind of line after a cell that needs `needed`: the open step lengthened where the cell
/// continues it, a new step opened where the cell needs another, the open step closed where
/// the cell needs none.
pub open spec fn fmt_kind_step(
    ops: Seq<RenderStep>,
    idx: Option<usize>,
    needed: Option<(RenderStepKind, u32)>,
    pos: (usize, usize),
) -> (Seq<RenderStep>, Option<usize>) {
    match needed {
        Some((kind, color)) => match idx {
            Some(i) => if continues(ops[i as int], kind, color) {
                (ops.update(i as int, lengthened(ops[i as int])), idx)
            } else {
                (ops.push(new_step(kind, color, pos)), Some(ops.len() as usize))
            },
            None => (ops.push(new_step(kind, color, pos)), Some(ops.len() as usize)),
        },
        None => (ops, None),
    }
}

proof fn lemma_fmt_kind_step(
    ops: Seq<RenderStep>,
    from: int,
    idx: Option<usize>,
    other: Option<usize>,
    hls: Seq<Highlight>,
    colors: Seq<CellColors>,
    row: usize,
    n: int,
    m: int,
    strike: bool,
)
    requires
        0 <= from <= ops.len() < usize::MAX,
        0 <= n < hls.len(),
        hls.len() == colors.len() <= usize::MAX,
        fmt_plan_exact(ops, from, hls, colors, row, n, strike),
        fmt_open_ok(ops, from, idx, hls, colors, n, strike),
        fmt_plan_exact(ops, from, hls, colors, row, m, !strike),
        fmt_open_ok(ops, from, other, hls, colors, m, !strike),
    ensures
        ({
            let (ops2, idx2) = fmt_kind_step(ops, idx, fmt_needed(hls[n], colors[n], strike), (row, n as usize));
            &&& ops.len() <= ops2.len() <= ops.len() + 1
            &&& ops2.subrange(0, from) == ops.subrange(0, from)
            &&& fmt_plan_exact(ops2, from, hls, colors, row, n + 1, strike)
            &&& fmt_open_ok(ops2, from, idx2, hls, colors, n + 1, strike)
            &&& fmt_plan_exact(ops2, from, hls, colors, row, m, !strike)
            &&& fmt_open_ok(ops2, from, other, hls, colors, m, !strike)
        }),
{
    reveal(fmt_plan_exact);
    let ostrike = !strike;
    let needed = fmt_needed(hls[n], colors[n], strike);
    let (ops2, idx2) = fmt_kind_step(ops, idx, needed, (row, n as usize));
    match needed {
        Some((kind, color)) => {
            assert(is_strike(new_step(kind, color, (row, n as usize))) == strike);
            if idx is Some && continues(ops[idx->0 as int], kind, color) {
                let i = idx->0 as int;
                assert(ops2 == ops.update(i, lengthened(ops[i])));
                assert(is_strike(ops2[i]) == strike && ops2[i].pos.1 + ops2[i].len == n + 1);
                assert forall|k: int| from <= k < ops2.len() && is_strike(#[trigger] ops2[k]) == strike implies k <= i by {
                    assert(is_strike(ops[k]) == strike);
                }
                assert(ops2.subrange(0, from) =~= ops.subrange(0, from));
                assert forall|k: int, col: int| from <= k < ops2.len() && is_strike(ops2[k]) == strike && #[trigger] covers(
                    ops2[k],
                    col,
                ) implies fmt_needed(hls[col], colors[col], strike) == Some((ops2[k].kind, ops2[k].color)) by {
                    if k != i || col < n {
                        assert(covers(ops[k], col));
                    }
                }
                assert forall|col: int| 0 <= col < n + 1 && (#[trigger] fmt_needed(hls[col], colors[col], strike)) is Some implies exists|k: int|
                    from <= k < ops2.len() && is_strike(ops2[k]) == strike && #[trigger] covers(ops2[k], col) by {
                    if col < n {
                        let k = choose|k: int| from <= k < ops.len() && is_strike(ops[k]) == strike && #[trigger] covers(ops[k], col);
                        assert(covers(ops2[k], col));
                    } else {
                        assert(covers(ops2[i], col));
                    }
                }
                assert forall|a: int, b: int|
                    from <= a < b < ops2.len() && is_strike(#[trigger] ops2[a]) == strike && is_strike(#[trigger] ops2[b]) == strike implies ops2[a].pos.1
                    + ops2[a].len <= ops2[b].pos.1 by {
                    assert(is_strike(ops[a]) == strike && is_strike(ops[b]) == strike);
                }
                assert forall|a: int, b: int|
                    from <= a < b < ops2.len() && is_strike(#[trigger] ops2[a]) == ostrike && is_strike(#[trigger] ops2[b]) == ostrike implies ops2[a].pos.1
                    + ops2[a].len <= ops2[b].pos.1 by {
                    assert(is_strike(ops[a]) == ostrike && is_strike(ops[b]) == ostrike);
                }
                assert forall|col: int| 0 <= col < m && (#[trigger] fmt_needed(hls[col], colors[col], ostrike)) is Some implies exists|k: int|
                    from <= k < ops2.len() && is_strike(ops2[k]) == ostrike && #[trigger] covers(ops2[k], col) by {
                    let k = choose|k: int| from <= k < ops.len() && is_strike(ops[k]) == ostrike && #[trigger] covers(ops[k], col);
                    assert(covers(ops2[k], col));
                }
                assert forall|k: int, col: int| from <= k < ops2.len() && is_strike(ops2[k]) == ostrike && #[trigger] covers(
                    ops2[k],
                    col,
                ) implies fmt_needed(hls[col], colors[col], ostrike) == Some((ops2[k].kind, ops2[k].color)) by {
                    assert(covers(ops[k], col));
                }
            } else {
                let len = ops.len() as int;
                assert(ops2 == ops.push(new_step(kind, color, (row, n as usize))));
                assert(idx2 == Some(len as usize));
                assert(is_strike(ops2[len]) == strike && ops2[len].pos.1 + ops2[len].len == n + 1);
                assert(ops2.subrange(0, from) =~= ops.subrange(0, from));
                assert forall|k: int, col: int| from <= k < ops2.len() && is_strike(ops2[k]) == strike && #[trigger] covers(
                    ops2[k],
                    col,
                ) implies fmt_needed(hls[col], colors[col], strike) == Some((ops2[k].kind, ops2[k].color)) by {
                    if k < len {
                        assert(covers(ops[k], col));
                    }
                }
                assert forall|col: int| 0 <= col < n + 1 && (#[trigger] fmt_needed(hls[col], colors[col], strike)) is Some implies exists|k: int|
                    from <= k < ops2.len() && is_strike(ops2[k]) == strike && #[trigger] covers(ops2[k], col) by {
                    if col < n {
                        let k = choose|k: int| from <= k < ops.len() && is_strike(ops[k]) == strike && #[trigger] covers(ops[k], col);
                        assert(covers(ops2[k], col));
                    } else {
                        assert(covers(ops2[len], col));
                    }
                }
                assert forall|a: int, b: int|
                    from <= a < b < ops2.len() && is_strike(#[trigger] ops2[a]) == strike && is_strike(#[trigger] ops2[b]) == strike implies ops2[a].pos.1
                    + ops2[a].len <= ops2[b].pos.1 by {
                    if b < len {
                        assert(is_strike(ops[a]) == strike && is_strike(ops[b]) == strike);
                    } else {
                        assert(is_strike(ops[a]) == strike);
                    }
                }
                assert forall|a: int, b: int|
                    from <= a < b < ops2.len() && is_strike(#[trigger] ops2[a]) == ostrike && is_strike(#[trigger] ops2[b]) == ostrike implies ops2[a].pos.1
                    + ops2[a].len <= ops2[b].pos.1 by {
                    assert(is_strike(ops[a]) == ostrike && is_strike(ops[b]) == ostrike);
                }
                assert forall|col: int| 0 <= col < m && (#[trigger] fmt_needed(hls[col], colors[col], ostrike)) is Some implies exists|k: int|
                    from <= k < ops2.len() && is_strike(ops2[k]) == ostrike && #[trigger] covers(ops2[k], col) by {
                    let k = choose|k: int| from <= k < ops.len() && is_strike(ops[k]) == ostrike && #[trigger] covers(ops[k], col);
                    assert(covers(ops2[k], col));
                }
                assert forall|k: int, col: int| from <= k < ops2.len() && is_strike(ops2[k]) == ostrike && #[trigger] covers(
                    ops2[k],
                    col,
                ) implies fmt_needed(hls[col], colors[col], ostrike) == Some((ops2[k].kind, ops2[k].color)) by {
                    assert(covers(ops[k], col));
                }
            }
        },
        None => {
            assert(ops2 == ops);
            assert forall|col: int| 0 <= col < n + 1 && (#[trigger] fmt_needed(hls[col], colors[col], strike)) is Some implies exists|k: int|
                from <= k < ops2.len() && is_strike(ops2[k]) == strike && #[trigger] covers(ops2[k], col) by {}
            assert forall|k: int| from <= k < ops.len() && is_strike(#[trigger] ops[k]) == strike implies ops[k].pos.1 + ops[k].len <= n + 1 by {}
        },
    }
}

proof fn lemma_fmt_plan_upto(ops: Seq<RenderStep>, hls: Seq<Highlight>, colors: Seq<CellColors>, row: usize, n: int)
    requires
        0 <= n <= hls.len(),
        hls.len() == colors.len() <= usize::MAX,
        ops.len() + 2 * hls.len() <= usize::MAX,
    ensures
        ({
            let (o, s, u) = fmt_plan_upto(ops, hls, colors, row, n);
            let from = ops.len() as int;
            &&& from <= o.len() <= from + 2 * n
            &&& o.subrange(0, from) == ops
            &&& fmt_plan_exact(o, from, hls, colors, row, n, true)
            &&& fmt_plan_exact(o, from, hls, colors, row, n, false)
            &&& fmt_open_ok(o, from, s, hls, colors, n, true)
            &&& fmt_open_ok(o, from, u, hls, colors, n, false)
        }),
    decreases n,
{
    let from = ops.len() as int;
    if n > 0 {
        lemma_fmt_plan_upto(ops, hls, colors, row, n - 1);
        let (o0, s0, u0) = fmt_plan_upto(ops, hls, colors, row, n - 1);
        let col = n - 1;
        let (o1, s1) = fmt_kind_step(o0, s0, fmt_needed(hls[col], colors[col], true), (row, col as usize));
        lemma_fmt_kind_step(o0, from, s0, u0, hls, colors, row, col, col, true);
        let (o2, u2) = fmt_kind_step(o1, u0, fmt_needed(hls[col], colors[col], false), (row, col as usize));
        lemma_fmt_kind_step(o1, from, u0, s1, hls, colors, row, col, n, false);
        assert(fmt_plan_upto(ops, hls, colors, row, n) == (o2, s1, u2));
    } else {
        reveal(fmt_plan_exact);
        assert(ops.subrange(0, from) =~= ops);
    }
}

/// A row's strikethrough and underline plan draws exactly what its cells need: the steps it
/// adds after `ops` are steps of that row; those of each kind of line (strikethrough, or a line
/// under the text) are in order without overlap, each over cells that all need its kind and
/// color, together over every cell that needs that kind of line; `ops` stays as it was.
pub proof fn law_format_plan_is_exact(ops: Seq<RenderStep>, hls: Seq<Highlight>, colors: Seq<CellColors>, row: usize)
    requires
        hls.len() == colors.len() <= usize::MAX,
        ops.len() + 2 * hls.len() <= usize::MAX,
    ensures
        ({
            let o = fmt_plan_upto(ops, hls, colors, row, colors.len() as int).0;
            &&& o.len() >= ops.len()
            &&& o.subrange(0, ops.len() as int) == ops
            &&& fmt_plan_exact(o, ops.len() as int, hls, colors, row, colors.len() as int, true)
            &&& fmt_plan_exact(o, ops.len() as int, hls, colors, row, colors.len() as int, false)
        }),
{
    lemma_fmt_plan_upto(ops, hls, colors, row, colors.len() as int);
}

} // verus!
