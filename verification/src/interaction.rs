use vstd::prelude::*;

verus! {

/// The tool that a click on the canvas applies.
#[derive(Debug, Clone, Copy, PartialEq, Eq, Structural)]
pub enum ToolMode {
    /// Drag a particle.
    DragParticle,
    /// Spawn particles.
    SpawnParticle,
    /// Delete a particle.
    DeleteParticle,
    /// Inspect: zoom, pan and show particle details.
    Inspect,
}

impl ToolMode {
    /// The label shown for this tool.
    pub open spec fn label(self) -> Seq<char> {
        match self {
            ToolMode::DragParticle => "拖动"@,
            ToolMode::SpawnParticle => "生成"@,
            ToolMode::DeleteParticle => "删除"@,
            ToolMode::Inspect => "查看"@,
        }
    }

    /// The icon shown for this tool.
    pub open spec fn glyph(self) -> Seq<char> {
        match self {
            ToolMode::DragParticle => "✋"@,
            ToolMode::SpawnParticle => "✨"@,
            ToolMode::DeleteParticle => "❌"@,
            ToolMode::Inspect => "🔍"@,
        }
    }

    /// Every tool, in panel order.
    pub fn all() -> (tools: [ToolMode; 4])
        ensures
            tools@ == seq![
                ToolMode::DragParticle,
                ToolMode::SpawnParticle,
                ToolMode::DeleteParticle,
                ToolMode::Inspect,
            ],
    {
        let tools = [
            ToolMode::DragParticle,
            ToolMode::SpawnParticle,
            ToolMode::DeleteParticle,
            ToolMode::Inspect,
        ];
        assert(tools@ =~= seq![
            ToolMode::DragParticle,
            ToolMode::SpawnParticle,
            ToolMode::DeleteParticle,
            ToolMode::Inspect,
        ]);
        tools
    }

    pub fn display_name(&self) -> (name: &'static str)
        ensures
            name@ == self.label(),
            name@ == match *self {
                ToolMode::DragParticle => "拖动"@,
                ToolMode::SpawnParticle => "生成"@,
                ToolMode::DeleteParticle => "删除"@,
                ToolMode::Inspect => "查看"@,
            },
    {
        match self {
            ToolMode::DragParticle => "拖动",
            ToolMode::SpawnParticle => "生成",
            ToolMode::DeleteParticle => "删除",
            ToolMode::Inspect => "查看",
        }
    }

    pub fn icon(&self) -> (icon: &'static str)
        ensures
            icon@ == self.glyph(),
            icon@ == match *self {
                ToolMode::DragParticle => "✋"@,
                ToolMode::SpawnParticle => "✨"@,
                ToolMode::DeleteParticle => "❌"@,
                ToolMode::Inspect => "🔍"@,
            },
    {
        match self {
            ToolMode::DragParticle => "✋",
            ToolMode::SpawnParticle => "✨",
            ToolMode::DeleteParticle => "❌",
            ToolMode::Inspect => "🔍",
        }
    }
}

/// How the particles of a spawn list are laid out around the clicked point.
#[derive(Debug, Clone, Copy, PartialEq, Eq, Structural)]
pub enum ArrangeMode {
    /// All particles on the clicked point.
    Stack,
    /// In one horizontal row.
    Horizontal,
    /// In one vertical column.
    Vertical,
    /// In a near-square grid.
    Grid,
}

impl ArrangeMode {
    /// The label shown for this layout.
    pub open spec fn label(self) -> Seq<char> {
        match self {
            ArrangeMode::Stack => "堆叠"@,
            ArrangeMode::Horizontal => "水平排列"@,
            ArrangeMode::Vertical => "垂直排列"@,
            ArrangeMode::Grid => "网格排列"@,
        }
    }

    /// Every layout, in menu order.
    pub fn all() -> (modes: [ArrangeMode; 4])
        ensures
            modes@ == seq![
                ArrangeMode::Stack,
                ArrangeMode::Horizontal,
                ArrangeMode::Vertical,
                ArrangeMode::Grid,
            ],
    {
        let modes = [ArrangeMode::Stack, ArrangeMode::Horizontal, ArrangeMode::Vertical, ArrangeMode::Grid];
        assert(modes@ =~= seq![
            ArrangeMode::Stack,
            ArrangeMode::Horizontal,
            ArrangeMode::Vertical,
            ArrangeMode::Grid,
        ]);
        modes
    }

    pub fn display_name(&self) -> (name: &'static str)
        ensures
            name@ == self.label(),
            name@ == match *self {
                ArrangeMode::Stack => "堆叠"@,
                ArrangeMode::Horizontal => "水平排列"@,
                ArrangeMode::Vertical => "垂直排列"@,
                ArrangeMode::Grid => "网格排列"@,
            },
    {
        match self {
            ArrangeMode::Stack => "堆叠",
            ArrangeMode::Horizontal => "水平排列",
            ArrangeMode::Vertical => "垂直排列",
            ArrangeMode::Grid => "网格排列",
        }
    }
}


/// Whether `c` is the ceiling of the square root of `n`: the least `c` with `c * c >= n`.
pub open spec fn is_ceil_sqrt(c: nat, n: nat) -> bool {
    &&& c * c >= n
    &&& c == 0 || (c - 1) * (c - 1) < n
}

/// The least `c` with `c * c >= n`.
fn ceil_sqrt(n: usize) -> (c: usize)
    ensures
        is_ceil_sqrt(c as nat, n as nat),
{
    let mut c: usize = 0;
    loop
        invariant
            c == 0 || (c - 1) * (c - 1) < n,
            c <= n,
        decreases n - c,
    {
        let cc: u128 = c as u128;
        assert(cc * cc <= 0xffff_ffff_ffff_ffff_u128 * 0xffff_ffff_ffff_ffff_u128) by (nonlinear_arith)
            requires
                cc <= 0xffff_ffff_ffff_ffff_u128,
        ;
        if cc * cc >= n as u128 {
            return c;
        }
        proof {
            assert(c * c >= c) by (nonlinear_arith)
                requires
                    c >= 1 || c == 0,
            ;
        }
        c = c + 1;
    }
}

/// Where each particle of a spawn list goes: `cells[i]` is the column and row of
/// particle `i` in a layout of `cols` columns and `rows` rows.
#[derive(Debug, Clone)]
pub struct SpawnLayout {
    pub cols: usize,
    pub rows: usize,
    pub cells: Vec<(usize, usize)>,
}

/// The column and row of particle `i` in `mode`, for a grid of `cols` columns.
pub open spec fn layout_cell(mode: ArrangeMode, cols: usize, i: usize) -> (usize, usize) {
    match mode {
        ArrangeMode::Stack => (0, 0),
        ArrangeMode::Horizontal => (i, 0),
        ArrangeMode::Vertical => (0, i),
        ArrangeMode::Grid => ((i % cols) as usize, (i / cols) as usize),
    }
}

/// The shape of the layout of `count > 0` particles in `mode`.
pub open spec fn layout_shape(mode: ArrangeMode, count: nat, cols: nat, rows: nat) -> bool {
    match mode {
        ArrangeMode::Stack => cols == 1 && rows == 1,
        ArrangeMode::Horizontal => cols == count && rows == 1,
        ArrangeMode::Vertical => cols == 1 && rows == count,
        ArrangeMode::Grid => {
            &&& is_ceil_sqrt(cols, count)
            &&& rows * cols >= count
            &&& (rows - 1) * cols < count
        },
    }
}

/// Lays out `count` spawned particles: in one cell (`Stack`), one row, one column,
/// or a grid whose column count is the ceiling of the square root of `count`,
/// filled row by row.
pub fn spawnment_layout(mode: ArrangeMode, count: usize) -> (layout: SpawnLayout)
    ensures
        layout.cells@.len() == count,
        count == 0 ==> layout.cols == 0 && layout.rows == 0,
        count > 0 ==> layout_shape(mode, count as nat, layout.cols as nat, layout.rows as nat),
        forall|i: int|
            0 <= i < count ==> #[trigger] layout.cells@[i] == layout_cell(
                mode,
                layout.cols,
                i as usize,
            ),
        forall|i: int|
            0 <= i < count ==> (#[trigger] layout.cells@[i]).0 < layout.cols
                && layout.cells@[i].1 < layout.rows,
        mode == ArrangeMode::Grid && count > 0 ==> layout.rows <= layout.cols <= layout.rows + 1,
        mode != ArrangeMode::Stack ==> forall|i: int, j: int|
            0 <= i < j < count ==> #[trigger] layout.cells@[i] != #[trigger] layout.cells@[j],
        count > 0 && mode == ArrangeMode::Stack ==> layout.cols == 1 && layout.rows == 1,
        count > 0 && mode == ArrangeMode::Horizontal ==> layout.cols == count && layout.rows == 1,
        count > 0 && mode == ArrangeMode::Vertical ==> layout.cols == 1 && layout.rows == count,
        count > 0 && mode == ArrangeMode::Grid ==> {
            &&& layout.cols * layout.cols >= count
            &&& (layout.cols - 1) * (layout.cols - 1) < count
            &&& layout.rows * layout.cols >= count
            &&& (layout.rows - 1) * layout.cols < count
        },
        forall|i: int|
            0 <= i < count ==> #[trigger] layout.cells@[i] == match mode {
                ArrangeMode::Stack => (0usize, 0usize),
                ArrangeMode::Horizontal => (i as usize, 0usize),
                ArrangeMode::Vertical => (0usize, i as usize),
                ArrangeMode::Grid => ((i % layout.cols as int) as usize, (i / layout.cols as int) as usize),
            },
        mode != ArrangeMode::Stack ==> forall|i: int, j: int|
            0 <= i < j < count ==> (#[trigger] layout.cells@[i]).1 < (#[trigger] layout.cells@[j]).1
                || (layout.cells@[i].1 == layout.cells@[j].1 && layout.cells@[i].0
                < layout.cells@[j].0),
{
    if count == 0 {
        return SpawnLayout { cols: 0, rows: 0, cells: Vec::new() };
    }
    let (cols, rows): (usize, usize) = match mode {
        ArrangeMode::Stack => (1, 1),
        ArrangeMode::Horizontal => (count, 1),
        ArrangeMode::Vertical => (1, count),
        ArrangeMode::Grid => {
            let c = ceil_sqrt(count);
            assert(c > 0) by (nonlinear_arith)
                requires
                    c * c >= count,
                    count > 0,
            ;
            assert(count % c != 0 ==> count / c < count) by (nonlinear_arith)
                requires
                    c > 0,
                    count > 0,
            ;
            let r = if count % c == 0 { count / c } else { count / c + 1 };
            proof {
                vstd::arithmetic::div_mod::lemma_fundamental_div_mod(count as int, c as int);
                let q = count as int / c as int;
                let m = count as int % c as int;
                assert(r * c >= count && (r - 1) * c < count) by (nonlinear_arith)
                    requires
                        count == c * q + m,
                        0 <= m < c,
                        r == (if m == 0 { q } else { q + 1 }),
                ;
                assert(r <= c <= r + 1) by (nonlinear_arith)
                    requires
                        c * c >= count,
                        (c - 1) * (c - 1) < count,
                        r * c >= count,
                        (r - 1) * c < count,
                        c >= 1,
                {
                    if r > c {
                        assert((r - 1) * c >= c * c);
                    }
                    if c > r + 1 {
                        assert(r * c <= (c - 2) * c);
                        assert((c - 2) * c < (c - 1) * (c - 1));
                    }
                }
            }
            (c, r)
        },
    };
    let mut cells: Vec<(usize, usize)> = Vec::new();
    let mut i: usize = 0;
    while i < count
        invariant
            count > 0,
            layout_shape(mode, count as nat, cols as nat, rows as nat),
            i <= count,
            cells@.len() == i,
            forall|k: int| 0 <= k < i ==> #[trigger] cells@[k] == layout_cell(mode, cols, k as usize),
        decreases count - i,
    {
        let cell: (usize, usize) = match mode {
            ArrangeMode::Stack => (0, 0),
            ArrangeMode::Horizontal => (i, 0),
            ArrangeMode::Vertical => (0, i),
            ArrangeMode::Grid => (i % cols, i / cols),
        };
        cells.push(cell);
        i += 1;
    }
    let layout = SpawnLayout { cols, rows, cells };
    assert forall|i: int| 0 <= i < count implies (#[trigger] layout.cells@[i]).0 < layout.cols
        && layout.cells@[i].1 < layout.rows by {
        if mode == ArrangeMode::Grid {
            vstd::arithmetic::div_mod::lemma_fundamental_div_mod(i, cols as int);
            let q = i / cols as int;
            let m = i % cols as int;
            assert(q < rows) by (nonlinear_arith)
                requires
                    i == cols * q + m,
                    0 <= m < cols,
                    0 <= i < count,
                    rows * cols >= count,
            ;
        }
    }
    if mode != ArrangeMode::Stack {
        assert forall|i: int, j: int| 0 <= i < j < count implies #[trigger] layout.cells@[i]
            != #[trigger] layout.cells@[j] by {
            if mode == ArrangeMode::Grid {
                vstd::arithmetic::div_mod::lemma_fundamental_div_mod(i, cols as int);
                vstd::arithmetic::div_mod::lemma_fundamental_div_mod(j, cols as int);
            }
        }
        assert forall|i: int, j: int| 0 <= i < j < count implies (#[trigger] layout.cells@[i]).1
            < (#[trigger] layout.cells@[j]).1 || (layout.cells@[i].1 == layout.cells@[j].1
            && layout.cells@[i].0 < layout.cells@[j].0) by {
            if mode == ArrangeMode::Grid {
                let c = cols as int;
                vstd::arithmetic::div_mod::lemma_fundamental_div_mod(i, c);
                vstd::arithmetic::div_mod::lemma_fundamental_div_mod(j, c);
                vstd::arithmetic::div_mod::lemma_mod_bound(i, c);
                vstd::arithmetic::div_mod::lemma_mod_bound(j, c);
                let qi = i / c;
                let qj = j / c;
                let ri = i % c;
                let rj = j % c;
                assert(qi < qj || (qi == qj && ri < rj)) by (nonlinear_arith)
                    requires
                        i == c * qi + ri,
                        j == c * qj + rj,
                        0 <= ri < c,
                        0 <= rj < c,
                        i < j,
                {
                    if qi > qj {
                        assert(c * qi >= c * (qj + 1));
                    } else if qi == qj {
                    }
                }
            }
        }
    }
    layout
}

/// Whether a particle is being dragged with the mouse, and which one.
#[derive(Debug, Clone, Copy, PartialEq, Eq, Structural)]
pub struct DragState {
    pub dragging: bool,
    pub dragged_particle_index: Option<usize>,
}

impl DragState {
    /// A drag is under way exactly when a dragged particle is recorded.
    pub open spec fn wf(&self) -> bool {
        self.dragging == self.dragged_particle_index.is_some()
    }

    /// No drag under way.
    pub fn new() -> (state: Self)
        ensures
            !state.dragging,
            state.dragged_particle_index.is_none(),
    {
        DragState { dragging: false, dragged_particle_index: None }
    }

    /// The left button is held. When no drag is under way, `nearest_in_reach` is the
    /// particle nearest to the pointer if it lies within the selection radius, and a
    /// drag of it starts. Returns the particle that the pointer now moves, if any.
    pub fn press(&mut self, nearest_in_reach: Option<usize>) -> (moved: Option<usize>)
        ensures
            old(self).dragging ==> *final(self) == *old(self),
            !old(self).dragging && nearest_in_reach.is_some() ==> final(self).dragging
                && final(self).dragged_particle_index == nearest_in_reach,
            !old(self).dragging && nearest_in_reach.is_none() ==> *final(self) == *old(self),
            moved == final(self).dragged_particle_index,
            old(self).wf() ==> final(self).wf(),
    {
        if !self.dragging {
            if let Some(p) = nearest_in_reach {
                self.dragging = true;
                self.dragged_particle_index = Some(p);
            }
        }
        self.dragged_particle_index
    }

    /// The left button is up (or the pointer left the canvas): any drag ends.
    pub fn release(&mut self)
        ensures
            !final(self).dragging,
            final(self).dragged_particle_index.is_none(),
            final(self).wf(),
    {
        self.dragging = false;
        self.dragged_particle_index = None;
    }
}

} // verus!
