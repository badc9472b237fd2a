//! Texture handles as the loader reasons about them.
//!
//! The rendering backend owns the pixel data; what the loader tracks of an
//! allocated texture is its size, and of a tiled texture the grid of tile
//! sizes. The grid is well-formed — every tile of a row shares the row's
//! height and every row's widths sum alike — so the whole texture's size is
//! the first row's width and the rows' summed heights.

use vstd::prelude::*;

verus! {

/// Width summed over the tiles of one row.
pub open spec fn row_width_sum(row: Seq<(usize, usize)>) -> int
    decreases row.len(),
{
    if row.len() == 0 {
        0
    } else {
        row_width_sum(row.drop_last()) + row.last().0
    }
}

/// Heights summed over the rows of a grid, each row counted by its first
/// tile.
pub open spec fn row_height_sum(rows: Seq<Vec<(usize, usize)>>) -> int
    decreases rows.len(),
{
    if rows.len() == 0 {
        0
    } else {
        row_height_sum(rows.drop_last()) + rows.last()@[0].1
    }
}

proof fn lemma_row_width_sum_nonneg(row: Seq<(usize, usize)>)
    ensures
        row_width_sum(row) >= 0,
    decreases row.len(),
{
    if row.len() > 0 {
        lemma_row_width_sum_nonneg(row.drop_last());
    }
}

proof fn lemma_row_width_take_le(row: Seq<(usize, usize)>, k: int)
    requires
        0 <= k <= row.len(),
    ensures
        row_width_sum(row.take(k)) <= row_width_sum(row),
    decreases row.len() - k,
{
    if k == row.len() {
        assert(row.take(k) =~= row);
    } else {
        lemma_row_width_take_le(row, k + 1);
        assert(row.take(k + 1).drop_last() =~= row.take(k));
        assert(row.take(k + 1).last() == row[k]);
    }
}

proof fn lemma_row_height_nonneg(rows: Seq<Vec<(usize, usize)>>)
    ensures
        row_height_sum(rows) >= 0,
    decreases rows.len(),
{
    if rows.len() > 0 {
        lemma_row_height_nonneg(rows.drop_last());
    }
}

proof fn lemma_row_height_take_le(rows: Seq<Vec<(usize, usize)>>, k: int)
    requires
        0 <= k <= rows.len(),
    ensures
        row_height_sum(rows.take(k)) <= row_height_sum(rows),
    decreases rows.len() - k,
{
    if k == rows.len() {
        assert(rows.take(k) =~= rows);
    } else {
        lemma_row_height_take_le(rows, k + 1);
        assert(rows.take(k + 1).drop_last() =~= rows.take(k));
        assert(rows.take(k + 1).last() == rows[k]);
    }
}

/// A well-formed tile grid: at least one row, no empty row, each tile as
/// tall as its row's first tile, every row's widths summing to the first
/// row's, and both totals fitting the machine.
pub open spec fn grid_wf(rows: Seq<Vec<(usize, usize)>>) -> bool {
    &&& rows.len() > 0
    &&& forall|i: int| 0 <= i < rows.len() ==> (#[trigger] rows[i])@.len() > 0
    &&& forall|i: int, j: int|
        0 <= i < rows.len() && 0 <= j < rows[i]@.len() ==> (#[trigger] rows[i]@[j]).1
            == rows[i]@[0].1
    &&& forall|i: int|
        0 <= i < rows.len() ==> row_width_sum((#[trigger] rows[i])@) == row_width_sum(rows[0]@)
    &&& row_width_sum(rows[0]@) <= usize::MAX
    &&& row_height_sum(rows) <= usize::MAX
}

/// A tiled texture: its name and the sizes of the tiles the backend holds
/// for it.
#[derive(Clone, Debug)]
pub struct SplittedTextureHandle {
    pub name: String,
    pub handles: Vec<Vec<(usize, usize)>>,
}

impl SplittedTextureHandle {
    /// The grid is well-formed.
    pub open spec fn wf(&self) -> bool {
        grid_wf(self.handles@)
    }

    /// Wrap a name and a tile grid.
    pub fn new(name: String, handles: Vec<Vec<(usize, usize)>>) -> (r: Self)
        ensures
            r.name == name,
            r.handles == handles,
    {
        SplittedTextureHandle { name, handles }
    }

    /// The whole texture's size: the first row's summed widths, and the
    /// rows' summed heights.
    pub fn size(&self) -> (r: [usize; 2])
        requires
            self.wf(),
        ensures
            r@[0] == row_width_sum(self.handles@[0]@),
            r@[1] == row_height_sum(self.handles@),
    {
        let first_row_len: usize = self.handles[0].len();
        let mut width: usize = 0;
        let mut j: usize = 0;
        proof {
            assert(self.handles@[0]@.take(0int) =~= Seq::<(usize, usize)>::empty());
        }
        while j < first_row_len
            invariant
                grid_wf(self.handles@),
                first_row_len == self.handles@[0]@.len(),
                j <= first_row_len,
                width == row_width_sum(self.handles@[0]@.take(j as int)),
            decreases first_row_len - j,
        {
            proof {
                lemma_row_width_take_le(self.handles@[0]@, j + 1);
                assert(self.handles@[0]@.take(j + 1).drop_last() =~= self.handles@[0]@.take(
                    j as int,
                ));
                assert(self.handles@[0]@.take(j + 1).last() == self.handles@[0]@[j as int]);
                lemma_row_width_sum_nonneg(self.handles@[0]@.take(j as int));
            }
            width = width + self.handles[0][j].0;
            j = j + 1;
        }
        proof {
            assert(self.handles@[0]@.take(first_row_len as int) =~= self.handles@[0]@);
        }
        let rows: usize = self.handles.len();
        let mut height: usize = 0;
        let mut i: usize = 0;
        proof {
            assert(self.handles@.take(0int) =~= Seq::<Vec<(usize, usize)>>::empty());
        }
        while i < rows
            invariant
                grid_wf(self.handles@),
                rows == self.handles@.len(),
                i <= rows,
                height == row_height_sum(self.handles@.take(i as int)),
            decreases rows - i,
        {
            proof {
                lemma_row_height_take_le(self.handles@, i + 1);
                assert(self.handles@.take(i + 1).drop_last() =~= self.handles@.take(i as int));
                assert(self.handles@.take(i + 1).last() == self.handles@[i as int]);
                lemma_row_height_nonneg(self.handles@.take(i as int));
            }
            height = height + self.handles[i][0].1;
            i = i + 1;
        }
        proof {
            assert(self.handles@.take(rows as int) =~= self.handles@);
        }
        [width, height]
    }
}

/// One frame of an animated texture: how long it shows, and its tiles.
#[derive(Clone, Debug)]
pub struct TextureFrameHandle {
    pub delay_ms: u64,
    pub texture: SplittedTextureHandle,
}

impl TextureFrameHandle {
    /// The frame's tiled texture.
    pub fn handle(&self) -> (r: &SplittedTextureHandle)
        ensures
            r == &self.texture,
    {
        &self.texture
    }

    /// How long the frame shows, in milliseconds.
    pub fn delay(&self) -> (r: u64)
        ensures
            r == self.delay_ms,
    {
        self.delay_ms
    }
}

/// An animated texture: its name and one tiled texture per frame.
#[derive(Clone, Debug)]
pub struct AnimatedTextureHandle {
    pub name: String,
    pub handles: Vec<TextureFrameHandle>,
}

/// The widest frame width among the first `k` frames.
pub open spec fn frames_max_width(frames: Seq<TextureFrameHandle>, k: int) -> int
    decreases k,
{
    if k <= 0 {
        0
    } else {
        let prev = frames_max_width(frames, k - 1);
        let w = row_width_sum(frames[k - 1].texture.handles@[0]@);
        if w > prev {
            w
        } else {
            prev
        }
    }
}

/// The tallest frame height among the first `k` frames.
pub open spec fn frames_max_height(frames: Seq<TextureFrameHandle>, k: int) -> int
    decreases k,
{
    if k <= 0 {
        0
    } else {
        let prev = frames_max_height(frames, k - 1);
        let h = row_height_sum(frames[k - 1].texture.handles@);
        if h > prev {
            h
        } else {
            prev
        }
    }
}

impl AnimatedTextureHandle {
    /// Every frame's grid is well-formed.
    pub open spec fn wf(&self) -> bool {
        forall|i: int| 0 <= i < self.handles@.len() ==> (#[trigger] self.handles@[i]).texture.wf()
    }

    /// Wrap a name and the per-frame textures.
    pub fn new(name: String, handles: Vec<TextureFrameHandle>) -> (r: Self)
        ensures
            r.name == name,
            r.handles == handles,
    {
        AnimatedTextureHandle { name, handles }
    }

    /// The frames, in order.
    pub fn items(&self) -> (r: &Vec<TextureFrameHandle>)
        ensures
            r == &self.handles,
    {
        &self.handles
    }

    /// The size that fits every frame: the widest frame's width and the
    /// tallest frame's height.
    pub fn max_size(&self) -> (r: [usize; 2])
        requires
            self.wf(),
        ensures
            r@[0] == frames_max_width(self.handles@, self.handles@.len() as int),
            r@[1] == frames_max_height(self.handles@, self.handles@.len() as int),
    {
        let mut size: [usize; 2] = [0, 0];
        let n: usize = self.handles.len();
        let mut i: usize = 0;
        let mut width: usize = 0;
        let mut height: usize = 0;
        while i < n
            invariant
                self.wf(),
                n == self.handles@.len(),
                i <= n,
                width == frames_max_width(self.handles@, i as int),
                height == frames_max_height(self.handles@, i as int),
            decreases n - i,
        {
            let s = self.handles[i].texture.size();
            if s[0] > width {
                width = s[0];
            }
            if s[1] > height {
                height = s[1];
            }
            i = i + 1;
        }
        [width, height]
    }
}

/// A delivered texture: still, or animated.
#[derive(Clone, Debug)]
pub enum TextureHandle {
    StaticTexture(SplittedTextureHandle),
    AnimatedTexture(AnimatedTextureHandle),
}

impl TextureHandle {
    /// The handle's grids are well-formed.
    pub open spec fn wf(&self) -> bool {
        match *self {
            TextureHandle::StaticTexture(h) => h.wf(),
            TextureHandle::AnimatedTexture(h) => h.wf(),
        }
    }

    /// The size that fits the texture: a still texture's own size, or the
    /// size fitting every frame of an animated one.
    pub fn max_size(&self) -> (r: [usize; 2])
        requires
            self.wf(),
        ensures
            match *self {
                TextureHandle::StaticTexture(h) => r@[0] == row_width_sum(h.handles@[0]@) && r@[1]
                    == row_height_sum(h.handles@),
                TextureHandle::AnimatedTexture(h) => r@[0] == frames_max_width(
                    h.handles@,
                    h.handles@.len() as int,
                ) && r@[1] == frames_max_height(h.handles@, h.handles@.len() as int),
            },
    {
        match self {
            TextureHandle::StaticTexture(handle) => handle.size(),
            TextureHandle::AnimatedTexture(handle) => handle.max_size(),
        }
    }
}

/// A still texture as the renderer views it.
#[derive(Clone, Debug)]
pub struct StaticTextureViewState {
    pub handle: SplittedTextureHandle,
}

/// An animated texture as the renderer views it: which frame shows.
#[derive(Clone, Debug)]
pub struct AnimatedTextureViewState {
    pub index: usize,
    pub handles: AnimatedTextureHandle,
}

impl AnimatedTextureViewState {
    /// Start at the first frame.
    pub fn new(handles: AnimatedTextureHandle) -> (r: Self)
        ensures
            r.index == 0,
            r.handles == handles,
    {
        AnimatedTextureViewState { index: 0, handles }
    }

    /// Step to the next frame, wrapping one frame early as the shown
    /// animation always has.
    pub fn next_index(&mut self)
        requires
            old(self).handles.handles@.len() > 0,
            old(self).index < usize::MAX,
        ensures
            final(self).handles == old(self).handles,
            final(self).index == (old(self).index + 1) as int % (if old(
                self,
            ).handles.handles@.len() - 1 >= 1 {
                old(self).handles.handles@.len() - 1
            } else {
                1int
            }),
    {
        let len: usize = self.handles.handles.len();
        let wrap: usize = if len - 1 >= 1 {
            len - 1
        } else {
            1
        };
        self.index = (self.index + 1) % wrap;
    }

    /// The frame that shows.
    pub fn frame(&self) -> (r: &TextureFrameHandle)
        requires
            self.index < self.handles.handles@.len(),
        ensures
            r == &self.handles.handles@[self.index as int],
    {
        &self.handles.handles[self.index]
    }
}

/// The placeholder shown while an entry loads: its name, and the size it
/// reserves when one is known.
#[derive(Clone, Debug)]
pub struct LoadingTexture {
    pub name: String,
    pub size: Option<(usize, usize)>,
}

impl LoadingTexture {
    /// A placeholder under a name, reserving a size when one is known.
    pub fn new(name: String, size: Option<(usize, usize)>) -> (r: Self)
        ensures
            r.name == name,
            r.size == size,
    {
        LoadingTexture { name, size }
    }

    /// The placeholder's name.
    pub fn name(&self) -> (r: &String)
        ensures
            r == &self.name,
    {
        &self.name
    }

    /// The size the placeholder reserves; twenty square when none is known.
    pub fn size_2(&self) -> (r: [usize; 2])
        ensures
            self.size matches Some(s) ==> r@[0] == s.0 && r@[1] == s.1,
            self.size is None ==> r@[0] == 20 && r@[1] == 20,
    {
        match self.size {
            Some(s) => [s.0, s.1],
            None => [20, 20],
        }
    }
}

} // verus!
