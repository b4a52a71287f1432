//! The scaling adapter between the logical grid and a physical surface: each
//! logical cell magnifies into an axis-aligned block of physical pixels.

use crate::snake::Position;
use vstd::prelude::*;

verus! {

/// An axis-aligned block of physical pixels: its origin corner and extent.
#[derive(Clone, Copy, PartialEq, Eq, Structural, Debug)]
pub struct Block {
    pub x: u32,
    pub y: u32,
    pub width: u32,
    pub height: u32,
}

/// Whether a physical pixel lies inside a block.
pub open spec fn block_covers(b: Block, px: int, py: int) -> bool {
    b.x <= px < b.x + b.width && b.y <= py < b.y + b.height
}

/// A view of a physical surface at reduced logical resolution: drawing a
/// logical cell fills a `scale_x` by `scale_y` block of physical pixels.
pub struct ScaledRenderer {
    size_x: u8,
    size_y: u8,
    scale_x: u8,
    scale_y: u8,
}

impl ScaledRenderer {
    /// The width of the logical grid.
    pub closed spec fn logical_w(self) -> u8 {
        self.size_x
    }

    /// The height of the logical grid.
    pub closed spec fn logical_h(self) -> u8 {
        self.size_y
    }

    /// The horizontal scale factor.
    pub closed spec fn scale_w(self) -> u8 {
        self.scale_x
    }

    /// The vertical scale factor.
    pub closed spec fn scale_h(self) -> u8 {
        self.scale_y
    }

    /// The block a logical cell magnifies into.
    pub open spec fn block_of(self, p: Position) -> Block {
        Block {
            x: (p.x * self.scale_w()) as u32,
            y: (p.y * self.scale_h()) as u32,
            width: self.scale_w() as u32,
            height: self.scale_h() as u32,
        }
    }

    /// A renderer over a `size_x` by `size_y` physical surface, which the
    /// scale factors must divide evenly.
    pub fn new(size_x: u8, size_y: u8, scale_x: u8, scale_y: u8) -> (r: ScaledRenderer)
        requires
            scale_x > 0,
            scale_y > 0,
            size_x % scale_x == 0,
            size_y % scale_y == 0,
        ensures
            r.logical_w() == size_x / scale_x,
            r.logical_h() == size_y / scale_y,
            r.scale_w() == scale_x,
            r.scale_h() == scale_y,
    {
        ScaledRenderer {
            size_x: size_x / scale_x,
            size_y: size_y / scale_y,
            scale_x,
            scale_y,
        }
    }

    /// The dimensions the renderer reports: the logical ones, not the
    /// physical ones.
    pub fn size(&self) -> (r: (u8, u8))
        ensures
            r.0 == self.logical_w(),
            r.1 == self.logical_h(),
    {
        (self.size_x, self.size_y)
    }

    /// The filled block of physical pixels for one logical cell: its origin
    /// is the cell's coordinates stretched by the scale factors, its extent
    /// is one scale factor per axis.
    pub fn block(&self, p: Position) -> (b: Block)
        ensures
            b == self.block_of(p),
            b.x == p.x * self.scale_w(),
            b.y == p.y * self.scale_h(),
            b.width == self.scale_w(),
            b.height == self.scale_h(),
    {
        proof {
            assert((p.x as int) * (self.scale_x as int) <= 255 * 255 && (p.y as int)
                * (self.scale_y as int) <= 255 * 255) by (nonlinear_arith)
                requires
                    p.x as int <= 255,
                    p.y as int <= 255,
                    self.scale_x as int <= 255,
                    self.scale_y as int <= 255,
                    0 <= p.x as int,
                    0 <= p.y as int,
                    0 <= self.scale_x as int,
                    0 <= self.scale_y as int,
            ;
        }
        Block {
            x: (p.x as u32) * (self.scale_x as u32),
            y: (p.y as u32) * (self.scale_y as u32),
            width: self.scale_x as u32,
            height: self.scale_y as u32,
        }
    }

    /// The blocks for a whole frame of logical cells, in drawing order.
    pub fn blocks(&self, cells: &Vec<Position>) -> (r: Vec<Block>)
        ensures
            r@.len() == cells@.len(),
            forall|i: int| 0 <= i < cells@.len() ==> r@[i] == self.block_of(#[trigger] cells@[i]),
    {
        let mut r: Vec<Block> = Vec::new();
        let mut i: usize = 0;
        while i < cells.len()
            invariant
                i <= cells@.len(),
                r@.len() == i,
                forall|j: int| 0 <= j < i ==> r@[j] == self.block_of(#[trigger] cells@[j]),
            decreases cells@.len() - i,
        {
            let b = self.block(cells[i]);
            r.push(b);
            i += 1;
        }
        r
    }

    /// A block covers exactly the physical pixels that the scale factors map
    /// back to its logical cell.
    pub proof fn lemma_block_exact(self, p: Position, px: int, py: int)
        requires
            self.scale_w() > 0,
            self.scale_h() > 0,
            0 <= px,
            0 <= py,
        ensures
            block_covers(self.block_of(p), px, py) <==> (px / (self.scale_w() as int)
                == p.x as int && py / (self.scale_h() as int) == p.y as int),
    {
        let sx = self.scale_w() as int;
        let sy = self.scale_h() as int;
        assert(0 <= (p.x as int) * sx && (p.x as int) * sx <= 255 * 255 && (p.x as int + 1) * sx
            == (p.x as int) * sx + sx) by (nonlinear_arith)
            requires
                0 <= p.x as int,
                p.x as int <= 255,
                0 < sx,
                sx <= 255,
        ;
        assert(0 <= (p.y as int) * sy && (p.y as int) * sy <= 255 * 255 && (p.y as int + 1) * sy
            == (p.y as int) * sy + sy) by (nonlinear_arith)
            requires
                0 <= p.y as int,
                p.y as int <= 255,
                0 < sy,
                sy <= 255,
        ;
        assert(self.block_of(p).x == (p.x as int) * sx);
        assert(self.block_of(p).y == (p.y as int) * sy);
        assert((px / sx == p.x as int) <==> (p.x as int * sx <= px < (p.x as int + 1) * sx))
            by (nonlinear_arith)
            requires
                sx > 0,
                0 <= px,
                0 <= p.x as int,
        ;
        assert((py / sy == p.y as int) <==> (p.y as int * sy <= py < (p.y as int + 1) * sy))
            by (nonlinear_arith)
            requires
                sy > 0,
                0 <= py,
                0 <= p.y as int,
        ;
    }
}

} // verus!
