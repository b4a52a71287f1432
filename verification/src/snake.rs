//! The discrete-grid snake simulation: a bounded ordered body that advances
//! one tick at a time over a wrapping logical grid, a food entity placed off
//! the body by a random source, and the game state that ties them together.

use crate::rng::next_random_u32;
use rand::rngs::SmallRng;
use vstd::assert_by_contradiction;
use vstd::prelude::*;
use vstd::relations::injective_on;
use vstd::set_lib::{lemma_int_range, lemma_len_subset, lemma_map_size, set_int_range};

verus! {

/// A cell of the logical grid.
#[derive(Clone, Copy, PartialEq, Eq, Structural, Debug)]
pub struct Position {
    pub x: u8,
    pub y: u8,
}

/// The direction the snake moves in on the next tick; `Idle` keeps the head
/// in place while the tail still advances toward it.
#[derive(Clone, Copy, PartialEq, Eq, Structural, Debug)]
pub enum Direction {
    Left,
    Right,
    Up,
    Down,
    Idle,
}

/// Whether a cell lies on a `w` by `h` grid.
pub open spec fn in_grid(p: Position, w: u8, h: u8) -> bool {
    p.x < w && p.y < h
}

/// One move of a head cell: one step in the given direction, wrapping past
/// either edge of the grid to the opposite edge.
pub open spec fn wrap_step(p: Position, d: Direction, w: u8, h: u8) -> Position {
    match d {
        Direction::Left => Position {
            x: if p.x == 0 {
                (w - 1) as u8
            } else {
                (p.x - 1) as u8
            },
            y: p.y,
        },
        Direction::Right => Position {
            x: if p.x == w - 1 {
                0
            } else {
                (p.x + 1) as u8
            },
            y: p.y,
        },
        Direction::Up => Position {
            x: p.x,
            y: if p.y == 0 {
                (h - 1) as u8
            } else {
                (p.y - 1) as u8
            },
        },
        Direction::Down => Position {
            x: p.x,
            y: if p.y == h - 1 {
                0
            } else {
                (p.y + 1) as u8
            },
        },
        Direction::Idle => p,
    }
}

/// A step never leaves the grid.
pub proof fn lemma_wrap_step_in_grid(p: Position, d: Direction, w: u8, h: u8)
    requires
        w > 0,
        h > 0,
        in_grid(p, w, h),
    ensures
        in_grid(wrap_step(p, d, w, h), w, h),
{
}

/// A head on a boundary that moves further outward wraps to the opposite
/// boundary, on either axis.
pub proof fn lemma_wraparound(x: u8, y: u8, w: u8, h: u8)
    requires
        w > 0,
        h > 0,
        x < w,
        y < h,
    ensures
        wrap_step(Position { x: 0, y }, Direction::Left, w, h) == (Position {
            x: (w - 1) as u8,
            y,
        }),
        wrap_step(Position { x: (w - 1) as u8, y }, Direction::Right, w, h) == (Position {
            x: 0,
            y,
        }),
        wrap_step(Position { x, y: 0 }, Direction::Up, w, h) == (Position {
            x,
            y: (h - 1) as u8,
        }),
        wrap_step(Position { x, y: (h - 1) as u8 }, Direction::Down, w, h) == (Position {
            x,
            y: 0,
        }),
{
}

/// The snake: a fixed-capacity ordered body (`body()[0]` is the head), its
/// direction, and the logical grid it lives on. One slot past the live body
/// is kept as scratch for the shift step, so the body holds at most
/// `MAX_SIZE - 1` cells.
pub struct Snake<const MAX_SIZE: usize> {
    parts: Vec<Position>,
    len: usize,
    direction: Direction,
    size_x: u8,
    size_y: u8,
}

impl<const MAX_SIZE: usize> Snake<MAX_SIZE> {
    /// The snake's backing store is full-capacity, its body short of capacity,
    /// and every stored cell lies on the grid.
    pub closed spec fn wf(self) -> bool {
        &&& self.parts@.len() == MAX_SIZE
        &&& 0 < self.len < MAX_SIZE
        &&& self.size_x > 0
        &&& self.size_y > 0
        &&& forall|i: int|
            0 <= i < MAX_SIZE ==> in_grid(#[trigger] self.parts@[i], self.size_x, self.size_y)
    }

    /// The live body, head first.
    pub closed spec fn body(self) -> Seq<Position> {
        self.parts@.take(self.len as int)
    }

    /// The number of live body cells.
    pub closed spec fn length(self) -> int {
        self.len as int
    }

    /// The head cell.
    pub closed spec fn head(self) -> Position {
        self.parts@[0]
    }

    /// The scratch cell one slot past the live body.
    pub closed spec fn scratch(self) -> Position {
        self.parts@[self.len as int]
    }

    /// The direction of the next step.
    pub closed spec fn dir(self) -> Direction {
        self.direction
    }

    /// The width of the logical grid.
    pub closed spec fn grid_w(self) -> u8 {
        self.size_x
    }

    /// The height of the logical grid.
    pub closed spec fn grid_h(self) -> u8 {
        self.size_y
    }

    /// What the body view gives away for free to callers outside this module.
    pub proof fn lemma_body_shape(self)
        requires
            self.wf(),
        ensures
            self.body().len() == self.length(),
            0 < self.length() < MAX_SIZE,
            self.body()[0] == self.head(),
            forall|i: int|
                0 <= i < self.length() ==> in_grid(
                    #[trigger] self.body()[i],
                    self.grid_w(),
                    self.grid_h(),
                ),
    {
    }

    /// A fresh snake: five cells, all at the origin, not yet moving.
    pub fn new(size_x: u8, size_y: u8) -> (s: Snake<MAX_SIZE>)
        requires
            6 <= MAX_SIZE,
            size_x > 0,
            size_y > 0,
        ensures
            s.wf(),
            s.length() == 5,
            s.dir() == Direction::Idle,
            s.grid_w() == size_x,
            s.grid_h() == size_y,
            forall|i: int| 0 <= i < 5 ==> s.body()[i] == (Position { x: 0, y: 0 }),
    {
        let mut parts: Vec<Position> = Vec::new();
        let mut i: usize = 0;
        while i < MAX_SIZE
            invariant
                i <= MAX_SIZE,
                parts@.len() == i,
                forall|j: int| 0 <= j < i ==> parts@[j] == (Position { x: 0, y: 0 }),
            decreases MAX_SIZE - i,
        {
            parts.push(Position { x: 0, y: 0 });
            i += 1;
        }
        Snake { parts, len: 5, direction: Direction::Idle, size_x, size_y }
    }

    /// Point the snake in a direction for the coming ticks. Nothing is
    /// validated: a reversal into the body is allowed, as the game never
    /// checks self-collision.
    pub fn set_direction(&mut self, direction: Direction)
        ensures
            final(self).dir() == direction,
            final(self).body() == old(self).body(),
            final(self).length() == old(self).length(),
            final(self).grid_w() == old(self).grid_w(),
            final(self).grid_h() == old(self).grid_h(),
            final(self).head() == old(self).head(),
            final(self).scratch() == old(self).scratch(),
            old(self).wf() ==> final(self).wf(),
    {
        self.direction = direction;
    }

    /// Whether a cell lies on the live body.
    pub fn contains(&self, this: Position) -> (r: bool)
        requires
            self.wf(),
        ensures
            r == self.body().contains(this),
    {
        let mut i: usize = 0;
        while i < self.len
            invariant
                self.wf(),
                i <= self.len,
                forall|j: int| 0 <= j < i ==> self.parts@[j] != this,
            decreases self.len - i,
        {
            if self.parts[i] == this {
                proof {
                    assert(self.body()[i as int] == this);
                }
                return true;
            }
            i += 1;
        }
        proof {
            assert forall|j: int| 0 <= j < self.body().len() implies self.body()[j] != this by {
                assert(self.parts@[j] != this);
            }
        }
        false
    }

    /// Lengthen the body by one cell, unless it is already at capacity; the
    /// new cell is the scratch slot, which the shift step just filled with
    /// the old tail.
    pub fn grow(&mut self)
        requires
            old(self).wf(),
        ensures
            final(self).wf(),
            old(self).length() < MAX_SIZE - 1 ==> {
                &&& final(self).length() == old(self).length() + 1
                &&& final(self).body() == old(self).body().push(old(self).scratch())
            },
            old(self).length() >= MAX_SIZE - 1 ==> {
                &&& final(self).length() == old(self).length()
                &&& final(self).body() == old(self).body()
            },
            final(self).head() == old(self).head(),
            final(self).dir() == old(self).dir(),
            final(self).grid_w() == old(self).grid_w(),
            final(self).grid_h() == old(self).grid_h(),
    {
        if self.len < MAX_SIZE - 1 {
            self.len = self.len + 1;
            proof {
                assert(final(self).body() =~= old(self).body().push(old(self).scratch()));
            }
        }
    }

    /// Advance the body one step: each cell moves up to where its neighbor
    /// toward the head stood, and the head takes one wrapping step in the
    /// current direction. The old tail is left in the scratch slot.
    pub fn make_step(&mut self)
        requires
            old(self).wf(),
        ensures
            final(self).wf(),
            final(self).length() == old(self).length(),
            final(self).dir() == old(self).dir(),
            final(self).grid_w() == old(self).grid_w(),
            final(self).grid_h() == old(self).grid_h(),
            final(self).head() == wrap_step(
                old(self).head(),
                old(self).dir(),
                old(self).grid_w(),
                old(self).grid_h(),
            ),
            final(self).body() == seq![final(self).head()] + old(self).body().drop_last(),
            final(self).scratch() == old(self).body().last(),
    {
        let ghost orig = *self;
        let mut i: usize = self.len;
        while i > 0
            invariant
                self.parts@.len() == MAX_SIZE,
                self.len == orig.len,
                self.direction == orig.direction,
                self.size_x == orig.size_x,
                self.size_y == orig.size_y,
                orig.wf(),
                i <= self.len,
                forall|j: int| 0 <= j <= i ==> self.parts@[j] == orig.parts@[j],
                forall|j: int| i < j <= self.len ==> self.parts@[j] == orig.parts@[j - 1],
                forall|j: int| self.len < j < MAX_SIZE ==> self.parts@[j] == orig.parts@[j],
            decreases i,
        {
            let moved = self.parts[i - 1];
            self.parts[i] = moved;
            i -= 1;
        }
        let h = self.parts[0];
        proof {
            assert(self.parts@[0] == orig.parts@[0]);
            assert(in_grid(h, self.size_x, self.size_y));
        }
        let nh = match self.direction {
            Direction::Left => Position {
                x: if h.x == 0 {
                    self.size_x - 1
                } else {
                    h.x - 1
                },
                y: h.y,
            },
            Direction::Right => Position {
                x: if h.x == self.size_x - 1 {
                    0
                } else {
                    h.x + 1
                },
                y: h.y,
            },
            Direction::Up => Position {
                x: h.x,
                y: if h.y == 0 {
                    self.size_y - 1
                } else {
                    h.y - 1
                },
            },
            Direction::Down => Position {
                x: h.x,
                y: if h.y == self.size_y - 1 {
                    0
                } else {
                    h.y + 1
                },
            },
            Direction::Idle => h,
        };
        self.parts[0] = nh;
        proof {
            assert(nh == wrap_step(orig.head(), orig.dir(), orig.grid_w(), orig.grid_h()));
            lemma_wrap_step_in_grid(orig.head(), orig.dir(), orig.grid_w(), orig.grid_h());
            assert forall|j: int| 0 <= j < MAX_SIZE implies in_grid(
                #[trigger] self.parts@[j],
                self.size_x,
                self.size_y,
            ) by {
                if j == 0 {
                    assert(self.parts@[0] == nh);
                } else if j <= self.len {
                    assert(self.parts@[j] == orig.parts@[j - 1]);
                } else {
                    assert(self.parts@[j] == orig.parts@[j]);
                }
            }
            assert(final(self).body() =~= seq![nh] + orig.body().drop_last());
            assert(final(self).scratch() == orig.body().last());
        }
    }

    /// The live body as a vector, head first.
    pub fn segments(&self) -> (r: Vec<Position>)
        requires
            self.wf(),
        ensures
            r@ == self.body(),
    {
        let mut r: Vec<Position> = Vec::new();
        let mut i: usize = 0;
        while i < self.len
            invariant
                self.wf(),
                i <= self.len,
                r@.len() == i,
                forall|j: int| 0 <= j < i ==> r@[j] == self.parts@[j],
            decreases self.len - i,
        {
            r.push(self.parts[i]);
            i += 1;
        }
        proof {
            assert(r@ =~= self.body());
        }
        r
    }

    /// The head cell.
    pub fn get_head(&self) -> (r: Position)
        requires
            self.wf(),
        ensures
            r == self.head(),
    {
        self.parts[0]
    }

    /// The number of live body cells.
    pub fn get_len(&self) -> (r: usize)
        ensures
            r == self.length(),
    {
        self.len
    }
}

/// The cell that a row-major cell number names on a grid of height `h`.
pub open spec fn cell_of(j: int, h: int) -> Position {
    Position { x: (j / h) as u8, y: (j % h) as u8 }
}

/// A body shorter than the grid leaves some cell of it uncovered.
proof fn lemma_grid_pigeonhole(body: Seq<Position>, w: u8, h: u8)
    requires
        w > 0,
        h > 0,
        body.len() < (w as int) * (h as int),
    ensures
        exists|j: int|
            0 <= j < (w as int) * (h as int) && !body.contains(#[trigger] cell_of(j, h as int)),
{
    broadcast use vstd::seq_lib::group_seq_properties;

    let area = (w as int) * (h as int);
    assert_by_contradiction!(
        exists|j: int| 0 <= j < area && !body.contains(#[trigger] cell_of(j, h as int)),
        {
            let ids = set_int_range(0, area);
            let f = |j: int| cell_of(j, h as int);
            let cells = ids.map(f);
            lemma_int_range(0, area);
            assert forall|j1: int, j2: int|
                ids.contains(j1) && ids.contains(j2) && #[trigger] f(j1) == #[trigger] f(j2)
                implies j1 == j2 by {
                assert(j1 / (h as int) < 256 && j2 / (h as int) < 256) by (nonlinear_arith)
                    requires
                        0 <= j1 < (w as int) * (h as int),
                        0 <= j2 < (w as int) * (h as int),
                        0 < h as int,
                        w as int <= 255,
                ;
                assert(j1 / (h as int) == j2 / (h as int) && j1 % (h as int) == j2 % (h as int));
                vstd::arithmetic::div_mod::lemma_fundamental_div_mod(j1, h as int);
                vstd::arithmetic::div_mod::lemma_fundamental_div_mod(j2, h as int);
            }
            assert(injective_on(f, ids));
            lemma_map_size(ids, cells, f);
            assert forall|p: Position| cells.contains(p) implies body.to_set().contains(p) by {
                let j = choose|j: int| ids.contains(j) && f(j) == p;
                assert(body.contains(cell_of(j, h as int)));
            }
            body.lemma_cardinality_of_set();
            lemma_len_subset(cells, body.to_set());
        }
    );
}

/// The first cell, in row-major order, that the snake's body does not cover.
fn first_free_cell<const MAX_SIZE: usize>(snake: &Snake<MAX_SIZE>, w: u8, h: u8) -> (p: Position)
    requires
        snake.wf(),
        snake.grid_w() == w,
        snake.grid_h() == h,
        snake.length() < (w as int) * (h as int),
    ensures
        in_grid(p, w, h),
        !snake.body().contains(p),
{
    proof {
        assert((w as int) * (h as int) <= 255 * 255) by (nonlinear_arith)
            requires
                w as int <= 255,
                h as int <= 255,
        ;
    }
    let area: u32 = (w as u32) * (h as u32);
    let mut id: u32 = 0;
    while id < area
        invariant
            snake.wf(),
            snake.grid_w() == w,
            snake.grid_h() == h,
            snake.length() < (w as int) * (h as int),
            area == (w as int) * (h as int),
            id <= area,
            forall|j: int| 0 <= j < id ==> snake.body().contains(#[trigger] cell_of(j, h as int)),
        decreases area - id,
    {
        proof {
            assert(id as int / (h as int) < w as int) by (nonlinear_arith)
                requires
                    0 <= id as int,
                    (id as int) < (w as int) * (h as int),
                    0 < h as int,
            ;
        }
        let x = (id / (h as u32)) as u8;
        let y = (id % (h as u32)) as u8;
        let p = Position { x, y };
        proof {
            assert(p == cell_of(id as int, h as int));
        }
        if !snake.contains(p) {
            return p;
        }
        id += 1;
    }
    proof {
        lemma_grid_pigeonhole(snake.body(), w, h);
    }
    // Never reached: a full sweep finding no free cell contradicts the
    // pigeonhole argument above, since the body is shorter than the grid.
    Position { x: 0, y: 0 }
}

/// The food: one grid cell plus the random source that places it. At creation
/// and after every placement the cell avoids the snake's whole body.
pub struct Food {
    size_x: u8,
    size_y: u8,
    place: Position,
    rng: SmallRng,
}

impl Food {
    /// The food sits on a nonempty grid.
    pub closed spec fn wf(self) -> bool {
        &&& self.size_x > 0
        &&& self.size_y > 0
        &&& in_grid(self.place, self.size_x, self.size_y)
    }

    /// The cell the food occupies.
    pub closed spec fn position(self) -> Position {
        self.place
    }

    /// The width of the logical grid.
    pub closed spec fn grid_w(self) -> u8 {
        self.size_x
    }

    /// The height of the logical grid.
    pub closed spec fn grid_h(self) -> u8 {
        self.size_y
    }

    /// A fresh food entity at the origin, owning its random source.
    pub fn new(rand_source: SmallRng, size_x: u8, size_y: u8) -> (f: Food)
        requires
            size_x > 0,
            size_y > 0,
        ensures
            f.wf(),
            f.position() == (Position { x: 0, y: 0 }),
            f.grid_w() == size_x,
            f.grid_h() == size_y,
    {
        Food { size_x, size_y, place: Position { x: 0, y: 0 }, rng: rand_source }
    }

    /// Move the food to a cell the snake's body does not cover. Each draw
    /// takes two byte-wide random samples, reduces them modulo the grid
    /// dimensions, and rejects a candidate that hits the body; after a bounded
    /// run of rejections the first free cell in row-major order is taken, so
    /// the call terminates even though the random draws never have to land.
    pub fn replace<const MAX_SIZE: usize>(&mut self, iter_source: &Snake<MAX_SIZE>)
        requires
            old(self).wf(),
            iter_source.wf(),
            iter_source.grid_w() == old(self).grid_w(),
            iter_source.grid_h() == old(self).grid_h(),
            iter_source.length() < (old(self).grid_w() as int) * (old(self).grid_h() as int),
        ensures
            final(self).wf(),
            final(self).grid_w() == old(self).grid_w(),
            final(self).grid_h() == old(self).grid_h(),
            !iter_source.body().contains(final(self).position()),
            in_grid(final(self).position(), final(self).grid_w(), final(self).grid_h()),
    {
        let w = self.size_x;
        let h = self.size_y;
        let mut tries: u32 = 0;
        while tries < 64
            invariant
                self.size_x == w,
                self.size_y == h,
                w == old(self).grid_w(),
                h == old(self).grid_h(),
                self.place == old(self).place,
                old(self).wf(),
                iter_source.wf(),
                iter_source.grid_w() == w,
                iter_source.grid_h() == h,
                iter_source.length() < (w as int) * (h as int),
            decreases 64 - tries,
        {
            let random_number = next_random_u32(&mut self.rng);
            let p = Position {
                x: (#[verifier::truncate] ((random_number >> 24u32) as u8)) % w,
                y: (#[verifier::truncate] ((random_number >> 16u32) as u8)) % h,
            };
            if !iter_source.contains(p) {
                self.place = p;
                return ;
            }
            tries += 1;
        }
        let p = first_free_cell(iter_source, w, h);
        self.place = p;
    }

    /// The cell the food occupies.
    pub fn get_position(&self) -> (r: Position)
        ensures
            r == self.position(),
    {
        self.place
    }
}

/// The running game: the snake, the food with its age and lifetime, and the
/// physical surface dimensions with the per-axis scale factors that give the
/// logical grid.
pub struct SnakeGame<const MAX_SIZE: usize> {
    snake: Snake<MAX_SIZE>,
    food: Food,
    food_age: u8,
    food_lifetime: u8,
    size_x: u8,
    size_y: u8,
    scale_x: u8,
    scale_y: u8,
}

impl<const MAX_SIZE: usize> SnakeGame<MAX_SIZE> {
    /// The game invariant: snake and food agree on a logical grid that the
    /// scale factors carve evenly out of the physical surface and that is
    /// roomier than the snake's capacity; the food is never on the body; and
    /// the food's age is always short of its lifetime unless just reset.
    pub closed spec fn wf(self) -> bool {
        &&& self.snake.wf()
        &&& self.food.wf()
        &&& self.scale_x > 0
        &&& self.scale_y > 0
        &&& self.size_x % self.scale_x == 0
        &&& self.size_y % self.scale_y == 0
        &&& self.snake.grid_w() == self.size_x / self.scale_x
        &&& self.snake.grid_h() == self.size_y / self.scale_y
        &&& self.food.grid_w() == self.snake.grid_w()
        &&& self.food.grid_h() == self.snake.grid_h()
        &&& (MAX_SIZE as int) < (self.snake.grid_w() as int) * (self.snake.grid_h() as int)
        &&& !self.snake.body().contains(self.food.position())
        &&& (self.food_age == 0 || self.food_age < self.food_lifetime)
    }

    /// The snake's live body, head first.
    pub closed spec fn body(self) -> Seq<Position> {
        self.snake.body()
    }

    /// The snake's head cell.
    pub closed spec fn head(self) -> Position {
        self.snake.head()
    }

    /// The number of live body cells.
    pub closed spec fn snake_length(self) -> int {
        self.snake.length()
    }

    /// The direction of the next tick.
    pub closed spec fn dir(self) -> Direction {
        self.snake.dir()
    }

    /// The cell the food occupies.
    pub closed spec fn food_position(self) -> Position {
        self.food.position()
    }

    /// Ticks since the food was last placed.
    pub closed spec fn age(self) -> int {
        self.food_age as int
    }

    /// Ticks a food placement survives if never eaten.
    pub closed spec fn lifetime(self) -> int {
        self.food_lifetime as int
    }

    /// The width of the logical grid.
    pub closed spec fn grid_w(self) -> u8 {
        self.snake.grid_w()
    }

    /// The height of the logical grid.
    pub closed spec fn grid_h(self) -> u8 {
        self.snake.grid_h()
    }

    /// The horizontal scale factor.
    pub closed spec fn scale_w(self) -> u8 {
        self.scale_x
    }

    /// The vertical scale factor.
    pub closed spec fn scale_h(self) -> u8 {
        self.scale_y
    }

    /// What the game invariant gives away to callers outside this module.
    pub proof fn lemma_game_shape(self)
        requires
            self.wf(),
        ensures
            self.body().len() == self.snake_length(),
            0 < self.snake_length() < MAX_SIZE,
            self.body()[0] == self.head(),
            !self.body().contains(self.food_position()),
            in_grid(self.food_position(), self.grid_w(), self.grid_h()),
            forall|i: int|
                0 <= i < self.snake_length() ==> in_grid(
                    #[trigger] self.body()[i],
                    self.grid_w(),
                    self.grid_h(),
                ),
            self.age() == 0 || self.age() < self.lifetime(),
    {
        self.snake.lemma_body_shape();
    }

    /// A fresh game over a `size_x` by `size_y` surface scaled down by the
    /// two factors: a five-cell snake at the origin, and food already placed
    /// off the body by the given random source.
    pub fn new(
        size_x: u8,
        size_y: u8,
        scale_x: u8,
        scale_y: u8,
        rand_source: SmallRng,
        food_lifetime: u8,
    ) -> (g: SnakeGame<MAX_SIZE>)
        requires
            6 <= MAX_SIZE,
            scale_x > 0,
            scale_y > 0,
            size_x % scale_x == 0,
            size_y % scale_y == 0,
            size_x / scale_x > 0,
            size_y / scale_y > 0,
            (MAX_SIZE as int) < ((size_x / scale_x) as int) * ((size_y / scale_y) as int),
        ensures
            g.wf(),
            g.snake_length() == 5,
            g.dir() == Direction::Idle,
            g.age() == 0,
            g.lifetime() == food_lifetime,
            g.grid_w() == size_x / scale_x,
            g.grid_h() == size_y / scale_y,
            g.scale_w() == scale_x,
            g.scale_h() == scale_y,
            forall|i: int| 0 <= i < 5 ==> g.body()[i] == (Position { x: 0, y: 0 }),
    {
        let grid_w = size_x / scale_x;
        let grid_h = size_y / scale_y;
        let snake = Snake::<MAX_SIZE>::new(grid_w, grid_h);
        let mut food = Food::new(rand_source, grid_w, grid_h);
        food.replace(&snake);
        SnakeGame {
            snake,
            food,
            food_age: 0,
            food_lifetime,
            size_x,
            size_y,
            scale_x,
            scale_y,
        }
    }

    /// Point the snake in a direction for the coming ticks.
    pub fn set_direction(&mut self, direction: Direction)
        requires
            old(self).wf(),
        ensures
            final(self).wf(),
            final(self).dir() == direction,
            final(self).body() == old(self).body(),
            final(self).snake_length() == old(self).snake_length(),
            final(self).head() == old(self).head(),
            final(self).food_position() == old(self).food_position(),
            final(self).age() == old(self).age(),
            final(self).lifetime() == old(self).lifetime(),
            final(self).grid_w() == old(self).grid_w(),
            final(self).grid_h() == old(self).grid_h(),
            final(self).scale_w() == old(self).scale_w(),
            final(self).scale_h() == old(self).scale_h(),
    {
        self.snake.set_direction(direction);
    }

    /// Advance the game one tick: shift the body and step the head with
    /// wraparound; a head landing on the food eats it, growing the body by
    /// one cell unless the capacity ceiling caps it; the food ages by one
    /// tick and is placed afresh, off the post-growth body, exactly when it
    /// was eaten or its age reached its lifetime, its age then resetting.
    pub fn tick(&mut self)
        requires
            old(self).wf(),
        ensures
            final(self).wf(),
            final(self).lifetime() == old(self).lifetime(),
            final(self).dir() == old(self).dir(),
            final(self).grid_w() == old(self).grid_w(),
            final(self).grid_h() == old(self).grid_h(),
            final(self).scale_w() == old(self).scale_w(),
            final(self).scale_h() == old(self).scale_h(),
            ({
                let nh = wrap_step(
                    old(self).head(),
                    old(self).dir(),
                    old(self).grid_w(),
                    old(self).grid_h(),
                );
                let hit = nh == old(self).food_position();
                let grew = hit && old(self).snake_length() < MAX_SIZE - 1;
                let nl = old(self).snake_length() + if grew {
                    1int
                } else {
                    0int
                };
                let respawn = hit || old(self).age() + 1 >= old(self).lifetime();
                &&& final(self).head() == nh
                &&& final(self).snake_length() == nl
                &&& final(self).body() == seq![nh] + old(self).body().take(nl - 1)
                &&& (respawn ==> final(self).age() == 0)
                &&& (!respawn ==> final(self).age() == old(self).age() + 1)
                &&& (!respawn ==> final(self).food_position() == old(self).food_position())
                &&& !final(self).body().contains(final(self).food_position())
            }),
    {
        let ghost orig = *self;
        proof {
            orig.snake.lemma_body_shape();
        }
        self.snake.make_step();
        let food_cell = self.food.get_position();
        let hit = self.snake.contains(food_cell);
        proof {
            // The shifted tail is part of the old body, which avoided the
            // food, so a hit can only be the new head landing on it.
            let nh = wrap_step(orig.head(), orig.dir(), orig.grid_w(), orig.grid_h());
            let b1 = self.snake.body();
            assert(b1 == seq![nh] + orig.body().drop_last());
            assert(b1.len() == orig.body().len());
            if nh == orig.food_position() {
                assert(b1[0] == nh);
                assert(b1.contains(food_cell));
            }
            if b1.contains(food_cell) {
                let i = choose|i: int| 0 <= i < b1.len() && b1[i] == food_cell;
                if i > 0 {
                    assert(b1[i] == orig.body().drop_last()[i - 1]);
                    assert(orig.body()[i - 1] == food_cell);
                    assert(orig.body().contains(food_cell));
                    assert(false);
                }
                assert(b1[0] == nh);
            }
            assert(hit == (nh == orig.food_position()));
        }
        if hit {
            self.snake.grow();
        }
        proof {
            let nh = wrap_step(orig.head(), orig.dir(), orig.grid_w(), orig.grid_h());
            let grew = hit && orig.snake_length() < MAX_SIZE - 1;
            let nl = orig.snake_length() + if grew {
                1int
            } else {
                0int
            };
            assert(self.snake.body() =~= seq![nh] + orig.body().take(nl - 1));
            // The post-growth body still avoids the food unless the head ate it.
            assert forall|i: int|
                0 < i < self.snake.body().len() implies self.snake.body()[i]
                != orig.food_position() by {
                assert(orig.body().contains(orig.body()[i - 1]));
            }
        }
        self.food_age = self.food_age + 1;
        if self.food_age >= self.food_lifetime || hit {
            self.food.replace(&self.snake);
            self.food_age = 0;
        }
    }

    /// The cells a frame paints: every live body cell, head first, then the
    /// food cell.
    pub fn cells(&self) -> (r: Vec<Position>)
        requires
            self.wf(),
        ensures
            r@ == self.body().push(self.food_position()),
    {
        let mut r = self.snake.segments();
        r.push(self.food.get_position());
        proof {
            assert(r@ =~= self.body().push(self.food_position()));
        }
        r
    }

    /// The snake's head cell.
    pub fn get_head(&self) -> (r: Position)
        requires
            self.wf(),
        ensures
            r == self.head(),
    {
        self.snake.get_head()
    }

    /// The number of live body cells.
    pub fn get_len(&self) -> (r: usize)
        ensures
            r == self.snake_length(),
    {
        self.snake.get_len()
    }

    /// The cell the food occupies.
    pub fn get_food_position(&self) -> (r: Position)
        ensures
            r == self.food_position(),
    {
        self.food.get_position()
    }

    /// Ticks since the food was last placed.
    pub fn get_food_age(&self) -> (r: u8)
        ensures
            r == self.age(),
    {
        self.food_age
    }

    /// The snake's live body as a vector, head first.
    pub fn segments(&self) -> (r: Vec<Position>)
        requires
            self.wf(),
        ensures
            r@ == self.body(),
    {
        self.snake.segments()
    }

    /// The scaling view of the physical surface that this game draws through.
    pub fn renderer(&self) -> (r: crate::render::ScaledRenderer)
        requires
            self.wf(),
        ensures
            r.logical_w() == self.grid_w(),
            r.logical_h() == self.grid_h(),
            r.scale_w() == self.scale_w(),
            r.scale_h() == self.scale_h(),
    {
        crate::render::ScaledRenderer::new(self.size_x, self.size_y, self.scale_x, self.scale_y)
    }
}

} // verus!
