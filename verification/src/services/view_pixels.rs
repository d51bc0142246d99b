use vstd::prelude::*;

verus! {

/// The width of the frame, in pixels.
pub const WIDTH: u32 = 320;

/// The height of the frame, in pixels.
pub const HEIGHT: u32 = 240;

/// The colour of the pixels inside the box.
pub open spec fn box_rgba() -> Seq<u8> {
    seq![0x5eu8, 0x48u8, 0xe8u8, 0xffu8]
}

/// The colour of the pixels outside the box.
pub open spec fn background_rgba() -> Seq<u8> {
    seq![0x48u8, 0xb2u8, 0xe8u8, 0xffu8]
}

/// A box that bounces around the frame and grows with each post it gets.
pub struct World {
    pub x: i16,
    pub y: i16,
    pub w: i16,
    pub h: i16,
    pub vx: i16,
    pub vy: i16,
}

/// The horizontal velocity after the bounce check: it turns round where the
/// box touches the left edge or reaches past the right one.
pub open spec fn next_vx(s: World) -> int {
    if s.x <= 0 || s.x + s.w > WIDTH as int {
        -s.vx
    } else {
        s.vx as int
    }
}

/// The vertical velocity after the bounce check: it turns round where the
/// box touches the top edge or reaches past the bottom one.
pub open spec fn next_vy(s: World) -> int {
    if s.y <= 0 || s.y + s.h > HEIGHT as int {
        -s.vy
    } else {
        s.vy as int
    }
}

/// Whether one update with `posts` posts stays within `i16`: the sums it
/// compares, the turned velocities, the new position and the grown size.
pub open spec fn update_fits(s: World, posts: int) -> bool {
    &&& (s.x > 0 ==> i16::MIN <= s.x + s.w <= i16::MAX)
    &&& (s.y > 0 ==> i16::MIN <= s.y + s.h <= i16::MAX)
    &&& i16::MIN <= next_vx(s) <= i16::MAX
    &&& i16::MIN <= next_vy(s) <= i16::MAX
    &&& i16::MIN <= s.x + next_vx(s) <= i16::MAX
    &&& i16::MIN <= s.y + next_vy(s) <= i16::MAX
    &&& s.w + 4 * posts <= i16::MAX
    &&& s.h + 4 * posts <= i16::MAX
}

/// The pixel column of pixel `i`.
pub open spec fn pixel_x(i: int) -> i16 {
    (i % WIDTH as int) as i16
}

/// The pixel row of pixel `i`, as the frame code casts it.
pub open spec fn pixel_y(i: int) -> i16 {
    (i / WIDTH as int) as i16
}

/// Whether pixel `i` lies inside the box.
pub open spec fn inside(s: World, i: int) -> bool {
    &&& pixel_x(i) >= s.x
    &&& pixel_x(i) < s.x + s.w
    &&& pixel_y(i) >= s.y
    &&& pixel_y(i) < s.y + s.h
}

/// Whether the sums that drawing `pixels` pixels evaluates stay within
/// `i16`: `x + w` for each pixel right of the box's left edge, and `y + h`
/// for each pixel that is also within its columns and below its top.
pub open spec fn draw_fits(s: World, pixels: int) -> bool {
    forall|i: int|
        #![trigger pixel_x(i)]
        0 <= i < pixels ==> (pixel_x(i) >= s.x ==> (i16::MIN <= s.x + s.w <= i16::MAX && (
        pixel_x(i) < s.x + s.w && pixel_y(i) >= s.y ==> i16::MIN <= s.y + s.h <= i16::MAX)))
}

/// The colour of byte `j` of the frame.
pub open spec fn frame_byte(s: World, j: int) -> u8 {
    if inside(s, j / 4) {
        box_rgba()[j % 4]
    } else {
        background_rgba()[j % 4]
    }
}

impl World {
    /// The box at (24, 16), empty, moving down and to the right.
    pub fn new() -> (r: Self)
        ensures
            r == (World { x: 24, y: 16, w: 0, h: 0, vx: 1, vy: 1 }),
    {
        World { x: 24, y: 16, w: 0, h: 0, vx: 1, vy: 1 }
    }

    /// Moves the box one step, turning round at the edges, then grows it by 4
    /// in width and height for each of the `posts` posts that came in.
    pub fn update(&mut self, posts: usize)
        requires
            update_fits(*old(self), posts as int),
        ensures
            final(self).vx == next_vx(*old(self)),
            final(self).vy == next_vy(*old(self)),
            final(self).x == old(self).x + next_vx(*old(self)),
            final(self).y == old(self).y + next_vy(*old(self)),
            final(self).w == old(self).w + 4 * posts,
            final(self).h == old(self).h + 4 * posts,
    {
        proof {
            assert(WIDTH as i16 == 320i16);
            assert(HEIGHT as i16 == 240i16);
        }
        if self.x <= 0 || self.x + self.w > WIDTH as i16 {
            self.vx = -self.vx;
        }
        if self.y <= 0 || self.y + self.h > HEIGHT as i16 {
            self.vy = -self.vy;
        }
        self.x = self.x + self.vx;
        self.y = self.y + self.vy;
        let mut k: usize = 0;
        while k < posts
            invariant
                k <= posts,
                self.w == old(self).w + 4 * k,
                self.h == old(self).h + 4 * k,
                old(self).w + 4 * posts <= i16::MAX,
                old(self).h + 4 * posts <= i16::MAX,
                self.x == old(self).x + next_vx(*old(self)),
                self.y == old(self).y + next_vy(*old(self)),
                self.vx == next_vx(*old(self)),
                self.vy == next_vy(*old(self)),
            decreases posts - k,
        {
            self.w = self.w + 4;
            self.h = self.h + 4;
            k = k + 1;
        }
    }

    /// Whether an update with `posts` posts stays within `i16`, as `update`
    /// asks.
    pub fn can_update(&self, posts: usize) -> (r: bool)
        ensures
            r == update_fits(*self, posts as int),
    {
        let x = self.x as i64;
        let y = self.y as i64;
        let w = self.w as i64;
        let h = self.h as i64;
        let lo = i16::MIN as i64;
        let hi = i16::MAX as i64;
        let vx = if x <= 0 || x + w > WIDTH as i64 {
            -(self.vx as i64)
        } else {
            self.vx as i64
        };
        let vy = if y <= 0 || y + h > HEIGHT as i64 {
            -(self.vy as i64)
        } else {
            self.vy as i64
        };
        if posts as u64 > 16384 {
            return false;
        }
        let grow = 4 * posts as i64;
        (x <= 0 || (lo <= x + w && x + w <= hi)) && (y <= 0 || (lo <= y + h && y + h <= hi)) && lo
            <= vx && vx <= hi && lo <= vy && vy <= hi && lo <= x + vx && x + vx <= hi && lo <= y
            + vy && y + vy <= hi && w + grow <= hi && h + grow <= hi
    }

    /// Whether drawing onto a frame of `len` bytes stays within `i16`, as
    /// `draw` asks.
    pub fn can_draw(&self, len: usize) -> (r: bool)
        ensures
            r == draw_fits(*self, (len / 4) as int),
    {
        let pixels = len / 4;
        let right: i32 = self.x as i32 + self.w as i32;
        let bottom: i32 = self.y as i32 + self.h as i32;
        let right_fits = i16::MIN as i32 <= right && right <= i16::MAX as i32;
        let bottom_fits = i16::MIN as i32 <= bottom && bottom <= i16::MAX as i32;
        let mut i: usize = 0;
        while i < pixels
            invariant
                pixels == len / 4,
                i <= pixels,
                right == self.x + self.w,
                bottom == self.y + self.h,
                right_fits == (i16::MIN <= self.x + self.w <= i16::MAX),
                bottom_fits == (i16::MIN <= self.y + self.h <= i16::MAX),
                draw_fits(*self, i as int),
            decreases pixels - i,
        {
            let x = (i % WIDTH as usize) as i16;
            let y = #[verifier::truncate] ((i / WIDTH as usize) as i16);
            proof {
                assert(x == pixel_x(i as int));
                assert(y == pixel_y(i as int));
            }
            if x >= self.x {
                if !right_fits {
                    proof {
                        assert(!(pixel_x(i as int) >= self.x ==> (i16::MIN <= self.x + self.w
                            <= i16::MAX)));
                    }
                    return false;
                }
                if (x as i32) < right && y >= self.y && !bottom_fits {
                    return false;
                }
            }
            proof {
                assert forall|j: int|
                    #![trigger pixel_x(j)]
                    0 <= j < i + 1 && pixel_x(j) >= self.x implies i16::MIN <= self.x + self.w
                        <= i16::MAX && (pixel_x(j) < self.x + self.w && pixel_y(j) >= self.y
                        ==> i16::MIN <= self.y + self.h <= i16::MAX) by {
                    if j < i {
                    } else {
                        assert(j == i);
                    }
                }
            }
            i = i + 1;
        }
        true
    }

    /// Paints the box onto `frame`, four bytes (RGBA) to a pixel, row by row
    /// with `WIDTH` pixels to a row; bytes after the last whole pixel stay as
    /// they were.
    pub fn draw(&self, frame: &mut [u8])
        requires
            draw_fits(*self, (old(frame)@.len() / 4) as int),
        ensures
            final(frame)@.len() == old(frame)@.len(),
            forall|j: int|
                0 <= j < (old(frame)@.len() / 4) * 4 ==> #[trigger] final(frame)@[j] == frame_byte(
                    *self,
                    j,
                ),
            forall|j: int|
                (old(frame)@.len() / 4) * 4 <= j < old(frame)@.len()
                    ==> #[trigger] final(frame)@[j] == old(frame)@[j],
    {
        let len = frame.len();
        let pixels = len / 4;
        let mut i: usize = 0;
        while i < pixels
            invariant
                pixels == old(frame)@.len() / 4,
                len == frame@.len(),
                frame@.len() == old(frame)@.len(),
                i <= pixels,
                draw_fits(*self, pixels as int),
                forall|j: int| 0 <= j < i * 4 ==> #[trigger] frame@[j] == frame_byte(*self, j),
                forall|j: int| i * 4 <= j < frame@.len() ==> #[trigger] frame@[j] == old(frame)@[j],
            decreases pixels - i,
        {
            let x = (i % WIDTH as usize) as i16;
            let y = #[verifier::truncate] ((i / WIDTH as usize) as i16);
            proof {
                assert(x == pixel_x(i as int));
                assert(y == pixel_y(i as int));
                assert(pixel_x(i as int) >= self.x ==> (i16::MIN <= self.x + self.w <= i16::MAX && (
                pixel_x(i as int) < self.x + self.w && pixel_y(i as int) >= self.y ==> i16::MIN
                    <= self.y + self.h <= i16::MAX)));
                assert(i * 4 + 4 <= frame@.len()) by (nonlinear_arith)
                    requires
                        i < pixels,
                        pixels == frame@.len() / 4,
                ;
            }
            let inside_the_box = x >= self.x && x < self.x + self.w && y >= self.y && y < self.y
                + self.h;
            let rgba: [u8; 4] = if inside_the_box {
                [0x5e, 0x48, 0xe8, 0xff]
            } else {
                [0x48, 0xb2, 0xe8, 0xff]
            };
            let base = i * 4;
            frame[base] = rgba[0];
            frame[base + 1] = rgba[1];
            frame[base + 2] = rgba[2];
            frame[base + 3] = rgba[3];
            proof {
                assert(inside_the_box == inside(*self, i as int));
                assert forall|j: int| 0 <= j < (i + 1) * 4 implies #[trigger] frame@[j]
                    == frame_byte(*self, j) by {
                    if j >= i * 4 {
                        assert(j / 4 == i);
                        assert(j % 4 == j - i * 4);
                    }
                }
            }
            i = i + 1;
        }
    }
}

} // verus!

verus! {

/// The box never changes speed: while each velocity is 1 or -1, so it is
/// after an update, which only ever turns it round.
pub proof fn law_speed_stays_one(s: World)
    requires
        s.vx == 1 || s.vx == -1,
        s.vy == 1 || s.vy == -1,
    ensures
        next_vx(s) == 1 || next_vx(s) == -1,
        next_vy(s) == 1 || next_vy(s) == -1,
{
}

/// The box bounces at the edges of the 320 x 240 frame: it keeps its
/// horizontal direction while its left edge is right of column 0 and its right
/// edge (`x + w`) is within the 320 columns, and turns round otherwise; and
/// likewise vertically with its top edge and its bottom edge (`y + h`) against
/// the 240 rows.
pub proof fn law_bounce_at_frame_edges(s: World)
    ensures
        WIDTH == 320 && HEIGHT == 240,
        s.x > 0 && s.x + s.w <= 320 ==> next_vx(s) == s.vx,
        s.x <= 0 || s.x + s.w > 320 ==> next_vx(s) == -s.vx,
        s.y > 0 && s.y + s.h <= 240 ==> next_vy(s) == s.vy,
        s.y <= 0 || s.y + s.h > 240 ==> next_vy(s) == -s.vy,
{
}

/// The frame is laid out row by row, 320 pixels to a row and four bytes
/// (red, green, blue, alpha) to a pixel: byte `b` of the pixel at column `cx`
/// and row `cy` is byte `4 * (cy * 320 + cx) + b`, and it holds the box
/// colour `5e 48 e8 ff` where that pixel lies inside the box and the
/// background colour `48 b2 e8 ff` where it does not.
pub proof fn law_frame_is_row_major(s: World, cx: int, cy: int, b: int)
    requires
        0 <= cx < 320,
        0 <= cy <= i16::MAX,
        0 <= b < 4,
    ensures
        s.x <= cx < s.x + s.w && s.y <= cy < s.y + s.h ==> frame_byte(s, 4 * (cy * 320 + cx) + b)
            == seq![0x5eu8, 0x48u8, 0xe8u8, 0xffu8][b],
        !(s.x <= cx < s.x + s.w && s.y <= cy < s.y + s.h) ==> frame_byte(
            s,
            4 * (cy * 320 + cx) + b,
        ) == seq![0x48u8, 0xb2u8, 0xe8u8, 0xffu8][b],
{
    let i = cy * 320 + cx;
    let j = 4 * i + b;
    assert(j / 4 == i && j % 4 == b) by (nonlinear_arith)
        requires
            j == 4 * i + b,
            0 <= b < 4,
            i >= 0,
    ;
    assert(i % 320 == cx && i / 320 == cy) by (nonlinear_arith)
        requires
            i == cy * 320 + cx,
            0 <= cx < 320,
            cy >= 0,
    ;
    assert(pixel_x(i) == cx);
    assert(pixel_y(i) == cy);
    assert(box_rgba() =~= seq![0x5eu8, 0x48u8, 0xe8u8, 0xffu8]);
    assert(background_rgba() =~= seq![0x48u8, 0xb2u8, 0xe8u8, 0xffu8]);
}

} // verus!
