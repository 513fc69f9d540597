//! The packed 64x32 display: how a sprite changes it, and how it unpacks.

use vstd::prelude::*;

verus! {

/// The sprite row that lands on display row `row` when a sprite of `n` rows
/// is drawn from row `y0`, or -1 where none does. Rows past the bottom
/// continue at the top only when wrapping.
pub open spec fn sprite_row_on(wrap: bool, y0: int, n: int, row: int) -> int {
    let down = if row >= y0 {
        row - y0
    } else {
        row - y0 + 32
    };
    if down < n && (wrap || row >= y0) {
        down
    } else {
        -1
    }
}

/// What one sprite row `bits`, drawn from column `x0`, contributes to the
/// byte in byte column `column` of its display row. The part that crosses
/// the right edge continues in the first byte of the same row only when
/// wrapping.
pub open spec fn row_mask(bits: u8, x0: int, wrap: bool, column: int) -> u8 {
    let first = x0 / 8;
    let shift = (x0 % 8) as u8;
    if column == first {
        bits >> shift
    } else if column == (first + 1) % 8 && (wrap || first != 7) {
        (((bits as u16) << ((8 - shift) as u16)) & 0xFF) as u8
    } else {
        0u8
    }
}

/// What a sprite of `n` rows, read from `memory` at `base` and drawn from
/// pixel (`x0`, `y0`), contributes to byte `i` of the framebuffer.
pub open spec fn sprite_mask(
    memory: Seq<u8>,
    base: int,
    n: int,
    x0: int,
    y0: int,
    wrap: bool,
    i: int,
) -> u8 {
    let k = sprite_row_on(wrap, y0, n, i / 8);
    if k < 0 {
        0u8
    } else {
        row_mask(memory[base + k], x0, wrap, i % 8)
    }
}

/// The framebuffer after the sprite is drawn into `frame`: every byte is
/// combined by exclusive or with what the sprite contributes to it.
#[verifier::opaque]
pub open spec fn drawn(
    frame: Seq<u8>,
    memory: Seq<u8>,
    base: int,
    n: int,
    x0: int,
    y0: int,
    wrap: bool,
) -> Seq<u8> {
    Seq::new(256, |i: int| frame[i] ^ sprite_mask(memory, base, n, x0, y0, wrap, i))
}

/// Whether drawing the sprite into `frame` turns off a pixel that was lit.
#[verifier::opaque]
pub open spec fn collides(
    frame: Seq<u8>,
    memory: Seq<u8>,
    base: int,
    n: int,
    x0: int,
    y0: int,
    wrap: bool,
) -> bool {
    exists|i: int|
        0 <= i < 256 && frame[i] & #[trigger] sprite_mask(memory, base, n, x0, y0, wrap, i) != 0
}

/// The number of sprite rows that are read when a sprite of `n` rows is
/// drawn from row `y0`: all of them when wrapping, else those that fit
/// above the bottom edge.
pub open spec fn rows_drawn(wrap: bool, y0: int, n: int) -> int {
    if wrap || n <= 32 - y0 {
        n
    } else {
        32 - y0
    }
}

/// Whether pixel `k` of a byte, counted from its most significant bit, is lit.
pub open spec fn bit_lit(byte: u8, k: int) -> bool {
    (byte >> ((7 - k) as u8)) & 1 == 1
}

/// Whether the pixel in column `col` of row `row` is lit in `frame`.
pub open spec fn pixel(frame: Seq<u8>, col: int, row: int) -> bool {
    bit_lit(frame[row * 8 + col / 8], col % 8)
}

/// Whether the sprite has a lit pixel at display position (`col`, `row`).
pub open spec fn sprite_pixel(
    memory: Seq<u8>,
    base: int,
    n: int,
    x0: int,
    y0: int,
    wrap: bool,
    col: int,
    row: int,
) -> bool {
    let k = sprite_row_on(wrap, y0, n, row);
    let right = if col >= x0 {
        col - x0
    } else {
        col - x0 + 64
    };
    k >= 0 && right < 8 && (wrap || col >= x0) && bit_lit(memory[base + k], right)
}

/// Draws the first `rows` rows of the sprite at `base` into `frame`, from
/// pixel (`x_loc`, `y_loc`), and says whether a lit pixel went out.
pub(crate) fn draw_rows(
    frame: &mut [u8; 256],
    memory: &[u8; 4096],
    base: usize,
    rows: u8,
    x_loc: u8,
    y_loc: u8,
    wrap: bool,
) -> (collision: bool)
    requires
        rows <= 15,
        x_loc < 64,
        y_loc < 32,
        wrap || y_loc + rows <= 32,
        rows > 0 ==> base + rows <= 4096,
    ensures
        final(frame)@ == drawn(
            old(frame)@,
            memory@,
            base as int,
            rows as int,
            x_loc as int,
            y_loc as int,
            wrap,
        ),
        collision == collides(
            old(frame)@,
            memory@,
            base as int,
            rows as int,
            x_loc as int,
            y_loc as int,
            wrap,
        ),
{
    let column: u8 = x_loc / 8;
    let offset: u8 = x_loc % 8;
    let is_edge_x: bool = column == 7;
    let column_next: u8 = if is_edge_x {
        0
    } else {
        column + 1
    };
    let ghost x0 = x_loc as int;
    let ghost y0 = y_loc as int;
    let mut y: u8 = y_loc;
    let mut row: u8 = 0;
    let mut collision: bool = false;
    proof {
        lemma_nothing_drawn(old(frame)@, memory@, base as int, x0, y0, wrap);
    }
    while row < rows
        invariant
            row <= rows <= 15,
            wrap || y0 + rows <= 32,
            x0 == x_loc < 64,
            y0 == y_loc < 32,
            column == x_loc / 8,
            offset == x_loc % 8,
            is_edge_x == (column == 7),
            column_next == (column + 1) % 8,
            y == (y0 + row) % 32,
            rows > 0 ==> base + rows <= 4096,
            frame@ == drawn(old(frame)@, memory@, base as int, row as int, x0, y0, wrap),
            collision == collides(old(frame)@, memory@, base as int, row as int, x0, y0, wrap),
        decreases rows - row,
    {
        let sprite_pxs: u8 = memory[base + row as usize];
        let current: usize = y as usize * 8 + column as usize;
        let next: usize = y as usize * 8 + column_next as usize;
        let current_before: u8 = frame[current];
        let next_before: u8 = frame[next];
        let ghost before = frame@;
        frame[current] = current_before ^ (sprite_pxs >> offset);
        let flag_for_index: u8 = !(frame[current] & current_before) & current_before;
        let mut flag_for_next: u8 = 0;
        if wrap || !is_edge_x {
            frame[next] = next_before ^ ((((sprite_pxs as u16) << ((8 - offset) as u16))
                & 0xFF) as u8);
            flag_for_next = !(frame[next] & next_before) & next_before;
        }
        proof {
            let near = sprite_pxs >> offset;
            let far = (((sprite_pxs as u16) << ((8 - offset) as u16)) & 0xFF) as u8;
            assert(memory@[base + row] == sprite_pxs);
            assert(row_mask(sprite_pxs, x0, wrap, column as int) == near);
            assert(wrap || column != 7 ==> row_mask(sprite_pxs, x0, wrap, column_next as int)
                == far);
            lemma_row_drawn(
                old(frame)@,
                memory@,
                base as int,
                row as int,
                x0,
                y0,
                wrap,
                before,
                frame@,
                current as int,
                next as int,
                near,
                far,
                flag_for_index,
                flag_for_next,
            );
        }
        if flag_for_index != 0 || flag_for_next != 0 {
            collision = true;
        }
        y = if y == 31 {
            0
        } else {
            y + 1
        };
        row += 1;
    }
    collision
}

/// Facts about single bytes that the draw proof needs.
proof fn lemma_byte_facts()
    by (bit_vector)
    ensures
        forall|a: u8| #[trigger] (a ^ 0) == a,
        forall|a: u8| #[trigger] (a & 0) == 0,
        forall|a: u8, b: u8| (!(#[trigger] (a ^ b) & a)) & a == a & b,
{
}

/// A sprite without rows changes nothing and collides with nothing.
proof fn lemma_nothing_drawn(
    frame: Seq<u8>,
    memory: Seq<u8>,
    base: int,
    x0: int,
    y0: int,
    wrap: bool,
)
    requires
        frame.len() == 256,
    ensures
        drawn(frame, memory, base, 0, x0, y0, wrap) == frame,
        !collides(frame, memory, base, 0, x0, y0, wrap),
{
    reveal(drawn);
    reveal(collides);
    lemma_byte_facts();
    assert forall|i: int| 0 <= i < 256 implies sprite_mask(memory, base, 0, x0, y0, wrap, i)
        == 0 by {}
    assert(drawn(frame, memory, base, 0, x0, y0, wrap) =~= frame);
}

/// One more sprite row: the framebuffer with `k` rows drawn, changed at the
/// two bytes that row `k` touches, is the framebuffer with `k + 1` rows
/// drawn, and the two collision tests of that row extend the collision.
proof fn lemma_row_drawn(
    frame: Seq<u8>,
    memory: Seq<u8>,
    base: int,
    k: int,
    x0: int,
    y0: int,
    wrap: bool,
    before: Seq<u8>,
    after: Seq<u8>,
    current: int,
    next: int,
    near: u8,
    far: u8,
    flag_for_index: u8,
    flag_for_next: u8,
)
    requires
        frame.len() == 256,
        0 <= k < 15,
        0 <= x0 < 64,
        0 <= y0 < 32,
        wrap || y0 + k < 32,
        before == drawn(frame, memory, base, k, x0, y0, wrap),
        current == ((y0 + k) % 32) * 8 + x0 / 8,
        next == ((y0 + k) % 32) * 8 + (x0 / 8 + 1) % 8,
        near == row_mask(memory[base + k], x0, wrap, x0 / 8),
        wrap || x0 / 8 != 7 ==> far == row_mask(memory[base + k], x0, wrap, (x0 / 8 + 1) % 8),
        flag_for_index == !((before[current] ^ near) & before[current]) & before[current],
        wrap || x0 / 8 != 7 ==> after == before.update(current, before[current] ^ near).update(
            next,
            before[next] ^ far,
        ) && flag_for_next == !((before[next] ^ far) & before[next]) & before[next],
        !(wrap || x0 / 8 != 7) ==> after == before.update(current, before[current] ^ near)
            && flag_for_next == 0,
    ensures
        after == drawn(frame, memory, base, k + 1, x0, y0, wrap),
        collides(frame, memory, base, k + 1, x0, y0, wrap) == (collides(
            frame,
            memory,
            base,
            k,
            x0,
            y0,
            wrap,
        ) || flag_for_index != 0 || flag_for_next != 0),
{
    reveal(drawn);
    reveal(collides);
    lemma_byte_facts();
    let row = (y0 + k) % 32;
    let bits = memory[base + k];
    assert forall|i: int| 0 <= i < 256 implies #[trigger] sprite_mask(
        memory,
        base,
        k + 1,
        x0,
        y0,
        wrap,
        i,
    ) == (if i / 8 == row {
        row_mask(bits, x0, wrap, i % 8)
    } else {
        sprite_mask(memory, base, k, x0, y0, wrap, i)
    }) && (i / 8 == row ==> sprite_mask(memory, base, k, x0, y0, wrap, i) == 0) by {}
    assert(after =~= drawn(frame, memory, base, k + 1, x0, y0, wrap));
    let more = collides(frame, memory, base, k + 1, x0, y0, wrap);
    let less = collides(frame, memory, base, k, x0, y0, wrap);
    assert(before[current] == frame[current]);
    assert(before[next] == frame[next]);
    if less {
        let i = choose|i: int|
            0 <= i < 256 && frame[i] & #[trigger] sprite_mask(memory, base, k, x0, y0, wrap, i)
                != 0;
        assert(i / 8 != row);
        assert(frame[i] & sprite_mask(memory, base, k + 1, x0, y0, wrap, i) != 0);
    }
    if flag_for_index != 0 {
        assert(frame[current] & sprite_mask(memory, base, k + 1, x0, y0, wrap, current) != 0);
    }
    if flag_for_next != 0 {
        assert(frame[next] & sprite_mask(memory, base, k + 1, x0, y0, wrap, next) != 0);
    }
    if more {
        let i = choose|i: int|
            0 <= i < 256 && frame[i] & #[trigger] sprite_mask(
                memory,
                base,
                k + 1,
                x0,
                y0,
                wrap,
                i,
            ) != 0;
        if i / 8 != row {
            assert(frame[i] & sprite_mask(memory, base, k, x0, y0, wrap, i) != 0);
        } else if i == current {
        } else if i == next {
        } else {
            assert(row_mask(bits, x0, wrap, i % 8) == 0);
        }
    }
}

/// Without wrapping, the rows that do not fit above the bottom edge draw
/// nothing: the sprite cut to the rows that are read is the whole sprite.
pub proof fn law_rows_read_are_the_sprite(
    frame: Seq<u8>,
    memory: Seq<u8>,
    base: int,
    n: int,
    x0: int,
    y0: int,
    wrap: bool,
)
    requires
        0 <= n < 16,
        0 <= y0 < 32,
    ensures
        drawn(frame, memory, base, rows_drawn(wrap, y0, n), x0, y0, wrap) == drawn(
            frame,
            memory,
            base,
            n,
            x0,
            y0,
            wrap,
        ),
        collides(frame, memory, base, rows_drawn(wrap, y0, n), x0, y0, wrap) == collides(
            frame,
            memory,
            base,
            n,
            x0,
            y0,
            wrap,
        ),
{
    reveal(drawn);
    reveal(collides);
    let rows = rows_drawn(wrap, y0, n);
    assert forall|i: int| 0 <= i < 256 implies #[trigger] sprite_mask(
        memory,
        base,
        rows,
        x0,
        y0,
        wrap,
        i,
    ) == sprite_mask(memory, base, n, x0, y0, wrap, i) by {}
    assert(drawn(frame, memory, base, rows, x0, y0, wrap) =~= drawn(
        frame,
        memory,
        base,
        n,
        x0,
        y0,
        wrap,
    ));
    if collides(frame, memory, base, rows, x0, y0, wrap) {
        let i = choose|i: int|
            0 <= i < 256 && frame[i] & #[trigger] sprite_mask(
                memory,
                base,
                rows,
                x0,
                y0,
                wrap,
                i,
            ) != 0;
        assert(frame[i] & sprite_mask(memory, base, n, x0, y0, wrap, i) != 0);
    }
    if collides(frame, memory, base, n, x0, y0, wrap) {
        let i = choose|i: int|
            0 <= i < 256 && frame[i] & #[trigger] sprite_mask(memory, base, n, x0, y0, wrap, i)
                != 0;
        assert(frame[i] & sprite_mask(memory, base, rows, x0, y0, wrap, i) != 0);
    }
}

/// The display with one byte per pixel, row by row: 1 where the pixel is
/// lit, 0 where it is not or where `packed` is too short to say.
pub open spec fn unpacked(packed: Seq<u8>) -> Seq<u8> {
    Seq::new(
        2048,
        |p: int|
            if p / 8 < packed.len() && bit_lit(packed[p / 8], p % 8) {
                1u8
            } else {
                0u8
            },
    )
}

/// Unpacks a framebuffer into one byte per pixel.
pub fn unpack_framebuffer(packed: &[u8]) -> (pixels: Vec<u8>)
    ensures
        pixels@ == unpacked(packed@),
{
    let mut pixels: Vec<u8> = Vec::new();
    let mut pixel_index: usize = 0;
    while pixel_index < 2048
        invariant
            pixel_index <= 2048,
            pixels.len() == pixel_index,
            forall|p: int| 0 <= p < pixel_index ==> pixels[p] == unpacked(packed@)[p],
        decreases 2048 - pixel_index,
    {
        let byte_index: usize = pixel_index / 8;
        let bit: u8 = (pixel_index % 8) as u8;
        let mut value: u8 = 0;
        if byte_index < packed.len() {
            let byte: u8 = packed[byte_index];
            let mask: u8 = 0b1000_0000u8 >> bit;
            assert((byte & (0b1000_0000u8 >> bit) == (0b1000_0000u8 >> bit)) == ((byte >> ((7
                - bit) as u8)) & 1 == 1)) by (bit_vector)
                requires
                    bit < 8,
            ;
            if byte & mask == mask {
                value = 1;
            }
        }
        pixels.push(value);
        pixel_index += 1;
    }
    assert(pixels@ =~= unpacked(packed@));
    pixels
}

/// The framebuffer after a draw has the 256 bytes of the display.
pub proof fn law_drawn_has_the_size_of_the_display(
    frame: Seq<u8>,
    memory: Seq<u8>,
    base: int,
    n: int,
    x0: int,
    y0: int,
    wrap: bool,
)
    ensures
        drawn(frame, memory, base, n, x0, y0, wrap).len() == 256,
{
    reveal(drawn);
}

/// Facts about the pixels of single bytes.
proof fn lemma_pixel_facts(a: u8, b: u8, bits: u8, shift: u8, k: u8)
    by (bit_vector)
    requires
        shift < 8,
        k < 8,
    ensures
        ((0u8 >> ((7 - k) as u8)) & 1 == 1) == false,
        (((a ^ b) >> ((7 - k) as u8)) & 1 == 1) == (((a >> ((7 - k) as u8)) & 1 == 1) != ((b >> ((7
            - k) as u8)) & 1 == 1)),
        k >= shift ==> ((((bits >> shift) >> ((7 - k) as u8)) & 1 == 1) == ((bits >> ((7 - (k
            - shift)) as u8)) & 1 == 1)),
        k < shift ==> !(((bits >> shift) >> ((7 - k) as u8)) & 1 == 1),
        k < shift ==> (((((((bits as u16) << ((8 - shift) as u16)) & 0xFF) as u8) >> ((7
            - k) as u8)) & 1 == 1) == ((bits >> ((7 - (k + 8 - shift)) as u8)) & 1 == 1)),
        k >= shift ==> !((((((bits as u16) << ((8 - shift) as u16)) & 0xFF) as u8) >> ((7
            - k) as u8)) & 1 == 1),
{
}

/// Drawing, pixel by pixel: a pixel of the display is flipped exactly where
/// the sprite has a lit pixel.
pub proof fn law_drawn_pixels(
    frame: Seq<u8>,
    memory: Seq<u8>,
    base: int,
    n: int,
    x0: int,
    y0: int,
    wrap: bool,
    col: int,
    row: int,
)
    requires
        frame.len() == 256,
        0 <= n < 16,
        0 <= x0 < 64,
        0 <= y0 < 32,
        0 <= col < 64,
        0 <= row < 32,
    ensures
        pixel(drawn(frame, memory, base, n, x0, y0, wrap), col, row) == (pixel(frame, col, row)
            != sprite_pixel(memory, base, n, x0, y0, wrap, col, row)),
{
    reveal(drawn);
    let i = row * 8 + col / 8;
    let j = col % 8;
    let k = sprite_row_on(wrap, y0, n, row);
    let mask = sprite_mask(memory, base, n, x0, y0, wrap, i);
    let bits = memory[base + k];
    let shift = (x0 % 8) as u8;
    assert(i / 8 == row && i % 8 == col / 8);
    lemma_pixel_facts(frame[i], mask, bits, shift, j as u8);
    assert(drawn(frame, memory, base, n, x0, y0, wrap)[i] == frame[i] ^ mask);
    if k >= 0 {
        let first = x0 / 8;
        let column = col / 8;
        assert(col == column * 8 + j);
        assert(x0 == first * 8 + shift);
        if column == first {
        } else if column == (first + 1) % 8 && (wrap || first != 7) {
        } else {
        }
    }
}

/// Whether drawing turns off a pixel, pixel by pixel: it does exactly where
/// some lit pixel of the display meets a lit pixel of the sprite.
pub proof fn law_collision_pixels(
    frame: Seq<u8>,
    memory: Seq<u8>,
    base: int,
    n: int,
    x0: int,
    y0: int,
    wrap: bool,
)
    requires
        frame.len() == 256,
        0 <= n < 16,
        0 <= x0 < 64,
        0 <= y0 < 32,
    ensures
        collides(frame, memory, base, n, x0, y0, wrap) <==> exists|col: int, row: int|
            0 <= col < 64 && 0 <= row < 32 && pixel(frame, col, row) && #[trigger] sprite_pixel(
                memory,
                base,
                n,
                x0,
                y0,
                wrap,
                col,
                row,
            ),
{
    reveal(collides);
    if collides(frame, memory, base, n, x0, y0, wrap) {
        let i = choose|i: int|
            0 <= i < 256 && frame[i] & #[trigger] sprite_mask(memory, base, n, x0, y0, wrap, i)
                != 0;
        let mask = sprite_mask(memory, base, n, x0, y0, wrap, i);
        let j = lemma_common_bit(frame[i], mask) as int;
        let col = (i % 8) * 8 + j;
        let row = i / 8;
        assert(row * 8 + col / 8 == i && col % 8 == j);
        law_drawn_pixels(frame, memory, base, n, x0, y0, wrap, col, row);
        lemma_pixel_facts(frame[i], mask, 0, 0, j as u8);
        reveal(drawn);
        assert(drawn(frame, memory, base, n, x0, y0, wrap)[i] == frame[i] ^ mask);
        assert(sprite_pixel(memory, base, n, x0, y0, wrap, col, row));
    }
    if exists|col: int, row: int|
        0 <= col < 64 && 0 <= row < 32 && pixel(frame, col, row) && #[trigger] sprite_pixel(
            memory,
            base,
            n,
            x0,
            y0,
            wrap,
            col,
            row,
        ) {
        let (col, row) = choose|col: int, row: int|
            0 <= col < 64 && 0 <= row < 32 && pixel(frame, col, row) && #[trigger] sprite_pixel(
                memory,
                base,
                n,
                x0,
                y0,
                wrap,
                col,
                row,
            );
        let i = row * 8 + col / 8;
        let j = col % 8;
        let mask = sprite_mask(memory, base, n, x0, y0, wrap, i);
        law_drawn_pixels(frame, memory, base, n, x0, y0, wrap, col, row);
        lemma_pixel_facts(frame[i], mask, 0, 0, j as u8);
        reveal(drawn);
        assert(drawn(frame, memory, base, n, x0, y0, wrap)[i] == frame[i] ^ mask);
        lemma_shared_bit(frame[i], mask, j as u8);
        assert(frame[i] & sprite_mask(memory, base, n, x0, y0, wrap, i) != 0);
    }
}

/// Two bytes with a common bit have a pixel that is lit in both.
proof fn lemma_common_bit(a: u8, b: u8) -> (k: u8)
    requires
        a & b != 0,
    ensures
        k < 8,
        bit_lit(a, k as int),
        bit_lit(b, k as int),
{
    assert(a & b != 0 ==> (((a >> 7u8) & 1 == 1) && ((b >> 7u8) & 1 == 1)) || (((a >> 6u8) & 1
        == 1) && ((b >> 6u8) & 1 == 1)) || (((a >> 5u8) & 1 == 1) && ((b >> 5u8) & 1 == 1)) || (((a
        >> 4u8) & 1 == 1) && ((b >> 4u8) & 1 == 1)) || (((a >> 3u8) & 1 == 1) && ((b >> 3u8) & 1
        == 1)) || (((a >> 2u8) & 1 == 1) && ((b >> 2u8) & 1 == 1)) || (((a >> 1u8) & 1 == 1) && ((b
        >> 1u8) & 1 == 1)) || (((a >> 0u8) & 1 == 1) && ((b >> 0u8) & 1 == 1))) by (bit_vector);
    if bit_lit(a, 0) && bit_lit(b, 0) {
        0
    } else if bit_lit(a, 1) && bit_lit(b, 1) {
        1
    } else if bit_lit(a, 2) && bit_lit(b, 2) {
        2
    } else if bit_lit(a, 3) && bit_lit(b, 3) {
        3
    } else if bit_lit(a, 4) && bit_lit(b, 4) {
        4
    } else if bit_lit(a, 5) && bit_lit(b, 5) {
        5
    } else if bit_lit(a, 6) && bit_lit(b, 6) {
        6
    } else {
        7
    }
}

/// Two bytes with a pixel lit in both have a common bit.
proof fn lemma_shared_bit(a: u8, b: u8, k: u8)
    by (bit_vector)
    requires
        k < 8,
        (a >> ((7 - k) as u8)) & 1 == 1,
        (b >> ((7 - k) as u8)) & 1 == 1,
    ensures
        a & b != 0,
{
}

} // verus!
