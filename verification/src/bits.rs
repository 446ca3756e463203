//! Facts about bits that the laws of the drivers rest on.

use vstd::prelude::*;

use crate::reg;

verus! {

/// Replacing the bits of a mask leaves every other bit, and sets those of the mask.
pub proof fn merge_fields(w: u32, mask: u32, bits: u32, other: u32)
    by (bit_vector)
    ensures
        reg::merge(w, mask, bits) & mask == bits & mask,
        other & mask == 0 ==> reg::merge(w, mask, bits) & other == w & other,
        reg::merge(w, mask, bits) & !mask == w & !mask,
        reg::merge(w, mask, mask) == w | mask,
        reg::merge(w, mask, 0) == w & !mask,
        reg::merge(reg::merge(w, mask, other), mask, bits) == reg::merge(w, mask, bits),
        reg::merge(w, mask, w) == w,
{
}

/// Masks of the registers that the laws speak of.
pub proof fn masks()
    by (bit_vector)
    ensures
        0x0300u32 & 0x0700_0000u32 == 0,
        0x0700_0000u32 & 0x0300u32 == 0,
        0x0200_0000u32 & 0x0700_0000u32 == 0x0200_0000u32,
        0x0100u32 & 0x0300u32 == 0x0100u32,
        7u32 & 7u32 == 7u32,
        0x8000u32 & 0x8000u32 == 0x8000u32,
        0u32 & 0x8000u32 == 0,
        0x5A5Au32 & 0xFFF == 0xA5A,
        0u32 & 0xFFF == 0,
        0u32 & 0x1_0000u32 == 0u32,
        0x1_0000u32 & 0x1_0000u32 == 0x1_0000u32,
        0x68u32 & 0xFFu32 == 0x68,
        6u32 << 12u32 == 0x6000,
        7u32 << 12u32 == 0x7000,
        0x6000u32 & 0x7B00u32 == 0x6000,
        0x7000u32 & 0x7B00u32 == 0x7000,
        0x1000u32 & 0x1000u32 == 0x1000,
        0u32 & 0x1000u32 == 0,
        0xA6u32 & 1u32 == 0,
        reg::merge(0xA6, 1, 1) == 0xA7,
        0x8000u32 & 0xC000u32 == 0x8000,
        15u32 << 4u32 == 0xF0,
        15u32 << 8u32 == 0xF00,
        0xBu32 << 4u32 == 0xB0,
        4u32 << 8u32 == 0x400,
        1u32 << 4u32 == 0x10,
        1u32 << 8u32 == 0x100,
        3u32 << 18u32 == 0xC_0000,
        3u32 << 20u32 == 0x30_0000,
        2u32 << 18u32 == 0x8_0000,
        2u32 << 20u32 == 0x20_0000,
        1u32 << 2u32 == 4,
        1u32 << 14u32 == 0x4000,
        1u32 << 17u32 == 0x2_0000,
{
}

/// A protection register made of dead time, off-states and break bits is their sum, and has no
/// main output bit.
pub proof fn no_main_output(dead: u32, enable: u32, level: u32)
    by (bit_vector)
    requires
        dead < 256,
        enable == 0 || enable == 0x1000,
        level == 0 || level == 0x2000,
    ensures
        (dead | 0x0C00 | enable | level) & 0x8000 == 0,
        dead | 0x0C00 | enable | level == dead + 0x0C00 + enable + level,
{
}

/// The fields of an advanced timer: each group of them is the sum of its fields, and stays in its
/// bits.
pub proof fn timer_fields(
    align: u32,
    arse: u32,
    ck: u32,
    p: (u32, u32, u32),
    a: (u32, u32, u32),
    b: (u32, u32, u32),
)
    requires
        align == 0 || align == 0x10 || align == 0x20 || align == 0x40 || align == 0x60,
        arse == 0 || arse == 0x80,
        ck < 4,
        p.0 == 0 || p.0 == 8,
        p.1 == 0 || p.1 == 8,
        p.2 == 0 || p.2 == 8,
        a.0 < 2,
        a.1 < 2,
        a.2 < 2,
        b.0 == 0 || b.0 == 2,
        b.1 == 0 || b.1 == 2,
        b.2 == 0 || b.2 == 2,
    ensures
        align | arse | (ck << 8) == align + arse + 256 * ck,
        (align | arse | (ck << 8)) & 0x3F0 == align | arse | (ck << 8),
        ((5u32 | p.0) << 0u32) | ((5u32 | p.1) << 4u32) | ((5u32 | p.2) << 8u32) == 0x555 + p.0 + 16
            * p.1 + 256 * p.2,
        (((5u32 | p.0) << 0u32) | ((5u32 | p.1) << 4u32) | ((5u32 | p.2) << 8u32)) & 0xFFF == ((5u32
            | p.0) << 0u32) | ((5u32 | p.1) << 4u32) | ((5u32 | p.2) << 8u32),
        ((a.0 | b.0) << 8u32) | ((a.1 | b.1) << 10u32) | ((a.2 | b.2) << 12u32) == 256 * (a.0 + b.0)
            + 1024 * (a.1 + b.1) + 4096 * (a.2 + b.2),
        (((a.0 | b.0) << 8u32) | ((a.1 | b.1) << 10u32) | ((a.2 | b.2) << 12u32)) & 0x3F00 == ((a.0
            | b.0) << 8u32) | ((a.1 | b.1) << 10u32) | ((a.2 | b.2) << 12u32),
{
    let (p0, p1, p2) = p;
    let (a0, a1, a2) = a;
    let (b0, b1, b2) = b;
    timer_sums(align, arse, ck, p0, p1, p2, a0, a1, a2, b0, b1, b2);
}

proof fn timer_sums(
    align: u32,
    arse: u32,
    ck: u32,
    p0: u32,
    p1: u32,
    p2: u32,
    a0: u32,
    a1: u32,
    a2: u32,
    b0: u32,
    b1: u32,
    b2: u32,
)
    by (bit_vector)
    requires
        align == 0 || align == 0x10 || align == 0x20 || align == 0x40 || align == 0x60,
        arse == 0 || arse == 0x80,
        ck < 4,
        p0 == 0 || p0 == 8,
        p1 == 0 || p1 == 8,
        p2 == 0 || p2 == 8,
        a0 < 2,
        a1 < 2,
        a2 < 2,
        b0 == 0 || b0 == 2,
        b1 == 0 || b1 == 2,
        b2 == 0 || b2 == 2,
    ensures
        align | arse | (ck << 8) == align + arse + 256 * ck,
        (align | arse | (ck << 8)) & 0x3F0 == align | arse | (ck << 8),
        ((5u32 | p0) << 0u32) | ((5u32 | p1) << 4u32) | ((5u32 | p2) << 8u32) == 0x555 + p0 + 16 * p1
            + 256 * p2,
        (((5u32 | p0) << 0u32) | ((5u32 | p1) << 4u32) | ((5u32 | p2) << 8u32)) & 0xFFF == ((5u32
            | p0) << 0u32) | ((5u32 | p1) << 4u32) | ((5u32 | p2) << 8u32),
        ((a0 | b0) << 8u32) | ((a1 | b1) << 10u32) | ((a2 | b2) << 12u32) == 256 * (a0 + b0) + 1024
            * (a1 + b1) + 4096 * (a2 + b2),
        (((a0 | b0) << 8u32) | ((a1 | b1) << 10u32) | ((a2 | b2) << 12u32)) & 0x3F00 == ((a0 | b0)
            << 8u32) | ((a1 | b1) << 10u32) | ((a2 | b2) << 12u32),
{
}

/// Nothing added to some bits, no bits of some, and all of them.
pub proof fn no_bits(w: u32)
    by (bit_vector)
    ensures
        0 | w == w,
        w & 0 == 0,
        w & w == w,
        0 & w == 0,
        w < 8 ==> (w << 4) & 0x70 == 16 * w,
        w < 8 ==> w & 7 == w,
{
}

/// The three lower flags of a group of four: none is empty, they do not meet those of a group
/// elsewhere, and the second is kept by every sum with it.
pub proof fn nibble_flags(c: u32, o: u32)
    by (bit_vector)
    requires
        c <= 28,
        o <= 28,
        c % 4 == 0,
        o % 4 == 0,
    ensures
        c != o ==> (((1u32 << ((c + 1) as u32)) | (1u32 << c)) | (1u32 << ((c + 2) as u32))) & (
        0xFu32 << o) == 0,
        c != o ==> ((1u32 << ((c + 1) as u32)) | (1u32 << c)) & (0xFu32 << o) == 0,
        c != o ==> (0u32 | (1u32 << ((c + 2) as u32))) & (0xFu32 << o) == 0,
        0u32 & (0xFu32 << o) == 0,
        (((1u32 << ((c + 1) as u32)) | (1u32 << c)) | (1u32 << ((c + 2) as u32))) & (1u32 << ((c
            + 1) as u32)) == 1u32 << ((c + 1) as u32),
        ((1u32 << ((c + 1) as u32)) | (1u32 << c)) & (1u32 << ((c + 1) as u32)) == 1u32 << ((c
            + 1) as u32),
        (1u32 << ((c + 1) as u32)) | (1u32 << c) != 0,
        ((1u32 << ((c + 1) as u32)) | (1u32 << c)) | (1u32 << ((c + 2) as u32)) != 0,
        ((((1u32 << ((c + 1) as u32)) | (1u32 << c)) | (1u32 << ((c + 2) as u32))) >> c) & 15 == 7,
        (((1u32 << ((c + 1) as u32)) | (1u32 << c)) >> c) & 15 == 3,
        ((0u32 | (1u32 << ((c + 2) as u32))) >> c) & 15 == 4,
        (0u32 >> c) & 15 == 0,
{
}

/// A flag among those cleared is clear; one that was clear stays so.
pub proof fn cleared_flag(w: u32, clear: u32, flag: u32)
    by (bit_vector)
    ensures
        clear & flag == flag ==> reg::merge(w, clear, 0) & flag == 0,
        w & flag == 0 ==> reg::merge(w, clear, 0) & flag == 0,
{
}

/// The lower half of a word.
pub proof fn low_half(w: u32)
    by (bit_vector)
    ensures
        w & 0xFFFF <= 0xFFFF,
        w as u16 == w & 0xFFFF,
{
}

/// The halves of a byte are below 16. A byte and a direction are twice the byte, and one more where
/// the direction is set.
pub proof fn nibbles(x: u8)
    by (bit_vector)
    ensures
        x & 0x0F < 16,
        x >> 4 < 16,
        (x >> 4) * 16 + (x & 0x0F) == x,
        ((x as u32) << 1) | 0u32 == 2 * x,
        ((x as u32) << 1) | 1u32 == 2 * x + 1,
{
}

/// Small values fit their fields, and the fields the word.
pub proof fn small_fields(a: u32, c: u32, s: u32)
    by (bit_vector)
    ensures
        a < 4 ==> a & 3 == a,
        a < 8 ==> a & 7 == a,
        a < 16 ==> a & 15 == a,
        c < 32 ==> c & 0x1F == c,
        a & 3 == a % 4,
        a & 7 == a % 8,
        a & 15 == a % 16,
        c & 0x1F == c % 32,
        s <= 30 ==> (3u32 << s) >> s == 3,
        s <= 29 ==> (7u32 << s) >> s == 7,
        s <= 28 ==> (15u32 << s) >> s == 15,
        s <= 27 ==> (0x1Fu32 << s) >> s == 0x1F,
        3u32 << 20u32 == 0x0030_0000,
        15u32 << 20u32 == 0x00F0_0000,
        2u32 | 0x800u32 == 0x802,
        1u32 << 10u32 == 0x400,
{
}

/// A divider of twelve bits, alone or with the marks of fast mode.
pub proof fn divider(c: u32, duty: u32)
    by (bit_vector)
    requires
        duty == 0 || duty == 0x4000,
    ensures
        c < 4096 ==> c & 0xFFF == c,
        c < 4096 ==> 0x8000u32 | duty | c == 0x8000 + duty + c,
        0u32 | 1u32 == 1,
        c & 0xFFF == c % 4096,
        (0x8000u32 | duty | c) & 0xFFF == c % 4096,
        c % 4096 == 0 ==> (0x8000u32 | duty | (c | 1)) & 0xFFF == 1,
        (0x8000u32 | duty | c) & 0x8000 == 0x8000,
        (0x8000u32 | duty | c) & 0x4000 == duty | (c & 0x4000),
        (c | 1) & 0x4000 == c & 0x4000,
        (0x8000u32 | duty | c) >> 16u32 == c >> 16u32,
        (c | 1) >> 16u32 == c >> 16u32,
{
}

/// Two bytes as a halfword.
pub proof fn two_bytes(lo: u8, hi: u8)
    by (bit_vector)
    ensures
        lo as u16 | ((hi as u16) << 8) == lo + 256 * hi,
{
}

/// The top five bits of a halfword, and an address without its lowest bit.
pub proof fn thumb(h: u16, pc: u32)
    by (bit_vector)
    ensures
        (h & 0xF800 >= 0xE800) == (h >= 0xE800),
        pc & !1u32 == pc - pc % 2,
{
}

/// The flags of two statuses together, and those of one whose wait may have given up.
pub proof fn gathered(a: u32, b: u32)
    by (bit_vector)
    ensures
        ((a | b) & 2 != 0) == (a & 2 != 0 || b & 2 != 0),
        ((a | b) & 4 != 0) == (a & 4 != 0 || b & 4 != 0),
        ((a | b) & 0x10 != 0) == (a & 0x10 != 0 || b & 0x10 != 0),
        (a & 3 != 0) == (a & 1 != 0 || a & 2 != 0),
        (a | 2) & 2 != 0,
        (a | 2) & 4 == a & 4,
        (a | 2) & 0x10 == a & 0x10,
{
}

/// A field read from a word: the value that its bits hold, as far as it fits.
pub proof fn field_read(r: u32, m: u32, v: u32, s: u32)
    by (bit_vector)
    requires
        s < 32,
        (m << s) >> s == m,
    ensures
        v & m == v && r & (m << s) == v << s ==> (r >> s) & m == v,
        (reg::merge(r, m << s, v << s) >> s) & m == v & m,
        (v & m) & m == v & m,
{
}

/// Words that agree in a field read the same there.
pub proof fn same_field(a: u32, b: u32, m: u32, s: u32)
    by (bit_vector)
    requires
        s < 32,
        (m << s) >> s == m,
        a & (m << s) == b & (m << s),
    ensures
        (a >> s) & m == (b >> s) & m,
{
}

/// One bit of a word is 0 or 1; a bit that was set is set.
pub proof fn one_bit(w: u32, n: u32)
    by (bit_vector)
    requires
        n < 32,
    ensures
        (w >> n) & 1 < 2,
        (w & (1u32 << n) != 0) == ((w >> n) & 1 == 1),
        reg::merge(w, 1u32 << n, 1u32 << n) & (1u32 << n) != 0,
{
}

/// Fields of five bits, five or more bits apart, share no bit; nor does one below bit 20 with the
/// bits from 20 on.
pub proof fn five_apart(f: u32, g: u32, a: u32, b: u32)
    by (bit_vector)
    requires
        f < 32,
        g < 32,
        a < 28,
        b < 28,
    ensures
        a + 5 <= b ==> (f << a) & (g << b) == 0,
        b + 5 <= a ==> (f << a) & (g << b) == 0,
        a <= 15 ==> (f << a) & 0xFFF0_0000 == 0,
        (f << a) & (0x1Fu32 << a) == f << a,
{
}

/// Fields of three bits, three or more bits apart, share no bit.
pub proof fn three_apart(f: u32, g: u32, a: u32, b: u32)
    by (bit_vector)
    requires
        f < 8,
        g < 8,
        a < 30,
        b < 30,
    ensures
        a + 3 <= b ==> (f << a) & (g << b) == 0,
        b + 3 <= a ==> (f << a) & (g << b) == 0,
        (f << a) & (7u32 << a) == f << a,
{
}

/// Three bits packed into a code.
pub proof fn three_bits(a: u8, b: u8, c: u8)
    by (bit_vector)
    requires
        a < 2,
        b < 2,
        c < 2,
    ensures
        a | (b << 1) | (c << 2) == a + 2 * b + 4 * c,
{
}

/// The fields of two pins share no bit: one, two or four bits each, and the two halves of a
/// bit-operate register.
pub proof fn pin_fields(n: u32, m: u32)
    by (bit_vector)
    requires
        n < 16,
        m < 16,
        n != m,
    ensures
        (1u32 << m) & (1u32 << n) == 0,
        (3u32 << ((2 * m) as u32)) & (3u32 << ((2 * n) as u32)) == 0,
        (m < 8) == (n < 8) ==> (15u32 << ((4 * (m % 8)) as u32)) & (15u32 << ((4 * (n % 8))
            as u32)) == 0,
        (0x0001_0001u32 << m) & (1u32 << n) == 0,
        (0x0001_0001u32 << m) & (1u32 << ((n + 16) as u32)) == 0,
{
}

/// A value that fits a field of two or four bits stays whole in it; a field of one bit can be set.
pub proof fn field_value(v: u32, n: u32)
    by (bit_vector)
    requires
        n < 16,
    ensures
        v < 4 ==> (v << ((2 * n) as u32)) & (3u32 << ((2 * n) as u32)) == v << ((2 * n) as u32),
        v < 16 ==> (v << ((4 * (n % 8)) as u32)) & (15u32 << ((4 * (n % 8)) as u32)) == v << ((4 * (n
            % 8)) as u32),
        0u32 & (1u32 << n) == 0,
        (1u32 << n) & (1u32 << n) != 0,
{
}

/// The I2C control register through a read: acknowledge on, START, acknowledge off, STOP,
/// acknowledge on; for two bytes the place of the acknowledge is moved and moved back.
pub proof fn read_posture(w: u32)
    by (bit_vector)
    ensures
        ({
            let a = reg::merge(reg::merge(w, 0x400, 0x400), 0x100, 0x100);
            let r = reg::merge(
                reg::merge(reg::merge(a, 0x400, 0), 0x200, 0x200),
                0x400,
                0x400,
            );
            r & 0x200 == 0x200 && r & 0x400 == 0x400 && r & 0x800 == w & 0x800 && r & 1 == w & 1
        }),
        ({
            let a = reg::merge(
                reg::merge(reg::merge(w, 0x400, 0x400), 0x800, 0x800),
                0x100,
                0x100,
            );
            let r = reg::merge(
                reg::merge(
                    reg::merge(reg::merge(a, 0x400, 0), 0x200, 0x200),
                    0x800,
                    0,
                ),
                0x400,
                0x400,
            );
            r & 0x200 == 0x200 && r & 0x400 == 0x400 && r & 0x800 == 0 && r & 1 == w & 1
        }),
{
}

/// The I2C control register through a write: acknowledge on, START, and STOP or not.
pub proof fn write_posture(w: u32)
    by (bit_vector)
    ensures
        ({
            let r = reg::merge(reg::merge(w, 0x400, 0x400), 0x100, 0x100);
            reg::merge(r, 0x200, 0x200) & 0x200 == 0x200 && r & 0x200 == w & 0x200
        }),
{
}

/// The I2C control register through a bring-up: I2C mode, on, acknowledge on.
pub proof fn init_posture(w: u32)
    by (bit_vector)
    ensures
        ({
            let r = reg::merge(reg::merge(reg::merge(w, 2, 0), 1, 1), 0x400, 0x400);
            r & 1 == 1 && r & 0x400 == 0x400 && r & 2 == 0 && r & 0x300 == w & 0x300
        }),
        reg::merge(reg::merge(reg::merge(0, 2, 0), 1, 1), 0x400, 0x400) == 1u32 | 0x400u32,
        (1u32 | 0x400u32) & 0x300 == 0,
{
}

/// The I2C registers at the end of a recovery.
pub proof fn recovered_posture(stat0: u32, u: u32)
    by (bit_vector)
    ensures
        (stat0 & !0xF00u32) & 0xF00 == 0,
        reg::merge(reg::merge(u, 0x800, 0), 0x400, 0x400) & 0x400 == 0x400,
        reg::merge(reg::merge(u, 0x800, 0), 0x400, 0x400) & 0x800 == 0,
{
}

/// Setting a bit and clearing it again where it was clear before.
pub proof fn restored_bit(s: u32)
    by (bit_vector)
    ensures
        s & 0x0002_0000 == 0 ==> (s | 0x0002_0000) & !0x0002_0000u32 == s,
        s & 0x0002_0000 != 0 ==> s | 0x0002_0000 == s,
{
}

} // verus!
