use vstd::prelude::*;

verus! {

/// The bit mask of one sample and the factor that spreads it over `0..=255`,
/// for the grayscale depths below a byte.
pub open spec fn gray_levels(bit_depth: u8) -> Option<(u8, u8)> {
    if bit_depth == 1 {
        Some((1, 255))
    } else if bit_depth == 2 {
        Some((3, 85))
    } else if bit_depth == 4 {
        Some((15, 17))
    } else {
        None
    }
}

/// Sample `k` of a packed byte, the most significant first, spread over
/// `0..=255`.
pub open spec fn gray_value(v: u8, bit_depth: u8, k: int) -> int {
    let mask = gray_levels(bit_depth).unwrap().0;
    let scale = gray_levels(bit_depth).unwrap().1;
    ((v >> ((8 - bit_depth * (k + 1)) as u8)) & mask) * scale
}

/// Samples per row in the packed data: the width, plus the padding that
/// brings each row to a byte boundary.
pub open spec fn row_samples(width: int, bit_depth: u8) -> int {
    width + (width % 8) / (bit_depth as int)
}

/// The pixels among the first `count` packed samples: every sample whose
/// place in its row lies within the width, in order.
pub open spec fn unpacked(buf: Seq<u8>, width: int, bit_depth: u8, count: int) -> Seq<u8>
    decreases count,
{
    if count <= 0 {
        seq![]
    } else {
        let t = count - 1;
        let per_byte = 8int / (bit_depth as int);
        let rest = unpacked(buf, width, bit_depth, t);
        if width > 0 && t % row_samples(width, bit_depth) < width {
            rest.push(gray_value(buf[t / per_byte], bit_depth, t % per_byte) as u8)
        } else {
            rest
        }
    }
}

proof fn lemma_mod_step(t: int, row: int)
    requires
        t >= 0,
        row > 0,
    ensures
        (t + 1) % row == (if t % row + 1 == row {
            0
        } else {
            t % row + 1
        }),
{
    let q = t / row;
    let r = t % row;
    vstd::arithmetic::div_mod::lemma_fundamental_div_mod(t, row);
    assert(t == q * row + r);
    if r + 1 == row {
        assert(t + 1 == (q + 1) * row + 0) by (nonlinear_arith)
            requires
                t == q * row + r,
                r + 1 == row,
        ;
        vstd::arithmetic::div_mod::lemma_fundamental_div_mod_converse(t + 1, row, q + 1, 0);
    } else {
        vstd::arithmetic::div_mod::lemma_fundamental_div_mod_converse(t + 1, row, q, r + 1);
    }
}

/// Unpacks grayscale pixels of 1, 2 or 4 bits, packed most significant
/// first with each row starting on a byte boundary, into one byte per pixel
/// spread over `0..=255`. Other depths give `None`.
pub fn unpack_gray(buf: &Vec<u8>, width: u32, bit_depth: u8) -> (r: Option<Vec<u8>>)
    ensures
        gray_levels(bit_depth) is None ==> r is None,
        gray_levels(bit_depth) is Some ==> r is Some && r.unwrap()@ == unpacked(
            buf@,
            width as int,
            bit_depth,
            buf@.len() * (8int / (bit_depth as int)),
        ),
{
    let (mask, scale): (u8, u8) = if bit_depth == 1 {
        (1, 255)
    } else if bit_depth == 2 {
        (3, 85)
    } else if bit_depth == 4 {
        (15, 17)
    } else {
        return None;
    };
    let per_byte: u8 = 8 / bit_depth;
    let row: u64 = width as u64 + (width as u64 % 8) / bit_depth as u64;
    let ghost w = width as int;
    let mut out: Vec<u8> = Vec::new();
    let mut col: u64 = 0;
    let mut i: usize = 0;
    if row > 0 {
        assert((0 * per_byte) % (row as int) == 0) by (nonlinear_arith)
            requires
                row > 0,
        ;
    }
    while i < buf.len()
        invariant
            gray_levels(bit_depth) == Some((mask, scale)),
            per_byte == 8int / (bit_depth as int),
            row == row_samples(w, bit_depth),
            w == width,
            i <= buf@.len(),
            per_byte * bit_depth == 8,
            row > 0 ==> col == (i * per_byte) % (row as int) && col < row,
            out@ == unpacked(buf@, w, bit_depth, i * per_byte),
        decreases buf.len() - i,
    {
        let v = buf[i];
        let mut k: u8 = 0;
        while k < per_byte
            invariant
                gray_levels(bit_depth) == Some((mask, scale)),
                per_byte == 8int / (bit_depth as int),
                row == row_samples(w, bit_depth),
                w == width,
                i < buf@.len(),
                v == buf@[i as int],
                k <= per_byte,
                per_byte * bit_depth == 8,
                row > 0 ==> col == (i * per_byte + k) % (row as int) && col < row,
                out@ == unpacked(buf@, w, bit_depth, i * per_byte + k),
            decreases per_byte - k,
        {
            let ghost t = i * per_byte + k;
            assert(t / (per_byte as int) == i && t % (per_byte as int) == k) by (nonlinear_arith)
                requires
                    t == i * per_byte + k,
                    0 <= k < per_byte,
            ;
            assert(bit_depth * (k + 1) <= 8) by (nonlinear_arith)
                requires
                    k < per_byte,
                    per_byte * bit_depth == 8,
                    bit_depth > 0,
            ;
            let shift: u8 = 8 - bit_depth * (k + 1);
            if width > 0 && col < width as u64 {
                let sample: u8 = (v >> shift) & mask;
                assert(sample <= mask) by (bit_vector)
                    requires
                        sample == (v >> shift) & mask,
                ;
                out.push(sample * scale);
            }
            proof {
                if row > 0 {
                    lemma_mod_step(t, row as int);
                }
            }
            if row > 0 {
                col = if col + 1 == row {
                    0
                } else {
                    col + 1
                };
            }
            k = k + 1;
        }
        assert((i + 1) * per_byte == i * per_byte + per_byte) by (nonlinear_arith);
        i = i + 1;
    }
    Some(out)
}

} // verus!
