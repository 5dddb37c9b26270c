//! The compute side of slicing: turns a cut plan into the bands to crop and
//! builds each band's output file name.

use vstd::prelude::*;

verus! {

/// The top row of band `i` of a plan: the boundary before it, or 0 for the
/// first band.
pub open spec fn band_start(cut_rows: Seq<u32>, i: int) -> int {
    if i == 0 {
        0
    } else {
        cut_rows[i - 1] as int
    }
}

/// Turns a cut plan into bands: band `i` is the pair of its top row and its
/// height, running from the boundary before boundary `i` up to boundary `i`.
pub fn cut_regions(cut_rows: &Vec<u32>) -> (bands: Vec<(u32, u32)>)
    requires
        forall|i: int| 0 <= i < cut_rows@.len() - 1 ==> #[trigger] cut_rows@[i] <= cut_rows@[i + 1],
    ensures
        bands@.len() == cut_rows@.len(),
        forall|i: int|
            0 <= i < bands@.len() ==> (#[trigger] bands@[i]).0 == band_start(cut_rows@, i)
                && bands@[i].1 == cut_rows@[i] - band_start(cut_rows@, i),
{
    let mut bands: Vec<(u32, u32)> = Vec::new();
    let mut last_row: u32 = 0;
    let n = cut_rows.len();
    let mut i: usize = 0;
    while i < n
        invariant
            n == cut_rows@.len(),
            i <= n,
            forall|k: int| 0 <= k < n - 1 ==> #[trigger] cut_rows@[k] <= cut_rows@[k + 1],
            last_row as int == band_start(cut_rows@, i as int),
            i > 0 ==> last_row == cut_rows@[i as int - 1],
            bands@.len() == i,
            forall|k: int|
                0 <= k < i as int ==> (#[trigger] bands@[k]).0 == band_start(cut_rows@, k)
                    && bands@[k].1 == cut_rows@[k] - band_start(cut_rows@, k),
        decreases n - i,
    {
        let x = cut_rows[i];
        assert(last_row <= x);
        bands.push((last_row, x - last_row));
        last_row = x;
        i = i + 1;
    }
    bands
}

/// The decimal digits of `n`, most significant first, as ASCII bytes.
pub open spec fn dec_bytes(n: int) -> Seq<u8>
    decreases n,
    when n >= 0
{
    if n < 10 {
        seq![(48 + n) as u8]
    } else {
        dec_bytes(n / 10).push((48 + n % 10) as u8)
    }
}

/// The output file name of band `i`: its index in decimal, zero-padded to at
/// least three digits, followed by ".jpg", as ASCII bytes.
pub open spec fn file_name_bytes(i: int) -> Seq<u8> {
    let pad: Seq<u8> = if i < 10 {
        seq![48u8, 48u8]
    } else if i < 100 {
        seq![48u8]
    } else {
        Seq::empty()
    };
    pad + dec_bytes(i) + seq![46u8, 106u8, 112u8, 103u8]
}

/// Appends the decimal digits of `n`, most significant first, to `out`.
fn push_dec(out: &mut Vec<u8>, n: u64)
    ensures
        final(out)@ == old(out)@ + dec_bytes(n as int),
    decreases n,
{
    if n >= 10 {
        push_dec(out, n / 10);
    }
    out.push(48 + (n % 10) as u8);
    proof {
        assert(out@ =~= old(out)@ + dec_bytes(n as int));
    }
}

/// Builds the output file name of band `index`: the zero-padded decimal
/// index followed by ".jpg", as ASCII bytes.
pub fn file_name(index: u64) -> (name: Vec<u8>)
    ensures
        name@ == file_name_bytes(index as int),
{
    let mut name: Vec<u8> = Vec::new();
    if index < 10 {
        name.push(48);
        name.push(48);
    } else if index < 100 {
        name.push(48);
    }
    push_dec(&mut name, index);
    name.push(46);
    name.push(106);
    name.push(112);
    name.push(103);
    proof {
        assert(name@ =~= file_name_bytes(index as int));
    }
    name
}

} // verus!
