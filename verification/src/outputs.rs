//! The bar's outputs and surfaces: the order in which surfaces are made
//! for the outputs, the sizes that outputs report and that configure events
//! set, and the size of a surface's buffer pool.
use vstd::prelude::*;
use crate::sort::{Key, stable_order, stable_order_spec, is_stable_order};
use crate::tray::{as_u32, cast_u32};

verus! {

/// Sort key of an output at (`x`, `y`): left to right, then top to
/// bottom (the coordinates shifted to be non-negative, which keeps their
/// order).
pub open spec fn output_key(p: (i32, i32)) -> Key {
    ((p.0 as int + 0x8000_0000) as u64, (p.1 as int + 0x8000_0000) as u64, 0)
}

/// The sort keys of the outputs at `ps`.
pub open spec fn output_keys(ps: Seq<(i32, i32)>) -> Seq<Key> {
    ps.map_values(|p: (i32, i32)| output_key(p))
}

/// The order in which the bar makes surfaces for outputs at the positions
/// `positions`: left to right, then top to bottom, outputs at the same
/// place in the order in which they came.
pub fn output_order(positions: &Vec<(i32, i32)>) -> (r: Vec<usize>)
    ensures
        is_stable_order(output_keys(positions@), r@),
        r@ == stable_order_spec(output_keys(positions@)),
{
    let mut keys: Vec<Key> = Vec::new();
    let mut i: usize = 0;
    while i < positions.len()
        invariant
            i <= positions@.len(),
            keys@ == output_keys(positions@).take(i as int),
        decreases positions@.len() - i,
    {
        let (x, y) = positions[i];
        let k: Key = ((x as i64 + 0x8000_0000i64) as u64, (y as i64 + 0x8000_0000i64) as u64, 0);
        keys.push(k);
        assert(keys@ =~= output_keys(positions@).take(i + 1));
        i += 1;
    }
    assert(keys@ =~= output_keys(positions@));
    stable_order(&keys)
}

/// Width of a new surface: the output's width, or 1920 where the output
/// has not told it.
pub fn initial_surface_width(output_width: u32) -> (r: u32)
    ensures
        r == if output_width > 0 { output_width } else { 1920u32 },
{
    if output_width > 0 { output_width } else { 1920 }
}

/// Bytes in a buffer pool for a surface `width` x `height` pixels, 4 bytes
/// per pixel.
pub fn pool_size(width: u32, height: u32) -> (r: usize)
    requires
        width * height * 4 <= u32::MAX,
    ensures
        r == width * height * 4,
{
    (width * height * 4) as usize
}

/// The size of an output from its logical size (`None` where it reported
/// none: 0 x 0), each side as the `u32` it is cast to.
pub fn output_size(logical: Option<(i32, i32)>) -> (r: (u32, u32))
    ensures
        r == match logical {
            Some(s) => (as_u32(s.0), as_u32(s.1)),
            None => (0u32, 0u32),
        },
{
    match logical {
        Some((w, h)) => (cast_u32(w), cast_u32(h)),
        None => (0, 0),
    }
}

/// The size of an output after it reported anew: its logical size where
/// it reported one, else the size it had.
pub fn updated_output_size(old: (u32, u32), logical: Option<(i32, i32)>) -> (r: (u32, u32))
    ensures
        r == match logical {
            Some(s) => (as_u32(s.0), as_u32(s.1)),
            None => old,
        },
{
    match logical {
        Some((w, h)) => (cast_u32(w), cast_u32(h)),
        None => old,
    }
}

/// The size of a surface after a configure event that asks for `new_size`
/// (a side of 0 keeps the side it had), and whether its height changed.
pub fn configured_size(old: (u32, u32), new_size: (u32, u32)) -> (r: (u32, u32, bool))
    ensures
        r.0 == if new_size.0 > 0 { new_size.0 } else { old.0 },
        r.1 == if new_size.1 > 0 { new_size.1 } else { old.1 },
        r.2 == (r.1 != old.1),
{
    let w = if new_size.0 > 0 { new_size.0 } else { old.0 };
    let h = if new_size.1 > 0 { new_size.1 } else { old.1 };
    (w, h, h != old.1)
}

} // verus!
