//! Tile coordinates and the paths they resolve to.

use vstd::prelude::*;
use crate::config::AppState;
use crate::digits::{dec_digits, dec_value, is_u32_decimal, parse_decimal_u32, push_decimal};

verus! {

/// A slippy-map tile address: zoom level, column, row. Any non-negative
/// integer triple is accepted; no bound is checked against the zoom level, so
/// an out-of-range coordinate simply resolves to a (likely absent) file.
#[derive(Clone, Copy, PartialEq, Eq, Structural, Debug)]
pub struct TileCoordinate {
    pub z: u32,
    pub x: u32,
    pub y: u32,
}

/// Where a tile lives under the root directory: `{root}/{z}/{x}/{y}.png`,
/// with forward slashes on every host.
pub open spec fn tile_path_spec(root: Seq<char>, c: TileCoordinate) -> Seq<char> {
    root + "/"@ + dec_digits(c.z as nat) + "/"@ + dec_digits(c.x as nat) + "/"@ + dec_digits(
        c.y as nat,
    ) + ".png"@
}

impl TileCoordinate {
    pub fn new(z: u32, x: u32, y: u32) -> (c: TileCoordinate)
        ensures
            c == (TileCoordinate { z, x, y }),
    {
        TileCoordinate { z, x, y }
    }

    /// Parses the three path segments of a tile request. A coordinate comes
    /// back if and only if every segment is a plain decimal integer in range
    /// for `u32`; a request with any other segment is rejected before any
    /// filesystem access.
    pub fn parse(z: &str, x: &str, y: &str) -> (r: Option<TileCoordinate>)
        ensures
            r is Some <==> is_u32_decimal(z@) && is_u32_decimal(x@) && is_u32_decimal(y@),
            r is Some ==> r->Some_0.z as nat == dec_value(z@) && r->Some_0.x as nat == dec_value(
                x@,
            ) && r->Some_0.y as nat == dec_value(y@),
    {
        let zv = match parse_decimal_u32(z) {
            Some(v) => v,
            None => {
                return None;
            },
        };
        let xv = match parse_decimal_u32(x) {
            Some(v) => v,
            None => {
                return None;
            },
        };
        let yv = match parse_decimal_u32(y) {
            Some(v) => v,
            None => {
                return None;
            },
        };
        Some(TileCoordinate { z: zv, x: xv, y: yv })
    }

    /// Builds the file path of this tile under `root`.
    pub fn path_under(&self, root: &str) -> (p: String)
        ensures
            p@ == tile_path_spec(root@, *self),
    {
        let mut p = root.to_owned();
        p.append("/");
        push_decimal(&mut p, self.z);
        p.append("/");
        push_decimal(&mut p, self.x);
        p.append("/");
        push_decimal(&mut p, self.y);
        p.append(".png");
        proof {
            assert(p@ =~= tile_path_spec(root@, *self));
        }
        p
    }
}

/// The path a tile request resolves to: the shared configuration's root with
/// the coordinate's three segments and the image suffix joined on.
pub fn resolve_tile_path(state: &AppState, c: TileCoordinate) -> (p: String)
    ensures
        p@ == tile_path_spec(state.root(), c),
{
    c.path_under(state.tiles_dir())
}

} // verus!
