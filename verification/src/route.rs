//! The routing rule: which handler a request path is dispatched to.
//!
//! An exact match on `/` goes to the root handler; a path of the shape
//! `/tiles/{z}/{x}/{y}` whose three segments are decimal integers in range
//! for `u32` goes to the tile handler; every other path — a wrong prefix,
//! a wrong number of segments, or a non-integer segment — matches nothing
//! and is answered with the transport's not-found default, before any
//! filesystem access.

use vstd::prelude::*;
use crate::digits::{
    dec_value, is_u32_decimal, lemma_concat_cancel_left, lemma_digits_sep_unique,
};
use crate::tiles::TileCoordinate;

verus! {

/// Where a request path is dispatched.
pub enum Route {
    /// The landing route: the path is exactly `/`.
    Landing,
    /// The tile route, with the coordinate its three segments spell.
    Tile(TileCoordinate),
    /// No handler: answered with the transport's not-found default.
    NoMatch,
}

/// The path spells `/tiles/{zs}/{xs}/{ys}` with these three segments.
pub open spec fn is_tile_route_with(
    path: Seq<char>,
    zs: Seq<char>,
    xs: Seq<char>,
    ys: Seq<char>,
) -> bool {
    path == "/tiles/"@ + zs + seq!['/'] + xs + seq!['/'] + ys && is_u32_decimal(zs)
        && is_u32_decimal(xs) && is_u32_decimal(ys)
}

/// The path is a tile request for coordinate `c`: it spells
/// `/tiles/{z}/{x}/{y}` with three in-range decimal segments whose values
/// are `c`'s.
pub open spec fn is_tile_route(path: Seq<char>, c: TileCoordinate) -> bool {
    exists|zs: Seq<char>, xs: Seq<char>, ys: Seq<char>|
        #[trigger] is_tile_route_with(path, zs, xs, ys) && c.z as nat == dec_value(zs)
            && c.x as nat == dec_value(xs) && c.y as nat == dec_value(ys)
}

/// Unpacks a tile route into its three segments, together with where each
/// character of the path comes from.
proof fn lemma_route_structure(path: Seq<char>, c: TileCoordinate) -> (w: (
    Seq<char>,
    Seq<char>,
    Seq<char>,
))
    requires
        is_tile_route(path, c),
    ensures
        ({
            let (zs, xs, ys) = w;
            &&& is_tile_route_with(path, zs, xs, ys)
            &&& c.z as nat == dec_value(zs)
            &&& c.x as nat == dec_value(xs)
            &&& c.y as nat == dec_value(ys)
            &&& zs.len() >= 1
            &&& xs.len() >= 1
            &&& ys.len() >= 1
            &&& path.len() == 9 + zs.len() + xs.len() + ys.len()
            &&& forall|k: int| 0 <= k < 7 ==> path[k] == "/tiles/"@[k]
            &&& forall|k: int| 7 <= k < 7 + zs.len() ==> path[k] == zs[k - 7] && path[k] != '/'
            &&& path[(7 + zs.len()) as int] == '/'
            &&& forall|k: int|
                8 + zs.len() <= k < 8 + zs.len() + xs.len() ==> path[k] == xs[k - 8 - zs.len()]
                    && path[k] != '/'
            &&& path[(8 + zs.len() + xs.len()) as int] == '/'
            &&& forall|k: int|
                9 + zs.len() + xs.len() <= k < path.len() ==> path[k] == ys[k - 9 - zs.len()
                    - xs.len()] && path[k] != '/'
        }),
{
    reveal_strlit("/tiles/");
    let (zs, xs, ys) = choose|zs: Seq<char>, xs: Seq<char>, ys: Seq<char>|
        #[trigger] is_tile_route_with(path, zs, xs, ys) && c.z as nat == dec_value(zs)
            && c.x as nat == dec_value(xs) && c.y as nat == dec_value(ys);
    let t = "/tiles/"@;
    assert(t.len() == 7);
    assert(path.len() == 9 + zs.len() + xs.len() + ys.len());
    assert forall|k: int| 0 <= k < 7 implies path[k] == t[k] by {
        assert(path[k] == (t + zs + seq!['/'] + xs + seq!['/'] + ys)[k]);
    }
    assert forall|k: int| 7 <= k < 7 + zs.len() implies path[k] == zs[k - 7] && path[k] != '/' by {
        assert(path[k] == (t + zs + seq!['/'] + xs + seq!['/'] + ys)[k]);
        assert(crate::digits::is_dec_digit(zs[k - 7]));
    }
    assert(path[(7 + zs.len()) as int] == '/') by {
        let k = 7 + zs.len() as int;
        assert(path[k] == (t + zs + seq!['/'] + xs + seq!['/'] + ys)[k]);
    }
    assert forall|k: int|
        8 + zs.len() <= k < 8 + zs.len() + xs.len() implies path[k] == xs[k - 8 - zs.len()]
        && path[k] != '/' by {
        assert(path[k] == (t + zs + seq!['/'] + xs + seq!['/'] + ys)[k]);
        assert(crate::digits::is_dec_digit(xs[k - 8 - zs.len()]));
    }
    assert(path[(8 + zs.len() + xs.len()) as int] == '/') by {
        let k = 8 + zs.len() + xs.len() as int;
        assert(path[k] == (t + zs + seq!['/'] + xs + seq!['/'] + ys)[k]);
    }
    assert forall|k: int|
        9 + zs.len() + xs.len() <= k < path.len() implies path[k] == ys[k - 9 - zs.len()
        - xs.len()] && path[k] != '/' by {
        assert(path[k] == (t + zs + seq!['/'] + xs + seq!['/'] + ys)[k]);
        assert(crate::digits::is_dec_digit(ys[k - 9 - zs.len() - xs.len()]));
    }
    (zs, xs, ys)
}

/// A path is a tile request for at most one coordinate: the route alone
/// settles which tile is asked for.
pub proof fn lemma_tile_route_unique(path: Seq<char>, c1: TileCoordinate, c2: TileCoordinate)
    requires
        is_tile_route(path, c1),
        is_tile_route(path, c2),
    ensures
        c1 == c2,
{
    let (zs1, xs1, ys1) = lemma_route_structure(path, c1);
    let (zs2, xs2, ys2) = lemma_route_structure(path, c2);
    let t = "/tiles/"@;
    let u1 = zs1 + seq!['/'] + (xs1 + seq!['/'] + ys1);
    let u2 = zs2 + seq!['/'] + (xs2 + seq!['/'] + ys2);
    assert(path =~= t + u1);
    assert(path =~= t + u2);
    lemma_concat_cancel_left(t, u1, u2);
    lemma_digits_sep_unique(zs1, xs1 + seq!['/'] + ys1, zs2, xs2 + seq!['/'] + ys2, '/');
    lemma_digits_sep_unique(xs1, ys1, xs2, ys2, '/');
    assert(c1.z == c2.z);
    assert(c1.x == c2.x);
    assert(c1.y == c2.y);
}

/// One character of the fixed `/tiles/` route prefix.
fn template_char(i: usize) -> (c: char)
    requires
        i < 7,
    ensures
        c == "/tiles/"@[i as int],
        "/tiles/"@.len() == 7,
{
    proof {
        reveal_strlit("/tiles/");
    }
    if i == 0 {
        '/'
    } else if i == 1 {
        't'
    } else if i == 2 {
        'i'
    } else if i == 3 {
        'l'
    } else if i == 4 {
        'e'
    } else if i == 5 {
        's'
    } else {
        '/'
    }
}

/// The first `/` in `path` at or after `from`, if any.
fn find_slash(path: &str, from: usize) -> (r: Option<usize>)
    requires
        from <= path@.len(),
    ensures
        match r {
            Some(i) => from <= i < path@.len() && path@[i as int] == '/' && forall|k: int|
                from <= k < i ==> path@[k] != '/',
            None => forall|k: int| from <= k < path@.len() ==> path@[k] != '/',
        },
{
    let n = path.unicode_len();
    let mut i = from;
    while i < n
        invariant
            from <= i <= n,
            n == path@.len(),
            forall|k: int| from <= k < i ==> path@[k] != '/',
        decreases n - i,
    {
        if path.get_char(i) == '/' {
            return Some(i);
        }
        i = i + 1;
    }
    None
}

/// Dispatches a request path to exactly one handler: the root handler on an
/// exact `/`, the tile handler on `/tiles/{z}/{x}/{y}` with three in-range
/// decimal segments, and nothing otherwise.
#[verifier::rlimit(100)]
pub fn dispatch(path: &str) -> (r: Route)
    ensures
        r is Landing <==> path@ == "/"@,
        r is Tile <==> exists|c: TileCoordinate| is_tile_route(path@, c),
        r is Tile ==> is_tile_route(path@, r->Tile_0),
        r is NoMatch <==> path@ != "/"@ && !(exists|c: TileCoordinate| is_tile_route(path@, c)),
{
    let n = path.unicode_len();
    proof {
        reveal_strlit("/");
        reveal_strlit("/tiles/");
    }
    if n == 1 && path.get_char(0) == '/' {
        proof {
            assert(path@ =~= "/"@);
            assert(!exists|c: TileCoordinate| is_tile_route(path@, c)) by {
                if exists|c: TileCoordinate| is_tile_route(path@, c) {
                    let c = choose|c: TileCoordinate| is_tile_route(path@, c);
                    let _w = lemma_route_structure(path@, c);
                }
            }
        }
        return Route::Landing;
    }
    proof {
        assert(path@ != "/"@) by {
            if path@ == "/"@ {
                assert(path@.len() == 1);
                assert(path@[0] == '/');
            }
        }
    }
    if n < 7 {
        proof {
            assert(!exists|c: TileCoordinate| is_tile_route(path@, c)) by {
                if exists|c: TileCoordinate| is_tile_route(path@, c) {
                    let c = choose|c: TileCoordinate| is_tile_route(path@, c);
                    let _w = lemma_route_structure(path@, c);
                }
            }
        }
        return Route::NoMatch;
    }
    let mut k: usize = 0;
    while k < 7
        invariant
            0 <= k <= 7,
            7 <= n == path@.len(),
            path@ != "/"@,
            "/tiles/"@.len() == 7,
            forall|t: int| 0 <= t < k ==> path@[t] == "/tiles/"@[t],
        decreases 7 - k,
    {
        let expected = template_char(k);
        if path.get_char(k) != expected {
            proof {
                assert(!exists|c: TileCoordinate| is_tile_route(path@, c)) by {
                    if exists|c: TileCoordinate| is_tile_route(path@, c) {
                        let c = choose|c: TileCoordinate| is_tile_route(path@, c);
                        let _w = lemma_route_structure(path@, c);
                        assert(path@[k as int] == "/tiles/"@[k as int]);
                    }
                }
            }
            return Route::NoMatch;
        }
        k = k + 1;
    }
    let i = match find_slash(path, 7) {
        Some(i) => i,
        None => {
            proof {
                assert(!exists|c: TileCoordinate| is_tile_route(path@, c)) by {
                    if exists|c: TileCoordinate| is_tile_route(path@, c) {
                        let c = choose|c: TileCoordinate| is_tile_route(path@, c);
                        let (zs, xs, ys) = lemma_route_structure(path@, c);
                        assert(path@[(7 + zs.len()) as int] == '/');
                    }
                }
            }
            return Route::NoMatch;
        },
    };
    let j = match find_slash(path, i + 1) {
        Some(j) => j,
        None => {
            proof {
                assert(!exists|c: TileCoordinate| is_tile_route(path@, c)) by {
                    if exists|c: TileCoordinate| is_tile_route(path@, c) {
                        let c = choose|c: TileCoordinate| is_tile_route(path@, c);
                        let (zs, xs, ys) = lemma_route_structure(path@, c);
                        assert(i == 7 + zs.len());
                        assert(path@[(8 + zs.len() + xs.len()) as int] == '/');
                    }
                }
            }
            return Route::NoMatch;
        },
    };
    match find_slash(path, j + 1) {
        Some(extra) => {
            proof {
                assert(!exists|c: TileCoordinate| is_tile_route(path@, c)) by {
                    if exists|c: TileCoordinate| is_tile_route(path@, c) {
                        let c = choose|c: TileCoordinate| is_tile_route(path@, c);
                        let (zs, xs, ys) = lemma_route_structure(path@, c);
                        assert(i == 7 + zs.len());
                        assert(j == 8 + zs.len() + xs.len());
                        assert(path@[extra as int] != '/');
                    }
                }
            }
            return Route::NoMatch;
        },
        None => {},
    }
    let z_str = path.substring_char(7, i);
    let x_str = path.substring_char(i + 1, j);
    let y_str = path.substring_char(j + 1, n);
    match TileCoordinate::parse(z_str, x_str, y_str) {
        Some(c) => {
            proof {
                let zw = path@.subrange(7, i as int);
                let xw = path@.subrange(i as int + 1, j as int);
                let yw = path@.subrange(j as int + 1, n as int);
                let rhs = "/tiles/"@ + zw + seq!['/'] + xw + seq!['/'] + yw;
                assert(rhs.len() == n);
                assert forall|k: int| 0 <= k < n implies path@[k] == rhs[k] by {
                    if k < 7 {
                        assert(rhs[k] == "/tiles/"@[k]);
                    } else if k < i {
                        assert(rhs[k] == zw[k - 7]);
                        assert(zw[k - 7] == path@[k]);
                    } else if k == i {
                        assert(rhs[k] == '/');
                    } else if k < j {
                        assert(rhs[k] == xw[k - (i + 1)]);
                        assert(xw[k - (i + 1)] == path@[k]);
                    } else if k == j {
                        assert(rhs[k] == '/');
                    } else {
                        assert(rhs[k] == yw[k - (j + 1)]);
                        assert(yw[k - (j + 1)] == path@[k]);
                    }
                }
                assert(path@ =~= rhs);
                assert(is_tile_route_with(path@, zw, xw, yw));
                assert(c.z as nat == dec_value(zw));
                assert(c.x as nat == dec_value(xw));
                assert(c.y as nat == dec_value(yw));
                assert(is_tile_route(path@, c));
            }
            Route::Tile(c)
        },
        None => {
            proof {
                assert(!exists|c: TileCoordinate| is_tile_route(path@, c)) by {
                    if exists|c: TileCoordinate| is_tile_route(path@, c) {
                        let c = choose|c: TileCoordinate| is_tile_route(path@, c);
                        let (zs, xs, ys) = lemma_route_structure(path@, c);
                        assert(i == 7 + zs.len());
                        assert(j == 8 + zs.len() + xs.len());
                        assert(zs =~= path@.subrange(7, i as int));
                        assert(xs =~= path@.subrange(i as int + 1, j as int));
                        assert(ys =~= path@.subrange(j as int + 1, n as int));
                        assert(is_u32_decimal(z_str@) && is_u32_decimal(x_str@)
                            && is_u32_decimal(y_str@));
                        assert(false);
                    }
                }
            }
            Route::NoMatch
        },
    }
}

} // verus!
