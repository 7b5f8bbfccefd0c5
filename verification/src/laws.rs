//! Laws of the request-handling core, stated over the same spec functions the
//! executable contracts use.

use vstd::prelude::*;
use crate::digits::{
    dec_digits, lemma_concat_cancel_left, lemma_dec_digits_value, lemma_digits_sep_unique,
};
use crate::response::{outcome_for, FileRead};
use crate::tiles::{tile_path_spec, TileCoordinate};

verus! {

/// Serving a tile is a pure function of the root directory, the coordinate,
/// and the file read's result. Two requests that see the same three — the
/// same request repeated against an unchanged filesystem, however many other
/// requests run between or beside them — resolve the same path and get
/// byte-identical responses with the same status.
pub proof fn lemma_tile_service_deterministic(
    root1: Seq<char>,
    c1: TileCoordinate,
    r1: FileRead,
    root2: Seq<char>,
    c2: TileCoordinate,
    r2: FileRead,
)
    requires
        root1 == root2,
        c1 == c2,
        r1 == r2,
    ensures
        tile_path_spec(root1, c1) == tile_path_spec(root2, c2),
        outcome_for(r1) == outcome_for(r2),
        outcome_for(r1).spec_status() == outcome_for(r2).spec_status(),
        outcome_for(r1).spec_body() == outcome_for(r2).spec_body(),
{
}

/// Distinct tiles never collide on disk: under one root, two distinct
/// coordinates resolve to distinct file paths, so simultaneous requests for
/// distinct tiles each read their own file and answer to its own presence or
/// absence alone.
#[verifier::rlimit(100)]
pub proof fn lemma_tile_paths_distinct(root: Seq<char>, c1: TileCoordinate, c2: TileCoordinate)
    requires
        c1 != c2,
    ensures
        tile_path_spec(root, c1) != tile_path_spec(root, c2),
{
    if tile_path_spec(root, c1) == tile_path_spec(root, c2) {
        reveal_strlit("/");
        reveal_strlit(".png");
        let dz1 = dec_digits(c1.z as nat);
        let dx1 = dec_digits(c1.x as nat);
        let dy1 = dec_digits(c1.y as nat);
        let dz2 = dec_digits(c2.z as nat);
        let dx2 = dec_digits(c2.x as nat);
        let dy2 = dec_digits(c2.y as nat);
        lemma_dec_digits_value(c1.z as nat);
        lemma_dec_digits_value(c1.x as nat);
        lemma_dec_digits_value(c1.y as nat);
        lemma_dec_digits_value(c2.z as nat);
        lemma_dec_digits_value(c2.x as nat);
        lemma_dec_digits_value(c2.y as nat);
        let png = seq!['p', 'n', 'g'];
        let w1 = dy1 + seq!['.'] + png;
        let w2 = dy2 + seq!['.'] + png;
        let v1 = dx1 + seq!['/'] + w1;
        let v2 = dx2 + seq!['/'] + w2;
        let u1 = dz1 + seq!['/'] + v1;
        let u2 = dz2 + seq!['/'] + v2;
        let head = root + seq!['/'];
        assert(tile_path_spec(root, c1) =~= head + u1);
        assert(tile_path_spec(root, c2) =~= head + u2);
        lemma_concat_cancel_left(head, u1, u2);
        lemma_digits_sep_unique(dz1, v1, dz2, v2, '/');
        lemma_digits_sep_unique(dx1, w1, dx2, w2, '/');
        lemma_digits_sep_unique(dy1, png, dy2, png, '.');
        assert(c1.z == c2.z);
        assert(c1.x == c2.x);
        assert(c1.y == c2.y);
        assert(false);
    }
}

} // verus!
