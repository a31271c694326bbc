//! Labels along curves that are turned round, and the curves that they are turned
//! round on.
//!
//! A label that is to be upright and would stand on its head is read from the
//! other end of its curve. It is then the label of the same rows taken from the
//! last to the first, with its place along the curve and across it mirrored.

use vstd::prelude::*;

use crate::expr::{holds, value, Env, Quantity};
use crate::geom::place::fractions_at;
use crate::geom::text_path::{
    are_plans, has_label, labelled_marks, leaves, on_curve, parts_of, rule_of, stamp_of,
    turned_label_is_that_of_the_curve_walked_back, turned_rules_are_those_of_the_curve_walked_back,
    vertex_of, vertices_taken_back, walked_back, CurvePart, PathLabel, PathVertex, Walked, HALF,
};
use crate::marks::{row_run, MarkSlot};
use crate::num::Num;
use crate::projection::Projection;
use crate::resolve::Source;
use crate::theme::TextPathTheme;

verus! {

/// Whether a channel says where a row lies.
pub open spec fn places(name: Seq<char>) -> bool {
    ||| name == "x"@
    ||| name == "y"@
    ||| name == "x_band"@
    ||| name == "y_band"@
    ||| name == "x_offset"@
    ||| name == "y_offset"@
}

/// Whether a channel says where a label lies on its curve, or that it may be
/// turned round.
pub open spec fn mirrors(name: Seq<char>) -> bool {
    ||| name == "justify_x"@
    ||| name == "anchor_y"@
    ||| name == "upright"@
}

/// Whether `back` holds the `n` rows of `src` from the last to the first. All
/// rows of `src` agree on what is no matter of where they lie. A label of `src`
/// is turned round where it would stand on its head, and one of `back` is not:
/// it lies as far from the other end of the curve, and on the other side of it.
pub open spec fn taken_back(src: Source, back: Source, n: nat) -> bool {
    &&& forall|name: Seq<char>, i: int|
        0 <= i < n && !mirrors(name) ==> #[trigger] back.value_at(name, i) == src.value_at(
            name,
            n - 1 - i,
        )
    &&& forall|i: int, band: Num|
        0 <= i < n ==> #[trigger] back.position("x"@, i, band) == src.position(
            "x"@,
            n - 1 - i,
            band,
        )
    &&& forall|i: int, band: Num|
        0 <= i < n ==> #[trigger] back.position("y"@, i, band) == src.position(
            "y"@,
            n - 1 - i,
            band,
        )
    &&& forall|name: Seq<char>, i: int|
        0 <= i < n && !places(name) ==> #[trigger] src.value_at(name, i) == src.value_at(name, 0)
    &&& leaves(
        src.number_or("justify_x"@, 0, Num { bits: 0 }),
        back.number_or("justify_x"@, 0, Num { bits: 0 }),
    )
    &&& leaves(
        src.number_or("anchor_y"@, 0, Num { bits: HALF }),
        back.number_or("anchor_y"@, 0, Num { bits: HALF }),
    )
    &&& src.bool_or("upright"@, 0, false)
    &&& !back.bool_or("upright"@, 0, false)
}

/// Whether `n` rows make one mark.
pub open spec fn is_one_mark(marks: Seq<MarkSlot>, n: nat) -> bool {
    &&& marks.len() == 1
    &&& marks[0].first_row == 0
    &&& marks[0].rows@ == row_run(0, n as int)
}

/// Whether `q` is the label `p` with the vertices of its curve taken from the
/// last to the first, its place along the curve and across it mirrored, and never
/// turned round.
pub open spec fn is_mirrored(p: PathLabel, q: PathLabel) -> bool {
    let n = p.vertices@.len();
    &&& q.label == p.label
    &&& q.when == p.when
    &&& q.outline == p.outline
    &&& q.offset == p.offset
    &&& q.angle == p.angle
    &&& q.pick == p.pick
    &&& leaves(p.justify, q.justify)
    &&& leaves(p.anchor, q.anchor)
    &&& p.upright && !q.upright
    &&& q.vertices@.len() == n
    &&& forall|k: int|
        #![trigger q.vertices@[k]]
        0 <= k < n ==> {
            let v = p.vertices@[n - 1 - k];
            &&& q.vertices@[k].frac == v.frac
            &&& q.vertices@[k].placed == v.placed
            &&& q.vertices@[k].at == v.at
        }
}

proof fn held_by_the_mark(src: Source, back: Source, n: nat, name: Seq<char>)
    requires
        taken_back(src, back, n),
        n > 0,
        !places(name),
        !mirrors(name),
    ensures
        back.value_at(name, 0) == src.value_at(name, 0),
{
    assert(back.value_at(name, 0) == src.value_at(name, n - 1));
    assert(src.value_at(name, n - 1) == src.value_at(name, 0));
}

proof fn marks_hold_the_same(src: Source, back: Source, n: nat)
    requires
        taken_back(src, back, n),
        n > 0,
    ensures
        back.value_at("text"@, 0) == src.value_at("text"@, 0),
        back.value_at("weight"@, 0) == src.value_at("weight"@, 0),
        back.value_at("size"@, 0) == src.value_at("size"@, 0),
        back.value_at("italic"@, 0) == src.value_at("italic"@, 0),
        back.value_at("tracking"@, 0) == src.value_at("tracking"@, 0),
        back.value_at("underline"@, 0) == src.value_at("underline"@, 0),
        back.value_at("strikethrough"@, 0) == src.value_at("strikethrough"@, 0),
        back.value_at("family"@, 0) == src.value_at("family"@, 0),
        back.value_at("fill"@, 0) == src.value_at("fill"@, 0),
        back.value_at("fill_opacity"@, 0) == src.value_at("fill_opacity"@, 0),
        back.value_at("text_stroke"@, 0) == src.value_at("text_stroke"@, 0),
        back.value_at("text_linewidth"@, 0) == src.value_at("text_linewidth"@, 0),
        back.value_at("markdown"@, 0) == src.value_at("markdown"@, 0),
        back.value_at("offset"@, 0) == src.value_at("offset"@, 0),
        back.value_at("angle"@, 0) == src.value_at("angle"@, 0),
        back.value_at("pick_id"@, 0) == src.value_at("pick_id"@, 0),
{
    assert(!places("text"@)) by {
        reveal_strlit("text");
        reveal_strlit("x");
        assert("text"@.len() != "x"@.len());
        reveal_strlit("y");
        assert("text"@.len() != "y"@.len());
        reveal_strlit("x_band");
        assert("text"@.len() != "x_band"@.len());
        reveal_strlit("y_band");
        assert("text"@.len() != "y_band"@.len());
        reveal_strlit("x_offset");
        assert("text"@.len() != "x_offset"@.len());
        reveal_strlit("y_offset");
        assert("text"@.len() != "y_offset"@.len());
    }
    assert(!mirrors("text"@)) by {
        reveal_strlit("text");
        reveal_strlit("justify_x");
        assert("text"@.len() != "justify_x"@.len());
        reveal_strlit("anchor_y");
        assert("text"@.len() != "anchor_y"@.len());
        reveal_strlit("upright");
        assert("text"@.len() != "upright"@.len());
    }
    held_by_the_mark(src, back, n, "text"@);
    assert(!places("weight"@)) by {
        reveal_strlit("weight");
        reveal_strlit("x");
        assert("weight"@.len() != "x"@.len());
        reveal_strlit("y");
        assert("weight"@.len() != "y"@.len());
        reveal_strlit("x_band");
        assert("weight"@[0] != "x_band"@[0]);
        reveal_strlit("y_band");
        assert("weight"@[0] != "y_band"@[0]);
        reveal_strlit("x_offset");
        assert("weight"@.len() != "x_offset"@.len());
        reveal_strlit("y_offset");
        assert("weight"@.len() != "y_offset"@.len());
    }
    assert(!mirrors("weight"@)) by {
        reveal_strlit("weight");
        reveal_strlit("justify_x");
        assert("weight"@.len() != "justify_x"@.len());
        reveal_strlit("anchor_y");
        assert("weight"@.len() != "anchor_y"@.len());
        reveal_strlit("upright");
        assert("weight"@.len() != "upright"@.len());
    }
    held_by_the_mark(src, back, n, "weight"@);
    assert(!places("size"@)) by {
        reveal_strlit("size");
        reveal_strlit("x");
        assert("size"@.len() != "x"@.len());
        reveal_strlit("y");
        assert("size"@.len() != "y"@.len());
        reveal_strlit("x_band");
        assert("size"@.len() != "x_band"@.len());
        reveal_strlit("y_band");
        assert("size"@.len() != "y_band"@.len());
        reveal_strlit("x_offset");
        assert("size"@.len() != "x_offset"@.len());
        reveal_strlit("y_offset");
        assert("size"@.len() != "y_offset"@.len());
    }
    assert(!mirrors("size"@)) by {
        reveal_strlit("size");
        reveal_strlit("justify_x");
        assert("size"@.len() != "justify_x"@.len());
        reveal_strlit("anchor_y");
        assert("size"@.len() != "anchor_y"@.len());
        reveal_strlit("upright");
        assert("size"@.len() != "upright"@.len());
    }
    held_by_the_mark(src, back, n, "size"@);
    assert(!places("italic"@)) by {
        reveal_strlit("italic");
        reveal_strlit("x");
        assert("italic"@.len() != "x"@.len());
        reveal_strlit("y");
        assert("italic"@.len() != "y"@.len());
        reveal_strlit("x_band");
        assert("italic"@[0] != "x_band"@[0]);
        reveal_strlit("y_band");
        assert("italic"@[0] != "y_band"@[0]);
        reveal_strlit("x_offset");
        assert("italic"@.len() != "x_offset"@.len());
        reveal_strlit("y_offset");
        assert("italic"@.len() != "y_offset"@.len());
    }
    assert(!mirrors("italic"@)) by {
        reveal_strlit("italic");
        reveal_strlit("justify_x");
        assert("italic"@.len() != "justify_x"@.len());
        reveal_strlit("anchor_y");
        assert("italic"@.len() != "anchor_y"@.len());
        reveal_strlit("upright");
        assert("italic"@.len() != "upright"@.len());
    }
    held_by_the_mark(src, back, n, "italic"@);
    assert(!places("tracking"@)) by {
        reveal_strlit("tracking");
        reveal_strlit("x");
        assert("tracking"@.len() != "x"@.len());
        reveal_strlit("y");
        assert("tracking"@.len() != "y"@.len());
        reveal_strlit("x_band");
        assert("tracking"@.len() != "x_band"@.len());
        reveal_strlit("y_band");
        assert("tracking"@.len() != "y_band"@.len());
        reveal_strlit("x_offset");
        assert("tracking"@[0] != "x_offset"@[0]);
        reveal_strlit("y_offset");
        assert("tracking"@[0] != "y_offset"@[0]);
    }
    assert(!mirrors("tracking"@)) by {
        reveal_strlit("tracking");
        reveal_strlit("justify_x");
        assert("tracking"@.len() != "justify_x"@.len());
        reveal_strlit("anchor_y");
        assert("tracking"@[0] != "anchor_y"@[0]);
        reveal_strlit("upright");
        assert("tracking"@.len() != "upright"@.len());
    }
    held_by_the_mark(src, back, n, "tracking"@);
    assert(!places("underline"@)) by {
        reveal_strlit("underline");
        reveal_strlit("x");
        assert("underline"@.len() != "x"@.len());
        reveal_strlit("y");
        assert("underline"@.len() != "y"@.len());
        reveal_strlit("x_band");
        assert("underline"@.len() != "x_band"@.len());
        reveal_strlit("y_band");
        assert("underline"@.len() != "y_band"@.len());
        reveal_strlit("x_offset");
        assert("underline"@.len() != "x_offset"@.len());
        reveal_strlit("y_offset");
        assert("underline"@.len() != "y_offset"@.len());
    }
    assert(!mirrors("underline"@)) by {
        reveal_strlit("underline");
        reveal_strlit("justify_x");
        assert("underline"@[0] != "justify_x"@[0]);
        reveal_strlit("anchor_y");
        assert("underline"@.len() != "anchor_y"@.len());
        reveal_strlit("upright");
        assert("underline"@.len() != "upright"@.len());
    }
    held_by_the_mark(src, back, n, "underline"@);
    assert(!places("strikethrough"@)) by {
        reveal_strlit("strikethrough");
        reveal_strlit("x");
        assert("strikethrough"@.len() != "x"@.len());
        reveal_strlit("y");
        assert("strikethrough"@.len() != "y"@.len());
        reveal_strlit("x_band");
        assert("strikethrough"@.len() != "x_band"@.len());
        reveal_strlit("y_band");
        assert("strikethrough"@.len() != "y_band"@.len());
        reveal_strlit("x_offset");
        assert("strikethrough"@.len() != "x_offset"@.len());
        reveal_strlit("y_offset");
        assert("strikethrough"@.len() != "y_offset"@.len());
    }
    assert(!mirrors("strikethrough"@)) by {
        reveal_strlit("strikethrough");
        reveal_strlit("justify_x");
        assert("strikethrough"@.len() != "justify_x"@.len());
        reveal_strlit("anchor_y");
        assert("strikethrough"@.len() != "anchor_y"@.len());
        reveal_strlit("upright");
        assert("strikethrough"@.len() != "upright"@.len());
    }
    held_by_the_mark(src, back, n, "strikethrough"@);
    assert(!places("family"@)) by {
        reveal_strlit("family");
        reveal_strlit("x");
        assert("family"@.len() != "x"@.len());
        reveal_strlit("y");
        assert("family"@.len() != "y"@.len());
        reveal_strlit("x_band");
        assert("family"@[0] != "x_band"@[0]);
        reveal_strlit("y_band");
        assert("family"@[0] != "y_band"@[0]);
        reveal_strlit("x_offset");
        assert("family"@.len() != "x_offset"@.len());
        reveal_strlit("y_offset");
        assert("family"@.len() != "y_offset"@.len());
    }
    assert(!mirrors("family"@)) by {
        reveal_strlit("family");
        reveal_strlit("justify_x");
        assert("family"@.len() != "justify_x"@.len());
        reveal_strlit("anchor_y");
        assert("family"@.len() != "anchor_y"@.len());
        reveal_strlit("upright");
        assert("family"@.len() != "upright"@.len());
    }
    held_by_the_mark(src, back, n, "family"@);
    assert(!places("fill"@)) by {
        reveal_strlit("fill");
        reveal_strlit("x");
        assert("fill"@.len() != "x"@.len());
        reveal_strlit("y");
        assert("fill"@.len() != "y"@.len());
        reveal_strlit("x_band");
        assert("fill"@.len() != "x_band"@.len());
        reveal_strlit("y_band");
        assert("fill"@.len() != "y_band"@.len());
        reveal_strlit("x_offset");
        assert("fill"@.len() != "x_offset"@.len());
        reveal_strlit("y_offset");
        assert("fill"@.len() != "y_offset"@.len());
    }
    assert(!mirrors("fill"@)) by {
        reveal_strlit("fill");
        reveal_strlit("justify_x");
        assert("fill"@.len() != "justify_x"@.len());
        reveal_strlit("anchor_y");
        assert("fill"@.len() != "anchor_y"@.len());
        reveal_strlit("upright");
        assert("fill"@.len() != "upright"@.len());
    }
    held_by_the_mark(src, back, n, "fill"@);
    assert(!places("fill_opacity"@)) by {
        reveal_strlit("fill_opacity");
        reveal_strlit("x");
        assert("fill_opacity"@.len() != "x"@.len());
        reveal_strlit("y");
        assert("fill_opacity"@.len() != "y"@.len());
        reveal_strlit("x_band");
        assert("fill_opacity"@.len() != "x_band"@.len());
        reveal_strlit("y_band");
        assert("fill_opacity"@.len() != "y_band"@.len());
        reveal_strlit("x_offset");
        assert("fill_opacity"@.len() != "x_offset"@.len());
        reveal_strlit("y_offset");
        assert("fill_opacity"@.len() != "y_offset"@.len());
    }
    assert(!mirrors("fill_opacity"@)) by {
        reveal_strlit("fill_opacity");
        reveal_strlit("justify_x");
        assert("fill_opacity"@.len() != "justify_x"@.len());
        reveal_strlit("anchor_y");
        assert("fill_opacity"@.len() != "anchor_y"@.len());
        reveal_strlit("upright");
        assert("fill_opacity"@.len() != "upright"@.len());
    }
    held_by_the_mark(src, back, n, "fill_opacity"@);
    assert(!places("text_stroke"@)) by {
        reveal_strlit("text_stroke");
        reveal_strlit("x");
        assert("text_stroke"@.len() != "x"@.len());
        reveal_strlit("y");
        assert("text_stroke"@.len() != "y"@.len());
        reveal_strlit("x_band");
        assert("text_stroke"@.len() != "x_band"@.len());
        reveal_strlit("y_band");
        assert("text_stroke"@.len() != "y_band"@.len());
        reveal_strlit("x_offset");
        assert("text_stroke"@.len() != "x_offset"@.len());
        reveal_strlit("y_offset");
        assert("text_stroke"@.len() != "y_offset"@.len());
    }
    assert(!mirrors("text_stroke"@)) by {
        reveal_strlit("text_stroke");
        reveal_strlit("justify_x");
        assert("text_stroke"@.len() != "justify_x"@.len());
        reveal_strlit("anchor_y");
        assert("text_stroke"@.len() != "anchor_y"@.len());
        reveal_strlit("upright");
        assert("text_stroke"@.len() != "upright"@.len());
    }
    held_by_the_mark(src, back, n, "text_stroke"@);
    assert(!places("text_linewidth"@)) by {
        reveal_strlit("text_linewidth");
        reveal_strlit("x");
        assert("text_linewidth"@.len() != "x"@.len());
        reveal_strlit("y");
        assert("text_linewidth"@.len() != "y"@.len());
        reveal_strlit("x_band");
        assert("text_linewidth"@.len() != "x_band"@.len());
        reveal_strlit("y_band");
        assert("text_linewidth"@.len() != "y_band"@.len());
        reveal_strlit("x_offset");
        assert("text_linewidth"@.len() != "x_offset"@.len());
        reveal_strlit("y_offset");
        assert("text_linewidth"@.len() != "y_offset"@.len());
    }
    assert(!mirrors("text_linewidth"@)) by {
        reveal_strlit("text_linewidth");
        reveal_strlit("justify_x");
        assert("text_linewidth"@.len() != "justify_x"@.len());
        reveal_strlit("anchor_y");
        assert("text_linewidth"@.len() != "anchor_y"@.len());
        reveal_strlit("upright");
        assert("text_linewidth"@.len() != "upright"@.len());
    }
    held_by_the_mark(src, back, n, "text_linewidth"@);
    assert(!places("markdown"@)) by {
        reveal_strlit("markdown");
        reveal_strlit("x");
        assert("markdown"@.len() != "x"@.len());
        reveal_strlit("y");
        assert("markdown"@.len() != "y"@.len());
        reveal_strlit("x_band");
        assert("markdown"@.len() != "x_band"@.len());
        reveal_strlit("y_band");
        assert("markdown"@.len() != "y_band"@.len());
        reveal_strlit("x_offset");
        assert("markdown"@[0] != "x_offset"@[0]);
        reveal_strlit("y_offset");
        assert("markdown"@[0] != "y_offset"@[0]);
    }
    assert(!mirrors("markdown"@)) by {
        reveal_strlit("markdown");
        reveal_strlit("justify_x");
        assert("markdown"@.len() != "justify_x"@.len());
        reveal_strlit("anchor_y");
        assert("markdown"@[0] != "anchor_y"@[0]);
        reveal_strlit("upright");
        assert("markdown"@.len() != "upright"@.len());
    }
    held_by_the_mark(src, back, n, "markdown"@);
    assert(!places("offset"@)) by {
        reveal_strlit("offset");
        reveal_strlit("x");
        assert("offset"@.len() != "x"@.len());
        reveal_strlit("y");
        assert("offset"@.len() != "y"@.len());
        reveal_strlit("x_band");
        assert("offset"@[0] != "x_band"@[0]);
        reveal_strlit("y_band");
        assert("offset"@[0] != "y_band"@[0]);
        reveal_strlit("x_offset");
        assert("offset"@.len() != "x_offset"@.len());
        reveal_strlit("y_offset");
        assert("offset"@.len() != "y_offset"@.len());
    }
    assert(!mirrors("offset"@)) by {
        reveal_strlit("offset");
        reveal_strlit("justify_x");
        assert("offset"@.len() != "justify_x"@.len());
        reveal_strlit("anchor_y");
        assert("offset"@.len() != "anchor_y"@.len());
        reveal_strlit("upright");
        assert("offset"@.len() != "upright"@.len());
    }
    held_by_the_mark(src, back, n, "offset"@);
    assert(!places("angle"@)) by {
        reveal_strlit("angle");
        reveal_strlit("x");
        assert("angle"@.len() != "x"@.len());
        reveal_strlit("y");
        assert("angle"@.len() != "y"@.len());
        reveal_strlit("x_band");
        assert("angle"@.len() != "x_band"@.len());
        reveal_strlit("y_band");
        assert("angle"@.len() != "y_band"@.len());
        reveal_strlit("x_offset");
        assert("angle"@.len() != "x_offset"@.len());
        reveal_strlit("y_offset");
        assert("angle"@.len() != "y_offset"@.len());
    }
    assert(!mirrors("angle"@)) by {
        reveal_strlit("angle");
        reveal_strlit("justify_x");
        assert("angle"@.len() != "justify_x"@.len());
        reveal_strlit("anchor_y");
        assert("angle"@.len() != "anchor_y"@.len());
        reveal_strlit("upright");
        assert("angle"@.len() != "upright"@.len());
    }
    held_by_the_mark(src, back, n, "angle"@);
    assert(!places("pick_id"@)) by {
        reveal_strlit("pick_id");
        reveal_strlit("x");
        assert("pick_id"@.len() != "x"@.len());
        reveal_strlit("y");
        assert("pick_id"@.len() != "y"@.len());
        reveal_strlit("x_band");
        assert("pick_id"@.len() != "x_band"@.len());
        reveal_strlit("y_band");
        assert("pick_id"@.len() != "y_band"@.len());
        reveal_strlit("x_offset");
        assert("pick_id"@.len() != "x_offset"@.len());
        reveal_strlit("y_offset");
        assert("pick_id"@.len() != "y_offset"@.len());
    }
    assert(!mirrors("pick_id"@)) by {
        reveal_strlit("pick_id");
        reveal_strlit("justify_x");
        assert("pick_id"@.len() != "justify_x"@.len());
        reveal_strlit("anchor_y");
        assert("pick_id"@.len() != "anchor_y"@.len());
        reveal_strlit("upright");
        assert("pick_id"@[0] != "upright"@[0]);
    }
    held_by_the_mark(src, back, n, "pick_id"@);
}

proof fn vertices_are_taken_back(
    src: Source,
    back: Source,
    projection: Projection,
    n: nat,
    k: int,
)
    requires
        taken_back(src, back, n),
        0 <= k < n,
    ensures
        ({
            let v = vertex_of(src, projection, n - 1 - k);
            let w = vertex_of(back, projection, k);
            w.frac == v.frac && w.placed == v.placed && w.at == v.at
        }),
{
    assert(!mirrors("x_band"@)) by {
        reveal_strlit("x_band");
        reveal_strlit("justify_x");
        assert("x_band"@.len() != "justify_x"@.len());
        reveal_strlit("anchor_y");
        assert("x_band"@.len() != "anchor_y"@.len());
        reveal_strlit("upright");
        assert("x_band"@.len() != "upright"@.len());
    }
    assert(back.value_at("x_band"@, k) == src.value_at("x_band"@, n - 1 - k));
    assert(!mirrors("y_band"@)) by {
        reveal_strlit("y_band");
        reveal_strlit("justify_x");
        assert("y_band"@.len() != "justify_x"@.len());
        reveal_strlit("anchor_y");
        assert("y_band"@.len() != "anchor_y"@.len());
        reveal_strlit("upright");
        assert("y_band"@.len() != "upright"@.len());
    }
    assert(back.value_at("y_band"@, k) == src.value_at("y_band"@, n - 1 - k));
    assert(!mirrors("x_offset"@)) by {
        reveal_strlit("x_offset");
        reveal_strlit("justify_x");
        assert("x_offset"@.len() != "justify_x"@.len());
        reveal_strlit("anchor_y");
        assert("x_offset"@[0] != "anchor_y"@[0]);
        reveal_strlit("upright");
        assert("x_offset"@.len() != "upright"@.len());
    }
    assert(back.value_at("x_offset"@, k) == src.value_at("x_offset"@, n - 1 - k));
    assert(!mirrors("y_offset"@)) by {
        reveal_strlit("y_offset");
        reveal_strlit("justify_x");
        assert("y_offset"@.len() != "justify_x"@.len());
        reveal_strlit("anchor_y");
        assert("y_offset"@[0] != "anchor_y"@[0]);
        reveal_strlit("upright");
        assert("y_offset"@.len() != "upright"@.len());
    }
    assert(back.value_at("y_offset"@, k) == src.value_at("y_offset"@, n - 1 - k));
    let f = fractions_at(src, "x"@, "y"@, "x_band"@, "y_band"@, n - 1 - k);
    let g = fractions_at(back, "x"@, "y"@, "x_band"@, "y_band"@, k);
    assert(g.a == f.a && g.b == f.b);
}

/// The plan of the rows taken back is that of the rows, mirrored.
pub proof fn plans_are_mirrored(
    src: Source,
    back: Source,
    theme: TextPathTheme,
    projection: Projection,
    n: nat,
    marks: Seq<MarkSlot>,
    marks_back: Seq<MarkSlot>,
    plans: Seq<PathLabel>,
    others: Seq<PathLabel>,
)
    requires
        0 < n <= usize::MAX,
        taken_back(src, back, n),
        is_one_mark(marks, n),
        is_one_mark(marks_back, n),
        are_plans(plans, src, theme, projection, marks, 1),
        are_plans(others, back, theme, projection, marks_back, 1),
    ensures
        plans.len() == others.len(),
        plans.len() == (if has_label(src, theme, 0) {
            1nat
        } else {
            0nat
        }),
        plans.len() > 0 ==> plans[0].vertices@.len() == n && is_mirrored(plans[0], others[0]),
{
    marks_hold_the_same(src, back, n);
    reveal_with_fuel(labelled_marks, 2);
    assert(has_label(src, theme, 0) == has_label(back, theme, 0));
    if has_label(src, theme, 0) {
        let p = plans[0];
        let q = others[0];
        assert(labelled_marks(src, theme, marks, 1)[0] == marks[0]);
        assert(labelled_marks(back, theme, marks_back, 1)[0] == marks_back[0]);
        assert forall|k: int|
            #![trigger q.vertices@[k]]
            0 <= k < n implies {
            let v = p.vertices@[n - 1 - k];
            &&& q.vertices@[k].frac == v.frac
            &&& q.vertices@[k].placed == v.placed
            &&& q.vertices@[k].at == v.at
        } by {
            vertices_are_taken_back(src, back, projection, n, k);
        }
    }
}

/// The points of a curve, without those vertices that lie nowhere.
pub open spec fn curve_points(v: Seq<PathVertex>, env: Env) -> Seq<(real, real)> {
    let placed = Seq::new(v.len(), |k: int| holds(v[k].placed, env));
    let parts = parts_of(true, placed, v.len());
    Seq::new(
        parts.len(),
        |k: int|
            {
                let at = v[parts[k]->Vertex_0 as int].at;
                (value(at.x, env), value(at.y, env))
            },
    )
}

/// A label's curve has the same points as that of the mirrored label, the last of
/// them first.
pub proof fn mirrored_curves_run_back(p: PathLabel, q: PathLabel, env: Env)
    requires
        is_mirrored(p, q),
        p.vertices@.len() <= usize::MAX,
    ensures
        curve_points(q.vertices@, env) == curve_points(p.vertices@, env).reverse(),
{
    let v = p.vertices@;
    let w = q.vertices@;
    let n = v.len();
    let placed = Seq::new(n, |k: int| holds(v[k].placed, env));
    let back = Seq::new(n, |k: int| holds(w[k].placed, env));
    assert forall|k: int| 0 <= k < n implies back[k] == placed.reverse()[k] by {
        assert(w[k].placed == v[n - 1 - k].placed);
    }
    assert(back =~= placed.reverse());
    vertices_taken_back(placed);
    let there = parts_of(true, placed, n);
    let here = parts_of(true, back, n);
    let a = curve_points(v, env);
    let b = curve_points(w, env);
    assert forall|k: int| 0 <= k < b.len() implies b[k] == a.reverse()[k] by {
        let part = here[k];
        let j = there[there.len() - 1 - k]->Vertex_0 as int;
        assert(part == CurvePart::Vertex((n - 1 - j) as usize));
        assert(w[n - 1 - j].at == v[j].at);
    }
    assert(b =~= a.reverse());
}

/// How far two points lie apart.
pub open spec fn apart(a: (real, real), b: (real, real), env: Env) -> real {
    (env.sqrt)((b.0 - a.0) * (b.0 - a.0) + (b.1 - a.1) * (b.1 - a.1))
}

/// How far it is along points to the one with number `k`.
pub open spec fn way_to(points: Seq<(real, real)>, k: nat, env: Env) -> real
    decreases k,
{
    if k == 0 {
        0real
    } else {
        way_to(points, (k - 1) as nat, env) + apart(points[k - 1], points[k as int], env)
    }
}

/// How far it is along all of the points.
pub open spec fn way_along(points: Seq<(real, real)>, env: Env) -> real {
    if points.len() == 0 {
        0real
    } else {
        way_to(points, (points.len() - 1) as nat, env)
    }
}

/// Whether a distance along points leads between the one with number `k` and the
/// next.
pub open spec fn leads_between(points: Seq<(real, real)>, k: int, s: real, env: Env) -> bool {
    &&& 0 <= k < points.len() - 1
    &&& way_to(points, k as nat, env) < s < way_to(points, (k + 1) as nat, env)
}

/// Whether a distance along points leads between two of them.
pub open spec fn leads_off_corners(points: Seq<(real, real)>, s: real, env: Env) -> bool {
    exists|k: int| #[trigger] leads_between(points, k, s, env)
}

/// The point a distance from `a` towards `b`, and the direction there.
pub open spec fn towards(a: (real, real), b: (real, real), s: real, env: Env) -> (
    real,
    real,
    real,
    real,
) {
    let d = apart(a, b, env);
    let x = (b.0 - a.0) / d;
    let y = (b.1 - a.1) / d;
    (a.0 + x * s, a.1 + y * s, x, y)
}

/// Whether `c` walks along points, in straight lines from one to the next. On
/// the points themselves, where the direction changes, it may do anything.
pub open spec fn walks(c: Walked, points: Seq<(real, real)>, env: Env) -> bool {
    forall|k: int, s: real| #[trigger]
        leads_between(points, k, s, env) ==> c(s) == towards(
            points[k],
            points[k + 1],
            s - way_to(points, k as nat, env),
            env,
        )
}

proof fn apart_both_ways(a: (real, real), b: (real, real), env: Env)
    ensures
        apart(a, b, env) == apart(b, a, env),
{
    let x = b.0 - a.0;
    let y = b.1 - a.1;
    assert(x * x == (0real - x) * (0real - x)) by (nonlinear_arith);
    assert(y * y == (0real - y) * (0real - y)) by (nonlinear_arith);
    assert(a.0 - b.0 == 0real - x && a.1 - b.1 == 0real - y);
}

proof fn way_back(points: Seq<(real, real)>, k: nat, env: Env)
    requires
        k < points.len(),
    ensures
        way_to(points.reverse(), k, env) == way_along(points, env) - way_to(
            points,
            (points.len() - 1 - k) as nat,
            env,
        ),
    decreases k,
{
    let m = points.len();
    let r = points.reverse();
    if k > 0 {
        way_back(points, (k - 1) as nat, env);
        assert(r[k - 1] == points[m - k]);
        assert(r[k as int] == points[m - 1 - k]);
        apart_both_ways(points[m - 1 - k], points[m - k], env);
        assert(way_to(points, (m - k) as nat, env) == way_to(points, (m - 1 - k) as nat, env)
            + apart(points[m - 1 - k], points[m - k], env));
    }
}

proof fn towards_from_the_other_end(a: (real, real), b: (real, real), s: real, env: Env)
    requires
        apart(a, b, env) > 0real,
    ensures
        ({
            let there = towards(a, b, s, env);
            let back = towards(b, a, apart(a, b, env) - s, env);
            back == (there.0, there.1, 0real - there.2, 0real - there.3)
        }),
{
    apart_both_ways(a, b, env);
    let d = apart(a, b, env);
    other_end(a.0, b.0, d, s);
    other_end(a.1, b.1, d, s);
}

proof fn other_end(a: real, b: real, d: real, s: real)
    requires
        d > 0real,
    ensures
        (a - b) / d == 0real - (b - a) / d,
        b + ((a - b) / d) * (d - s) == a + ((b - a) / d) * s,
{
    let x = (b - a) / d;
    assert((a - b) / d == 0real - (b - a) / d) by (nonlinear_arith)
        requires
            d > 0real,
    ;
    assert(x * d == b - a) by (nonlinear_arith)
        requires
            d > 0real,
            x == (b - a) / d,
    ;
    assert((0real - x) * (d - s) == x * s - x * d) by (nonlinear_arith);
}

/// Who walks along points taken back walks back along the points.
pub proof fn walking_points_taken_back(
    c: Walked,
    d: Walked,
    points: Seq<(real, real)>,
    s: real,
    env: Env,
)
    requires
        walks(c, points, env),
        walks(d, points.reverse(), env),
        leads_off_corners(points.reverse(), s, env),
    ensures
        way_along(points.reverse(), env) == way_along(points, env),
        d(s) == walked_back(c, way_along(points, env))(s),
{
    let r = points.reverse();
    let m = points.len();
    let length = way_along(points, env);
    let k = choose|k: int| #[trigger] leads_between(r, k, s, env);
    way_back(points, k as nat, env);
    way_back(points, (k + 1) as nat, env);
    way_back(points, (m - 1) as nat, env);
    let j = m - 2 - k;
    let a = points[j];
    let b = points[j + 1];
    assert(r[k] == b && r[k + 1] == a);
    assert(leads_between(points, j, length - s, env));
    assert(way_to(points, (j + 1) as nat, env) == way_to(points, j as nat, env) + apart(a, b, env));
    let u = length - s - way_to(points, j as nat, env);
    assert(c(length - s) == towards(a, b, u, env));
    assert(s - way_to(r, k as nat, env) == apart(a, b, env) - u);
    towards_from_the_other_end(a, b, u, env);
}

/// A label that is turned round on a Cartesian curve is the label of the rows
/// taken back, with its place along the curve and across it mirrored.
///
/// Both consist of the same glyphs and rules. A glyph is drawn of the one where it
/// is drawn of the other, on the same spot of the curve, turned and moved alike;
/// and so is a rule, beside the same stretch of the curve. At the corners of the
/// curve, where its direction changes, nothing is said.
pub proof fn turned_label_is_that_of_the_rows_taken_back(
    src: Source,
    back: Source,
    theme: TextPathTheme,
    projection: Projection,
    n: nat,
    marks: Seq<MarkSlot>,
    marks_back: Seq<MarkSlot>,
    plans: Seq<PathLabel>,
    others: Seq<PathLabel>,
    c: Walked,
    d: Walked,
    s: real,
    env: Env,
)
    requires
        0 < n <= usize::MAX,
        projection is Cartesian,
        taken_back(src, back, n),
        is_one_mark(marks, n),
        is_one_mark(marks_back, n),
        are_plans(plans, src, theme, projection, marks, 1),
        are_plans(others, back, theme, projection, marks_back, 1),
        plans.len() > 0,
        walks(c, curve_points(plans[0].vertices@, env), env),
        others.len() > 0 ==> walks(d, curve_points(others[0].vertices@, env), env),
        (env.var)(Quantity::PathLength) == way_along(curve_points(plans[0].vertices@, env), env),
    ensures
        plans.len() == 1 && others.len() == 1,
        ({
            let p = plans[0];
            let q = others[0];
            let length = (env.var)(Quantity::PathLength);
            let points = curve_points(q.vertices@, env);
            let g = stamp_of(p.offset, p.justify, p.anchor, p.angle, true);
            let h = stamp_of(q.offset, q.justify, q.anchor, q.angle, false);
            let u = rule_of(p.offset, p.justify, p.anchor, true);
            let v = rule_of(q.offset, q.justify, q.anchor, false);
            &&& is_mirrored(p, q)
            &&& way_along(points, env) == length
            &&& holds(g.when, env) == holds(h.when, env)
            &&& value(g.along, env) == length - value(h.along, env)
            &&& leads_off_corners(points, value(h.along, env), env) ==> {
                let there = on_curve(env, c, value(g.along, env));
                let here = on_curve(env, d, value(h.along, env));
                &&& value(g.angle, there) == value(h.angle, here)
                &&& value(g.at.x, there) == value(h.at.x, here)
                &&& value(g.at.y, there) == value(h.at.y, here)
                &&& value(g.shift.x, there) == value(h.shift.x, here)
                &&& value(g.shift.y, there) == value(h.shift.y, here)
            }
            &&& holds(u.when, env) == holds(v.when, env)
            &&& value(u.from, env) == length - value(v.to, env)
            &&& value(u.to, env) == length - value(v.from, env)
            &&& value(u.thickness, env) == value(v.thickness, env)
            &&& leads_off_corners(points, length - s, env) ==> {
                let there = on_curve(env, c, s);
                let here = on_curve(env, d, length - s);
                &&& value(u.at.x, there) == value(v.at.x, here)
                &&& value(u.at.y, there) == value(v.at.y, here)
            }
        }),
{
    plans_are_mirrored(src, back, theme, projection, n, marks, marks_back, plans, others);
    let p = plans[0];
    let q = others[0];
    let length = (env.var)(Quantity::PathLength);
    let there = curve_points(p.vertices@, env);
    let points = curve_points(q.vertices@, env);
    mirrored_curves_run_back(p, q, env);
    if there.len() > 0 {
        way_back(there, (there.len() - 1) as nat, env);
    }
    let h = stamp_of(q.offset, q.justify, q.anchor, q.angle, false);
    turned_label_is_that_of_the_curve_walked_back(
        p.offset,
        p.justify,
        p.anchor,
        p.angle,
        q.justify,
        q.anchor,
        c,
        env,
    );
    turned_rules_are_those_of_the_curve_walked_back(
        p.offset,
        p.justify,
        p.anchor,
        q.justify,
        q.anchor,
        c,
        s,
        env,
    );
    let along = value(h.along, env);
    if leads_off_corners(points, along, env) {
        walking_points_taken_back(c, d, there, along, env);
        assert(on_curve(env, d, along) == on_curve(env, walked_back(c, length), along));
    }
    if leads_off_corners(points, length - s, env) {
        walking_points_taken_back(c, d, there, length - s, env);
        assert(on_curve(env, d, length - s) == on_curve(
            env,
            walked_back(c, length),
            length - s,
        ));
    }
}

} // verus!
