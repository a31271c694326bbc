//! Labels in markdown: the sheets that style them and the shapes they take.

use std::sync::Arc;
use vstd::prelude::*;

use crate::geom::label::{rich_key, Label};
use crate::geom::rich::{
    resolves, same_shape, OutlineKey, OutlineSheets, RichKey, RichWidth, StyleSheet,
};
use crate::num::Num;
use crate::value::Color;

verus! {

/// A label with an outline is styled by a sheet that sets the outline on the root
/// and leaves all else as the geom's own sheet has it. Without an outline it is
/// styled by that sheet.
pub proof fn outlines_are_set_on_the_root(
    before: OutlineSheets,
    after: OutlineSheets,
    base: Arc<StyleSheet>,
    outline: Option<(Color, Num)>,
    sheet: Arc<StyleSheet>,
    selector: Seq<char>,
)
    requires
        before.wf(),
        before.tells_apart(*base),
        resolves(before, after, base, outline, sheet),
    ensures
        match outline {
            None => sheet == base,
            Some((color, width)) => {
                &&& sheet.id == base.id
                &&& sheet.selectors@.contains_key("base"@)
                &&& sheet.selectors@["base"@].text_stroke == Some(color)
                &&& sheet.selectors@["base"@].text_stroke_width == Some(width)
                &&& base.selectors@.contains_key("base"@) ==> sheet.selectors@["base"@].rest
                    == base.selectors@["base"@].rest
                &&& selector != "base"@ ==> {
                    &&& sheet.selectors@.contains_key(selector) == base.selectors@.contains_key(
                        selector,
                    )
                    &&& base.selectors@.contains_key(selector) ==> sheet.selectors@[selector]
                        == base.selectors@[selector]
                }
            },
        },
{
    if let Some((color, width)) = outline {
        let key = OutlineKey { base: base.id, color, width };
        if before.keys@.contains(key) {
            let i = choose|i: int| before.keeps(key, i) && sheet == #[trigger] before.sheets@[i];
            assert(before.is_made(i));
            assert(*before.bases@[i] == *base);
        }
    }
}

/// Labels share a shape only where they agree in all that it depends on: what they
/// say, how they are set and filled, and how wide they may be.
pub proof fn shapes_are_shared_by_like_labels(
    a: Label,
    b: Label,
    a_size: Num,
    b_size: Num,
    sheet: u64,
    palette: u64,
    images: Option<u64>,
    dpi: Num,
    a_width: RichWidth,
    b_width: RichWidth,
)
    requires
        same_shape(
            rich_key(a, a_size, sheet, palette, images, dpi, a_width),
            rich_key(b, b_size, sheet, palette, images, dpi, b_width),
        ),
    ensures
        a.text@ == b.text@,
        a_size == b_size,
        a.style.weight == b.style.weight,
        a.style.italic == b.style.italic,
        a.style.spacing == b.style.spacing,
        a.style.underline == b.style.underline,
        a.style.strikethrough == b.style.strikethrough,
        a.style.family is Some == b.style.family is Some,
        a.style.family is Some ==> a.style.family->0@ == b.style.family->0@,
        a.fill == b.fill,
        a.outline == b.outline,
        a.align == b.align,
        a_width == b_width,
{
}

/// A shape depends on the sheet, the palette, the images and the resolution too.
pub proof fn shapes_depend_on_what_they_are_drawn_with(a: RichKey, b: RichKey)
    requires
        same_shape(a, b),
    ensures
        a.sheet == b.sheet,
        a.palette == b.palette,
        a.images == b.images,
        a.dpi == b.dpi,
        same_shape(b, a),
{
}

} // verus!
