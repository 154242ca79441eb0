//! Laws of the render and dispatch pipeline, proved from the same
//! specifications the executable contracts use.

use vstd::prelude::*;
use crate::geom::{box_contains, box_dirty, UIBox};
use crate::input::first_hit;
use crate::render::{box_delta, box_step};
use crate::ui::UI;

verus! {

/// A box with no draw behavior renders nothing: its render step
/// appends no characters to the output, never turns a clean box dirty,
/// and leaves its cache empty of any freshly drawn text.
pub proof fn lemma_no_draw_renders_nothing(ui: UI, b: UIBox, nb: UIBox)
    requires
        b.draw is NoDraw,
        box_step(ui, b, nb),
    ensures
        box_delta(ui, b, nb) == Seq::<char>::empty(),
        !box_dirty(b) ==> !box_dirty(nb),
{
}

/// Idempotence of a clean render: with no state change and no force
/// flag, a render step leaves the box exactly as it was, so a second
/// render appends the same characters as the first.
pub proof fn lemma_clean_render_identical(ui: UI, b: UIBox, nb: UIBox)
    requires
        !ui.force,
        !box_dirty(b),
        box_step(ui, b, nb),
    ensures
        nb == b,
        box_delta(ui, b, nb) == box_delta(ui, nb, nb),
{
}

/// Dirty-to-clean transition: a box with a draw behavior on the active
/// screen comes out of a render step clean, and with no force flag a
/// second render step leaves it untouched.
pub proof fn lemma_render_cleans_then_stays(ui: UI, b: UIBox, nb: UIBox, nb2: UIBox)
    requires
        !ui.force,
        b.screen == ui.screen,
        !(b.draw is NoDraw),
        box_step(ui, b, nb),
        box_step(ui, nb, nb2),
    ensures
        nb.state_cur == nb.state_next,
        nb2 == nb,
{
}

/// An off-screen box is invisible to a render step: it is left exactly
/// as it was and contributes nothing to the output.
pub proof fn lemma_off_screen_untouched(ui: UI, b: UIBox, nb: UIBox)
    requires
        b.screen != ui.screen,
        box_step(ui, b, nb),
    ensures
        nb == b,
        box_delta(ui, b, nb) == Seq::<char>::empty(),
{
}

/// What the press dispatch selects: the chosen box is on the active
/// screen, contains the point and has a click handler, every earlier
/// box lacks one of those, and when nothing is chosen no box at all
/// qualifies. In particular a box on another screen is never hit.
pub proof fn lemma_first_hit_characterizes(bs: Seq<UIBox>, scr: int, x: int, y: int, i: int)
    requires
        0 <= i <= bs.len(),
    ensures
        match first_hit(bs, scr, x, y, i) {
            Option::Some(k) => {
                &&& i <= k < bs.len()
                &&& bs[k].screen == scr
                &&& box_contains(bs[k], x, y)
                &&& bs[k].has_click
                &&& forall|j: int|
                    i <= j < k ==> !((#[trigger] bs[j]).screen == scr && box_contains(bs[j], x, y)
                        && bs[j].has_click)
            },
            Option::None => forall|j: int|
                i <= j < bs.len() ==> !((#[trigger] bs[j]).screen == scr && box_contains(
                    bs[j],
                    x,
                    y,
                ) && bs[j].has_click),
        },
    decreases bs.len() - i,
{
    if i < bs.len() {
        if !(bs[i].screen == scr && box_contains(bs[i], x, y) && bs[i].has_click) {
            lemma_first_hit_characterizes(bs, scr, x, y, i + 1);
        }
    }
}

} // verus!
