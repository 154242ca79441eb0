//! The capability interface a host supplies: per-box draw, click and
//! hover behavior, and key-binding handlers. The dispatcher hands each
//! hook a mutable borrow of the one box concerned, never the whole
//! registry, so a hook may freely mutate that box's state and data slots.

use vstd::prelude::*;
use crate::geom::{Mouse, UIBox};

verus! {

/// Host-supplied behavior. A box whose `draw` kind is `Hosted` has its
/// text computed by `draw`; a box with `has_click` receives `on_click`;
/// one with `has_hover` receives `on_hover`; a key binding's handler is
/// `on_key`, identified by the tag given at binding time.
pub trait Hooks {
    /// Computes fresh text for the box; rows are separated by `'\n'`.
    fn draw(&mut self, b: &mut UIBox) -> String;

    /// Delivers a mouse press, drag or release to the box.
    fn on_click(&mut self, b: &mut UIBox, x: i32, y: i32, m: Mouse);

    /// Delivers a hover movement to the box.
    fn on_hover(&mut self, b: &mut UIBox, x: i32, y: i32);

    /// Runs the handler bound under `tag`.
    fn on_key(&mut self, tag: u64);
}

/// The box a hook call leaves behind: a hook may change a box's size,
/// states and data slots, but its identity, geometry origin, screen
/// membership, behavior flags and render cache are reinstated after the
/// call — those belong to the library alone.
pub open spec fn guarded(o: UIBox, v: UIBox) -> UIBox {
    UIBox {
        id: o.id,
        x: o.x,
        y: o.y,
        screen: o.screen,
        draw: o.draw,
        has_click: o.has_click,
        has_hover: o.has_hover,
        cache: o.cache,
        size: v.size,
        state_cur: v.state_cur,
        state_next: v.state_next,
        data1: v.data1,
        data2: v.data2,
    }
}

/// Delivers one click to `b` and reinstates the library-owned fields.
pub(crate) fn call_click<H: Hooks>(h: &mut H, b: &mut UIBox, x: i32, y: i32, m: Mouse)
    ensures
        exists|ph: &mut H, pb: &mut UIBox|
            {
                &&& mut_ref_current(ph) == *old(h)
                &&& mut_ref_future(ph) == *final(h)
                &&& mut_ref_current(pb) == *old(b)
                &&& *final(b) == guarded(*old(b), mut_ref_future(pb))
                &&& #[trigger] call_ensures(H::on_click, (ph, pb, x, y, m), ())
            },
{
    let gid = b.id;
    let gx = b.x;
    let gy = b.y;
    let gscreen = b.screen;
    let gdraw = b.draw;
    let gclick = b.has_click;
    let ghover = b.has_hover;
    let gcache = b.cache.clone();
    h.on_click(b, x, y, m);
    b.id = gid;
    b.x = gx;
    b.y = gy;
    b.screen = gscreen;
    b.draw = gdraw;
    b.has_click = gclick;
    b.has_hover = ghover;
    b.cache = gcache;
}

/// Delivers one hover to `b` and reinstates the library-owned fields.
pub(crate) fn call_hover<H: Hooks>(h: &mut H, b: &mut UIBox, x: i32, y: i32)
    ensures
        exists|ph: &mut H, pb: &mut UIBox|
            {
                &&& mut_ref_current(ph) == *old(h)
                &&& mut_ref_future(ph) == *final(h)
                &&& mut_ref_current(pb) == *old(b)
                &&& *final(b) == guarded(*old(b), mut_ref_future(pb))
                &&& #[trigger] call_ensures(H::on_hover, (ph, pb, x, y), ())
            },
{
    let gid = b.id;
    let gx = b.x;
    let gy = b.y;
    let gscreen = b.screen;
    let gdraw = b.draw;
    let gclick = b.has_click;
    let ghover = b.has_hover;
    let gcache = b.cache.clone();
    h.on_hover(b, x, y);
    b.id = gid;
    b.x = gx;
    b.y = gy;
    b.screen = gscreen;
    b.draw = gdraw;
    b.has_click = gclick;
    b.has_hover = ghover;
    b.cache = gcache;
}

/// Invokes the draw hook on `b` and reinstates the library-owned
/// fields; the caller stores the returned text into the cache.
pub(crate) fn call_draw<H: Hooks>(h: &mut H, b: &mut UIBox) -> (t: String)
    ensures
        exists|ph: &mut H, pb: &mut UIBox|
            {
                &&& mut_ref_current(ph) == *old(h)
                &&& mut_ref_future(ph) == *final(h)
                &&& mut_ref_current(pb) == *old(b)
                &&& *final(b) == guarded(*old(b), mut_ref_future(pb))
                &&& #[trigger] call_ensures(H::draw, (ph, pb), t)
            },
{
    let gid = b.id;
    let gx = b.x;
    let gy = b.y;
    let gscreen = b.screen;
    let gdraw = b.draw;
    let gclick = b.has_click;
    let ghover = b.has_hover;
    let gcache = b.cache.clone();
    let t = h.draw(b);
    b.id = gid;
    b.x = gx;
    b.y = gy;
    b.screen = gscreen;
    b.draw = gdraw;
    b.has_click = gclick;
    b.has_hover = ghover;
    b.cache = gcache;
    t
}

/// Runs the key handler bound under `tag`.
pub(crate) fn call_key<H: Hooks>(h: &mut H, tag: u64)
    ensures
        exists|ph: &mut H|
            mut_ref_current(ph) == *old(h) && mut_ref_future(ph) == *final(h)
                && #[trigger] call_ensures(H::on_key, (ph, tag), ()),
{
    h.on_key(tag);
}

} // verus!
