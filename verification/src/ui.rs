//! The UI session: the box registry, key bindings, scroll and drag
//! state, and the registration operations.

use vstd::prelude::*;
use crate::geom::{DrawKind, Position, Size, UIBox};
use crate::hooks::Hooks;

verus! {

/// A key binding: a character and the host's tag for its handler.
#[derive(Debug, Clone, Copy, PartialEq, Eq, Structural)]
pub struct UIEvt {
    pub chr: char,
    pub tag: u64,
}

/// A UI session: the ordered box registry (insertion order is z-order),
/// key bindings, the active screen id, scroll state, the drag target and
/// the force-redraw flag.
#[derive(Debug)]
pub struct UI {
    pub size: Size,
    pub boxs: Vec<UIBox>,
    pub evts: Vec<UIEvt>,
    pub click: Option<UIBox>,
    pub screen: i32,
    pub scroll: i32,
    pub canscroll: bool,
    pub id: i32,
    pub force: bool,
}

/// The terminal size used by a session. Size discovery is the terminal
/// provider's affair; this fixed fallback mirrors a conventional
/// 80-by-24 terminal.
pub fn get_winsize() -> (r: Size)
    ensures
        r == (Size { w: 80, h: 24 }),
{
    Size { w: 80, h: 24 }
}

/// Centering a span inside a total: the signed difference halved,
/// rounded toward zero.
pub open spec fn center_spec(total: int, span: int) -> int {
    let d = total - span;
    if d >= 0 {
        d / 2
    } else {
        -((-d) / 2)
    }
}

/// The x coordinate a position request resolves to at registration.
pub open spec fn resolve_x(ui: UI, p: Position, size: Size) -> int {
    match p {
        Position::Center => center_spec(ui.size.w as int, size.w as int),
        Position::Specific(v) => v as int,
    }
}

/// The y coordinate a position request resolves to at registration.
pub open spec fn resolve_y(ui: UI, p: Position, size: Size) -> int {
    match p {
        Position::Center => center_spec(ui.size.h as int, size.h as int),
        Position::Specific(v) => v as int,
    }
}

impl UI {
    /// Opens a fresh session on screen `s`: no boxes, no bindings, no
    /// drag target, scroll at zero with scrolling enabled, ids starting
    /// at zero.
    pub fn new(s: i32) -> (r: UI)
        ensures
            r.size == (Size { w: 80, h: 24 }),
            r.boxs@ =~= Seq::<UIBox>::empty(),
            r.evts@ =~= Seq::<UIEvt>::empty(),
            r.click is None,
            r.screen == s,
            r.scroll == 0,
            r.canscroll == true,
            r.id == 0,
            r.force == false,
    {
        let size = get_winsize();
        UI {
            size,
            boxs: Vec::new(),
            evts: Vec::new(),
            click: None,
            screen: s,
            scroll: 0,
            canscroll: true,
            id: 0,
            force: false,
        }
    }

    /// The x coordinate that centers a box of width `w` on this screen.
    pub fn center_x(&self, w: i32) -> (r: i32)
        ensures
            r as int == center_spec(self.size.w as int, w as int),
    {
        let d = self.size.w as i64 - w as i64;
        if d >= 0 {
            (d / 2) as i32
        } else {
            (-((-d) / 2)) as i32
        }
    }

    /// The y coordinate that centers a box of height `h` on this screen.
    pub fn center_y(&self, h: i32) -> (r: i32)
        ensures
            r as int == center_spec(self.size.h as int, h as int),
    {
        let d = self.size.h as i64 - h as i64;
        if d >= 0 {
            (d / 2) as i32
        } else {
            (-((-d) / 2)) as i32
        }
    }

    /// Registers a box and returns its id; ids increase by one per
    /// registration. The position is resolved immediately against the
    /// current screen size, and a box with a draw behavior has its cache
    /// seeded at once: the one-shot draw consumes `data1` into the
    /// cache, and a hosted draw is invoked on the freshly built box.
    pub fn add<H: Hooks>(
        &mut self,
        h: &mut H,
        x: Position,
        y: Position,
        size: Size,
        state: i32,
        draw: DrawKind,
        has_click: bool,
        has_hover: bool,
        data1: String,
        data2: String,
    ) -> (r: i32)
        requires
            old(self).id < i32::MAX,
        ensures
            r == old(self).id,
            final(self).id == old(self).id + 1,
            final(self).boxs@.len() == old(self).boxs@.len() + 1,
            forall|j: int|
                0 <= j < old(self).boxs@.len() ==> final(self).boxs@[j] == old(self).boxs@[j],
            final(self).evts == old(self).evts,
            final(self).click == old(self).click,
            final(self).screen == old(self).screen,
            final(self).scroll == old(self).scroll,
            final(self).canscroll == old(self).canscroll,
            final(self).force == old(self).force,
            final(self).size == old(self).size,
            !(draw is Hosted) ==> {
                let nb = final(self).boxs@.last();
                &&& nb.id == old(self).id
                &&& nb.x as int == resolve_x(*old(self), x, size)
                &&& nb.y as int == resolve_y(*old(self), y, size)
                &&& nb.size == size
                &&& nb.screen == old(self).screen
                &&& nb.state_cur == state
                &&& nb.state_next == state
                &&& nb.draw == draw
                &&& nb.has_click == has_click
                &&& nb.has_hover == has_hover
                &&& nb.data2 == data2
                &&& (draw is NoDraw ==> nb.cache@ == Seq::<char>::empty() && nb.data1 == data1)
                &&& (draw is OneShot ==> nb.cache@ == data1@ && nb.data1@ == Seq::<char>::empty())
            },
            draw is NoDraw ==> *final(h) == *old(h),
            draw is OneShot ==> *final(h) == *old(h),
            draw is Hosted ==> exists|ph: &mut H, pb: &mut UIBox, t: String|
                {
                    let b0 = mut_ref_current(pb);
                    let g = crate::hooks::guarded(b0, mut_ref_future(pb));
                    &&& mut_ref_current(ph) == *old(h)
                    &&& mut_ref_future(ph) == *final(h)
                    &&& b0.id == old(self).id
                    &&& b0.x as int == resolve_x(*old(self), x, size)
                    &&& b0.y as int == resolve_y(*old(self), y, size)
                    &&& b0.size == size
                    &&& b0.screen == old(self).screen
                    &&& b0.state_cur == state
                    &&& b0.state_next == state
                    &&& b0.draw == draw
                    &&& b0.has_click == has_click
                    &&& b0.has_hover == has_hover
                    &&& b0.cache@ == Seq::<char>::empty()
                    &&& b0.data1 == data1
                    &&& b0.data2 == data2
                    &&& final(self).boxs@.last() == (UIBox { cache: t, ..g })
                    &&& #[trigger] call_ensures(H::draw, (ph, pb), t)
                },
    {
        let id = self.id;
        let rx = match x {
            Position::Center => self.center_x(size.w),
            Position::Specific(v) => v,
        };
        let ry = match y {
            Position::Center => self.center_y(size.h),
            Position::Specific(v) => v,
        };
        let mut b = UIBox {
            id,
            x: rx,
            y: ry,
            size,
            screen: self.screen,
            cache: String::new(),
            state_cur: state,
            state_next: state,
            draw,
            has_click,
            has_hover,
            data1,
            data2,
        };
        match draw {
            DrawKind::NoDraw => {},
            DrawKind::OneShot => {
                b.cache = b.data1;
                b.data1 = String::new();
            },
            DrawKind::Hosted => {
                let t = crate::hooks::call_draw(h, &mut b);
                b.cache = t;
            },
        }
        self.boxs.push(b);
        self.id = self.id + 1;
        id
    }

    /// Registers a one-row text box whose width is the content's length.
    /// Its one-shot draw renders the content exactly once per dirtying:
    /// the content moves into the cache and the stored text is cleared.
    pub fn text<H: Hooks>(
        &mut self,
        h: &mut H,
        x: Position,
        y: Position,
        content: String,
        state: i32,
        has_click: bool,
        has_hover: bool,
    ) -> (r: i32)
        requires
            old(self).id < i32::MAX,
            content@.len() <= i32::MAX,
        ensures
            r == old(self).id,
            final(self).id == old(self).id + 1,
            final(self).boxs@.len() == old(self).boxs@.len() + 1,
            forall|j: int|
                0 <= j < old(self).boxs@.len() ==> final(self).boxs@[j] == old(self).boxs@[j],
            final(self).evts == old(self).evts,
            final(self).click == old(self).click,
            final(self).screen == old(self).screen,
            final(self).scroll == old(self).scroll,
            final(self).canscroll == old(self).canscroll,
            final(self).force == old(self).force,
            final(self).size == old(self).size,
            *final(h) == *old(h),
            ({
                let nb = final(self).boxs@.last();
                &&& nb.id == old(self).id
                &&& nb.x as int == resolve_x(*old(self), x, Size { w: content@.len() as i32, h: 1 })
                &&& nb.y as int == resolve_y(*old(self), y, Size { w: content@.len() as i32, h: 1 })
                &&& nb.size == (Size { w: content@.len() as i32, h: 1 })
                &&& nb.screen == old(self).screen
                &&& nb.state_cur == state
                &&& nb.state_next == state
                &&& nb.draw == DrawKind::OneShot
                &&& nb.has_click == has_click
                &&& nb.has_hover == has_hover
                &&& nb.cache@ == content@
                &&& nb.data1@ == Seq::<char>::empty()
            }),
    {
        let w = content.as_str().unicode_len();
        let size = Size { w: w as i32, h: 1 };
        self.add(h, x, y, size, state, DrawKind::OneShot, has_click, has_hover, content, String::new())
    }

    /// Binds a key: every binding whose character matches the first
    /// character of an input chunk fires, in binding order.
    pub fn key(&mut self, chr: char, tag: u64)
        ensures
            final(self).evts@ == old(self).evts@.push(UIEvt { chr, tag }),
            final(self).boxs == old(self).boxs,
            final(self).click == old(self).click,
            final(self).screen == old(self).screen,
            final(self).scroll == old(self).scroll,
            final(self).canscroll == old(self).canscroll,
            final(self).id == old(self).id,
            final(self).force == old(self).force,
            final(self).size == old(self).size,
    {
        self.evts.push(UIEvt { chr, tag });
    }

    /// Resets the session to a fresh one on the same screen.
    pub fn clear(&mut self)
        ensures
            final(self).size == (Size { w: 80, h: 24 }),
            final(self).boxs@ =~= Seq::<UIBox>::empty(),
            final(self).evts@ =~= Seq::<UIEvt>::empty(),
            final(self).click is None,
            final(self).screen == old(self).screen,
            final(self).scroll == 0,
            final(self).canscroll == true,
            final(self).id == 0,
            final(self).force == false,
    {
        *self = UI::new(self.screen);
    }
}

} // verus!
