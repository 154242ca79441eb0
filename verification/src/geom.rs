//! Box geometry: sizes, positions, the box record and its hit test.

use vstd::prelude::*;

verus! {

/// The phase of a mouse interaction delivered to a click handler.
#[derive(Debug, Clone, Copy, PartialEq, Eq, Structural)]
pub enum Mouse {
    Up,
    Down,
}

/// A width and height, in character cells.
#[derive(Clone, Debug, Copy, PartialEq, Eq, Structural)]
pub struct Size {
    pub w: i32,
    pub h: i32,
}

/// A requested coordinate: either centered on the current screen size or
/// an absolute 1-based position.
pub enum Position {
    Center,
    Specific(i32),
}

/// How a box produces its text: no draw at all, the built-in one-shot
/// text draw (emit `data1` once, then clear it), or a host-supplied draw
/// hook.
#[derive(Debug, Clone, Copy, PartialEq, Eq, Structural)]
pub enum DrawKind {
    NoDraw,
    OneShot,
    Hosted,
}

/// A registered rectangular screen region with its own draw behavior,
/// interaction flags and render cache.
#[derive(Debug)]
pub struct UIBox {
    pub id: i32,
    pub x: i32,
    pub y: i32,
    pub size: Size,
    pub screen: i32,
    pub cache: String,
    pub state_cur: i32,
    pub state_next: i32,
    pub draw: DrawKind,
    pub has_click: bool,
    pub has_hover: bool,
    pub data1: String,
    pub data2: String,
}

/// A box is dirty when its next state differs from its current one; a
/// dirty box recomputes its cache on the next render.
pub open spec fn box_dirty(b: UIBox) -> bool {
    b.state_cur != b.state_next
}

/// The hit-test region: inclusive on all four edges, so the right and
/// bottom edges lie one cell beyond the nominal width and height.
pub open spec fn box_contains(b: UIBox, x: int, y: int) -> bool {
    &&& b.x <= x <= b.x + b.size.w
    &&& b.y <= y <= b.y + b.size.h
}

impl Clone for UIBox {
    fn clone(&self) -> (r: UIBox)
        ensures
            r == *self,
    {
        UIBox {
            id: self.id,
            x: self.x,
            y: self.y,
            size: self.size,
            screen: self.screen,
            cache: self.cache.clone(),
            state_cur: self.state_cur,
            state_next: self.state_next,
            draw: self.draw,
            has_click: self.has_click,
            has_hover: self.has_hover,
            data1: self.data1.clone(),
            data2: self.data2.clone(),
        }
    }
}

impl UIBox {
    /// True exactly when `(x, y)` falls inside this box's (edge
    /// inclusive) region.
    pub fn contains(&self, x: i32, y: i32) -> (r: bool)
        ensures
            r == box_contains(*self, x as int, y as int),
    {
        let bx = self.x as i64;
        let by = self.y as i64;
        let xi = x as i64;
        let yi = y as i64;
        bx <= xi && xi <= bx + self.size.w as i64 && by <= yi && yi <= by + self.size.h as i64
    }
}

} // verus!
