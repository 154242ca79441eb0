//! The input protocol decoder and event dispatcher: SGR mouse reports
//! and key chunks are classified into discrete events, hit-tested
//! against the registry, and delivered to the host's hooks; malformed
//! sequences decode to no event and are dropped.

use vstd::prelude::*;
use crate::chars::{find_nd_spec, find_non_digit, head_chars, parse_i32, parse_i32_spec, split_at,
    split_spec, tail_chars, to_chars, views};
use crate::geom::{box_contains, Mouse, UIBox};
use crate::hooks::Hooks;
use crate::render::{boxes_delta, box_step, clear_seq};
use crate::ui::UI;

verus! {

/// A classified input chunk: a key press, a wheel movement, or a mouse
/// transition at a point already translated into content space.
#[derive(Debug, Clone, Copy, PartialEq, Eq, Structural)]
pub enum Decoded {
    Nothing,
    Key(char),
    WheelUp,
    WheelDown,
    Up(i32, i32),
    Down(i32, i32),
    Drag(i32, i32),
    Hover(i32, i32),
}

/// Whether a chunk opens with the SGR mouse-report prefix `ESC [ <`.
pub open spec fn is_mouse_prefix(s: Seq<char>) -> bool {
    s.len() >= 3 && s[0] == '\x1b' && s[1] == '[' && s[2] == '<'
}

/// Whether `s` contains the character `c` anywhere.
pub open spec fn contains_char(s: Seq<char>, c: char) -> bool {
    exists|i: int| 0 <= i < s.len() && s[i] == c
}

/// The coordinates carried by a mouse report: the second token parsed
/// as the x coordinate, the digits of the third token before its
/// terminating marker as the y coordinate, with the scroll offset
/// subtracted from y when scrolling is enabled. Any missing token,
/// non-numeric text or out-of-range value yields nothing.
pub open spec fn cursor_spec(ui: UI, toks: Seq<Seq<char>>) -> Option<(i32, i32)> {
    if toks.len() < 3 {
        None
    } else {
        match parse_i32_spec(toks[1]) {
            Option::None => None,
            Option::Some(x) => match find_nd_spec(toks[2]) {
                Option::None => None,
                Option::Some(m) => match parse_i32_spec(toks[2].take(m)) {
                    Option::None => None,
                    Option::Some(y0) => {
                        let y = if ui.canscroll {
                            y0 - ui.scroll
                        } else {
                            y0 as int
                        };
                        if i32::MIN <= y <= i32::MAX {
                            Some((x, y as i32))
                        } else {
                            None
                        }
                    },
                },
            },
        }
    }
}

/// How a raw chunk is classified. A chunk without the mouse prefix is
/// key input, named by its first character. A mouse report is split on
/// `;` after the prefix: a button token starting with `6` is a wheel
/// event when scrolling is enabled (second digit `4` meaning down); one
/// starting with `0` is a release when the chunk holds an `m` marker
/// and a press otherwise; prefixes `32` and `35` are drag and hover.
/// Anything else, and any malformed report, is no event.
pub open spec fn decode_spec(ui: UI, s: Seq<char>) -> Decoded {
    if !is_mouse_prefix(s) {
        if s.len() == 0 {
            Decoded::Nothing
        } else {
            Decoded::Key(s[0])
        }
    } else {
        let toks = split_spec(s.skip(3), ';');
        let t0 = toks[0];
        if t0.len() == 0 {
            Decoded::Nothing
        } else if ui.canscroll && t0[0] == '6' {
            if t0.len() < 2 {
                Decoded::Nothing
            } else if t0[1] == '4' {
                Decoded::WheelDown
            } else {
                Decoded::WheelUp
            }
        } else if t0[0] == '0' && contains_char(s, 'm') {
            match cursor_spec(ui, toks) {
                Option::None => Decoded::Nothing,
                Option::Some(p) => Decoded::Up(p.0, p.1),
            }
        } else if t0[0] == '0' {
            match cursor_spec(ui, toks) {
                Option::None => Decoded::Nothing,
                Option::Some(p) => Decoded::Down(p.0, p.1),
            }
        } else if t0.len() >= 2 && t0[0] == '3' && t0[1] == '2' {
            match cursor_spec(ui, toks) {
                Option::None => Decoded::Nothing,
                Option::Some(p) => Decoded::Drag(p.0, p.1),
            }
        } else if t0.len() >= 2 && t0[0] == '3' && t0[1] == '5' {
            match cursor_spec(ui, toks) {
                Option::None => Decoded::Nothing,
                Option::Some(p) => Decoded::Hover(p.0, p.1),
            }
        } else {
            Decoded::Nothing
        }
    }
}

/// The first box at or after `i` on screen `scr` that contains the
/// point and has a click handler.
pub open spec fn first_hit(bs: Seq<UIBox>, scr: int, x: int, y: int, i: int) -> Option<int>
    decreases bs.len() - i,
{
    if i < 0 || i >= bs.len() {
        None
    } else if bs[i].screen == scr && box_contains(bs[i], x, y) && bs[i].has_click {
        Some(i)
    } else {
        first_hit(bs, scr, x, y, i + 1)
    }
}

/// A box that receives a hover at `(x, y)`: on the active screen,
/// containing the point, with a hover handler.
pub open spec fn hover_hit(b: UIBox, scr: int, x: int, y: int) -> bool {
    b.screen == scr && box_contains(b, x, y) && b.has_hover
}

/// Everything of a session except its registry and drag target.
pub open spec fn state_frame(o: UI, f: UI) -> bool {
    &&& f.evts == o.evts
    &&& f.screen == o.screen
    &&& f.scroll == o.scroll
    &&& f.canscroll == o.canscroll
    &&& f.id == o.id
    &&& f.force == o.force
    &&& f.size == o.size
}

/// A release always clears the drag target and touches nothing else.
pub open spec fn up_post(o: UI, f: UI) -> bool {
    &&& state_frame(o, f)
    &&& f.boxs == o.boxs
    &&& f.click is None
}

/// A press selects the first containing box with a click handler on the
/// active screen, delivers the press to it, and snapshots it (after the
/// handler ran) as the drag target; with no such box nothing changes.
pub open spec fn down_post(o: UI, f: UI, x: int, y: int) -> bool {
    match first_hit(o.boxs@, o.screen as int, x, y, 0) {
        Option::None => f == o,
        Option::Some(i) => {
            &&& state_frame(o, f)
            &&& f.boxs@.len() == o.boxs@.len()
            &&& forall|j: int| 0 <= j < o.boxs@.len() && j != i ==> f.boxs@[j] == o.boxs@[j]
            &&& f.click == Some(f.boxs@[i])
        },
    }
}

/// A drag redelivers the press to the drag target's snapshot and
/// refreshes it; without a drag target nothing changes.
pub open spec fn drag_post(o: UI, f: UI) -> bool {
    &&& state_frame(o, f)
    &&& f.boxs == o.boxs
    &&& match o.click {
        Option::None => f == o,
        Option::Some(b) => if b.has_click {
            f.click is Some
        } else {
            f.click == o.click
        },
    }
}

/// A hover fans out to every box on the active screen that contains the
/// point and has a hover handler; every other box is untouched.
pub open spec fn hover_post(o: UI, f: UI, x: int, y: int) -> bool {
    &&& state_frame(o, f)
    &&& f.click == o.click
    &&& f.boxs@.len() == o.boxs@.len()
    &&& forall|j: int|
        0 <= j < o.boxs@.len() && !hover_hit(#[trigger] o.boxs@[j], o.screen as int, x, y)
            ==> f.boxs@[j] == o.boxs@[j]
}

/// The scroll offset after a wheel-down: two rows further, saturating.
pub open spec fn sat_add2(v: int) -> int {
    if v + 2 <= i32::MAX {
        v + 2
    } else {
        i32::MAX as int
    }
}

/// The scroll offset after a wheel-up: two rows back, saturating.
pub open spec fn sat_sub2(v: int) -> int {
    if v - 2 >= i32::MIN {
        v - 2
    } else {
        i32::MIN as int
    }
}

/// Scans for the release marker `m`.
fn contains_m(v: &Vec<char>) -> (r: bool)
    ensures
        r == contains_char(v@, 'm'),
{
    let n = v.len();
    let mut i: usize = 0;
    while i < n
        invariant
            0 <= i <= n,
            n == v@.len(),
            forall|j: int| 0 <= j < i ==> v@[j] != 'm',
        decreases n - i,
    {
        if v[i] == 'm' {
            return true;
        }
        i = i + 1;
    }
    false
}

impl UI {
    /// Extracts the event coordinates from the split mouse report.
    fn cursor(&self, toks: &Vec<Vec<char>>) -> (r: Option<(i32, i32)>)
        ensures
            r == cursor_spec(*self, views(toks@)),
    {
        if toks.len() < 3 {
            return None;
        }
        let x = match parse_i32(&toks[1]) {
            Option::Some(x) => x,
            Option::None => {
                return None;
            },
        };
        let m = match find_non_digit(&toks[2]) {
            Option::Some(m) => m,
            Option::None => {
                return None;
            },
        };
        let ypre = head_chars(&toks[2], m);
        let y0 = match parse_i32(&ypre) {
            Option::Some(y0) => y0,
            Option::None => {
                return None;
            },
        };
        if self.canscroll {
            let y = y0 as i64 - self.scroll as i64;
            if -2147483648i64 <= y && y <= 2147483647i64 {
                Some((x, y as i32))
            } else {
                None
            }
        } else {
            Some((x, y0))
        }
    }

    /// Classifies one raw input chunk without changing any state.
    pub fn decode(&self, c: &str) -> (r: Decoded)
        ensures
            r == decode_spec(*self, c@),
    {
        let v = to_chars(c);
        let n = v.len();
        if !(n >= 3 && v[0] == '\x1b' && v[1] == '[' && v[2] == '<') {
            if n == 0 {
                return Decoded::Nothing;
            }
            return Decoded::Key(v[0]);
        }
        let payload = tail_chars(&v, 3);
        let toks = split_at(&payload, ';');
        if toks[0].len() == 0 {
            return Decoded::Nothing;
        }
        let t00 = toks[0][0];
        let t0len = toks[0].len();
        if self.canscroll && t00 == '6' {
            if t0len < 2 {
                return Decoded::Nothing;
            }
            if toks[0][1] == '4' {
                return Decoded::WheelDown;
            }
            return Decoded::WheelUp;
        }
        if t00 == '0' && contains_m(&v) {
            return match self.cursor(&toks) {
                Option::Some(p) => Decoded::Up(p.0, p.1),
                Option::None => Decoded::Nothing,
            };
        }
        if t00 == '0' {
            return match self.cursor(&toks) {
                Option::Some(p) => Decoded::Down(p.0, p.1),
                Option::None => Decoded::Nothing,
            };
        }
        if t0len >= 2 && t00 == '3' && toks[0][1] == '2' {
            return match self.cursor(&toks) {
                Option::Some(p) => Decoded::Drag(p.0, p.1),
                Option::None => Decoded::Nothing,
            };
        }
        if t0len >= 2 && t00 == '3' && toks[0][1] == '5' {
            return match self.cursor(&toks) {
                Option::Some(p) => Decoded::Hover(p.0, p.1),
                Option::None => Decoded::Nothing,
            };
        }
        Decoded::Nothing
    }

    /// Delivers a release to the drag target when it still contains the
    /// point, and clears the drag target in every case.
    fn mouse_up<H: Hooks>(&mut self, h: &mut H, x: i32, y: i32)
        ensures
            up_post(*old(self), *final(self)),
            !(match old(self).click {
                Option::Some(b) => box_contains(b, x as int, y as int) && b.has_click,
                Option::None => false,
            }) ==> *final(h) == *old(h),
            (match old(self).click {
                Option::Some(b) => box_contains(b, x as int, y as int) && b.has_click,
                Option::None => false,
            }) ==> exists|ph: &mut H, pb: &mut UIBox|
                {
                    &&& mut_ref_current(ph) == *old(h)
                    &&& mut_ref_future(ph) == *final(h)
                    &&& old(self).click == Some(mut_ref_current(pb))
                    &&& #[trigger] call_ensures(H::on_click, (ph, pb, x, y, Mouse::Up), ())
                },
    {
        let snap = match &self.click {
            Option::Some(b) => Some(b.clone()),
            Option::None => None,
        };
        self.click = None;
        if let Some(mut b) = snap {
            if b.contains(x, y) {
                if b.has_click {
                    crate::hooks::call_click(h, &mut b, x, y, Mouse::Up);
                }
            }
        }
    }

    /// Delivers a press to the first containing box with a click
    /// handler on the active screen and makes it the drag target.
    fn mouse_down_first<H: Hooks>(&mut self, h: &mut H, x: i32, y: i32)
        ensures
            down_post(*old(self), *final(self), x as int, y as int),
            first_hit(old(self).boxs@, old(self).screen as int, x as int, y as int, 0) is None
                ==> *final(h) == *old(h),
            (match first_hit(old(self).boxs@, old(self).screen as int, x as int, y as int, 0) {
                Option::Some(i) => exists|ph: &mut H, pb: &mut UIBox|
                    {
                        &&& mut_ref_current(ph) == *old(h)
                        &&& mut_ref_future(ph) == *final(h)
                        &&& mut_ref_current(pb) == old(self).boxs@[i]
                        &&& final(self).boxs@[i] == crate::hooks::guarded(
                            old(self).boxs@[i],
                            mut_ref_future(pb),
                        )
                        &&& #[trigger] call_ensures(H::on_click, (ph, pb, x, y, Mouse::Down), ())
                    },
                Option::None => true,
            }),
    {
        let n = self.boxs.len();
        let mut i: usize = 0;
        while i < n
            invariant
                0 <= i <= n,
                n == self.boxs@.len(),
                *self == *old(self),
                *h == *old(h),
                first_hit(old(self).boxs@, old(self).screen as int, x as int, y as int, 0)
                    == first_hit(old(self).boxs@, old(self).screen as int, x as int, y as int,
                    i as int),
            decreases n - i,
        {
            let on_screen = self.boxs[i].screen == self.screen;
            let inside = self.boxs[i].contains(x, y);
            let clickable = self.boxs[i].has_click;
            if on_screen && inside && clickable {
                let mut b = self.boxs[i].clone();
                crate::hooks::call_click(h, &mut b, x, y, Mouse::Down);
                self.boxs.set(i, b.clone());
                self.click = Some(b);
                assert(first_hit(old(self).boxs@, old(self).screen as int, x as int, y as int,
                    i as int) == Some(i as int));
                return ;
            }
            i = i + 1;
        }
    }

    /// Redelivers a press to the drag target's snapshot while the
    /// button is held and moving, then refreshes the snapshot.
    fn mouse_down_moving<H: Hooks>(&mut self, h: &mut H, x: i32, y: i32)
        ensures
            drag_post(*old(self), *final(self)),
            !(match old(self).click {
                Option::Some(b) => b.has_click,
                Option::None => false,
            }) ==> *final(h) == *old(h),
            (match old(self).click {
                Option::Some(b) => b.has_click,
                Option::None => false,
            }) ==> exists|ph: &mut H, pb: &mut UIBox|
                {
                    &&& mut_ref_current(ph) == *old(h)
                    &&& mut_ref_future(ph) == *final(h)
                    &&& old(self).click == Some(mut_ref_current(pb))
                    &&& final(self).click == Some(
                        crate::hooks::guarded(mut_ref_current(pb), mut_ref_future(pb)),
                    )
                    &&& #[trigger] call_ensures(H::on_click, (ph, pb, x, y, Mouse::Down), ())
                },
    {
        let snap = match &self.click {
            Option::Some(b) => Some(b.clone()),
            Option::None => None,
        };
        if let Some(mut b) = snap {
            if b.has_click {
                crate::hooks::call_click(h, &mut b, x, y, Mouse::Down);
            }
            self.click = Some(b);
        }
    }

    /// Fans a hover out to every containing box with a hover handler on
    /// the active screen, in registration order.
    fn mouse_hover<H: Hooks>(&mut self, h: &mut H, x: i32, y: i32)
        ensures
            hover_post(*old(self), *final(self), x as int, y as int),
            (forall|j: int|
                0 <= j < old(self).boxs@.len() ==> !hover_hit(
                    #[trigger] old(self).boxs@[j],
                    old(self).screen as int,
                    x as int,
                    y as int,
                )) ==> *final(h) == *old(h) && final(self).boxs == old(self).boxs,
            exists|tr: Seq<H>|
                {
                    &&& #[trigger] tr.len() == old(self).boxs@.len() + 1
                    &&& tr[0] == *old(h)
                    &&& tr[old(self).boxs@.len() as int] == *final(h)
                    &&& forall|j: int|
                        #![trigger old(self).boxs@[j]]
                        0 <= j < old(self).boxs@.len() ==> (if hover_hit(
                            old(self).boxs@[j],
                            old(self).screen as int,
                            x as int,
                            y as int,
                        ) {
                            exists|ph: &mut H, pb: &mut UIBox|
                                {
                                    &&& mut_ref_current(ph) == tr[j]
                                    &&& mut_ref_future(ph) == tr[j + 1]
                                    &&& mut_ref_current(pb) == old(self).boxs@[j]
                                    &&& final(self).boxs@[j] == crate::hooks::guarded(
                                        old(self).boxs@[j],
                                        mut_ref_future(pb),
                                    )
                                    &&& #[trigger] call_ensures(H::on_hover, (ph, pb, x, y), ())
                                }
                        } else {
                            tr[j + 1] == tr[j]
                        })
                },
    {
        let n = self.boxs.len();
        let ghost mut tr: Seq<H> = seq![*h];
        let mut i: usize = 0;
        while i < n
            invariant
                0 <= i <= n,
                n == self.boxs@.len(),
                self.boxs@.len() == old(self).boxs@.len(),
                self.evts == old(self).evts,
                self.click == old(self).click,
                self.screen == old(self).screen,
                self.scroll == old(self).scroll,
                self.canscroll == old(self).canscroll,
                self.id == old(self).id,
                self.force == old(self).force,
                self.size == old(self).size,
                forall|j: int| i <= j < n ==> self.boxs@[j] == old(self).boxs@[j],
                forall|j: int|
                    0 <= j < i && !hover_hit(
                        #[trigger] old(self).boxs@[j],
                        old(self).screen as int,
                        x as int,
                        y as int,
                    ) ==> self.boxs@[j] == old(self).boxs@[j],
                (forall|j: int|
                    0 <= j < i ==> !hover_hit(
                        #[trigger] old(self).boxs@[j],
                        old(self).screen as int,
                        x as int,
                        y as int,
                    )) ==> *h == *old(h) && self.boxs == old(self).boxs,
                tr.len() == i + 1,
                tr[0] == *old(h),
                tr[i as int] == *h,
                forall|j: int|
                    #![trigger old(self).boxs@[j]]
                    0 <= j < i ==> (if hover_hit(
                        old(self).boxs@[j],
                        old(self).screen as int,
                        x as int,
                        y as int,
                    ) {
                        exists|ph: &mut H, pb: &mut UIBox|
                            {
                                &&& mut_ref_current(ph) == tr[j]
                                &&& mut_ref_future(ph) == tr[j + 1]
                                &&& mut_ref_current(pb) == old(self).boxs@[j]
                                &&& self.boxs@[j] == crate::hooks::guarded(
                                    old(self).boxs@[j],
                                    mut_ref_future(pb),
                                )
                                &&& #[trigger] call_ensures(H::on_hover, (ph, pb, x, y), ())
                            }
                    } else {
                        tr[j + 1] == tr[j]
                    }),
            decreases n - i,
        {
            let on_screen = self.boxs[i].screen == self.screen;
            let inside = self.boxs[i].contains(x, y);
            let hoverable = self.boxs[i].has_hover;
            if on_screen && inside && hoverable {
                let mut b = self.boxs[i].clone();
                crate::hooks::call_hover(h, &mut b, x, y);
                self.boxs.set(i, b);
            }
            proof {
                tr = tr.push(*h);
            }
            i = i + 1;
        }
    }

    /// Processes one raw input chunk: key chunks fire every matching
    /// binding in binding order; wheel events move the scroll offset by
    /// two rows (saturating) and force a full redraw into `out`; mouse
    /// transitions are dispatched against the registry; malformed or
    /// unrecognized chunks change nothing.
    pub fn update<H: Hooks>(&mut self, h: &mut H, c: &str, out: &mut Vec<char>)
        ensures
            ({
                let ev = decode_spec(*old(self), c@);
                match ev {
                    Decoded::Nothing => {
                        &&& *final(self) == *old(self)
                        &&& final(out)@ == old(out)@
                        &&& *final(h) == *old(h)
                    },
                    Decoded::Key(ch) => {
                        &&& *final(self) == *old(self)
                        &&& final(out)@ == old(out)@
                        &&& (forall|j: int|
                            0 <= j < old(self).evts@.len() ==> (#[trigger] old(
                                self,
                            ).evts@[j]).chr != ch) ==> *final(h) == *old(h)
                        &&& exists|tr: Seq<H>|
                            {
                                &&& #[trigger] tr.len() == old(self).evts@.len() + 1
                                &&& tr[0] == *old(h)
                                &&& tr[old(self).evts@.len() as int] == *final(h)
                                &&& forall|j: int|
                                    #![trigger old(self).evts@[j]]
                                    0 <= j < old(self).evts@.len() ==> (if (old(
                                        self,
                                    ).evts@[j]).chr == ch {
                                        exists|ph: &mut H|
                                            mut_ref_current(ph) == tr[j] && mut_ref_future(ph)
                                                == tr[j + 1] && #[trigger] call_ensures(
                                                H::on_key,
                                                (ph, (old(self).evts@[j]).tag),
                                                (),
                                            )
                                    } else {
                                        tr[j + 1] == tr[j]
                                    })
                            }
                    },
                    Decoded::WheelDown => wheel_done(
                        *old(self),
                        *final(self),
                        old(out)@,
                        final(out)@,
                        sat_add2(old(self).scroll as int),
                    ),
                    Decoded::WheelUp => wheel_done(
                        *old(self),
                        *final(self),
                        old(out)@,
                        final(out)@,
                        sat_sub2(old(self).scroll as int),
                    ),
                    Decoded::Up(x, y) => {
                        &&& up_post(*old(self), *final(self))
                        &&& final(out)@ == old(out)@
                        &&& !(match old(self).click {
                            Option::Some(b) => box_contains(b, x as int, y as int) && b.has_click,
                            Option::None => false,
                        }) ==> *final(h) == *old(h)
                        &&& (match old(self).click {
                            Option::Some(b) => box_contains(b, x as int, y as int) && b.has_click,
                            Option::None => false,
                        }) ==> exists|ph: &mut H, pb: &mut UIBox|
                            {
                                &&& mut_ref_current(ph) == *old(h)
                                &&& mut_ref_future(ph) == *final(h)
                                &&& old(self).click == Some(mut_ref_current(pb))
                                &&& #[trigger] call_ensures(
                                    H::on_click,
                                    (ph, pb, x, y, Mouse::Up),
                                    (),
                                )
                            }
                    },
                    Decoded::Down(x, y) => {
                        &&& down_post(*old(self), *final(self), x as int, y as int)
                        &&& final(out)@ == old(out)@
                        &&& (match first_hit(
                            old(self).boxs@,
                            old(self).screen as int,
                            x as int,
                            y as int,
                            0,
                        ) {
                            Option::Some(i) => exists|ph: &mut H, pb: &mut UIBox|
                                {
                                    &&& mut_ref_current(ph) == *old(h)
                                    &&& mut_ref_future(ph) == *final(h)
                                    &&& mut_ref_current(pb) == old(self).boxs@[i]
                                    &&& final(self).boxs@[i] == crate::hooks::guarded(
                                        old(self).boxs@[i],
                                        mut_ref_future(pb),
                                    )
                                    &&& #[trigger] call_ensures(
                                        H::on_click,
                                        (ph, pb, x, y, Mouse::Down),
                                        (),
                                    )
                                },
                            Option::None => *final(h) == *old(h),
                        })
                    },
                    Decoded::Drag(x, y) => {
                        &&& drag_post(*old(self), *final(self))
                        &&& final(out)@ == old(out)@
                        &&& !(match old(self).click {
                            Option::Some(b) => b.has_click,
                            Option::None => false,
                        }) ==> *final(h) == *old(h)
                        &&& (match old(self).click {
                            Option::Some(b) => b.has_click,
                            Option::None => false,
                        }) ==> exists|ph: &mut H, pb: &mut UIBox|
                            {
                                &&& mut_ref_current(ph) == *old(h)
                                &&& mut_ref_future(ph) == *final(h)
                                &&& old(self).click == Some(mut_ref_current(pb))
                                &&& final(self).click == Some(
                                    crate::hooks::guarded(
                                        mut_ref_current(pb),
                                        mut_ref_future(pb),
                                    ),
                                )
                                &&& #[trigger] call_ensures(
                                    H::on_click,
                                    (ph, pb, x, y, Mouse::Down),
                                    (),
                                )
                            }
                    },
                    Decoded::Hover(x, y) => {
                        &&& hover_post(*old(self), *final(self), x as int, y as int)
                        &&& final(out)@ == old(out)@
                        &&& exists|tr: Seq<H>|
                            {
                                &&& #[trigger] tr.len() == old(self).boxs@.len() + 1
                                &&& tr[0] == *old(h)
                                &&& tr[old(self).boxs@.len() as int] == *final(h)
                                &&& forall|j: int|
                                    #![trigger old(self).boxs@[j]]
                                    0 <= j < old(self).boxs@.len() ==> (if hover_hit(
                                        old(self).boxs@[j],
                                        old(self).screen as int,
                                        x as int,
                                        y as int,
                                    ) {
                                        exists|ph: &mut H, pb: &mut UIBox|
                                            {
                                                &&& mut_ref_current(ph) == tr[j]
                                                &&& mut_ref_future(ph) == tr[j + 1]
                                                &&& mut_ref_current(pb) == old(self).boxs@[j]
                                                &&& final(self).boxs@[j] == crate::hooks::guarded(
                                                    old(self).boxs@[j],
                                                    mut_ref_future(pb),
                                                )
                                                &&& #[trigger] call_ensures(
                                                    H::on_hover,
                                                    (ph, pb, x, y),
                                                    (),
                                                )
                                            }
                                    } else {
                                        tr[j + 1] == tr[j]
                                    })
                            }
                    },
                }
            }),
    {
        let ev = self.decode(c);
        match ev {
            Decoded::Nothing => {},
            Decoded::Key(ch) => {
                let n = self.evts.len();
                let ghost mut tr: Seq<H> = seq![*h];
                let mut i: usize = 0;
                while i < n
                    invariant
                        0 <= i <= n,
                        n == self.evts@.len(),
                        *self == *old(self),
                        out@ == old(out)@,
                        (forall|j: int|
                            0 <= j < i ==> (#[trigger] old(self).evts@[j]).chr != ch) ==> *h
                            == *old(h),
                        tr.len() == i + 1,
                        tr[0] == *old(h),
                        tr[i as int] == *h,
                        forall|j: int|
                            #![trigger old(self).evts@[j]]
                            0 <= j < i ==> (if (old(self).evts@[j]).chr == ch {
                                exists|ph: &mut H|
                                    mut_ref_current(ph) == tr[j] && mut_ref_future(ph) == tr[j + 1]
                                        && #[trigger] call_ensures(
                                        H::on_key,
                                        (ph, (old(self).evts@[j]).tag),
                                        (),
                                    )
                            } else {
                                tr[j + 1] == tr[j]
                            }),
                    decreases n - i,
                {
                    let e = self.evts[i];
                    if e.chr == ch {
                        crate::hooks::call_key(h, e.tag);
                    }
                    proof {
                        tr = tr.push(*h);
                    }
                    i = i + 1;
                }
            },
            Decoded::WheelDown => {
                self.scroll = if self.scroll <= i32::MAX - 2 {
                    self.scroll + 2
                } else {
                    i32::MAX
                };
                push_clear(out);
                self.draw(h, out);
            },
            Decoded::WheelUp => {
                self.scroll = if self.scroll >= i32::MIN + 2 {
                    self.scroll - 2
                } else {
                    i32::MIN
                };
                push_clear(out);
                self.draw(h, out);
            },
            Decoded::Up(x, y) => self.mouse_up(h, x, y),
            Decoded::Down(x, y) => self.mouse_down_first(h, x, y),
            Decoded::Drag(x, y) => self.mouse_down_moving(h, x, y),
            Decoded::Hover(x, y) => self.mouse_hover(h, x, y),
        }
    }
}

/// What a wheel event leaves behind: the new scroll offset, the force
/// flag spent by the redraw, a clear written by the event and another
/// by the full redraw that follows, and every box stepped under the new
/// offset.
pub open spec fn wheel_done(o: UI, f: UI, out0: Seq<char>, out1: Seq<char>, sc: int) -> bool {
    let env = UI { scroll: sc as i32, ..o };
    &&& f.scroll as int == sc
    &&& f.force == false
    &&& f.evts == o.evts
    &&& f.click == o.click
    &&& f.screen == o.screen
    &&& f.canscroll == o.canscroll
    &&& f.id == o.id
    &&& f.size == o.size
    &&& f.boxs@.len() == o.boxs@.len()
    &&& (forall|j: int|
        0 <= j < o.boxs@.len() ==> box_step(env, o.boxs@[j], f.boxs@[j]))
    &&& out1 == out0 + clear_seq() + clear_seq() + boxes_delta(env, o.boxs@, f.boxs@)
}

/// Writes the reset-and-clear prefix a wheel event emits before its
/// redraw.
fn push_clear(out: &mut Vec<char>)
    ensures
        final(out)@ == old(out)@ + clear_seq(),
{
    out.push('\x1b');
    out.push('[');
    out.push('0');
    out.push('m');
    out.push('\x1b');
    out.push('[');
    out.push('2');
    out.push('J');
    assert(final(out)@ =~= old(out)@ + clear_seq());
}

} // verus!
