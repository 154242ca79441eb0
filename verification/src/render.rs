//! The render engine: dirty-state tracking, per-box caching, and
//! scroll-aware line placement, specified down to the exact characters
//! appended to the output stream.

use vstd::prelude::*;
use crate::chars::{dec_seq, push_dec, split_at, split_spec, to_chars, views};
use crate::geom::{box_dirty, DrawKind, UIBox};
use crate::hooks::Hooks;
use crate::ui::UI;

verus! {

/// The reset-and-clear prefix written before a full redraw.
pub open spec fn clear_seq() -> Seq<char> {
    seq!['\x1b', '[', '0', 'm', '\x1b', '[', '2', 'J']
}

/// The vertical shift applied to every rendered line: the scroll offset
/// when scrolling is enabled, zero otherwise.
pub open spec fn shift_spec(ui: UI) -> int {
    if ui.canscroll {
        ui.scroll as int
    } else {
        0
    }
}

/// The escape sequence that moves the cursor to `row`, `col`.
pub open spec fn cursor_seq(row: int, col: int) -> Seq<char> {
    seq!['\x1b', '['] + dec_seq(row as nat) + seq![';'] + dec_seq(col as nat) + seq!['H']
}

/// The characters written for the lines of a box from line `i` on, with
/// `n` lines already drawn. Line `i` goes to row `by + n + sh`, column
/// `bx`, but only when both fall inside the `w` by `h` terminal; a line
/// that falls outside vanishes and does not advance the row counter.
pub open spec fn place_from(
    lines: Seq<Seq<char>>,
    i: int,
    n: int,
    bx: int,
    by: int,
    sh: int,
    w: int,
    h: int,
) -> Seq<char>
    decreases lines.len() - i,
{
    if i < 0 || i >= lines.len() {
        Seq::empty()
    } else {
        let row = by + n + sh;
        if 1 <= bx <= w && 1 <= row <= h {
            cursor_seq(row, bx) + lines[i] + place_from(lines, i + 1, n + 1, bx, by, sh, w, h)
        } else {
            place_from(lines, i + 1, n, bx, by, sh, w, h)
        }
    }
}

/// Everything a render of box `b` appends to the output: its cached
/// text, split into lines and placed at the box's origin.
pub open spec fn draw_delta(ui: UI, b: UIBox) -> Seq<char> {
    place_from(
        split_spec(b.cache@, '\n'),
        0,
        0,
        b.x as int,
        b.y as int,
        shift_spec(ui),
        ui.size.w as int,
        ui.size.h as int,
    )
}

/// The frame of a box: everything but its cache, states and data slots.
pub open spec fn same_frame(o: UIBox, nb: UIBox) -> bool {
    &&& nb.id == o.id
    &&& nb.x == o.x
    &&& nb.y == o.y
    &&& nb.size == o.size
    &&& nb.screen == o.screen
    &&& nb.draw == o.draw
    &&& nb.has_click == o.has_click
    &&& nb.has_hover == o.has_hover
}

/// How one render step may change a box: skipped off-screen boxes and
/// clean boxes are untouched; a box with no draw behavior is synced
/// clean without output; a refreshed one-shot box moves `data1` into its
/// cache; any refreshed box comes out clean.
pub open spec fn box_step(ui: UI, o: UIBox, nb: UIBox) -> bool {
    &&& (o.screen != ui.screen ==> nb == o)
    &&& (o.screen == ui.screen && !(ui.force || box_dirty(o)) ==> nb == o)
    &&& (o.screen == ui.screen && o.draw is NoDraw && (ui.force || box_dirty(o)) ==> {
        &&& same_frame(o, nb)
        &&& nb.cache@ == Seq::<char>::empty()
        &&& nb.state_cur == o.state_next
        &&& nb.state_next == o.state_next
        &&& nb.data1 == o.data1
        &&& nb.data2 == o.data2
    })
    &&& (o.screen == ui.screen && o.draw is OneShot && (ui.force || box_dirty(o)) ==> {
        &&& same_frame(o, nb)
        &&& nb.cache@ == o.data1@
        &&& nb.data1@ == Seq::<char>::empty()
        &&& nb.state_cur == o.state_next
        &&& nb.state_next == o.state_next
        &&& nb.data2 == o.data2
    })
    &&& (o.screen == ui.screen && o.draw is Hosted && (ui.force || box_dirty(o)) ==> {
        &&& nb.id == o.id
        &&& nb.x == o.x
        &&& nb.y == o.y
        &&& nb.screen == o.screen
        &&& nb.draw == o.draw
        &&& nb.has_click == o.has_click
        &&& nb.has_hover == o.has_hover
    })
    &&& (o.screen == ui.screen && !(o.draw is NoDraw) ==> nb.state_cur == nb.state_next)
}

/// What one render step appends for a box: nothing for an off-screen
/// box or one with no draw behavior, its placed cache otherwise.
pub open spec fn box_delta(ui: UI, o: UIBox, nb: UIBox) -> Seq<char> {
    if o.screen == ui.screen && !(o.draw is NoDraw) {
        draw_delta(ui, nb)
    } else {
        Seq::empty()
    }
}

/// The output of rendering a whole registry in order, where `olds` are
/// the boxes before their render step and `news` after it.
pub open spec fn boxes_delta(ui: UI, olds: Seq<UIBox>, news: Seq<UIBox>) -> Seq<char>
    decreases olds.len(),
{
    if olds.len() == 0 || news.len() == 0 {
        Seq::empty()
    } else {
        box_delta(ui, olds[0], news[0]) + boxes_delta(ui, olds.skip(1), news.skip(1))
    }
}

/// Rendering one more box appends that box's delta.
proof fn lemma_boxes_delta_snoc(ui: UI, olds: Seq<UIBox>, news: Seq<UIBox>, o: UIBox, nb: UIBox)
    requires
        olds.len() == news.len(),
    ensures
        boxes_delta(ui, olds.push(o), news.push(nb)) == boxes_delta(ui, olds, news) + box_delta(
            ui,
            o,
            nb,
        ),
    decreases olds.len(),
{
    if olds.len() == 0 {
        let e = Seq::<UIBox>::empty();
        assert(olds.push(o)[0] == o);
        assert(news.push(nb)[0] == nb);
        assert(olds.push(o).skip(1) =~= e);
        assert(news.push(nb).skip(1) =~= e);
        assert(boxes_delta(ui, e, e) == Seq::<char>::empty());
        assert(boxes_delta(ui, olds.push(o), news.push(nb)) == box_delta(ui, o, nb) + boxes_delta(
            ui,
            e,
            e,
        ));
        assert(box_delta(ui, o, nb) + Seq::<char>::empty() =~= box_delta(ui, o, nb));
        assert(boxes_delta(ui, olds, news) == Seq::<char>::empty());
        assert(Seq::<char>::empty() + box_delta(ui, o, nb) =~= box_delta(ui, o, nb));
    } else {
        assert(olds.push(o).skip(1) =~= olds.skip(1).push(o));
        assert(news.push(nb).skip(1) =~= news.skip(1).push(nb));
        lemma_boxes_delta_snoc(ui, olds.skip(1), news.skip(1), o, nb);
        assert(olds.push(o)[0] == olds[0]);
        assert(news.push(nb)[0] == news[0]);
        let a = box_delta(ui, olds[0], news[0]);
        let tail = boxes_delta(ui, olds.skip(1), news.skip(1));
        assert(boxes_delta(ui, olds.push(o), news.push(nb)) == a + boxes_delta(
            ui,
            olds.skip(1).push(o),
            news.skip(1).push(nb),
        ));
        assert(boxes_delta(ui, olds.skip(1).push(o), news.skip(1).push(nb)) == tail + box_delta(
            ui,
            o,
            nb,
        ));
        assert(a + (tail + box_delta(ui, o, nb)) =~= (a + tail) + box_delta(ui, o, nb));
        assert(boxes_delta(ui, olds, news) == a + tail);
    }
}

/// Appends every character of `line` to `out`.
fn push_line(out: &mut Vec<char>, line: &Vec<char>)
    ensures
        final(out)@ == old(out)@ + line@,
{
    let m = line.len();
    let mut j: usize = 0;
    while j < m
        invariant
            0 <= j <= m,
            m == line@.len(),
            out@ == old(out)@ + line@.take(j as int),
        decreases m - j,
    {
        out.push(line[j]);
        assert(out@ =~= old(out)@ + line@.take(j + 1));
        j = j + 1;
    }
    assert(line@.take(m as int) =~= line@);
}

/// Appends the cursor-positioning escape for `row`, `col` to `out`.
fn push_cursor(out: &mut Vec<char>, row: u32, col: u32)
    ensures
        final(out)@ == old(out)@ + cursor_seq(row as int, col as int),
{
    out.push('\x1b');
    out.push('[');
    push_dec(out, row);
    out.push(';');
    push_dec(out, col);
    out.push('H');
    assert(final(out)@ =~= old(out)@ + cursor_seq(row as int, col as int));
}

impl UI {
    /// Renders a single box into `out`. A box on another screen is
    /// skipped entirely. A dirty box, or any box under a force-redraw,
    /// recomputes its text (consuming `data1` for a one-shot box,
    /// calling the host's draw hook for a hosted one), caches it and
    /// becomes clean; otherwise the cache is reused and the host's draw
    /// hook is not consulted. The cached text is then split on newlines
    /// and placed line by line, silently dropping lines that fall
    /// outside the terminal. A box with no draw behavior appends
    /// nothing.
    pub fn draw_one<H: Hooks>(&self, h: &mut H, b: &mut UIBox, out: &mut Vec<char>)
        ensures
            box_step(*self, *old(b), *final(b)),
            final(out)@ == old(out)@ + box_delta(*self, *old(b), *final(b)),
            !(old(b).screen == self.screen && old(b).draw is Hosted && (self.force || box_dirty(
                *old(b),
            ))) ==> *final(h) == *old(h),
            old(b).screen == self.screen && old(b).draw is Hosted && (self.force || box_dirty(
                *old(b),
            )) ==> exists|ph: &mut H, pb: &mut UIBox, t: String|
                {
                    let g = crate::hooks::guarded(*old(b), mut_ref_future(pb));
                    &&& mut_ref_current(ph) == *old(h)
                    &&& mut_ref_future(ph) == *final(h)
                    &&& mut_ref_current(pb) == *old(b)
                    &&& *final(b) == (UIBox { cache: t, state_cur: g.state_next, ..g })
                    &&& #[trigger] call_ensures(H::draw, (ph, pb), t)
                },
    {
        if b.screen != self.screen {
            assert(final(out)@ =~= old(out)@ + box_delta(*self, *old(b), *old(b)));
            return ;
        }
        let refresh = self.force || b.state_next != b.state_cur;
        let is_nodraw = match b.draw {
            DrawKind::NoDraw => true,
            _ => false,
        };
        if is_nodraw {
            if refresh {
                b.cache = String::new();
                b.state_cur = b.state_next;
            }
            assert(final(out)@ =~= old(out)@ + box_delta(*self, *old(b), *final(b)));
            return ;
        }
        if refresh {
            match b.draw {
                DrawKind::NoDraw => {},
                DrawKind::OneShot => {
                    b.cache = b.data1.clone();
                    b.data1 = String::new();
                },
                DrawKind::Hosted => {
                    let t = crate::hooks::call_draw(h, b);
                    b.cache = t;
                },
            }
            b.state_cur = b.state_next;
        }
        let chars = to_chars(b.cache.as_str());
        let lines = split_at(&chars, '\n');
        let ghost lv = views(lines@);
        let bx = b.x;
        let by = b.y;
        let w = self.size.w;
        let hh = self.size.h;
        let sh: i32 = if self.canscroll {
            self.scroll
        } else {
            0
        };
        let ghost mid = out@;
        let nl = lines.len();
        let mut i: usize = 0;
        let mut n: usize = 0;
        while i < nl
            invariant
                0 <= i <= nl,
                nl == lines@.len(),
                lv == views(lines@),
                n == 0 || by + n + sh <= hh as int + 1,
                n <= i,
                mid + place_from(lv, 0, 0, bx as int, by as int, sh as int, w as int, hh as int)
                    == out@ + place_from(
                    lv,
                    i as int,
                    n as int,
                    bx as int,
                    by as int,
                    sh as int,
                    w as int,
                    hh as int,
                ),
            decreases nl - i,
        {
            let row: i64 = by as i64 + n as i64 + sh as i64;
            let ghost pre = out@;
            if 1 <= bx && bx <= w && 1 <= row && row <= hh as i64 {
                push_cursor(out, row as u32, bx as u32);
                push_line(out, &lines[i]);
                proof {
                    assert(lines@[i as int]@ == lv[i as int]);
                    assert(place_from(
                        lv,
                        i as int,
                        n as int,
                        bx as int,
                        by as int,
                        sh as int,
                        w as int,
                        hh as int,
                    ) == cursor_seq(row as int, bx as int) + lv[i as int] + place_from(
                        lv,
                        i + 1,
                        n + 1,
                        bx as int,
                        by as int,
                        sh as int,
                        w as int,
                        hh as int,
                    ));
                    assert(out@ =~= pre + (cursor_seq(row as int, bx as int) + lv[i as int]));
                    assert(pre + (cursor_seq(row as int, bx as int) + lv[i as int] + place_from(
                        lv,
                        i + 1,
                        n + 1,
                        bx as int,
                        by as int,
                        sh as int,
                        w as int,
                        hh as int,
                    )) =~= out@ + place_from(
                        lv,
                        i + 1,
                        n + 1,
                        bx as int,
                        by as int,
                        sh as int,
                        w as int,
                        hh as int,
                    ));
                }
                n = n + 1;
            }
            i = i + 1;
        }
        proof {
            assert(place_from(
                lv,
                nl as int,
                n as int,
                bx as int,
                by as int,
                sh as int,
                w as int,
                hh as int,
            ) =~= Seq::<char>::empty());
            assert(out@ =~= mid + draw_delta(*self, *b));
            assert(final(out)@ =~= old(out)@ + box_delta(*self, *old(b), *final(b)));
        }
    }

    /// Renders every box in registration order: a clear-and-reset
    /// prefix, then each box as `draw_one` does, then the force-redraw
    /// flag is dropped.
    pub fn draw<H: Hooks>(&mut self, h: &mut H, out: &mut Vec<char>)
        ensures
            final(self).force == false,
            final(self).evts == old(self).evts,
            final(self).click == old(self).click,
            final(self).screen == old(self).screen,
            final(self).scroll == old(self).scroll,
            final(self).canscroll == old(self).canscroll,
            final(self).id == old(self).id,
            final(self).size == old(self).size,
            final(self).boxs@.len() == old(self).boxs@.len(),
            forall|j: int|
                0 <= j < old(self).boxs@.len() ==> box_step(
                    *old(self),
                    old(self).boxs@[j],
                    final(self).boxs@[j],
                ),
            final(out)@ == old(out)@ + clear_seq() + boxes_delta(
                *old(self),
                old(self).boxs@,
                final(self).boxs@,
            ),
    {
        out.push('\x1b');
        out.push('[');
        out.push('0');
        out.push('m');
        out.push('\x1b');
        out.push('[');
        out.push('2');
        out.push('J');
        proof {
            assert(out@ =~= old(out)@ + clear_seq());
        }
        let ghost mid = out@;
        let nb = self.boxs.len();
        let mut i: usize = 0;
        proof {
            assert(old(self).boxs@.take(0) =~= Seq::<UIBox>::empty());
            assert(self.boxs@.take(0) =~= Seq::<UIBox>::empty());
            assert(mid + boxes_delta(*old(self), old(self).boxs@.take(0), self.boxs@.take(0)) =~=
                mid);
        }
        while i < nb
            invariant
                0 <= i <= nb,
                nb == self.boxs@.len(),
                self.boxs@.len() == old(self).boxs@.len(),
                self.evts == old(self).evts,
                self.click == old(self).click,
                self.screen == old(self).screen,
                self.scroll == old(self).scroll,
                self.canscroll == old(self).canscroll,
                self.id == old(self).id,
                self.force == old(self).force,
                self.size == old(self).size,
                forall|j: int| i <= j < nb ==> self.boxs@[j] == old(self).boxs@[j],
                forall|j: int|
                    0 <= j < i ==> box_step(*old(self), old(self).boxs@[j], self.boxs@[j]),
                out@ == mid + boxes_delta(
                    *old(self),
                    old(self).boxs@.take(i as int),
                    self.boxs@.take(i as int),
                ),
            decreases nb - i,
        {
            let ghost olds = old(self).boxs@.take(i as int);
            let ghost news = self.boxs@.take(i as int);
            let ghost prev = self.boxs@;
            let mut b = self.boxs[i].clone();
            let ghost ob = old(self).boxs@[i as int];
            self.draw_one(h, &mut b, out);
            self.boxs.set(i, b);
            proof {
                lemma_boxes_delta_snoc(*old(self), olds, news, ob, self.boxs@[i as int]);
                assert(old(self).boxs@.take(i + 1) =~= olds.push(ob));
                assert(self.boxs@.take(i + 1) =~= news.push(self.boxs@[i as int])) by {
                    assert(forall|j: int|
                        0 <= j < i ==> self.boxs@[j] == #[trigger] prev[j]);
                }
                assert(out@ =~= mid + boxes_delta(
                    *old(self),
                    old(self).boxs@.take(i + 1),
                    self.boxs@.take(i + 1),
                ));
            }
            i = i + 1;
        }
        self.force = false;
        proof {
            assert(old(self).boxs@.take(nb as int) =~= old(self).boxs@);
            assert(final(self).boxs@.take(nb as int) =~= final(self).boxs@);
        }
    }

    /// Forces a full redraw: every box's cache is recomputed regardless
    /// of its dirty state, and the force flag is spent by the redraw.
    pub fn redraw<H: Hooks>(&mut self, h: &mut H, out: &mut Vec<char>)
        ensures
            final(self).force == false,
            final(self).evts == old(self).evts,
            final(self).click == old(self).click,
            final(self).screen == old(self).screen,
            final(self).scroll == old(self).scroll,
            final(self).canscroll == old(self).canscroll,
            final(self).id == old(self).id,
            final(self).size == old(self).size,
            final(self).boxs@.len() == old(self).boxs@.len(),
            forall|j: int|
                0 <= j < old(self).boxs@.len() ==> box_step(
                    UI { force: true, ..*old(self) },
                    old(self).boxs@[j],
                    final(self).boxs@[j],
                ),
            final(out)@ == old(out)@ + clear_seq() + boxes_delta(
                UI { force: true, ..*old(self) },
                old(self).boxs@,
                final(self).boxs@,
            ),
    {
        self.force = true;
        self.draw(h, out);
    }
}

} // verus!
