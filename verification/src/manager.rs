//! The workspace: four windows, their program handles, the round-robin
//! CPU-tick allocator, and the file-creation modal that seizes the
//! keyboard while it is open.

use vstd::prelude::*;
use crate::WINDOW_WIDTH;
use crate::WINDOW_HEIGHT;
use crate::WIN_REGION_WIDTH;
use crate::MAX_FILENAME_BYTES;
use crate::MAX_FILE_BYTES;
use crate::WINDOW_1_START_COL;
use crate::WINDOW_1_START_ROW;
use crate::WINDOW_2_START_COL;
use crate::WINDOW_2_START_ROW;
use crate::WINDOW_3_START_COL;
use crate::WINDOW_3_START_ROW;
use crate::WINDOW_4_START_COL;
use crate::WINDOW_4_START_ROW;
use crate::doc::SwimDocument;
use crate::doc::WindowStatus;
use crate::doc::KeyInput;
use crate::doc::tick_spec;
use crate::doc::same_but_active;
use crate::screen::Screen;
use crate::screen::Color;
use crate::screen::decimal_bytes;
use crate::interp::Interpreter;

verus! {

/// A window whose program may be granted the next tick: it runs and is not
/// blocked waiting for input.
pub open spec fn is_runnable(d: SwimDocument) -> bool {
    d.running() && d.status() != WindowStatus::AwaitingInput
}

/// The indices below `n` of runnable windows, in ascending order.
pub open spec fn runnable_upto(docs: Seq<SwimDocument>, n: int) -> Seq<int>
    decreases n,
{
    if n <= 0 {
        Seq::empty()
    } else if is_runnable(docs[n - 1]) {
        runnable_upto(docs, n - 1).push(n - 1)
    } else {
        runnable_upto(docs, n - 1)
    }
}

/// The runnable list holds exactly the runnable indices, in ascending
/// order.
pub proof fn lemma_runnable_upto(docs: Seq<SwimDocument>, n: int)
    requires
        0 <= n,
    ensures
        runnable_upto(docs, n).len() <= n,
        forall|t: int|
            0 <= t < runnable_upto(docs, n).len() ==> 0 <= #[trigger] runnable_upto(docs, n)[t] < n
                && is_runnable(docs[runnable_upto(docs, n)[t]]),
        forall|i: int|
            0 <= i < n && is_runnable(docs[i]) ==> runnable_upto(docs, n).contains(i),
        forall|t1: int, t2: int|
            0 <= t1 < t2 < runnable_upto(docs, n).len() ==> #[trigger] runnable_upto(docs, n)[t1]
                < #[trigger] runnable_upto(docs, n)[t2],
    decreases n,
{
    if n > 0 {
        lemma_runnable_upto(docs, n - 1);
        let prev = runnable_upto(docs, n - 1);
        let cur = runnable_upto(docs, n);
        assert forall|t: int|
            0 <= t < cur.len() implies 0 <= #[trigger] cur[t] < n && is_runnable(
            docs[cur[t]],
        ) by {
            if is_runnable(docs[n - 1]) {
                if t < prev.len() {
                    assert(cur[t] == prev[t]);
                } else {
                    assert(cur[t] == n - 1);
                }
            } else {
                assert(cur[t] == prev[t]);
            }
        }
        assert forall|t1: int, t2: int|
            0 <= t1 < t2 < cur.len() implies #[trigger] cur[t1] < #[trigger] cur[t2] by {
            if is_runnable(docs[n - 1]) && t2 == prev.len() {
                assert(cur[t2] == n - 1);
                assert(cur[t1] == prev[t1]);
                assert(prev[t1] < n - 1);
            }
        }
        assert forall|i: int|
            0 <= i < n && is_runnable(docs[i]) implies cur.contains(i) by {
            if i < n - 1 {
                assert(prev.contains(i));
                let t = choose|t: int| 0 <= t < prev.len() && prev[t] == i;
                assert(cur[t] == i);
            } else {
                assert(cur[cur.len() - 1] == i);
            }
        }
    }
}

/// Two window lists with the same runnable pattern give the same runnable
/// list.
pub proof fn lemma_runnable_same(a: Seq<SwimDocument>, b: Seq<SwimDocument>, n: int)
    requires
        forall|i: int| 0 <= i < n ==> is_runnable(#[trigger] b[i]) == is_runnable(a[i]),
    ensures
        runnable_upto(b, n) == runnable_upto(a, n),
    decreases n,
{
    if n > 0 {
        lemma_runnable_same(a, b, n - 1);
    }
}

/// The position of the runnable list granted the tick when the rotation
/// cursor stands at `rot`.
pub open spec fn scheduled_pick(rs: Seq<int>, rot: int) -> int {
    rs[rot % (rs.len() as int)]
}

/// Round-robin turn-taking is fair: within one full round over an
/// unchanged runnable list, no position is picked twice, and every
/// position is picked at some cycle of the round. The pick of cycle `t` of
/// a round that starts with rotation `start` is position
/// `(start + t) % len`.
pub proof fn lemma_round_robin_fairness(len: int, start: int, i: int, j: int)
    requires
        len > 0,
        start >= 0,
        0 <= i < len,
        0 <= j < len,
    ensures
        i != j ==> (start + i) % len != (start + j) % len,
        exists|t: int| 0 <= t < len && #[trigger] ((start + t) % len) == i,
{
    vstd::arithmetic::div_mod::lemma_fundamental_div_mod(start + i, len);
    vstd::arithmetic::div_mod::lemma_fundamental_div_mod(start + j, len);
    vstd::arithmetic::div_mod::lemma_mod_bound(start + i, len);
    vstd::arithmetic::div_mod::lemma_mod_bound(start + j, len);
    if i != j && (start + i) % len == (start + j) % len {
        let qi = (start + i) / len;
        let qj = (start + j) / len;
        assert(len * qi - len * qj == len * (qi - qj)) by (nonlinear_arith);
        assert(i - j == len * (qi - qj));
        assert(i - j != 0 && -len < i - j < len);
        assert(len * (qi - qj) == 0 || len * (qi - qj) >= len || len * (qi - qj) <= -len)
            by (nonlinear_arith);
        assert(false);
    }
    let s = start % len;
    vstd::arithmetic::div_mod::lemma_mod_bound(start, len);
    let t = if i >= s {
        i - s
    } else {
        i - s + len
    };
    assert(0 <= t < len);
    assert((start + t) % len == i) by {
        vstd::arithmetic::div_mod::lemma_fundamental_div_mod(start, len);
        let q = start / len;
        if i >= s {
            assert(q * len + i == start + t) by (nonlinear_arith)
                requires
                    start == len * q + s,
                    t == i - s,
            ;
            vstd::arithmetic::div_mod::lemma_fundamental_div_mod_converse_mod(start + t, len, q, i);
        } else {
            assert((q + 1) * len + i == start + t) by (nonlinear_arith)
                requires
                    start == len * q + s,
                    t == i - s + len,
            ;
            vstd::arithmetic::div_mod::lemma_fundamental_div_mod_converse_mod(
                start + t,
                len,
                q + 1,
                i,
            );
        }
    }
}

/// The whole workspace.
pub struct SwimDocManager {
    documents: Vec<SwimDocument>,
    interpreters: Vec<Option<Interpreter>>,
    active_window: usize,
    tick_counts: Vec<usize>,
    next_tick: usize,
    creating_file: bool,
    new_filename: Vec<u8>,
    screen: Screen,
}

impl SwimDocManager {
    /// The four windows.
    pub closed spec fn windows(self) -> Seq<SwimDocument> {
        self.documents@
    }

    /// The program handle of window `i`, if it has one.
    pub closed spec fn interp_at(self, i: int) -> Option<Interpreter> {
        self.interpreters@[i]
    }

    /// Which window the function keys last picked.
    pub closed spec fn active_index(self) -> int {
        self.active_window as int
    }

    /// Each window's granted CPU ticks.
    pub closed spec fn counts(self) -> Seq<usize> {
        self.tick_counts@
    }

    /// The round-robin rotation cursor.
    pub closed spec fn rotation(self) -> int {
        self.next_tick as int
    }

    /// The file-creation modal is open and owns the keyboard.
    pub closed spec fn modal_open(self) -> bool {
        self.creating_file
    }

    /// The filename composed in the modal so far.
    pub closed spec fn modal_name(self) -> Seq<u8> {
        self.new_filename@
    }

    /// The character grid everything is drawn on.
    pub closed spec fn display(self) -> Screen {
        self.screen
    }

    /// Four sound windows at their fixed screen places; a window holds a
    /// program handle exactly while its program is between start and
    /// finish, and runs exactly then.
    pub closed spec fn wf(self) -> bool {
        &&& self.documents@.len() == 4
        &&& forall|i: int| 0 <= i < 4 ==> (#[trigger] self.documents@[i]).wf()
        &&& self.documents@[0].origin_col() == WINDOW_1_START_COL && self.documents@[0].origin_row()
            == WINDOW_1_START_ROW
        &&& self.documents@[1].origin_col() == WINDOW_2_START_COL && self.documents@[1].origin_row()
            == WINDOW_2_START_ROW
        &&& self.documents@[2].origin_col() == WINDOW_3_START_COL && self.documents@[2].origin_row()
            == WINDOW_3_START_ROW
        &&& self.documents@[3].origin_col() == WINDOW_4_START_COL && self.documents@[3].origin_row()
            == WINDOW_4_START_ROW
        &&& self.interpreters@.len() == 4
        &&& self.tick_counts@.len() == 4
        &&& self.active_window < 4
        &&& self.next_tick < 4
        &&& self.new_filename@.len() < MAX_FILENAME_BYTES
        &&& self.screen.wf()
        &&& forall|i: int|
            0 <= i < 4 ==> ((#[trigger] self.interpreters@[i]) is Some <==> (
            self.documents@[i].status() == WindowStatus::ExecutingFile || self.documents@[i].status()
                == WindowStatus::AwaitingInput))
        &&& forall|i: int|
            0 <= i < 4 ==> ((#[trigger] self.interpreters@[i]) matches Some(ip) ==> ip.wf())
        &&& forall|i: int|
            0 <= i < 4 ==> ((#[trigger] self.documents@[i]).running() <==> (
            self.documents@[i].status() == WindowStatus::ExecutingFile || self.documents@[i].status()
                == WindowStatus::AwaitingInput))
    }

    /// Draws the per-window tick counters in the task-manager column.
    fn draw_program_ticks(&mut self)
        requires
            old(self).wf(),
        ensures
            final(self).wf(),
            final(self).windows() == old(self).windows(),
            final(self).interpreters@ == old(self).interpreters@,
            final(self).counts() == old(self).counts(),
            final(self).rotation() == old(self).rotation(),
            final(self).active_index() == old(self).active_index(),
            final(self).modal_open() == old(self).modal_open(),
            final(self).modal_name() == old(self).modal_name(),
            forall|rr: int, cc: int|
                0 <= rr < crate::SCREEN_HEIGHT && 0 <= cc < 71 ==> #[trigger] final(self).display().cell(rr, cc) == old(self).display().cell(rr, cc),
    {
        let mut w: usize = 0;
        while w < 4
            invariant
                self.wf(),
                w <= 4,
                self.documents@ == old(self).documents@,
                self.interpreters@ == old(self).interpreters@,
                self.tick_counts@ == old(self).tick_counts@,
                self.next_tick == old(self).next_tick,
                self.active_window == old(self).active_window,
                self.creating_file == old(self).creating_file,
                self.new_filename@ == old(self).new_filename@,
                forall|rr: int, cc: int|
                    0 <= rr < crate::SCREEN_HEIGHT && 0 <= cc < 71 ==> #[trigger] self.screen.cell(
                        rr,
                        cc,
                    ) == old(self).screen.cell(rr, cc),
            decreases 4 - w,
        {
            let mut label: Vec<u8> = Vec::new();
            label.push(0x46);
            label.push(0x31 + (w as u8));
            self.screen.plot_bytes(&label, 71, 2 * w, Color::White, Color::Black);
            let digits = decimal_bytes(self.tick_counts[w]);
            self.screen.plot_bytes(&digits, 71, 2 * w + 1, Color::White, Color::Black);
            w += 1;
        }
    }

    /// Draws the modal's prompt, the composed name and a cursor mark.
    fn draw_modal_echo(&mut self)
        requires
            old(self).wf(),
        ensures
            final(self).wf(),
            final(self).windows() == old(self).windows(),
            final(self).interpreters@ == old(self).interpreters@,
            final(self).counts() == old(self).counts(),
            final(self).rotation() == old(self).rotation(),
            final(self).active_index() == old(self).active_index(),
            final(self).modal_open() == old(self).modal_open(),
            final(self).modal_name() == old(self).modal_name(),
            forall|rr: int, cc: int|
                0 < rr < crate::SCREEN_HEIGHT && 0 <= cc < crate::SCREEN_WIDTH ==> #[trigger] final(self).display().cell(rr, cc) == old(self).display().cell(rr, cc),
    {
        let mut prompt: Vec<u8> = Vec::new();
        prompt.push(0x46);  // F
        prompt.push(0x69);  // i
        prompt.push(0x6c);  // l
        prompt.push(0x65);  // e
        prompt.push(0x6e);  // n
        prompt.push(0x61);  // a
        prompt.push(0x6d);  // m
        prompt.push(0x65);  // e
        prompt.push(0x3a);  // :
        prompt.push(0x20);
        self.screen.plot_bytes(&prompt, 0, 0, Color::White, Color::Black);
        self.screen.plot_bytes(&self.new_filename, 10, 0, Color::White, Color::Black);
        let len = self.new_filename.len();
        self.screen.plot(0x20, 10 + len, 0, Color::White, Color::White);
    }

    /// One scheduler cycle: every window's frame and static content is
    /// redrawn with the highlight on the picked window, then, if any window
    /// is runnable, exactly the one at the rotation cursor is granted a
    /// tick and the cursor advances. A window blocked on input consumes no
    /// tick and yields its turn.
    pub fn update(&mut self)
        requires
            old(self).wf(),
        ensures
            final(self).wf(),
            final(self).active_index() == old(self).active_index(),
            final(self).modal_open() == old(self).modal_open(),
            final(self).modal_name() == old(self).modal_name(),
            // every cycle redraws the frames: each window's top-left outline
            // star stands on the display, highlighted exactly on the picked
            // window
            forall|i: int|
                0 <= i < 4 ==> #[trigger] final(self).display().cell(
                    old(self).windows()[i].origin_row() - 1,
                    old(self).windows()[i].origin_col() - 1,
                ) == (crate::screen::ScreenCell {
                    ch: 0x2a,
                    fg: if i == old(self).active_index() { Color::Black } else { Color::White },
                    bg: if i == old(self).active_index() { Color::White } else { Color::Black },
                }),
            ({
                let aw = old(self).active_index();
                let rs = runnable_upto(old(self).windows(), 4);
                &&& (rs.len() == 0 ==> {
                    &&& forall|i: int|
                        0 <= i < 4 ==> same_but_active(
                            old(self).windows()[i],
                            #[trigger] final(self).windows()[i],
                        ) && final(self).windows()[i].is_active() == (i == aw)
                    &&& final(self).counts() == old(self).counts()
                    &&& final(self).rotation() == old(self).rotation()
                    &&& forall|i: int| 0 <= i < 4 ==> final(self).interp_at(i) == old(self).interp_at(i)
                })
                &&& (rs.len() > 0 ==> {
                    let k = scheduled_pick(rs, old(self).rotation());
                    &&& final(self).rotation() == (old(self).rotation() + 1) % (rs.len() as int)
                    &&& final(self).counts()[k] as int == (if old(self).counts()[k] < usize::MAX {
                        old(self).counts()[k] + 1
                    } else {
                        old(self).counts()[k] as int
                    })
                    &&& forall|i: int|
                        0 <= i < 4 && i != k ==> final(self).counts()[i] == old(self).counts()[i]
                    &&& forall|i: int|
                        0 <= i < 4 && i != k ==> same_but_active(
                            old(self).windows()[i],
                            #[trigger] final(self).windows()[i],
                        ) && final(self).windows()[i].is_active() == (i == aw) && final(self).interp_at(i) == old(self).interp_at(i)
                    &&& tick_spec(
                        old(self).windows()[k],
                        final(self).windows()[k],
                        old(self).interp_at(k),
                        final(self).interp_at(k),
                    )
                    &&& final(self).windows()[k].is_active() == (k == aw)
                })
            }),
    {
        if self.creating_file {
            self.draw_modal_echo();
        }
        let ghost docs0 = self.documents@;
        let mut i: usize = 0;
        while i < 4
            invariant
                self.wf(),
                i <= 4,
                docs0 == old(self).documents@,
                self.documents@.len() == 4,
                forall|j: int|
                    0 <= j < i ==> same_but_active(docs0[j], #[trigger] self.documents@[j])
                        && self.documents@[j].is_active() == (j == old(self).active_window),
                forall|j: int| i <= j < 4 ==> #[trigger] self.documents@[j] == docs0[j],
                forall|j: int|
                    0 <= j < i ==> #[trigger] self.screen.cell(
                        docs0[j].origin_row() - 1,
                        docs0[j].origin_col() - 1,
                    ) == (crate::screen::ScreenCell {
                        ch: 0x2a,
                        fg: if j == old(self).active_window { Color::Black } else { Color::White },
                        bg: if j == old(self).active_window { Color::White } else { Color::Black },
                    }),
                self.interpreters@ == old(self).interpreters@,
                self.tick_counts@ == old(self).tick_counts@,
                self.next_tick == old(self).next_tick,
                self.active_window == old(self).active_window,
                self.creating_file == old(self).creating_file,
                self.new_filename@ == old(self).new_filename@,
            decreases 4 - i,
        {
            let flag = i == self.active_window;
            self.documents[i].set_active(flag);
            self.documents[i].draw_outline(&mut self.screen);
            if matches!(self.documents[i].status_val(), WindowStatus::DisplayingFiles) {
                self.documents[i].display_files(&mut self.screen);
            }
            if matches!(self.documents[i].status_val(), WindowStatus::AwaitingInput) {
                let row = self.documents[i].origin_row_val() + 1;
                self.documents[i].clear_line(&mut self.screen, row);
                self.documents[i].draw_current(&mut self.screen, 1);
            }
            proof {
                assert(self.screen.cell(
                    self.documents@[i as int].origin_row() - 1,
                    self.documents@[i as int].origin_col() - 1,
                ) == (crate::screen::ScreenCell {
                    ch: 0x2a,
                    fg: self.documents@[i as int].outline_fg(),
                    bg: self.documents@[i as int].outline_bg(),
                }));
            }
            i += 1;
        }
        let ghost rs = runnable_upto(docs0, 4);
        proof {
            lemma_runnable_same(docs0, self.documents@, 4);
            lemma_runnable_upto(self.documents@, 4);
        }
        let mut running_programs: Vec<usize> = Vec::new();
        let mut j: usize = 0;
        while j < 4
            invariant
                self.wf(),
                j <= 4,
                rs == runnable_upto(self.documents@, 4),
                running_programs@.len() == runnable_upto(self.documents@, j as int).len(),
                forall|t: int|
                    0 <= t < running_programs@.len() ==> #[trigger] running_programs@[t] as int
                        == runnable_upto(self.documents@, j as int)[t],
            decreases 4 - j,
        {
            let d_running = self.documents[j].running_val();
            let d_awaiting = matches!(self.documents[j].status_val(), WindowStatus::AwaitingInput);
            if d_running && !d_awaiting {
                running_programs.push(j);
            }
            j += 1;
        }
        let count = running_programs.len();
        if count > 0 {
            proof {
                lemma_runnable_same(docs0, self.documents@, 4);
                lemma_runnable_upto(self.documents@, 4);
                assert(runnable_upto(self.documents@, 4).len() == count && count <= 4);
            }
            let pick = self.next_tick % count;
            let doc_to_tick = running_programs[pick];
            proof {
                assert(doc_to_tick as int == rs[self.next_tick as int % (rs.len() as int)]);
                assert(0 <= doc_to_tick < 4);
                assert(is_runnable(self.documents@[doc_to_tick as int]));
                assert(self.documents@[doc_to_tick as int].status()
                    == WindowStatus::ExecutingFile);
            }
            let c = self.tick_counts[doc_to_tick];
            if c < usize::MAX {
                self.tick_counts[doc_to_tick] = c + 1;
            }
            self.documents[doc_to_tick].tick(
                &mut self.screen,
                &mut self.interpreters[doc_to_tick],
            );
            self.next_tick = (self.next_tick + 1) % count;
            proof {
                assert forall|i2: int| 0 <= i2 < 4 implies (#[trigger] self.interpreters@[i2])
                    is Some <==> (self.documents@[i2].status() == WindowStatus::ExecutingFile
                    || self.documents@[i2].status() == WindowStatus::AwaitingInput) by {}
            }
        }
        proof {
            assert forall|i2: int| 0 <= i2 < 4 implies #[trigger] self.screen.cell(
                docs0[i2].origin_row() - 1,
                docs0[i2].origin_col() - 1,
            ) == (crate::screen::ScreenCell {
                ch: 0x2a,
                fg: if i2 == old(self).active_window {
                    Color::Black
                } else {
                    Color::White
                },
                bg: if i2 == old(self).active_window {
                    Color::White
                } else {
                    Color::Black
                },
            }) by {}
        }
        self.draw_program_ticks();
        proof {
            assert forall|i2: int| 0 <= i2 < 4 implies #[trigger] self.screen.cell(
                old(self).windows()[i2].origin_row() - 1,
                old(self).windows()[i2].origin_col() - 1,
            ) == (crate::screen::ScreenCell {
                ch: 0x2a,
                fg: if i2 == old(self).active_window {
                    Color::Black
                } else {
                    Color::White
                },
                bg: if i2 == old(self).active_window {
                    Color::White
                } else {
                    Color::Black
                },
            }) by {
                assert(self.screen.cell(docs0[i2].origin_row() - 1, docs0[i2].origin_col() - 1)
                    == (crate::screen::ScreenCell {
                    ch: 0x2a,
                    fg: if i2 == old(self).active_window {
                        Color::Black
                    } else {
                        Color::White
                    },
                    bg: if i2 == old(self).active_window {
                        Color::White
                    } else {
                        Color::Black
                    },
                }));
            }
        }
    }
}


/// A directory can take the name: it already lists it, or it has room.
pub open spec fn can_create(d: SwimDocument, nm: Seq<u8>) -> bool {
    1 <= nm.len() <= MAX_FILENAME_BYTES && (d.files().dom().contains(nm) || d.dir().len()
        < crate::MAX_FILES_STORED)
}

/// The message shown when a directory cannot take another file.
pub open spec fn too_many_files_msg() -> Seq<u8> {
    seq![
        0x54u8, 0x6fu8, 0x6fu8, 0x20u8, 0x6du8, 0x61u8, 0x6eu8, 0x79u8, 0x20u8, 0x66u8, 0x69u8,
        0x6cu8, 0x65u8, 0x73u8, 0x21u8,
    ]
}

/// Creation of the name stopped at window `f`: that window could not take
/// it, every earlier window took it, and no later window was touched.
pub open spec fn blocked_at(a: SwimDocManager, b: SwimDocManager, nm: Seq<u8>, f: int) -> bool {
    &&& 0 <= f < 4
    &&& !can_create(a.windows()[f], nm)
    &&& forall|i: int|
        0 <= i < f ==> can_create(#[trigger] a.windows()[i], nm) && b.windows()[i].files()
            == a.windows()[i].files().insert(nm, Seq::<u8>::empty())
    &&& forall|i: int|
        f <= i < 4 ==> (#[trigger] b.windows()[i]).files() == a.windows()[i].files()
            && b.windows()[i].dir() == a.windows()[i].dir()
}

/// What a keystroke does while the file-creation modal is open: no
/// window's text, mode or pick moves; printable keys grow the composed
/// name within its bound, backspace shrinks it, and newline attempts the
/// creation in every window in order, closing the modal only when every
/// window took the file and stopping at the first that could not.
pub open spec fn modal_key_spec(a: SwimDocManager, b: SwimDocManager, key: KeyInput) -> bool {
    &&& forall|i: int|
        0 <= i < 4 ==> crate::doc::unchanged_but_files(a.windows()[i], #[trigger] b.windows()[i])
    &&& forall|i: int| 0 <= i < 4 ==> b.interp_at(i) == a.interp_at(i)
    &&& b.active_index() == a.active_index()
    &&& b.counts() == a.counts()
    &&& b.rotation() == a.rotation()
    &&& match key {
        KeyInput::Unicode(c) => {
            if c == '\n' {
                &&& b.modal_name() == a.modal_name()
                &&& (a.modal_name().len() == 0 ==> b.modal_open() && (forall|i: int|
                    0 <= i < 4 ==> (#[trigger] b.windows()[i]).files() == a.windows()[i].files()
                        && b.windows()[i].dir() == a.windows()[i].dir()))
                &&& (a.modal_name().len() > 0 ==> {
                    let nm = a.modal_name();
                    if forall|i: int| 0 <= i < 4 ==> can_create(#[trigger] a.windows()[i], nm) {
                        &&& !b.modal_open()
                        &&& forall|i: int|
                            0 <= i < 4 ==> (#[trigger] b.windows()[i]).files() == a.windows()[
                                i
                            ].files().insert(nm, Seq::<u8>::empty()) && b.windows()[i].dir() == (
                            if a.windows()[i].files().dom().contains(nm) {
                                a.windows()[i].dir()
                            } else {
                                a.windows()[i].dir().push(nm)
                            })
                    } else {
                        &&& b.modal_open()
                        &&& exists|f: int| #[trigger] blocked_at(a, b, nm, f)
                        &&& forall|k: int|
                            0 <= k < too_many_files_msg().len() ==> #[trigger] b.display().cell(
                                0,
                                20 + k,
                            ) == (crate::screen::ScreenCell {
                                ch: too_many_files_msg()[k],
                                fg: Color::White,
                                bg: Color::Black,
                            })
                    }
                })
            } else if c == '\u{8}' {
                &&& b.modal_open()
                &&& forall|i: int|
                    0 <= i < 4 ==> (#[trigger] b.windows()[i]).files() == a.windows()[i].files()
                        && b.windows()[i].dir() == a.windows()[i].dir()
                &&& b.modal_name() == (if a.modal_name().len() > 0 {
                    a.modal_name().drop_last()
                } else {
                    a.modal_name()
                })
            } else if crate::doc::printable_key(c) {
                &&& b.modal_open()
                &&& forall|i: int|
                    0 <= i < 4 ==> (#[trigger] b.windows()[i]).files() == a.windows()[i].files()
                        && b.windows()[i].dir() == a.windows()[i].dir()
                &&& b.modal_name() == (if a.modal_name().len() < MAX_FILENAME_BYTES - 1 {
                    a.modal_name().push(c as u8)
                } else {
                    a.modal_name()
                })
            } else {
                &&& b.modal_open()
                &&& b.modal_name() == a.modal_name()
                &&& forall|i: int|
                    0 <= i < 4 ==> (#[trigger] b.windows()[i]).files() == a.windows()[i].files()
                        && b.windows()[i].dir() == a.windows()[i].dir()
            }
        },
        _ => {
            &&& b.modal_open()
            &&& b.modal_name() == a.modal_name()
            &&& forall|i: int|
                0 <= i < 4 ==> (#[trigger] b.windows()[i]).files() == a.windows()[i].files()
                    && b.windows()[i].dir() == a.windows()[i].dir()
        },
    }
}

/// What the close key does: the picked window returns to its listing, its
/// program handle drops, and, if it was editing a named file, the text is
/// first saved into every window's directory that can take it.
pub open spec fn f6_spec(a: SwimDocManager, b: SwimDocManager) -> bool {
    let aw = a.active_index();
    let d = a.windows()[aw];
    let saving = d.status() == WindowStatus::EditingFile && d.editing_name().len() > 0;
    let nm = d.editing_name();
    let data = crate::doc::serialize_upto(d.grid(), WINDOW_HEIGHT as int);
    &&& b.active_index() == aw
    &&& !b.modal_open()
    &&& b.interp_at(aw) is None
    &&& b.windows()[aw].status() == WindowStatus::DisplayingFiles
    &&& !b.windows()[aw].running()
    &&& b.windows()[aw].pending() is None
    &&& forall|r: int, c: int|
        0 <= r < WINDOW_HEIGHT && 0 <= c < WINDOW_WIDTH ==> #[trigger] b.windows()[aw].grid()[r][c]
            == 0
    &&& b.windows()[aw].cursor() == 0
    &&& b.windows()[aw].letters_count() == 0
    &&& b.windows()[aw].row() == 0
    &&& b.windows()[aw].out_line() == 0
    &&& forall|i: int| 0 <= i < 4 && i != aw ==> b.interp_at(i) == a.interp_at(i)
    &&& forall|i: int|
        0 <= i < 4 && i != aw ==> crate::doc::unchanged_but_files(
            a.windows()[i],
            #[trigger] b.windows()[i],
        )
    &&& (saving ==> forall|i: int|
        0 <= i < 4 ==> {
            let w = a.windows()[i];
            &&& (can_create(w, nm) ==> (#[trigger] b.windows()[i]).files() == w.files().insert(
                nm,
                data,
            ) && b.windows()[i].dir() == (if w.files().dom().contains(nm) {
                w.dir()
            } else {
                w.dir().push(nm)
            }))
            &&& (!can_create(w, nm) ==> b.windows()[i].files() == w.files() && b.windows()[i].dir()
                == w.dir())
        })
    &&& (!saving ==> forall|i: int|
        0 <= i < 4 ==> (#[trigger] b.windows()[i]).files() == a.windows()[i].files()
            && b.windows()[i].dir() == a.windows()[i].dir())
}

/// What `r` on finished output does: the picked window dismisses its
/// output and returns to its listing; nothing else moves.
pub open spec fn dismiss_spec(a: SwimDocManager, b: SwimDocManager) -> bool {
    let aw = a.active_index();
    &&& b.active_index() == aw
    &&& !b.modal_open()
    &&& b.windows()[aw].status() == WindowStatus::DisplayingFiles
    &&& !b.windows()[aw].running()
    &&& b.interp_at(aw) is None
    &&& b.windows()[aw].pending() is None
    &&& forall|r: int, c: int|
        0 <= r < WINDOW_HEIGHT && 0 <= c < WINDOW_WIDTH ==> #[trigger] b.windows()[aw].grid()[r][c]
            == 0
    &&& b.windows()[aw].cursor() == 0
    &&& b.windows()[aw].letters_count() == 0
    &&& b.windows()[aw].row() == 0
    &&& b.windows()[aw].out_line() == 0
    &&& b.windows()[aw].files() == a.windows()[aw].files()
    &&& b.windows()[aw].dir() == a.windows()[aw].dir()
    &&& b.windows()[aw].picked_file() == a.windows()[aw].picked_file()
    &&& forall|i: int| 0 <= i < 4 && i != aw ==> #[trigger] b.windows()[i] == a.windows()[i]
    &&& forall|i: int| 0 <= i < 4 && i != aw ==> b.interp_at(i) == a.interp_at(i)
}

/// What a key not taken by the dispatcher does: it goes to the picked
/// window alone.
pub open spec fn delegated_spec(a: SwimDocManager, b: SwimDocManager, key: KeyInput) -> bool {
    let aw = a.active_index();
    &&& crate::doc::doc_key_spec(a.windows()[aw], b.windows()[aw], key)
    &&& forall|i: int| 0 <= i < 4 && i != aw ==> #[trigger] b.windows()[i] == a.windows()[i]
    &&& forall|i: int| 0 <= i < 4 ==> b.interp_at(i) == a.interp_at(i)
    &&& b.active_index() == aw
    &&& !b.modal_open()
    &&& b.modal_name() == a.modal_name()
}

impl Default for SwimDocManager {
    /// A fresh workspace: four seeded windows at their screen places, no
    /// program running, the first window picked, and the modal closed.
    fn default() -> (r: SwimDocManager)
        ensures
            r.wf(),
            !r.modal_open(),
            r.modal_name().len() == 0,
            r.active_index() == 0,
            r.rotation() == 0,
            forall|i: int| 0 <= i < 4 ==> #[trigger] r.counts()[i] == 0,
            r.windows()[0].origin_col() == WINDOW_1_START_COL && r.windows()[0].origin_row()
                == WINDOW_1_START_ROW,
            r.windows()[1].origin_col() == WINDOW_2_START_COL && r.windows()[1].origin_row()
                == WINDOW_2_START_ROW,
            r.windows()[2].origin_col() == WINDOW_3_START_COL && r.windows()[2].origin_row()
                == WINDOW_3_START_ROW,
            r.windows()[3].origin_col() == WINDOW_4_START_COL && r.windows()[3].origin_row()
                == WINDOW_4_START_ROW,
            forall|i: int|
                0 <= i < 4 ==> ((#[trigger] r.windows()[i]).status()
                    == WindowStatus::DisplayingFiles && !r.windows()[i].running() && r.windows()[
                    i
                ].dir() == crate::doc::fixture_names() && r.windows()[i].files()
                    == crate::doc::fixture_files() && r.interp_at(i) is None && r.windows()[
                    i
                ].picked_file() == 0),
    {
        let mut documents: Vec<SwimDocument> = Vec::new();
        documents.push(SwimDocument::new(WINDOW_1_START_COL, WINDOW_1_START_ROW));
        documents.push(SwimDocument::new(WINDOW_2_START_COL, WINDOW_2_START_ROW));
        documents.push(SwimDocument::new(WINDOW_3_START_COL, WINDOW_3_START_ROW));
        documents.push(SwimDocument::new(WINDOW_4_START_COL, WINDOW_4_START_ROW));
        let mut interpreters: Vec<Option<Interpreter>> = Vec::new();
        interpreters.push(None);
        interpreters.push(None);
        interpreters.push(None);
        interpreters.push(None);
        let mut tick_counts: Vec<usize> = Vec::new();
        tick_counts.push(0);
        tick_counts.push(0);
        tick_counts.push(0);
        tick_counts.push(0);
        SwimDocManager {
            documents,
            interpreters,
            active_window: 0,
            tick_counts,
            next_tick: 0,
            creating_file: false,
            new_filename: Vec::new(),
            screen: Screen::new(),
        }
    }
}

impl SwimDocManager {
    /// One keyboard event. While the modal is open it takes every key;
    /// else the function keys pick a window, open the modal, or close and
    /// save the picked window's work, `e` and `r` open or run the picked
    /// file, and everything else goes to the picked window.
    pub fn key(&mut self, key: KeyInput)
        requires
            old(self).wf(),
        ensures
            final(self).wf(),
            old(self).modal_open() ==> modal_key_spec(*old(self), *final(self), key),
            !old(self).modal_open() ==> {
                &&& final(self).counts() == old(self).counts()
                &&& final(self).rotation() == old(self).rotation()
                &&& match key {
                    KeyInput::F1 => select_spec(*old(self), *final(self), 0),
                    KeyInput::F2 => select_spec(*old(self), *final(self), 1),
                    KeyInput::F3 => select_spec(*old(self), *final(self), 2),
                    KeyInput::F4 => select_spec(*old(self), *final(self), 3),
                    KeyInput::F5 => {
                        &&& final(self).modal_open()
                        &&& final(self).modal_name().len() == 0
                        &&& final(self).windows() == old(self).windows()
                        &&& (forall|i: int|
                            0 <= i < 4 ==> final(self).interp_at(i) == old(self).interp_at(i))
                        &&& final(self).active_index() == old(self).active_index()
                    },
                    KeyInput::F6 => f6_spec(*old(self), *final(self)),
                    KeyInput::Unicode(c) => {
                        if old(self).windows()[old(self).active_index()].status()
                            == WindowStatus::DisplayingFiles && c == 'e' {
                            edit_start_spec(*old(self), *final(self))
                        } else if old(self).windows()[old(self).active_index()].status()
                            == WindowStatus::DisplayingFiles && c == 'r' {
                            run_start_spec(*old(self), *final(self))
                        } else if old(self).windows()[old(self).active_index()].status()
                            == WindowStatus::DisplayingOutput && c == 'r' {
                            dismiss_spec(*old(self), *final(self))
                        } else {
                            delegated_spec(*old(self), *final(self), key)
                        }
                    },
                    _ => delegated_spec(*old(self), *final(self), key),
                }
            },
    {
        if self.creating_file {
            self.file_creation_input(key);
            return;
        }
        match key {
            KeyInput::F1 => {
                self.active_window = 0;
            },
            KeyInput::F2 => {
                self.active_window = 1;
            },
            KeyInput::F3 => {
                self.active_window = 2;
            },
            KeyInput::F4 => {
                self.active_window = 3;
            },
            KeyInput::F5 => {
                self.creating_file = true;
                self.new_filename = Vec::new();
                self.screen.fill_row(0, WIN_REGION_WIDTH, 0, 0x20, Color::Black, Color::Black);
            },
            KeyInput::F6 => {
                let aw = self.active_window;
                let name = self.documents[aw].editing_name_bytes();
                let saving = matches!(self.documents[aw].status_val(), WindowStatus::EditingFile)
                    && name.len() > 0;
                let data = if saving {
                    self.documents[aw].serialize()
                } else {
                    Vec::new()
                };
                self.documents[aw].reset_to_files(&mut self.screen);
                self.interpreters[aw] = None;
                if saving {
                    let ghost pre = *self;
                    let mut i: usize = 0;
                    while i < 4
                        invariant
                            self.wf(),
                            i <= 4,
                            pre.wf(),
                            pre.documents@.len() == 4,
                            name@ == old(self).windows()[old(self).active_index()].editing_name(),
                            1 <= name@.len() <= MAX_FILENAME_BYTES,
                            data@.len() <= MAX_FILE_BYTES,
                            self.documents@.len() == 4,
                            self.interpreters@ == pre.interpreters@,
                            self.tick_counts@ == pre.tick_counts@,
                            self.next_tick == pre.next_tick,
                            self.active_window == pre.active_window,
                            self.creating_file == pre.creating_file,
                            self.new_filename@ == pre.new_filename@,
                            forall|j: int|
                                0 <= j < 4 ==> crate::doc::unchanged_but_files(
                                    pre.documents@[j],
                                    #[trigger] self.documents@[j],
                                ),
                            forall|j: int|
                                0 <= j < i ==> (can_create(#[trigger] pre.documents@[j], name@)
                                    ==> self.documents@[j].files() == pre.documents@[
                                    j
                                ].files().insert(name@, data@) && self.documents@[j].dir() == (
                                if pre.documents@[j].files().dom().contains(name@) {
                                    pre.documents@[j].dir()
                                } else {
                                    pre.documents@[j].dir().push(name@)
                                })) && (!can_create(pre.documents@[j], name@)
                                    ==> self.documents@[j].files() == pre.documents@[j].files()
                                    && self.documents@[j].dir() == pre.documents@[j].dir()),
                            forall|j: int|
                                i <= j < 4 ==> #[trigger] self.documents@[j] == pre.documents@[j],
                        decreases 4 - i,
                    {
                        let _ = self.documents[i].save_named(&name, &data);
                        i += 1;
                    }
                }
            },
            KeyInput::Unicode(c) => {
                let aw = self.active_window;
                if matches!(self.documents[aw].status_val(), WindowStatus::DisplayingFiles) && c
                    == 'e' {
                    self.documents[aw].start_edit(&mut self.screen);
                } else if matches!(
                    self.documents[aw].status_val(),
                    WindowStatus::DisplayingFiles,
                ) && c == 'r' {
                    let ip = self.documents[aw].start_run(&mut self.screen);
                    self.interpreters[aw] = Some(ip);
                } else if matches!(
                    self.documents[aw].status_val(),
                    WindowStatus::DisplayingOutput,
                ) && c == 'r' {
                    self.documents[aw].reset_to_files(&mut self.screen);
                } else {
                    self.documents[aw].key(&mut self.screen, key);
                }
            },
            _ => {
                let aw = self.active_window;
                self.documents[aw].key(&mut self.screen, key);
            },
        }
    }

    /// One keystroke while the modal owns the keyboard.
    fn file_creation_input(&mut self, key: KeyInput)
        requires
            old(self).wf(),
            old(self).modal_open(),
        ensures
            final(self).wf(),
            modal_key_spec(*old(self), *final(self), key),
    {
        match key {
            KeyInput::Unicode(c) => {
                let code = c as u32;
                if code == 0x0a {
                    if self.new_filename.len() > 0 {
                        let name = crate::storage::bytes_clone(&self.new_filename);
                        let empty: Vec<u8> = Vec::new();
                        let ghost pre = *self;
                        let mut i: usize = 0;
                        while i < 4
                            invariant
                                key == KeyInput::Unicode('\n'),
                                self.wf(),
                                i <= 4,
                                pre.wf(),
                                pre == *old(self),
                                pre.documents@.len() == 4,
                                pre.new_filename@.len() > 0,
                                name@ == pre.new_filename@,
                                1 <= name@.len() <= MAX_FILENAME_BYTES,
                                empty@ == Seq::<u8>::empty(),
                                self.documents@.len() == 4,
                                self.interpreters@ == pre.interpreters@,
                                self.tick_counts@ == pre.tick_counts@,
                                self.next_tick == pre.next_tick,
                                self.active_window == pre.active_window,
                                self.creating_file,
                                self.creating_file == pre.creating_file,
                                self.new_filename@ == pre.new_filename@,
                                self.screen.wf(),
                                forall|j: int|
                                    0 <= j < 4 ==> crate::doc::unchanged_but_files(
                                        pre.documents@[j],
                                        #[trigger] self.documents@[j],
                                    ),
                                forall|j: int|
                                    0 <= j < i ==> can_create(#[trigger] pre.documents@[j], name@)
                                        && self.documents@[j].files() == pre.documents@[
                                        j
                                    ].files().insert(name@, Seq::<u8>::empty())
                                        && self.documents@[j].dir() == (
                                    if pre.documents@[j].files().dom().contains(name@) {
                                        pre.documents@[j].dir()
                                    } else {
                                        pre.documents@[j].dir().push(name@)
                                    }),
                                forall|j: int|
                                    i <= j < 4 ==> #[trigger] self.documents@[j]
                                        == pre.documents@[j],
                            decreases 4 - i,
                        {
                            match self.documents[i].save_named(&name, &empty) {
                                Ok(_) => {},
                                Err(_) => {
                                    let mut msg: Vec<u8> = Vec::new();
                                    msg.push(0x54);  // T
                                    msg.push(0x6f);  // o
                                    msg.push(0x6f);  // o
                                    msg.push(0x20);
                                    msg.push(0x6d);  // m
                                    msg.push(0x61);  // a
                                    msg.push(0x6e);  // n
                                    msg.push(0x79);  // y
                                    msg.push(0x20);
                                    msg.push(0x66);  // f
                                    msg.push(0x69);  // i
                                    msg.push(0x6c);  // l
                                    msg.push(0x65);  // e
                                    msg.push(0x73);  // s
                                    msg.push(0x21);  // !
                                    self.screen.plot_bytes(&msg, 20, 0, Color::White, Color::Black);
                                    proof {
                                        let a = *old(self);
                                        let nm = a.modal_name();
                                        assert(nm == name@);
                                        assert(!can_create(a.windows()[i as int], nm));
                                        assert(blocked_at(a, *self, nm, i as int));
                                    }
                                    return;
                                },
                            }
                            i += 1;
                        }
                        self.creating_file = false;
                        self.screen.fill_row(
                            0,
                            WIN_REGION_WIDTH,
                            0,
                            0x20,
                            Color::Black,
                            Color::Black,
                        );
                    }
                } else if code == 0x08 {
                    if self.new_filename.len() > 0 {
                        let len = self.new_filename.len();
                        self.screen.fill_row(10, 10 + len + 1, 0, 0x20, Color::Black, Color::Black);
                        self.new_filename.pop();
                        self.screen.plot_bytes(&self.new_filename, 10, 0, Color::White, Color::Black);
                        let nlen = self.new_filename.len();
                        self.screen.plot(0x20, 10 + nlen, 0, Color::White, Color::White);
                    }
                } else if 0x20 <= code && code <= 0x7e {
                    if self.new_filename.len() < MAX_FILENAME_BYTES - 1 {
                        self.new_filename.push(code as u8);
                        let nlen = self.new_filename.len();
                        self.screen.plot(code as u8, 10 + nlen - 1, 0, Color::White, Color::Black);
                    }
                }
            },
            _ => {},
        }
    }
}

/// What a window-select key does: only the pick of the active window
/// moves.
pub open spec fn select_spec(a: SwimDocManager, b: SwimDocManager, w: int) -> bool {
    &&& b.active_index() == w
    &&& b.windows() == a.windows()
    &&& forall|i: int| 0 <= i < 4 ==> b.interp_at(i) == a.interp_at(i)
    &&& !b.modal_open()
    &&& b.modal_name() == a.modal_name()
}

/// What `e` on a listing does: the picked window records the picked name
/// and turns to editing its loaded text; nothing else moves.
pub open spec fn edit_start_spec(a: SwimDocManager, b: SwimDocManager) -> bool {
    let aw = a.active_index();
    &&& b.active_index() == aw
    &&& !b.modal_open()
    &&& b.windows()[aw].status() == WindowStatus::EditingFile
    &&& b.windows()[aw].editing_name() == a.windows()[aw].dir()[a.windows()[aw].picked_file()]
    &&& forall|r: int|
        0 <= r < WINDOW_HEIGHT ==> #[trigger] b.windows()[aw].grid()[r] == crate::doc::loaded_row(
            crate::doc::line_at(
                crate::doc::split_lines(
                    a.windows()[aw].files()[a.windows()[aw].dir()[a.windows()[aw].picked_file()]],
                ),
                r,
            ),
        )
    &&& b.windows()[aw].cursor() == 0
    &&& b.windows()[aw].row() == 0
    &&& b.windows()[aw].files() == a.windows()[aw].files()
    &&& b.windows()[aw].dir() == a.windows()[aw].dir()
    &&& forall|i: int| 0 <= i < 4 && i != aw ==> #[trigger] b.windows()[i] == a.windows()[i]
    &&& forall|i: int| 0 <= i < 4 ==> b.interp_at(i) == a.interp_at(i)
}

/// What `r` on a listing does: the picked window starts running the picked
/// file with a fresh program handle; nothing else moves.
pub open spec fn run_start_spec(a: SwimDocManager, b: SwimDocManager) -> bool {
    let aw = a.active_index();
    &&& b.active_index() == aw
    &&& !b.modal_open()
    &&& b.windows()[aw].status() == WindowStatus::ExecutingFile
    &&& b.windows()[aw].running()
    &&& b.windows()[aw].out_line() == 0
    &&& b.windows()[aw].pending() is None
    &&& forall|r: int, c: int|
        0 <= r < WINDOW_HEIGHT && 0 <= c < WINDOW_WIDTH ==> #[trigger] b.windows()[aw].grid()[r][c]
            == 0
    &&& b.windows()[aw].cursor() == 0
    &&& b.windows()[aw].letters_count() == 0
    &&& b.windows()[aw].row() == 0
    &&& b.interp_at(aw) is Some
    &&& (b.interp_at(aw) matches Some(ip) && crate::interp::built_from(
        a.windows()[aw].files()[a.windows()[aw].dir()[a.windows()[aw].picked_file()]],
        ip,
    ))
    &&& b.windows()[aw].files() == a.windows()[aw].files()
    &&& b.windows()[aw].dir() == a.windows()[aw].dir()
    &&& forall|i: int| 0 <= i < 4 && i != aw ==> #[trigger] b.windows()[i] == a.windows()[i]
    &&& forall|i: int| 0 <= i < 4 && i != aw ==> b.interp_at(i) == a.interp_at(i)
}


/// In a sound workspace every window's editor bookkeeping is in bounds:
/// the cursor never passes the letter count, which never passes the window
/// width. Together with `key` and `update` keeping the workspace sound,
/// this holds after every event.
pub proof fn lemma_editor_bounds(m: SwimDocManager)
    requires
        m.wf(),
    ensures
        forall|i: int| 0 <= i < 4 ==> (#[trigger] m.windows()[i]).cursor_in_bounds(),
{
    assert forall|i: int| 0 <= i < 4 implies (#[trigger] m.windows()[i]).cursor_in_bounds() by {
        m.windows()[i].lemma_wf_cursor();
    }
}

/// Saving is a broadcast: when the close key saves an edited named file,
/// every window whose directory can take the name ends up storing exactly
/// the serialized text under it, not only the editor's own window.
pub proof fn lemma_save_broadcast(a: SwimDocManager, b: SwimDocManager)
    requires
        a.wf(),
        f6_spec(a, b),
        a.windows()[a.active_index()].status() == WindowStatus::EditingFile,
        a.windows()[a.active_index()].editing_name().len() > 0,
    ensures
        forall|i: int|
            0 <= i < 4 && can_create(
                #[trigger] a.windows()[i],
                a.windows()[a.active_index()].editing_name(),
            ) ==> b.windows()[i].files().dom().contains(
                a.windows()[a.active_index()].editing_name(),
            ) && b.windows()[i].files()[a.windows()[a.active_index()].editing_name()]
                == crate::doc::serialize_upto(
                a.windows()[a.active_index()].grid(),
                WINDOW_HEIGHT as int,
            ),
{
}

/// While the modal is open it shields the windows: any key but the
/// creating newline leaves every window's text, mode, cursor and stored
/// files exactly as they were, and the modal stays open.
pub proof fn lemma_modal_shields(a: SwimDocManager, b: SwimDocManager, key: KeyInput)
    requires
        modal_key_spec(a, b, key),
        match key {
            KeyInput::Unicode(c) => c != '\n',
            _ => true,
        },
    ensures
        b.modal_open(),
        forall|i: int|
            0 <= i < 4 ==> {
                &&& (#[trigger] b.windows()[i]).grid() == a.windows()[i].grid()
                &&& b.windows()[i].status() == a.windows()[i].status()
                &&& b.windows()[i].cursor() == a.windows()[i].cursor()
                &&& b.windows()[i].letters_count() == a.windows()[i].letters_count()
                &&& b.windows()[i].files() == a.windows()[i].files()
                &&& b.windows()[i].dir() == a.windows()[i].dir()
            },
{
}

/// Creating past capacity is safe: when some window cannot take the new
/// name, the modal stays open, and no window loses or changes any stored
/// file other than possibly gaining the new name.
pub proof fn lemma_modal_capacity(a: SwimDocManager, b: SwimDocManager)
    requires
        a.wf(),
        modal_key_spec(a, b, KeyInput::Unicode('\n')),
        a.modal_name().len() > 0,
        !(forall|i: int| 0 <= i < 4 ==> can_create(#[trigger] a.windows()[i], a.modal_name())),
    ensures
        b.modal_open(),
        forall|i: int, n: Seq<u8>|
            #![trigger a.windows()[i].files()[n]]
            0 <= i < 4 && n != a.modal_name() && a.windows()[i].files().dom().contains(n)
                ==> b.windows()[i].files().dom().contains(n) && b.windows()[i].files()[n]
                == a.windows()[i].files()[n],
{
    let nm = a.modal_name();
    let f = choose|f: int| blocked_at(a, b, nm, f);
    assert(blocked_at(a, b, nm, f));
    assert forall|i: int, n: Seq<u8>|
        0 <= i < 4 && n != nm && a.windows()[i].files().dom().contains(n) implies b.windows()[
        i
    ].files().dom().contains(n) && b.windows()[i].files()[n] == a.windows()[i].files()[n] by {
        if i < f {
            assert(b.windows()[i].files() == a.windows()[i].files().insert(nm, Seq::<u8>::empty()));
        } else {
            assert(b.windows()[i].files() == a.windows()[i].files());
        }
    }
}

impl SwimDocManager {
    /// Which window is picked, read back.
    pub fn active_index_val(&self) -> (r: usize)
        requires
            self.wf(),
        ensures
            r as int == self.active_index(),
            r < 4,
    {
        self.active_window
    }

    /// Whether the modal is open, read back.
    pub fn modal_open_val(&self) -> (r: bool)
        ensures
            r == self.modal_open(),
    {
        self.creating_file
    }

    /// The name composed in the modal, read back.
    pub fn modal_name_bytes(&self) -> (v: Vec<u8>)
        ensures
            v@ == self.modal_name(),
    {
        crate::storage::bytes_clone(&self.new_filename)
    }

    /// One window's mode, read back.
    pub fn window_status(&self, i: usize) -> (r: WindowStatus)
        requires
            self.wf(),
            i < 4,
        ensures
            r == self.windows()[i as int].status(),
    {
        self.documents[i].status_val()
    }

    /// One window's cursor column, read back.
    pub fn window_cursor(&self, i: usize) -> (r: usize)
        requires
            self.wf(),
            i < 4,
        ensures
            r as int == self.windows()[i as int].cursor(),
    {
        self.documents[i].cursor_val()
    }

    /// One window's letter count, read back.
    pub fn window_letters(&self, i: usize) -> (r: usize)
        requires
            self.wf(),
            i < 4,
        ensures
            r as int == self.windows()[i as int].letters_count(),
    {
        self.documents[i].letters_count_val()
    }

    /// One window's cursor row, read back.
    pub fn window_row(&self, i: usize) -> (r: usize)
        requires
            self.wf(),
            i < 4,
        ensures
            r as int == self.windows()[i as int].row(),
    {
        self.documents[i].row_val()
    }

    /// The text of one grid row of one window.
    pub fn window_line(&self, i: usize, r: usize) -> (v: Vec<u8>)
        requires
            self.wf(),
            i < 4,
            r < WINDOW_HEIGHT,
        ensures
            v@ == crate::doc::row_text(self.windows()[i as int].grid()[r as int]),
    {
        self.documents[i].line_text(r)
    }

    /// One window's granted ticks, read back.
    pub fn tick_count(&self, i: usize) -> (r: usize)
        requires
            self.wf(),
            i < 4,
        ensures
            r == self.counts()[i as int],
    {
        self.tick_counts[i]
    }

    /// Reads a whole file from one window's own directory.
    pub fn read_window_file(&mut self, i: usize, name: &Vec<u8>) -> (r: Option<Vec<u8>>)
        requires
            old(self).wf(),
            i < 4,
        ensures
            final(self).wf(),
            final(self).windows()[i as int].files() == old(self).windows()[i as int].files(),
            r is Some <==> old(self).windows()[i as int].files().dom().contains(name@),
            r matches Some(bytes) ==> bytes@ == old(self).windows()[i as int].files()[name@],
            forall|j: int| 0 <= j < 4 && j != i ==> #[trigger] final(self).windows()[j] == old(self).windows()[j],
            forall|j: int| 0 <= j < 4 ==> final(self).interp_at(j) == old(self).interp_at(j),
            final(self).modal_open() == old(self).modal_open(),
            final(self).active_index() == old(self).active_index(),
    {
        match self.documents[i].read_named(name) {
            Ok(b) => Some(b),
            Err(_) => None,
        }
    }

    /// One cell of the drawn display.
    pub fn screen_cell(&self, col: usize, row: usize) -> (c: crate::screen::ScreenCell)
        requires
            self.wf(),
            col < crate::SCREEN_WIDTH,
            row < crate::SCREEN_HEIGHT,
        ensures
            c == self.display().cell(row as int, col as int),
    {
        self.screen.cell_at(col, row)
    }
}


/// The rotation cursor may be stored reduced: wrapping it changes no pick.
pub proof fn lemma_rotation_wraps(rs: Seq<int>, rot: int)
    requires
        rs.len() > 0,
        rot >= 0,
    ensures
        scheduled_pick(rs, rot % (rs.len() as int)) == scheduled_pick(rs, rot),
{
    let n = rs.len() as int;
    assert((rot % n) % n == rot % n) by (nonlinear_arith)
        requires
            n > 0,
            rot >= 0,
    ;
}

/// Some cycle of the round starting at `start` grants position `p` of the
/// runnable list its tick.
pub open spec fn picked_in_round(rs: Seq<int>, start: int, p: int) -> bool {
    exists|t: int| 0 <= t < rs.len() && #[trigger] scheduled_pick(rs, start + t) == rs[p]
}

/// Given N runnable windows, N consecutive cycles grant each exactly one
/// tick, in rotation order: over one full round no window is picked twice,
/// and every runnable window is picked at some cycle of the round.
pub proof fn lemma_round_robin_each_once(rs: Seq<int>, start: int)
    requires
        rs.len() > 0,
        start >= 0,
        forall|t1: int, t2: int| 0 <= t1 < t2 < rs.len() ==> rs[t1] != rs[t2],
    ensures
        forall|t1: int, t2: int|
            0 <= t1 < rs.len() && 0 <= t2 < rs.len() && t1 != t2 ==> #[trigger] scheduled_pick(
                rs,
                start + t1,
            ) != #[trigger] scheduled_pick(rs, start + t2),
        forall|p: int| 0 <= p < rs.len() ==> #[trigger] picked_in_round(rs, start, p),
{
    let n = rs.len() as int;
    assert forall|t1: int, t2: int|
        0 <= t1 < n && 0 <= t2 < n && t1 != t2 implies #[trigger] scheduled_pick(rs, start + t1)
        != #[trigger] scheduled_pick(rs, start + t2) by {
        lemma_round_robin_fairness(n, start, t1, t2);
        vstd::arithmetic::div_mod::lemma_mod_bound(start + t1, n);
        vstd::arithmetic::div_mod::lemma_mod_bound(start + t2, n);
        let p1 = (start + t1) % n;
        let p2 = (start + t2) % n;
        if p1 < p2 {
            assert(rs[p1] != rs[p2]);
        }
        if p2 < p1 {
            assert(rs[p2] != rs[p1]);
        }
    }
    assert forall|p: int| 0 <= p < n implies #[trigger] picked_in_round(rs, start, p) by {
        lemma_round_robin_fairness(n, start, p, p);
        let t = choose|t: int| 0 <= t < n && #[trigger] ((start + t) % n) == p;
        assert(scheduled_pick(rs, start + t) == rs[p]);
    }
}

} // verus!
