//! Terminals: a keyboard, a line discipline and a virtual terminal for each.
use vstd::prelude::*;
use crate::base::devices::{RDeviceMut, WDeviceMut};
use crate::base::errno::{Errno, KResult};
use crate::drivers::bytedev::tty::ldisc::{LineDiscipline, receive_spec, process_spec, read_len};
use crate::drivers::bytedev::tty::virtterm::{
    VirtualTerminal,
    VtView,
    echo_spec,
    redraw_ops,
    scroll_spec,
};
use crate::drivers::bytedev::tty::virtterm::screen::{ScreenAction, ScreenOp, ops_view};
use crate::drivers::bytedev::tty::keyboard::KeyboardEvent;
use crate::base::devices::DeviceId;
use vstd::string::StringSliceAdditionalSpecFns;

pub mod keyboard;
pub mod ldisc;
pub mod virtterm;

verus! {

/// The direction in which to scroll a terminal's view.
#[derive(Clone, Copy, Debug, PartialEq, Eq, Structural)]
pub enum ScrollDirection {
    UP,
    DOWN,
}

/// A terminal driver: it shows characters and keeps the screen up to date.
pub trait TTYDriver {
    /// The driver's state is consistent.
    spec fn wf(&self) -> bool;

    /// Show a character.
    fn provide_char(&mut self, chr: u8)
        requires
            old(self).wf(),
        ensures
            final(self).wf(),
    ;

    /// Show the bytes of `s` one after the other.
    fn echo(&mut self, s: &[u8])
        requires
            old(self).wf(),
        ensures
            final(self).wf(),
    ;

    /// Scroll the view.
    fn scroll(&mut self, dir: ScrollDirection)
        requires
            old(self).wf(),
        ensures
            final(self).wf(),
    ;

    /// Redraw the whole screen.
    fn redraw(&mut self)
        requires
            old(self).wf(),
        ensures
            final(self).wf(),
    ;

    /// Become the terminal on screen.
    fn set_active(&mut self)
        requires
            old(self).wf(),
        ensures
            final(self).wf(),
    ;

    /// Stop being the terminal on screen.
    fn set_inactive(&mut self)
        requires
            old(self).wf(),
        ensures
            final(self).wf(),
    ;
}

/// First initialisation stage of the terminals: keyboard, virtual terminals
/// and line disciplines.
pub fn init_stage1() {
    keyboard::init_stage1();
    virtterm::init_stage1();
    ldisc::init_stage1();
}

/// The terminal writes what a written character looks like, one byte after
/// the other.
pub open spec fn write_spec(v: VtView, bytes: Seq<u8>) -> (VtView, Seq<ScreenAction>)
    decreases bytes.len(),
{
    if bytes.len() == 0 {
        (v, Seq::empty())
    } else {
        let (v1, o1) = write_spec(v, bytes.subrange(0, bytes.len() - 1));
        let (v2, o2) = echo_spec(v1, process_spec(bytes[bytes.len() - 1]));
        (v2, o1 + o2)
    }
}

/// A terminal: a driver that shows characters and a line discipline that
/// collects typed lines.
pub struct TTY {
    pub driver: VirtualTerminal,
    pub discipline: LineDiscipline,
}

impl TTY {
    /// A terminal made of a driver and a line discipline.
    pub fn create(driver: VirtualTerminal, disc: LineDiscipline) -> (r: TTY)
        ensures
            r.driver == driver,
            r.discipline == disc,
    {
        TTY { driver, discipline: disc }
    }

    /// Take a character received from the keyboard and echo it.
    pub fn handle_char(&mut self, chr: u8)
        requires
            old(self).driver.wf(),
        ensures
            final(self).driver.wf(),
            ({
                let (c1, r1, e) = receive_spec(
                    old(self).discipline.cooked(),
                    old(self).discipline.raw(),
                    chr,
                );
                &&& final(self).discipline.cooked() == c1
                &&& final(self).discipline.raw() == r1
                &&& final(self).driver.state() == echo_spec(old(self).driver.state(), e).0
                &&& final(self).driver.pending() == old(self).driver.pending() + echo_spec(
                    old(self).driver.state(),
                    e,
                ).1
            }),
    {
        let e = self.discipline.recieve_char(chr);
        self.driver.echo(e.as_slice());
    }

    /// Scroll the terminal's view.
    pub fn scroll(&mut self, dir: ScrollDirection)
        requires
            old(self).driver.wf(),
        ensures
            final(self).driver.wf(),
            final(self).discipline == old(self).discipline,
            final(self).driver.state() == scroll_spec(old(self).driver.state(), dir).0,
            final(self).driver.pending() == old(self).driver.pending() + scroll_spec(
                old(self).driver.state(),
                dir,
            ).1,
    {
        self.driver.scroll(dir)
    }

    /// Make this the terminal on screen.
    pub fn set_active(&mut self)
        requires
            old(self).driver.wf(),
        ensures
            final(self).driver.wf(),
            final(self).discipline == old(self).discipline,
            final(self).driver.state() == (VtView { active: true, ..old(self).driver.state() }),
            final(self).driver.pending() == old(self).driver.pending() + redraw_ops(
                old(self).driver.state(),
            ),
    {
        self.driver.set_active();
    }

    /// Stop showing this terminal.
    pub fn set_inactive(&mut self)
        requires
            old(self).driver.wf(),
        ensures
            final(self).driver.wf(),
            final(self).discipline == old(self).discipline,
            final(self).driver.state() == (VtView { active: false, ..old(self).driver.state() }),
            final(self).driver.pending() == old(self).driver.pending(),
    {
        self.driver.set_inactive();
    }
}

impl RDeviceMut<u8> for TTY {
    open spec fn readable(&self) -> bool {
        self.driver.wf()
    }

    /// Read typed lines: up to and including the first end of line.
    fn read_from(&mut self, offset: usize, buf: &mut [u8]) -> (r: KResult<usize>)
        ensures
            r == Ok::<usize, Errno>(read_len(old(self).discipline.cooked(), old(buf)@.len()) as usize),
            final(buf)@.len() == old(buf)@.len(),
            final(buf)@.subrange(0, read_len(old(self).discipline.cooked(), old(buf)@.len()) as int)
                == old(self).discipline.cooked().subrange(
                0,
                read_len(old(self).discipline.cooked(), old(buf)@.len()) as int,
            ),
            final(self).discipline.cooked() == old(self).discipline.cooked().subrange(
                read_len(old(self).discipline.cooked(), old(buf)@.len()) as int,
                old(self).discipline.cooked().len() as int,
            ),
            final(self).discipline.raw() == old(self).discipline.raw(),
            final(self).driver == old(self).driver,
    {
        self.discipline.read_from(offset, buf)
    }
}

impl WDeviceMut<u8> for TTY {
    open spec fn writable(&self) -> bool {
        self.driver.wf()
    }

    /// Show the written bytes on the terminal. All of them are written.
    fn write_to(&mut self, offset: usize, buf: &[u8]) -> (r: KResult<usize>)
        ensures
            r == Ok::<usize, Errno>(buf@.len() as usize),
            final(self).discipline == old(self).discipline,
            final(self).driver.state() == write_spec(old(self).driver.state(), buf@).0,
            final(self).driver.pending() == old(self).driver.pending() + write_spec(
                old(self).driver.state(),
                buf@,
            ).1,
    {
        let ghost s0 = self.driver.state();
        let ghost p0 = self.driver.pending();
        let mut i: usize = 0;
        while i < buf.len()
            invariant
                self.driver.wf(),
                i <= buf@.len(),
                self.discipline == old(self).discipline,
                self.driver.state() == write_spec(s0, buf@.subrange(0, i as int)).0,
                self.driver.pending() == p0 + write_spec(s0, buf@.subrange(0, i as int)).1,
            decreases buf@.len() - i,
        {
            let shown = self.discipline.process_char(buf[i]);
            self.driver.echo(shown.as_slice());
            proof {
                let t = buf@.subrange(0, i + 1);
                assert(t.subrange(0, i as int) =~= buf@.subrange(0, i as int));
                let (v1, o1) = write_spec(s0, buf@.subrange(0, i as int));
                let (v2, o2) = echo_spec(v1, process_spec(buf@[i as int]));
                assert(write_spec(s0, t) == (v2, o1 + o2));
                assert(self.driver.pending() =~= p0 + (o1 + o2));
            }
            i = i + 1;
        }
        assert(buf@.subrange(0, buf@.len() as int) =~= buf@);
        Ok(buf.len())
    }
}

/// A line discipline: it turns typed characters into lines for readers.
pub trait TTYLineDiscipline: RDeviceMut<u8> {
    /// Store the received character and return the bytes to echo.
    fn recieve_char(&mut self, chr: u8) -> Vec<u8>;

    /// The bytes that show a character written to the terminal.
    fn process_char(&self, chr: u8) -> Vec<u8>;
}

/// The major number of the terminal devices.
pub const TTY_MAJOR: u8 = 2;

/// The number of terminals.
pub const NUM_TTYS: u8 = 3;

/// The id of terminal `i`: the terminal major number and minor `i`.
pub fn tty_devid(i: u8) -> (r: DeviceId)
    ensures
        r.major() == TTY_MAJOR,
        r.minor() == i,
{
    DeviceId::create(TTY_MAJOR, i)
}

/// The terminals of the machine and the one that is on screen.
pub struct Terminals {
    ttys: Vec<TTY>,
    cur: u8,
}

/// Terminals `f` are `o` after putting terminal `n` on screen: numbers past
/// the last terminal, and the terminal already on screen, change nothing;
/// otherwise `n` is current, the old current terminal is deactivated, `n` is
/// activated and every other terminal is as it was.
pub open spec fn switched(o: Terminals, n: u8, f: Terminals) -> bool {
    if n >= NUM_TTYS || n == o.current() {
        f.ttys() == o.ttys() && f.current() == o.current()
    } else {
        &&& f.current() == n
        &&& deactivated(o.ttys()[o.current() as int], f.ttys()[o.current() as int])
        &&& activated(o.ttys()[n as int], f.ttys()[n as int])
        &&& forall|j: int| 0 <= j < NUM_TTYS && j != n && j != o.current() ==> f.ttys()[j] == o.ttys()[j]
    }
}

impl Terminals {
    /// The terminals, by number.
    pub closed spec fn ttys(&self) -> Seq<TTY> {
        self.ttys@
    }

    /// The number of the terminal on screen.
    pub closed spec fn current(&self) -> u8 {
        self.cur
    }

    /// There are `NUM_TTYS` terminals, each with a consistent driver, and the
    /// current one is one of them.
    pub open spec fn wf(&self) -> bool {
        &&& self.ttys().len() == NUM_TTYS as nat
        &&& self.current() < NUM_TTYS
        &&& forall|i: int| 0 <= i < NUM_TTYS ==> (#[trigger] self.ttys()[i]).driver.wf()
    }

    /// The number of the terminal on screen.
    pub fn current_id(&self) -> (r: u8)
        ensures
            r == self.current(),
    {
        self.cur
    }

    /// Take terminal `i` out of the list, to be changed and put back.
    fn take(&mut self, i: u8) -> (r: TTY)
        requires
            old(self).wf(),
            i < NUM_TTYS,
        ensures
            r == old(self).ttys()[i as int],
            final(self).ttys() == old(self).ttys().remove(i as int),
            final(self).current() == old(self).current(),
    {
        self.ttys.remove(i as usize)
    }

    /// Put a terminal taken out with `take` back at place `i`.
    fn put_back(&mut self, i: u8, t: TTY)
        requires
            old(self).ttys().len() == NUM_TTYS - 1,
            i < NUM_TTYS,
        ensures
            final(self).ttys() == old(self).ttys().insert(i as int, t),
            final(self).current() == old(self).current(),
    {
        self.ttys.insert(i as usize, t);
    }

    /// Make the current terminal the one on screen.
    pub fn activate_current(&mut self)
        requires
            old(self).wf(),
        ensures
            final(self).wf(),
            final(self).current() == old(self).current(),
            final(self).ttys() == old(self).ttys().update(
                old(self).current() as int,
                final(self).ttys()[old(self).current() as int],
            ),
            activated(
                old(self).ttys()[old(self).current() as int],
                final(self).ttys()[old(self).current() as int],
            ),
    {
        let c = self.cur;
        let mut t = self.take(c);
        t.set_active();
        self.put_back(c, t);
        proof { lemma_put_back_taken(old(self).ttys(), c as int, self.ttys()[c as int]); }
    }

    /// Put terminal `n` on screen. Numbers past the last terminal, and the
    /// terminal already on screen, change nothing.
    pub fn switch_tty(&mut self, n: u8)
        requires
            old(self).wf(),
        ensures
            final(self).wf(),
            switched(*old(self), n, *final(self)),
    {
        if n >= NUM_TTYS {
            return;
        }
        let old_id = self.cur;
        if old_id != n {
            self.cur = n;
            let mut t = self.take(old_id);
            t.set_inactive();
            self.put_back(old_id, t);
            proof { lemma_put_back_taken(old(self).ttys(), old_id as int, self.ttys()[old_id as int]); }
            let ghost mid = self.ttys();
            let mut u = self.take(n);
            u.set_active();
            self.put_back(n, u);
            proof { lemma_put_back_taken(mid, n as int, self.ttys()[n as int]); }
        }
    }

    /// Act on a keyboard event: a character goes to the terminal on screen, a
    /// switch changes the terminal on screen, a scroll scrolls its view.
    pub fn handle_keyboard_input(&mut self, event: KeyboardEvent)
        requires
            old(self).wf(),
        ensures
            final(self).wf(),
            match event {
                KeyboardEvent::Switch(n) => switched(*old(self), n, *final(self)),
                _ => {
                    let c = old(self).current() as int;
                    &&& final(self).current() == old(self).current()
                    &&& final(self).ttys() == old(self).ttys().update(c, final(self).ttys()[c])
                    &&& match event {
                        KeyboardEvent::Normal(chr) => received(
                            old(self).ttys()[c],
                            chr,
                            final(self).ttys()[c],
                        ),
                        KeyboardEvent::ScrollUp => scrolled(
                            old(self).ttys()[c],
                            ScrollDirection::UP,
                            final(self).ttys()[c],
                        ),
                        KeyboardEvent::ScrollDown => scrolled(
                            old(self).ttys()[c],
                            ScrollDirection::DOWN,
                            final(self).ttys()[c],
                        ),
                        KeyboardEvent::Switch(_) => true,
                    }
                },
            },
    {
        match event {
            KeyboardEvent::Switch(n) => self.switch_tty(n),
            _ => {
                let c = self.cur;
                let mut t = self.take(c);
                match event {
                    KeyboardEvent::Normal(chr) => t.handle_char(chr),
                    KeyboardEvent::ScrollUp => t.scroll(ScrollDirection::UP),
                    KeyboardEvent::ScrollDown => t.scroll(ScrollDirection::DOWN),
                    KeyboardEvent::Switch(_) => {},
                }
                self.put_back(c, t);
                proof { lemma_put_back_taken(old(self).ttys(), c as int, self.ttys()[c as int]); }
            },
        }
    }

    /// Hand over the drawing operations the terminal on screen has pending,
    /// in order, and forget them.
    pub fn take_pending(&mut self) -> (r: Vec<ScreenOp>)
        requires
            old(self).wf(),
        ensures
            final(self).wf(),
            final(self).current() == old(self).current(),
            ops_view(r@) == old(self).ttys()[old(self).current() as int].driver.pending(),
            final(self).ttys()[old(self).current() as int].driver.pending() == Seq::<ScreenAction>::empty(),
            final(self).ttys()[old(self).current() as int].driver.state() == old(self).ttys()[old(self).current() as int].driver.state(),
            final(self).ttys()[old(self).current() as int].discipline == old(self).ttys()[old(self).current() as int].discipline,
            forall|j: int|
                0 <= j < NUM_TTYS && j != old(self).current() ==> final(self).ttys()[j] == old(self).ttys()[j],
    {
        let c = self.cur;
        let mut t = self.take(c);
        let ops = t.driver.take_pending();
        self.put_back(c, t);
        proof { lemma_put_back_taken(old(self).ttys(), c as int, self.ttys()[c as int]); }
        ops
    }

    /// Whether terminal `i` has a typed line to read.
    pub fn tty_has_cooked(&self, i: u8) -> (r: bool)
        requires
            self.wf(),
            i < NUM_TTYS,
        ensures
            r == (self.ttys()[i as int].discipline.cooked().len() > 0),
    {
        self.ttys[i as usize].discipline.has_cooked()
    }

    /// Read the typed lines of terminal `i` into `buf` (see the terminal's
    /// `read_from`).
    pub fn read_tty(&mut self, i: u8, buf: &mut [u8]) -> (r: KResult<usize>)
        requires
            old(self).wf(),
            i < NUM_TTYS,
        ensures
            final(self).wf(),
            final(self).current() == old(self).current(),
            r == Ok::<usize, Errno>(
                read_len(old(self).ttys()[i as int].discipline.cooked(), old(buf)@.len()) as usize,
            ),
            final(buf)@.len() == old(buf)@.len(),
            final(buf)@.subrange(
                0,
                read_len(old(self).ttys()[i as int].discipline.cooked(), old(buf)@.len()) as int,
            ) == old(self).ttys()[i as int].discipline.cooked().subrange(
                0,
                read_len(old(self).ttys()[i as int].discipline.cooked(), old(buf)@.len()) as int,
            ),
            forall|j: int| 0 <= j < NUM_TTYS && j != i ==> final(self).ttys()[j] == old(self).ttys()[j],
    {
        let mut t = self.take(i);
        let r = t.read_from(0, buf);
        self.put_back(i, t);
        proof { lemma_put_back_taken(old(self).ttys(), i as int, self.ttys()[i as int]); }
        r
    }

    /// Write `buf` to terminal `i`; all of it is written.
    pub fn write_tty(&mut self, i: u8, buf: &[u8]) -> (r: KResult<usize>)
        requires
            old(self).wf(),
            i < NUM_TTYS,
        ensures
            final(self).wf(),
            final(self).current() == old(self).current(),
            r == Ok::<usize, Errno>(buf@.len() as usize),
            written(old(self).ttys()[i as int], buf@, final(self).ttys()[i as int]),
            forall|j: int| 0 <= j < NUM_TTYS && j != i ==> final(self).ttys()[j] == old(self).ttys()[j],
    {
        let mut t = self.take(i);
        let r = t.write_to(0, buf);
        self.put_back(i, t);
        proof { lemma_put_back_taken(old(self).ttys(), i as int, self.ttys()[i as int]); }
        r
    }

    /// Write `buf` to the terminal on screen.
    pub fn write_current(&mut self, buf: &[u8])
        requires
            old(self).wf(),
        ensures
            final(self).wf(),
            final(self).current() == old(self).current(),
            final(self).ttys() == old(self).ttys().update(
                old(self).current() as int,
                final(self).ttys()[old(self).current() as int],
            ),
            written(
                old(self).ttys()[old(self).current() as int],
                buf@,
                final(self).ttys()[old(self).current() as int],
            ),
    {
        let c = self.cur;
        let mut t = self.take(c);
        let _ = t.write_to(0, buf);
        self.put_back(c, t);
        proof { lemma_put_back_taken(old(self).ttys(), c as int, self.ttys()[c as int]); }
    }
}

/// `after` is `before` made the terminal on screen.
pub open spec fn activated(before: TTY, after: TTY) -> bool {
    &&& after.driver.wf()
    &&& after.discipline == before.discipline
    &&& after.driver.state() == (VtView { active: true, ..before.driver.state() })
    &&& after.driver.pending() == before.driver.pending() + redraw_ops(before.driver.state())
}

/// `after` is `before` taken off screen.
pub open spec fn deactivated(before: TTY, after: TTY) -> bool {
    &&& after.driver.wf()
    &&& after.discipline == before.discipline
    &&& after.driver.state() == (VtView { active: false, ..before.driver.state() })
    &&& after.driver.pending() == before.driver.pending()
}

/// `after` is `before` once it received `chr` from the keyboard and echoed it.
pub open spec fn received(before: TTY, chr: u8, after: TTY) -> bool {
    let (c1, r1, e) = receive_spec(before.discipline.cooked(), before.discipline.raw(), chr);
    &&& after.driver.wf()
    &&& after.discipline.cooked() == c1
    &&& after.discipline.raw() == r1
    &&& after.driver.state() == echo_spec(before.driver.state(), e).0
    &&& after.driver.pending() == before.driver.pending() + echo_spec(before.driver.state(), e).1
}

/// `after` is `before` with its view scrolled in direction `dir`.
pub open spec fn scrolled(before: TTY, dir: ScrollDirection, after: TTY) -> bool {
    &&& after.driver.wf()
    &&& after.discipline == before.discipline
    &&& after.driver.state() == scroll_spec(before.driver.state(), dir).0
    &&& after.driver.pending() == before.driver.pending() + scroll_spec(before.driver.state(), dir).1
}

/// `after` is `before` once `bytes` were written to it.
pub open spec fn written(before: TTY, bytes: Seq<u8>, after: TTY) -> bool {
    &&& after.driver.wf()
    &&& after.discipline == before.discipline
    &&& after.driver.state() == write_spec(before.driver.state(), bytes).0
    &&& after.driver.pending() == before.driver.pending() + write_spec(before.driver.state(), bytes).1
}

/// Taking element `i` out and inserting `t` in its place updates element `i`.
proof fn lemma_put_back_taken(s: Seq<TTY>, i: int, t: TTY)
    requires
        0 <= i < s.len(),
    ensures
        s.remove(i).insert(i, t) == s.update(i, t),
{
    assert(s.remove(i).insert(i, t) =~= s.update(i, t));
}

/// The terminals, none of them on screen yet; terminal 0 is the current one.
pub fn create_ttys() -> (r: Terminals)
    ensures
        r.wf(),
        r.current() == 0,
        forall|i: int|
            0 <= i < NUM_TTYS ==> {
                &&& (#[trigger] r.ttys()[i]).discipline.cooked() == Seq::<u8>::empty()
                &&& r.ttys()[i].discipline.raw() == Seq::<u8>::empty()
                &&& !r.ttys()[i].driver.state().active
                &&& r.ttys()[i].driver.state().cur_line == 0
                &&& r.ttys()[i].driver.state().cur_char == 0
                &&& r.ttys()[i].driver.pending() == Seq::<ScreenAction>::empty()
            },
{
    let mut ttys: Vec<TTY> = Vec::new();
    let mut i: u8 = 0;
    while i < NUM_TTYS
        invariant
            i <= NUM_TTYS,
            ttys@.len() == i,
            forall|j: int|
                0 <= j < i ==> {
                    &&& (#[trigger] ttys@[j]).driver.wf()
                    &&& ttys@[j].discipline.cooked() == Seq::<u8>::empty()
                    &&& ttys@[j].discipline.raw() == Seq::<u8>::empty()
                    &&& !ttys@[j].driver.state().active
                    &&& ttys@[j].driver.state().cur_line == 0
                    &&& ttys@[j].driver.state().cur_char == 0
                    &&& ttys@[j].driver.pending() == Seq::<ScreenAction>::empty()
                },
        decreases NUM_TTYS - i,
    {
        ttys.push(TTY::create(VirtualTerminal::create(), LineDiscipline::create()));
        i = i + 1;
    }
    Terminals { ttys, cur: 0 }
}

/// The line the terminal on screen shows once the kernel has started.
pub fn init_stage3(terms: &mut Terminals)
    requires
        old(terms).wf(),
    ensures
        final(terms).wf(),
        final(terms).current() == old(terms).current(),
        final(terms).ttys() == old(terms).ttys().update(
            old(terms).current() as int,
            final(terms).ttys()[old(terms).current() as int],
        ),
        written(
            old(terms).ttys()[old(terms).current() as int],
            "REENIX STARTED TTY!\n".spec_bytes(),
            final(terms).ttys()[old(terms).current() as int],
        ),
{
    terms.write_current("REENIX STARTED TTY!\n".as_bytes());
}

/// The lines the terminal on screen shows when the kernel shuts down.
pub fn shutdown(terms: &mut Terminals)
    requires
        old(terms).wf(),
    ensures
        final(terms).wf(),
        final(terms).current() == old(terms).current(),
        final(terms).ttys() == old(terms).ttys().update(
            old(terms).current() as int,
            final(terms).ttys()[old(terms).current() as int],
        ),
        written(
            old(terms).ttys()[old(terms).current() as int],
            "\nREENIX IS SHUTTING DOWN.\nYou may now shut off your computer\n".spec_bytes(),
            final(terms).ttys()[old(terms).current() as int],
        ),
{
    terms.write_current("\nREENIX IS SHUTTING DOWN.\nYou may now shut off your computer\n".as_bytes());
}

} // verus!
