//! The scheduled refresh engine.
//!
//! The engine owns the canvas that is on screen (the front canvas), the
//! matrix driver and the refresh timer. Each time the timer fires, the
//! engine shows one row pair at one bit-plane and arms the timer again:
//!
//! 1. it acknowledges the timer: it disables its interrupt, so that the
//!    handler is not entered again, and clears its compare event;
//! 2. it shows the row pair and the bit-plane its cursor stands on;
//! 3. it arms the timer for the base period times the weight of the
//!    bit-plane, and enables the interrupt again;
//! 4. it moves the cursor on: through the bit-planes of a row pair first,
//!    then to the next row pair.
//!
//! A bit-plane of weight `2^k` stays on screen `2^k` base periods, so the
//! light a pixel gives off over a whole frame is in proportion to the top
//! bits of its channels. This is binary code modulation.
//!
//! The engine does not touch the hardware. What is to be done with the pins
//! and the timer comes back from each operation as a list of commands, to be
//! carried out in order.

use crate::canvas::{filled, Canvas, Color};
use crate::ledmatrix::{
    column_signals, lemma_shift_signals, line_signals, shift_signals, ColorBitPosition,
    LedMatrix, PinLevels, PinWrite,
};
use crate::timer::{Timer16Mhz, TimerCommand};
use vstd::arithmetic::power2::pow2;
use vstd::prelude::*;

verus! {

/// The number of bit-planes shown per row pair, from the most significant
/// one down. At least 1, at most 8.
pub const BCM_CYCLES_NB: u8 = 2;

/// How long the bit-plane of weight one stays on screen.
pub const BCM_BASE_PERIOD_MICROSEC: u32 = 1;

/// The place where the one engine of a program is kept.
pub type SharedScheduledMatrix64x32 = Option<ScheduledLedMatrix<4, 64, 32>>;

/// Something to be done with the hardware.
#[derive(Clone, Copy, Debug, PartialEq, Eq, Structural)]
pub enum Command {
    /// Write to a line of the panel.
    Pin(PinWrite),
    /// Pass a command to the refresh timer.
    Timer(TimerCommand),
    /// Let the refresh timer's interrupt through at the interrupt controller.
    UnmaskTimerInterrupt,
}

/// How far the refresh has come: the row pair that is shown next, and which
/// of its bit-planes, counted from the least significant of those shown.
#[derive(Clone, Copy, Debug, PartialEq, Eq, Structural)]
pub struct RefreshCursor {
    pub line: usize,
    pub cycle: u8,
}

impl RefreshCursor {
    /// Whether the cursor stands on a row pair and a bit-plane of a panel of
    /// `half_height` row pairs that shows `cycles` bit-planes.
    pub open spec fn valid(self, cycles: u8, half_height: usize) -> bool {
        self.line < half_height && self.cycle < cycles
    }

    /// Where the cursor stands after one interrupt: on the next bit-plane of
    /// the same row pair, or, after the last bit-plane, on the first
    /// bit-plane of the next row pair. After the last row pair comes the
    /// first.
    pub open spec fn next(self, cycles: u8, half_height: usize) -> RefreshCursor {
        if self.cycle >= cycles - 1 {
            RefreshCursor { line: ((self.line + 1) % (half_height as int)) as usize, cycle: 0 }
        } else {
            RefreshCursor { line: self.line, cycle: (self.cycle + 1) as u8 }
        }
    }

    /// Where the cursor stands after `steps` interrupts.
    pub open spec fn after(self, steps: nat, cycles: u8, half_height: usize) -> RefreshCursor
        decreases steps,
    {
        if steps == 0 {
            self
        } else {
            self.after((steps - 1) as nat, cycles, half_height).next(cycles, half_height)
        }
    }

    /// The bit of each colour channel that is shown at this cursor: the
    /// bit-planes shown are the `cycles` most significant ones.
    pub open spec fn bit_position(self, cycles: u8) -> int {
        self.cycle + 7 - (cycles - 1)
    }

    /// How long what is shown at this cursor stays on screen, in
    /// microseconds.
    pub open spec fn dwell(self, base: u32) -> nat {
        base as nat * pow2(self.cycle as nat)
    }
}

/// The commands that acknowledge the timer: disable its interrupt, then
/// clear its compare event.
pub open spec fn ack_commands() -> Seq<Command> {
    seq![
        Command::Timer(TimerCommand::DisableInterrupt),
        Command::Timer(TimerCommand::ClearEvent),
    ]
}

/// The pin writes `signals` as commands.
pub open spec fn pin_commands(signals: Seq<PinWrite>) -> Seq<Command> {
    Seq::new(signals.len(), |i: int| Command::Pin(signals[i]))
}

/// What the engine knows: the front canvas, the levels of the panel's
/// lines, what the timer was last told, and the cursor.
pub struct EngineState {
    pub front: Seq<Seq<Color>>,
    pub levels: PinLevels,
    pub armed: Option<u32>,
    pub interrupt_enabled: bool,
    pub cursor: RefreshCursor,
}

impl EngineState {
    /// The commands of one interrupt on a panel of `width` columns and
    /// `half_height` row pairs with `address_lines` address lines:
    /// acknowledge, show one row pair, arm the timer.
    pub open spec fn interrupt_commands(
        self,
        width: nat,
        half_height: usize,
        address_lines: nat,
        cycles: u8,
        base: u32,
    ) -> Seq<Command> {
        ack_commands() + pin_commands(
            self.interrupt_signals(width, half_height, address_lines, cycles),
        ) + seq![
            Command::Timer(TimerCommand::Start(self.cursor.dwell(base) as u32)),
            Command::Timer(TimerCommand::EnableInterrupt),
        ]
    }

    /// The pin writes of one interrupt.
    pub open spec fn interrupt_signals(
        self,
        width: nat,
        half_height: usize,
        address_lines: nat,
        cycles: u8,
    ) -> Seq<PinWrite> {
        line_signals(
            self.front,
            self.cursor.line,
            self.cursor.bit_position(cycles) as u8,
            width,
            half_height as int,
            address_lines,
        )
    }

    /// What the engine knows after one interrupt.
    pub open spec fn after_interrupt(
        self,
        width: nat,
        half_height: usize,
        address_lines: nat,
        cycles: u8,
        base: u32,
    ) -> EngineState {
        EngineState {
            front: self.front,
            levels: self.levels.after(
                self.interrupt_signals(width, half_height, address_lines, cycles),
            ),
            armed: Some(self.cursor.dwell(base) as u32),
            interrupt_enabled: true,
            cursor: self.cursor.next(cycles, half_height),
        }
    }

    /// What the engine knows after `count` interrupts with nothing else in
    /// between.
    pub open spec fn after_interrupts(
        self,
        count: nat,
        width: nat,
        half_height: usize,
        address_lines: nat,
        cycles: u8,
        base: u32,
    ) -> EngineState
        decreases count,
    {
        if count == 0 {
            self
        } else {
            self.after_interrupts(
                (count - 1) as nat,
                width,
                half_height,
                address_lines,
                cycles,
                base,
            ).after_interrupt(width, half_height, address_lines, cycles, base)
        }
    }
}

/// Interrupts move the engine's cursor as `RefreshCursor::after` says and
/// leave the front canvas alone. Each of them shows what the cursor stood on
/// and arms the timer for as long as that is to stay on screen.
pub proof fn lemma_after_interrupts(
    state: EngineState,
    count: nat,
    width: nat,
    half_height: usize,
    address_lines: nat,
    cycles: u8,
    base: u32,
)
    ensures
        ({
            let reached = state.after_interrupts(
                count,
                width,
                half_height,
                address_lines,
                cycles,
                base,
            );
            &&& reached.cursor == state.cursor.after(count, cycles, half_height)
            &&& reached.front == state.front
            &&& count > 0 ==> reached.interrupt_enabled && reached.armed == Some(
                state.cursor.after((count - 1) as nat, cycles, half_height).dwell(base) as u32,
            )
        }),
    decreases count,
{
    if count > 0 {
        lemma_after_interrupts(
            state,
            (count - 1) as nat,
            width,
            half_height,
            address_lines,
            cycles,
            base,
        );
    }
}

/// The refresh engine of a panel of `HEIGHT` rows of `WIDTH` pixels with
/// `LINECTRL_PIN_COUNT` address lines.
pub struct ScheduledLedMatrix<
    const LINECTRL_PIN_COUNT: usize,
    const WIDTH: usize,
    const HEIGHT: usize,
> {
    front_canvas: Canvas<WIDTH, HEIGHT>,
    led_matrix: LedMatrix<LINECTRL_PIN_COUNT, WIDTH, HEIGHT>,
    timer: Timer16Mhz,
    cursor: RefreshCursor,
}

impl<const LINECTRL_PIN_COUNT: usize, const WIDTH: usize, const HEIGHT: usize> View for ScheduledLedMatrix<
    LINECTRL_PIN_COUNT,
    WIDTH,
    HEIGHT,
> {
    type V = EngineState;

    closed spec fn view(&self) -> EngineState {
        EngineState {
            front: self.front_canvas@,
            levels: self.led_matrix@,
            armed: self.timer.armed(),
            interrupt_enabled: self.timer.interrupt_enabled(),
            cursor: self.cursor,
        }
    }
}

impl ScheduledLedMatrix<4, 64, 32> {
    /// Installs the engine in `slot`, unless one is installed already: then
    /// `slot` keeps the engine it has, and `led_matrix` and `timer` are
    /// dropped. The engine starts with an all black front canvas and its
    /// cursor on the first bit-plane of the first row pair.
    ///
    /// Returns the command to carry out when the engine was installed.
    pub fn take_ref(
        slot: &mut SharedScheduledMatrix64x32,
        led_matrix: LedMatrix<4, 64, 32>,
        timer: Timer16Mhz,
    ) -> (command: Option<Command>)
        ensures
            slot_taken(
                *old(slot),
                *final(slot),
                fresh_engine(led_matrix@, timer.armed(), timer.interrupt_enabled()),
            ),
            command == if *old(slot) is None {
                Some(Command::UnmaskTimerInterrupt)
            } else {
                None
            },
    {
        if slot.is_some() {
            return None;
        }
        let scheduled_led_matrix = ScheduledLedMatrix {
            led_matrix,
            front_canvas: Canvas::new(),
            timer,
            cursor: RefreshCursor { line: 0, cycle: 0 },
        };
        *slot = Some(scheduled_led_matrix);
        Some(Command::UnmaskTimerInterrupt)
    }
}

impl<
    const LINECTRL_PIN_COUNT: usize,
    const WIDTH: usize,
    const HEIGHT: usize,
> ScheduledLedMatrix<LINECTRL_PIN_COUNT, WIDTH, HEIGHT> {
    /// Whether the engine is sound: its cursor stands on a row pair and a
    /// bit-plane of its panel, and the panel's address lines can be told
    /// apart by an index. Every engine that `take_ref` installs is sound,
    /// and every operation keeps it so.
    pub open spec fn wf(&self) -> bool {
        &&& self@.cursor.valid(BCM_CYCLES_NB, (HEIGHT / 2) as usize)
        &&& LINECTRL_PIN_COUNT < usize::BITS
    }

    /// The number of row pairs of the panel.
    pub fn half_height(&self) -> (half: usize)
        ensures
            half == HEIGHT / 2,
    {
        HEIGHT / 2
    }

    /// The row pair and the bit-plane that the next interrupt shows.
    pub fn cursor(&self) -> (cursor: RefreshCursor)
        ensures
            cursor == self@.cursor,
    {
        self.cursor
    }

    /// Whether the refresh runs: the timer is armed and its interrupt is
    /// enabled.
    pub fn is_rendering(&self) -> (rendering: bool)
        ensures
            rendering == (self@.armed is Some && self@.interrupt_enabled),
    {
        self.timer.armed_cycles().is_some() && self.timer.is_interrupt_enabled()
    }

    /// Starts the refresh from the first bit-plane of the first row pair:
    /// the first interrupt comes one base period from now.
    pub fn start_rendering_loop(&mut self) -> (commands: Vec<Command>)
        requires
            old(self).wf(),
        ensures
            final(self).wf(),
            commands@ == seq![
                Command::Timer(TimerCommand::Start(BCM_BASE_PERIOD_MICROSEC)),
                Command::Timer(TimerCommand::EnableInterrupt),
            ],
            final(self)@ == (EngineState {
                armed: Some(BCM_BASE_PERIOD_MICROSEC),
                interrupt_enabled: true,
                cursor: RefreshCursor { line: 0, cycle: 0 },
                ..old(self)@
            }),
    {
        self.cursor = RefreshCursor { line: 0, cycle: 0 };
        let mut commands: Vec<Command> = Vec::new();
        self.schedule_next_interrupt(&mut commands, BCM_BASE_PERIOD_MICROSEC);
        commands
    }

    /// Exchanges the front canvas with `canvas`: from the next interrupt on
    /// the rows come from what `canvas` held, and `canvas` holds what was on
    /// screen.
    pub fn swap_canvas(&mut self, canvas: &mut Canvas<WIDTH, HEIGHT>)
        ensures
            final(self)@ == (EngineState { front: old(canvas)@, ..old(self)@ }),
            final(canvas)@ == old(self)@.front,
    {
        core::mem::swap(&mut self.front_canvas, canvas);
    }

    /// Makes the front canvas a copy of `canvas`.
    pub fn copy_canvas(&mut self, canvas: &Canvas<WIDTH, HEIGHT>)
        ensures
            final(self)@ == (EngineState { front: canvas@, ..old(self)@ }),
    {
        self.front_canvas = canvas.clone();
    }

    /// The front canvas, for drawing on it in place.
    pub fn borrow_mut_canvas(&mut self) -> (canvas: &mut Canvas<WIDTH, HEIGHT>)
        ensures
            canvas@ == old(self)@.front,
            final(self)@ == (EngineState { front: final(canvas)@, ..old(self)@ }),
    {
        &mut self.front_canvas
    }

    /// Acknowledges the timer: its interrupt is disabled, and stays so until
    /// the timer is armed again, and its compare event is cleared.
    pub fn ack_interrupt(&mut self) -> (commands: Vec<Command>)
        ensures
            commands@ == ack_commands(),
            final(self)@ == (EngineState { interrupt_enabled: false, ..old(self)@ }),
    {
        let mut commands: Vec<Command> = Vec::new();
        let disable = self.timer.disable_interrupt();
        commands.push(Command::Timer(disable));
        let clear = self.timer.clear_event();
        commands.push(Command::Timer(clear));
        assert(commands@ =~= ack_commands());
        commands
    }

    /// What the engine does when the refresh timer fires.
    pub fn on_timer_interrupt(&mut self) -> (commands: Vec<Command>)
        requires
            old(self).wf(),
        ensures
            final(self).wf(),
            commands@ == old(self)@.interrupt_commands(
                WIDTH as nat,
                (HEIGHT / 2) as usize,
                LINECTRL_PIN_COUNT as nat,
                BCM_CYCLES_NB,
                BCM_BASE_PERIOD_MICROSEC,
            ),
            final(self)@ == old(self)@.after_interrupt(
                WIDTH as nat,
                (HEIGHT / 2) as usize,
                LINECTRL_PIN_COUNT as nat,
                BCM_CYCLES_NB,
                BCM_BASE_PERIOD_MICROSEC,
            ),
    {
        let mut commands = self.ack_interrupt();
        let line_step = self.cursor.line;
        let cycle_step = self.cursor.cycle;
        self.display_line(
            &mut commands,
            line_step,
            ColorBitPosition(cycle_step + ColorBitPosition::MSB_POSITION - BCM_CYCLES_NB + 1),
        );

        proof {
            vstd::arithmetic::power2::lemma2_to64();
            vstd::bits::lemma_u32_shl_is_mul(1, cycle_step as u32);
        }
        let next_int_delay = BCM_BASE_PERIOD_MICROSEC * (1u32 << cycle_step);
        self.schedule_next_interrupt(&mut commands, next_int_delay);

        if cycle_step >= BCM_CYCLES_NB - 1 {
            self.cursor = RefreshCursor { line: (line_step + 1) % self.half_height(), cycle: 0 };
        } else {
            self.cursor = RefreshCursor { line: line_step, cycle: cycle_step + 1 };
        }
        commands
    }

    /// Shows the row pair `line` of the front canvas at `bit_position`.
    fn display_line(
        &mut self,
        commands: &mut Vec<Command>,
        line: usize,
        bit_position: ColorBitPosition,
    )
        requires
            line < HEIGHT / 2,
            bit_position.0 <= 7,
            LINECTRL_PIN_COUNT < usize::BITS,
        ensures
            final(commands)@ == old(commands)@ + pin_commands(
                line_signals(
                    old(self)@.front,
                    line,
                    bit_position.0,
                    WIDTH as nat,
                    (HEIGHT / 2) as int,
                    LINECTRL_PIN_COUNT as nat,
                ),
            ),
            final(self)@ == (EngineState {
                levels: old(self)@.levels.after(
                    line_signals(
                        old(self)@.front,
                        line,
                        bit_position.0,
                        WIDTH as nat,
                        (HEIGHT / 2) as int,
                        LINECTRL_PIN_COUNT as nat,
                    ),
                ),
                ..old(self)@
            }),
    {
        let signals = self.led_matrix.draw_canvas_line(&self.front_canvas, line, bit_position);
        let mut idx: usize = 0;
        while idx < signals.len()
            invariant
                idx <= signals.len(),
                commands@ == old(commands)@ + pin_commands(signals@.take(idx as int)),
            decreases signals.len() - idx,
        {
            commands.push(Command::Pin(signals[idx]));
            assert(commands@ =~= old(commands)@ + pin_commands(signals@.take(idx + 1)));
            idx += 1;
        }
        assert(signals@.take(signals.len() as int) =~= signals@);
    }

    /// Arms the timer for `delay_microsec` and lets it interrupt.
    fn schedule_next_interrupt(&mut self, commands: &mut Vec<Command>, delay_microsec: u32)
        ensures
            final(commands)@ == old(commands)@ + seq![
                Command::Timer(TimerCommand::Start(delay_microsec)),
                Command::Timer(TimerCommand::EnableInterrupt),
            ],
            final(self)@ == (EngineState {
                armed: Some(delay_microsec),
                interrupt_enabled: true,
                ..old(self)@
            }),
    {
        let start = self.timer.start(delay_microsec);
        commands.push(Command::Timer(start));
        let enable = self.timer.enable_interrupt();
        commands.push(Command::Timer(enable));
        assert(commands@ =~= old(commands)@ + seq![
            Command::Timer(TimerCommand::Start(delay_microsec)),
            Command::Timer(TimerCommand::EnableInterrupt),
        ]);
    }
}

/// What a new engine knows, given the levels its matrix driver keeps and
/// what its timer was told: the front canvas is all black and the cursor
/// stands on the first bit-plane of the first row pair.
pub open spec fn fresh_engine(
    levels: PinLevels,
    armed: Option<u32>,
    interrupt_enabled: bool,
) -> EngineState {
    EngineState {
        front: filled(64, 32, Color::rgb(0, 0, 0)),
        levels,
        armed,
        interrupt_enabled,
        cursor: RefreshCursor { line: 0, cycle: 0 },
    }
}

/// What `take_ref` makes of a slot: a slot that holds an engine keeps it,
/// and an empty slot gets a sound engine that knows `fresh`.
pub open spec fn slot_taken(
    before: SharedScheduledMatrix64x32,
    after: SharedScheduledMatrix64x32,
    fresh: EngineState,
) -> bool {
    match before {
        Some(_) => after == before,
        None => after is Some && after.unwrap()@ == fresh && after.unwrap().wf(),
    }
}

/// There is one engine. After `take_ref` the slot holds an engine, and
/// taking it a second time leaves that very engine in the slot, whatever
/// the second call was given.
pub proof fn lemma_take_ref_once(
    empty_or_not: SharedScheduledMatrix64x32,
    first: SharedScheduledMatrix64x32,
    second: SharedScheduledMatrix64x32,
    first_fresh: EngineState,
    second_fresh: EngineState,
)
    requires
        slot_taken(empty_or_not, first, first_fresh),
        slot_taken(first, second, second_fresh),
    ensures
        first is Some,
        second == first,
{
    if empty_or_not is Some {
        assert(first == empty_or_not);
    }
}

/// Steps add up.
pub proof fn lemma_after_add(
    cursor: RefreshCursor,
    first: nat,
    second: nat,
    cycles: u8,
    half_height: usize,
)
    ensures
        cursor.after(first + second, cycles, half_height) == cursor.after(
            first,
            cycles,
            half_height,
        ).after(second, cycles, half_height),
    decreases second,
{
    if second > 0 {
        lemma_after_add(cursor, first, (second - 1) as nat, cycles, half_height);
        assert(first + second - 1 == first + (second - 1));
    }
}

/// Any number of steps keeps the cursor on the panel.
pub proof fn lemma_after_valid(cursor: RefreshCursor, steps: nat, cycles: u8, half_height: usize)
    requires
        cursor.valid(cycles, half_height),
    ensures
        cursor.after(steps, cycles, half_height).valid(cycles, half_height),
    decreases steps,
{
    if steps > 0 {
        lemma_after_valid(cursor, (steps - 1) as nat, cycles, half_height);
    }
}

/// Within a row pair the cursor walks through the bit-planes that are left,
/// and then it leaves the row pair.
pub proof fn lemma_after_within_row_pair(
    cursor: RefreshCursor,
    steps: nat,
    cycles: u8,
    half_height: usize,
)
    requires
        cursor.valid(cycles, half_height),
        cursor.cycle + steps <= cycles,
    ensures
        cursor.after(steps, cycles, half_height) == if cursor.cycle + steps < cycles {
            RefreshCursor { line: cursor.line, cycle: (cursor.cycle + steps) as u8 }
        } else {
            RefreshCursor { line: ((cursor.line + 1) % (half_height as int)) as usize, cycle: 0 }
        },
    decreases steps,
{
    if steps > 0 {
        lemma_after_within_row_pair(cursor, (steps - 1) as nat, cycles, half_height);
    }
}

/// No row pair stays selected for long. On a panel with more than one row
/// pair, however many interrupts have `fired` since the cursor stood at
/// `start`, another row pair is selected after at most `cycles` more: so a
/// row pair is selected by at most `cycles` interrupts in a row.
pub proof fn lemma_row_pair_changes(
    start: RefreshCursor,
    fired: nat,
    cycles: u8,
    half_height: usize,
)
    requires
        start.valid(cycles, half_height),
        half_height >= 2,
    ensures
        exists|steps: nat|
            1 <= steps <= cycles && (#[trigger] start.after(
                fired + steps,
                cycles,
                half_height,
            )).line != start.after(fired, cycles, half_height).line,
{
    let cursor = start.after(fired, cycles, half_height);
    lemma_after_valid(start, fired, cycles, half_height);
    let steps = (cycles - cursor.cycle) as nat;
    lemma_after_add(start, fired, steps, cycles, half_height);
    lemma_after_within_row_pair(cursor, steps, cycles, half_height);
    let next_line = (cursor.line + 1) % (half_height as int);
    if cursor.line + 1 < half_height {
        assert(next_line == cursor.line + 1) by {
            vstd::arithmetic::div_mod::lemma_small_mod((cursor.line + 1) as nat, half_height as nat);
        }
    } else {
        assert(next_line == 0) by {
            vstd::arithmetic::div_mod::lemma_mod_self_0(half_height as int);
        }
    }
    assert(cursor.after(steps, cycles, half_height).line != cursor.line);
}

/// How long the `steps` interrupts that start at `cursor` keep what they
/// show on screen, all together.
pub open spec fn dwell_time(
    cursor: RefreshCursor,
    steps: nat,
    cycles: u8,
    half_height: usize,
    base: u32,
) -> nat
    decreases steps,
{
    if steps == 0 {
        0
    } else {
        dwell_time(cursor, (steps - 1) as nat, cycles, half_height, base) + cursor.after(
            (steps - 1) as nat,
            cycles,
            half_height,
        ).dwell(base)
    }
}

/// A row pair is selected for `2^cycles - 1` base periods at a time: for
/// the weights of its bit-planes, one after the other.
pub proof fn lemma_row_pair_dwell_time(line: usize, cycles: u8, half_height: usize, base: u32)
    requires
        line < half_height,
    ensures
        dwell_time(RefreshCursor { line, cycle: 0 }, cycles as nat, cycles, half_height, base)
            == base as nat * (pow2(cycles as nat) - 1),
{
    lemma_row_pair_dwell_time_so_far(line, cycles as nat, cycles, half_height, base);
}

/// The first `steps` bit-planes of a row pair stay on screen for
/// `2^steps - 1` base periods all together.
proof fn lemma_row_pair_dwell_time_so_far(
    line: usize,
    steps: nat,
    cycles: u8,
    half_height: usize,
    base: u32,
)
    requires
        line < half_height,
        steps <= cycles,
    ensures
        dwell_time(RefreshCursor { line, cycle: 0 }, steps, cycles, half_height, base)
            == base as nat * (pow2(steps) - 1),
    decreases steps,
{
    vstd::arithmetic::power2::lemma2_to64();
    if steps > 0 {
        let start = RefreshCursor { line, cycle: 0 };
        let before = (steps - 1) as nat;
        lemma_row_pair_dwell_time_so_far(line, before, cycles, half_height, base);
        lemma_after_within_row_pair(start, before, cycles, half_height);
        vstd::arithmetic::power2::lemma_pow2_unfold(steps);
        assert(base as nat * (pow2(before) - 1) + base as nat * pow2(before) == base as nat * (2
            * pow2(before) - 1)) by (nonlinear_arith);
    } else {
        assert(base as nat * (1 - 1) == 0) by (nonlinear_arith);
    }
}

/// How long the bit-plane `plane` is on screen during the `steps`
/// interrupts that start at `cursor`.
pub open spec fn on_time(
    cursor: RefreshCursor,
    plane: u8,
    steps: nat,
    cycles: u8,
    half_height: usize,
    base: u32,
) -> nat
    decreases steps,
{
    if steps == 0 {
        0
    } else {
        let shown = cursor.after((steps - 1) as nat, cycles, half_height);
        on_time(cursor, plane, (steps - 1) as nat, cycles, half_height, base) + if shown.cycle
            == plane {
            shown.dwell(base)
        } else {
            0
        }
    }
}

/// On-times add up.
pub proof fn lemma_on_time_add(
    cursor: RefreshCursor,
    plane: u8,
    first: nat,
    second: nat,
    cycles: u8,
    half_height: usize,
    base: u32,
)
    ensures
        on_time(cursor, plane, first + second, cycles, half_height, base) == on_time(
            cursor,
            plane,
            first,
            cycles,
            half_height,
            base,
        ) + on_time(
            cursor.after(first, cycles, half_height),
            plane,
            second,
            cycles,
            half_height,
            base,
        ),
    decreases second,
{
    if second > 0 {
        lemma_on_time_add(cursor, plane, first, (second - 1) as nat, cycles, half_height, base);
        lemma_after_add(cursor, first, (second - 1) as nat, cycles, half_height);
        assert(first + second - 1 == first + (second - 1));
    }
}

/// During the first `steps` interrupts of a row pair, each of the first
/// `steps` bit-planes is on screen for its weight in base periods.
proof fn lemma_on_time_within_row_pair(
    line: usize,
    plane: u8,
    steps: nat,
    cycles: u8,
    half_height: usize,
    base: u32,
)
    requires
        line < half_height,
        steps <= cycles,
    ensures
        on_time(RefreshCursor { line, cycle: 0 }, plane, steps, cycles, half_height, base) == if plane
            < steps {
            base as nat * pow2(plane as nat)
        } else {
            0
        },
    decreases steps,
{
    if steps > 0 {
        let start = RefreshCursor { line, cycle: 0 };
        lemma_on_time_within_row_pair(line, plane, (steps - 1) as nat, cycles, half_height, base);
        lemma_after_within_row_pair(start, (steps - 1) as nat, cycles, half_height);
    }
}

/// Over `row_pairs` row pairs, shown one after the other from the first
/// bit-plane of a row pair on, a bit-plane is on screen for its weight in
/// base periods, once per row pair.
pub proof fn lemma_on_time_row_pairs(
    line: usize,
    plane: u8,
    row_pairs: nat,
    cycles: u8,
    half_height: usize,
    base: u32,
)
    requires
        line < half_height,
        plane < cycles,
    ensures
        on_time(
            RefreshCursor { line, cycle: 0 },
            plane,
            row_pairs * (cycles as nat),
            cycles,
            half_height,
            base,
        ) == row_pairs * (base as nat * pow2(plane as nat)),
        cursor_is_at_row_pair_start(
            RefreshCursor { line, cycle: 0 }.after(row_pairs * (cycles as nat), cycles, half_height),
            half_height,
        ),
    decreases row_pairs,
{
    let start = RefreshCursor { line, cycle: 0 };
    let weight = base as nat * pow2(plane as nat);
    if row_pairs == 0 {
        assert(row_pairs * (cycles as nat) == 0) by (nonlinear_arith)
            requires
                row_pairs == 0,
        ;
        assert(row_pairs * weight == 0) by (nonlinear_arith)
            requires
                row_pairs == 0,
        ;
    } else {
        let before = (row_pairs - 1) as nat;
        lemma_on_time_row_pairs(line, plane, before, cycles, half_height, base);
        let reached = start.after(before * (cycles as nat), cycles, half_height);
        assert(row_pairs * (cycles as nat) == before * (cycles as nat) + cycles) by (nonlinear_arith)
            requires
                row_pairs == before + 1,
        ;
        assert(row_pairs * weight == before * weight + weight) by (nonlinear_arith)
            requires
                row_pairs == before + 1,
        ;
        lemma_on_time_add(start, plane, before * (cycles as nat), cycles as nat, cycles, half_height, base);
        lemma_after_add(start, before * (cycles as nat), cycles as nat, cycles, half_height);
        lemma_on_time_within_row_pair(
            reached.line,
            plane,
            cycles as nat,
            cycles,
            half_height,
            base,
        );
        lemma_after_within_row_pair(reached, cycles as nat, cycles, half_height);
        vstd::arithmetic::div_mod::lemma_mod_bound(
            (reached.line + 1) as int,
            half_height as int,
        );
    }
}

/// Whether the cursor stands on the first bit-plane of a row pair.
pub open spec fn cursor_is_at_row_pair_start(cursor: RefreshCursor, half_height: usize) -> bool {
    cursor.line < half_height && cursor.cycle == 0
}

/// The weights of binary code modulation. Over one frame, that is over all
/// the bit-planes of all the row pairs, starting where the refresh starts,
/// the bit-plane `plane` is on screen for `2^plane` base periods per row
/// pair.
pub proof fn lemma_frame_on_time(plane: u8, cycles: u8, half_height: usize, base: u32)
    requires
        plane < cycles,
        half_height >= 1,
    ensures
        on_time(
            RefreshCursor { line: 0, cycle: 0 },
            plane,
            half_height as nat * cycles as nat,
            cycles,
            half_height,
            base,
        ) == pow2(plane as nat) * base as nat * half_height as nat,
{
    lemma_on_time_row_pairs(0, plane, half_height as nat, cycles, half_height, base);
    assert(half_height as nat * (base as nat * pow2(plane as nat)) == pow2(plane as nat)
        * base as nat * half_height as nat) by (nonlinear_arith);
}

/// With two bit-planes, the more significant one is on screen exactly
/// twice as long as the less significant one.
pub proof fn lemma_two_planes_on_time(half_height: usize, base: u32)
    requires
        half_height >= 1,
    ensures
        on_time(
            RefreshCursor { line: 0, cycle: 0 },
            1,
            half_height as nat * 2,
            2,
            half_height,
            base,
        ) == 2 * on_time(
            RefreshCursor { line: 0, cycle: 0 },
            0,
            half_height as nat * 2,
            2,
            half_height,
            base,
        ),
{
    lemma_frame_on_time(0, 2, half_height, base);
    lemma_frame_on_time(1, 2, half_height, base);
    vstd::arithmetic::power2::lemma2_to64();
    assert(2 * base as nat * half_height as nat == 2 * (1 * base as nat * half_height as nat))
        by (nonlinear_arith);
}

/// What is shown after a swap comes from the canvas that was swapped in, and
/// from it alone: the writes that shift column `column` in are the bits of
/// its two pixels in that column, whatever was on screen before.
pub proof fn lemma_swapped_canvas_is_shown(
    state: EngineState,
    canvas: Seq<Seq<Color>>,
    width: nat,
    half_height: usize,
    address_lines: nat,
    cycles: u8,
    column: int,
)
    requires
        0 <= column < width,
    ensures
        ({
            let swapped = EngineState { front: canvas, ..state };
            let signals = swapped.interrupt_signals(width, half_height, address_lines, cycles);
            let bit = state.cursor.bit_position(cycles) as u8;
            signals.subrange(8 * column, 8 * column + 8) == column_signals(
                canvas[state.cursor.line as int][column],
                canvas[state.cursor.line + half_height][column],
                bit,
            )
        }),
{
    let swapped = EngineState { front: canvas, ..state };
    let signals = swapped.interrupt_signals(width, half_height, address_lines, cycles);
    let bit = state.cursor.bit_position(cycles) as u8;
    let line = state.cursor.line as int;
    lemma_shift_signals(canvas, line, half_height as int, bit, width);
    let shift = shift_signals(canvas, line, half_height as int, bit, width);
    let wanted = column_signals(canvas[line][column], canvas[line + half_height][column], bit);
    assert forall|k: int| 0 <= k < 8 implies signals.subrange(8 * column, 8 * column + 8)[k]
        == wanted[k] by {
        assert(signals[8 * column + k] == shift[8 * column + k]);
    }
    assert(signals.subrange(8 * column, 8 * column + 8) =~= wanted);
}

} // verus!
