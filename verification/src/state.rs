//! The decoder: its state, the eight steps of a tick, and the loop of ticks.
//!
//! The decoder does no input or output. The program around it samples the
//! keys and the clock, hands both in, and delivers the events that come back.

use crate::config::{lang_view, Config, ConfigView};
use crate::dictionary::chosen_output;
use crate::event::{event_views, InputEvent, InputEventView, SequenceRejectReason};
use crate::keys::{
    hold_duration,
    is_release,
    key_hold_duration,
    next_key_state,
    update_key_state,
    KeySamples,
    KeyState,
};
use crate::sequence::{MorseKey, MorseSequence};
use crate::time::{elapsed, Duration, Timestamp};
use vstd::prelude::*;

verus! {

/// Whether the decoder runs.
#[derive(Debug, Clone, Copy, PartialEq, Eq, Structural)]
pub enum InputWorkState {
    Pause,
    /// Stopped for good: the loop of ticks ends.
    Exit,
    Work,
}

/// The steps of a tick, in their order.
#[derive(Debug, Clone, Copy, PartialEq, Eq, Structural)]
pub enum TickStep {
    /// A release of the main key adds a symbol to the sequence.
    MainKey,
    /// A release of the language key moves on to the next language.
    ChangeLang,
    /// A release of the case key flips the case.
    ChangeCase,
    /// A release of the pause key pauses or resumes.
    Pause,
    /// A release of the exit key stops the decoder.
    Exit,
    /// A sequence that is finished is looked up and reported.
    Resolve,
    /// A sequence that is finished is dropped.
    Clear,
    /// The five key states move on by this tick's samples.
    UpdateKeys,
}

/// One tick's input: the samples of the keys and the time they were taken at.
#[derive(Debug, Clone, Copy, PartialEq, Eq, Structural)]
pub struct Sample {
    pub keys: KeySamples,
    pub time: Timestamp,
}

/// The state of a decoder.
#[derive(Debug, Clone, PartialEq, Eq)]
pub struct InputState {
    main_key_state: KeyState,
    lang_key_state: KeyState,
    change_case_key_state: KeyState,
    pause_key_state: KeyState,
    exit_key_state: KeyState,
    last_main_release: Option<Timestamp>,
    sequence: MorseSequence,
    is_upper_case: bool,
    lang: Option<String>,
    work_state: InputWorkState,
}

/// A decoder's state with its sequence and the name of its language as
/// mathematical sequences.
pub struct InputStateView {
    pub main_key_state: KeyState,
    pub lang_key_state: KeyState,
    pub change_case_key_state: KeyState,
    pub pause_key_state: KeyState,
    pub exit_key_state: KeyState,
    /// When the main key was last released, unless the sequence was
    /// finished since.
    pub last_main_release: Option<Timestamp>,
    /// The symbols keyed since the last finished sequence.
    pub sequence: Seq<MorseKey>,
    pub is_upper_case: bool,
    /// The name of the active language.
    pub lang: Option<Seq<char>>,
    pub work_state: InputWorkState,
}

impl View for InputState {
    type V = InputStateView;

    closed spec fn view(&self) -> InputStateView {
        InputStateView {
            main_key_state: self.main_key_state,
            lang_key_state: self.lang_key_state,
            change_case_key_state: self.change_case_key_state,
            pause_key_state: self.pause_key_state,
            exit_key_state: self.exit_key_state,
            last_main_release: self.last_main_release,
            sequence: self.sequence@,
            is_upper_case: self.is_upper_case,
            lang: lang_view(self.lang),
            work_state: self.work_state,
        }
    }
}

/// The state that a decoder starts in: no key down, no symbol keyed, lower
/// case, running, in the first language.
pub open spec fn initial_state<K>(cfg: ConfigView<K>) -> InputStateView {
    InputStateView {
        main_key_state: KeyState::NotPressed,
        lang_key_state: KeyState::NotPressed,
        change_case_key_state: KeyState::NotPressed,
        pause_key_state: KeyState::NotPressed,
        exit_key_state: KeyState::NotPressed,
        last_main_release: None,
        sequence: Seq::empty(),
        is_upper_case: false,
        lang: cfg.first_language(),
        work_state: InputWorkState::Work,
    }
}

/// The symbol that a press of the main key counts as: short below the
/// threshold, long from the threshold on.
pub open spec fn classify(held: Duration, threshold: Duration) -> MorseKey {
    if held.nanos < threshold.nanos {
        MorseKey::Dot
    } else {
        MorseKey::Slash
    }
}

/// The work state after a release of the pause key.
pub open spec fn pause_toggled(work: InputWorkState) -> InputWorkState {
    match work {
        InputWorkState::Pause => InputWorkState::Work,
        InputWorkState::Work => InputWorkState::Pause,
        InputWorkState::Exit => InputWorkState::Exit,
    }
}

/// A sequence is finished when the main key is up, symbols have been keyed,
/// and the main key has rested for longer than the configured delay.
pub open spec fn sequence_due<K>(s: InputStateView, cfg: ConfigView<K>, now: Timestamp) -> bool {
    &&& s.main_key_state is NotPressed
    &&& s.sequence.len() > 0
    &&& s.last_main_release matches Some(released)
    &&& elapsed(released, now).nanos > cfg.accept_sequence_delay.nanos
}

/// What the sequence keyed so far stands for.
pub open spec fn resolution<K>(s: InputStateView, cfg: ConfigView<K>) -> InputEventView<K> {
    match s.lang {
        None => InputEventView::SeqRejected(s.sequence, SequenceRejectReason::NoLangsLoaded),
        Some(name) => match cfg.dictionary(name) {
            None => InputEventView::SeqRejected(s.sequence, SequenceRejectReason::NoLangsLoaded),
            Some(keys) => if keys.contains_key(s.sequence) {
                InputEventView::SequenceParsed(
                    s.sequence,
                    chosen_output(keys[s.sequence], s.is_upper_case),
                )
            } else {
                InputEventView::SeqRejected(s.sequence, SequenceRejectReason::InvalidSequence)
            },
        },
    }
}

/// The state after one step of a tick.
pub open spec fn step_state<K>(
    s: InputStateView,
    cfg: ConfigView<K>,
    step: TickStep,
    keys: KeySamples,
    now: Timestamp,
) -> InputStateView {
    match step {
        TickStep::MainKey => match hold_duration(s.main_key_state, keys.main, now) {
            Some(held) => InputStateView {
                sequence: s.sequence.push(classify(held, cfg.time_to_long_press)),
                last_main_release: Some(now),
                ..s
            },
            None => s,
        },
        TickStep::ChangeLang => if is_release(s.lang_key_state, keys.change_lang) {
            InputStateView { lang: cfg.next_language(s.lang), ..s }
        } else {
            s
        },
        TickStep::ChangeCase => if is_release(s.change_case_key_state, keys.change_case) {
            InputStateView { is_upper_case: !s.is_upper_case, ..s }
        } else {
            s
        },
        TickStep::Pause => if is_release(s.pause_key_state, keys.pause) {
            InputStateView { work_state: pause_toggled(s.work_state), ..s }
        } else {
            s
        },
        TickStep::Exit => if is_release(s.exit_key_state, keys.exit) {
            InputStateView { work_state: InputWorkState::Exit, ..s }
        } else {
            s
        },
        TickStep::Resolve => s,
        TickStep::Clear => if sequence_due(s, cfg, now) {
            InputStateView { sequence: Seq::empty(), last_main_release: None, ..s }
        } else {
            s
        },
        TickStep::UpdateKeys => InputStateView {
            main_key_state: next_key_state(s.main_key_state, keys.main, now),
            lang_key_state: next_key_state(s.lang_key_state, keys.change_lang, now),
            change_case_key_state: next_key_state(s.change_case_key_state, keys.change_case, now),
            pause_key_state: next_key_state(s.pause_key_state, keys.pause, now),
            exit_key_state: next_key_state(s.exit_key_state, keys.exit, now),
            ..s
        },
    }
}

/// The event that one step of a tick reports, if it reports one.
pub open spec fn step_event<K>(
    s: InputStateView,
    cfg: ConfigView<K>,
    step: TickStep,
    keys: KeySamples,
    now: Timestamp,
) -> Option<InputEventView<K>> {
    match step {
        TickStep::MainKey => match hold_duration(s.main_key_state, keys.main, now) {
            Some(held) => Some(InputEventView::MorseKey(classify(held, cfg.time_to_long_press))),
            None => None,
        },
        TickStep::ChangeLang => if is_release(s.lang_key_state, keys.change_lang) {
            Some(InputEventView::LangChange)
        } else {
            None
        },
        TickStep::ChangeCase => if is_release(s.change_case_key_state, keys.change_case) {
            Some(InputEventView::CaseChange)
        } else {
            None
        },
        TickStep::Pause => if is_release(s.pause_key_state, keys.pause) {
            Some(InputEventView::PauseToggle)
        } else {
            None
        },
        TickStep::Exit => if is_release(s.exit_key_state, keys.exit) {
            Some(InputEventView::Exit)
        } else {
            None
        },
        TickStep::Resolve => if sequence_due(s, cfg, now) {
            Some(resolution(s, cfg))
        } else {
            None
        },
        TickStep::Clear => None,
        TickStep::UpdateKeys => None,
    }
}

/// An event that may be there, as a list of one event or none.
pub open spec fn reported<K>(event: Option<InputEventView<K>>) -> Seq<InputEventView<K>> {
    match event {
        Some(event) => seq![event],
        None => Seq::empty(),
    }
}

/// The view of an event that may be there.
pub open spec fn event_view<K>(event: Option<InputEvent<K>>) -> Option<InputEventView<K>> {
    match event {
        Some(event) => Some(event@),
        None => None,
    }
}

impl TickStep {
    /// The step that follows this one in a tick; none follows the last.
    pub open spec fn successor(self) -> Option<TickStep> {
        match self {
            TickStep::MainKey => Some(TickStep::ChangeLang),
            TickStep::ChangeLang => Some(TickStep::ChangeCase),
            TickStep::ChangeCase => Some(TickStep::Pause),
            TickStep::Pause => Some(TickStep::Exit),
            TickStep::Exit => Some(TickStep::Resolve),
            TickStep::Resolve => Some(TickStep::Clear),
            TickStep::Clear => Some(TickStep::UpdateKeys),
            TickStep::UpdateKeys => None,
        }
    }

    /// How many steps of the tick are still to be made, this one included.
    pub open spec fn steps_left(self) -> nat {
        match self {
            TickStep::MainKey => 8,
            TickStep::ChangeLang => 7,
            TickStep::ChangeCase => 6,
            TickStep::Pause => 5,
            TickStep::Exit => 4,
            TickStep::Resolve => 3,
            TickStep::Clear => 2,
            TickStep::UpdateKeys => 1,
        }
    }

    /// The step that a tick starts with.
    pub fn first() -> (step: TickStep)
        ensures
            step == TickStep::MainKey,
    {
        TickStep::MainKey
    }

    /// The step to make after this one; none after the last.
    pub fn next(self) -> (step: Option<TickStep>)
        ensures
            step == self.successor(),
    {
        match self {
            TickStep::MainKey => Some(TickStep::ChangeLang),
            TickStep::ChangeLang => Some(TickStep::ChangeCase),
            TickStep::ChangeCase => Some(TickStep::Pause),
            TickStep::Pause => Some(TickStep::Exit),
            TickStep::Exit => Some(TickStep::Resolve),
            TickStep::Resolve => Some(TickStep::Clear),
            TickStep::Clear => Some(TickStep::UpdateKeys),
            TickStep::UpdateKeys => None,
        }
    }
}

/// How many steps of the tick are still to be made from `step` on; none
/// where the tick is over.
pub open spec fn steps_left(step: Option<TickStep>) -> nat {
    match step {
        Some(step) => step.steps_left(),
        None => 0,
    }
}

/// The state after the steps of a tick from `step` on, and the events that
/// they report, in their order.
pub open spec fn steps_from<K>(
    s: InputStateView,
    cfg: ConfigView<K>,
    step: Option<TickStep>,
    keys: KeySamples,
    now: Timestamp,
) -> (InputStateView, Seq<InputEventView<K>>)
    decreases steps_left(step),
{
    match step {
        None => (s, Seq::empty()),
        Some(this) => {
            let rest = steps_from(
                step_state(s, cfg, this, keys, now),
                cfg,
                this.successor(),
                keys,
                now,
            );
            (rest.0, reported(step_event(s, cfg, this, keys, now)) + rest.1)
        },
    }
}

/// The state after a whole tick.
pub open spec fn tick_state<K>(
    s: InputStateView,
    cfg: ConfigView<K>,
    keys: KeySamples,
    now: Timestamp,
) -> InputStateView {
    steps_from(s, cfg, Some(TickStep::MainKey), keys, now).0
}

/// The events of a whole tick, in the order of the steps that report them.
pub open spec fn tick_events<K>(
    s: InputStateView,
    cfg: ConfigView<K>,
    keys: KeySamples,
    now: Timestamp,
) -> Seq<InputEventView<K>> {
    steps_from(s, cfg, Some(TickStep::MainKey), keys, now).1
}

/// The state after the loop of ticks has gone through `trace` from the
/// sample at `from` on, and the events of those ticks. Before each tick the
/// loop looks at the work state: a stopped decoder makes no tick.
pub open spec fn run_from<K>(
    s: InputStateView,
    cfg: ConfigView<K>,
    trace: Seq<Sample>,
    from: int,
) -> (InputStateView, Seq<InputEventView<K>>)
    decreases trace.len() - from,
{
    if from < 0 || from >= trace.len() || s.work_state is Exit {
        (s, Seq::empty())
    } else {
        let rest = run_from(
            tick_state(s, cfg, trace[from].keys, trace[from].time),
            cfg,
            trace,
            from + 1,
        );
        (rest.0, tick_events(s, cfg, trace[from].keys, trace[from].time) + rest.1)
    }
}

impl InputState {
    /// A decoder at its start.
    pub fn new<K>(config: &Config<K>) -> (state: InputState)
        ensures
            state@ == initial_state(config@),
    {
        InputState {
            main_key_state: KeyState::NotPressed,
            lang_key_state: KeyState::NotPressed,
            change_case_key_state: KeyState::NotPressed,
            pause_key_state: KeyState::NotPressed,
            exit_key_state: KeyState::NotPressed,
            last_main_release: None,
            sequence: Vec::new(),
            is_upper_case: false,
            lang: config.first_lang(),
            work_state: InputWorkState::Work,
        }
    }

    /// Whether the sequence keyed so far is finished at `now`.
    fn is_sequence_due<K: Copy>(&self, config: &Config<K>, now: Timestamp) -> (due: bool)
        ensures
            due == sequence_due(self@, config@, now),
    {
        match self.main_key_state {
            KeyState::Down(_) => false,
            KeyState::NotPressed => match self.last_main_release {
                Some(released) => self.sequence.len() > 0 && now.duration_since(released).nanos
                    > config.accept_sequence_delay().nanos,
                None => false,
            },
        }
    }

    /// Looks up the sequence keyed so far in the active language.
    fn resolve<K: Copy>(&self, config: &Config<K>) -> (event: InputEvent<K>)
        ensures
            event@ == resolution(self@, config@),
    {
        let sequence = self.sequence.clone();
        assert(sequence@ =~= self.sequence@);
        match &self.lang {
            None => InputEvent::SeqRejected(sequence, SequenceRejectReason::NoLangsLoaded),
            Some(name) => match config.dictionary(name) {
                None => InputEvent::SeqRejected(sequence, SequenceRejectReason::NoLangsLoaded),
                Some(keys) => match keys.get(&self.sequence) {
                    Some(entry) => InputEvent::SequenceParsed(
                        sequence,
                        entry.output(self.is_upper_case),
                    ),
                    None => InputEvent::SeqRejected(
                        sequence,
                        SequenceRejectReason::InvalidSequence,
                    ),
                },
            },
        }
    }

    /// Makes one step of a tick and returns the event that the step
    /// reports. A tick is the eight steps in their order, each with the same
    /// samples and the same time; an event is to be delivered before the
    /// next step is made.
    pub fn step<K: Copy>(
        &mut self,
        config: &Config<K>,
        step: TickStep,
        keys: KeySamples,
        now: Timestamp,
    ) -> (event: Option<InputEvent<K>>)
        ensures
            final(self)@ == step_state(old(self)@, config@, step, keys, now),
            event_view(event) == step_event(old(self)@, config@, step, keys, now),
    {
        match step {
            TickStep::MainKey => match key_hold_duration(self.main_key_state, keys.main, now) {
                Some(held) => {
                    let symbol = if held.nanos < config.time_to_long_press().nanos {
                        MorseKey::Dot
                    } else {
                        MorseKey::Slash
                    };
                    self.sequence.push(symbol);
                    self.last_main_release = Some(now);
                    Some(InputEvent::MorseKey(symbol))
                },
                None => None,
            },
            TickStep::ChangeLang => match key_hold_duration(
                self.lang_key_state,
                keys.change_lang,
                now,
            ) {
                Some(_) => {
                    self.lang = config.next_lang(&self.lang);
                    Some(InputEvent::LangChange)
                },
                None => None,
            },
            TickStep::ChangeCase => match key_hold_duration(
                self.change_case_key_state,
                keys.change_case,
                now,
            ) {
                Some(_) => {
                    self.is_upper_case = !self.is_upper_case;
                    Some(InputEvent::CaseChange)
                },
                None => None,
            },
            TickStep::Pause => match key_hold_duration(self.pause_key_state, keys.pause, now) {
                Some(_) => {
                    self.work_state = match self.work_state {
                        InputWorkState::Pause => InputWorkState::Work,
                        InputWorkState::Work => InputWorkState::Pause,
                        InputWorkState::Exit => InputWorkState::Exit,
                    };
                    Some(InputEvent::PauseToggle)
                },
                None => None,
            },
            TickStep::Exit => match key_hold_duration(self.exit_key_state, keys.exit, now) {
                Some(_) => {
                    self.work_state = InputWorkState::Exit;
                    Some(InputEvent::Exit)
                },
                None => None,
            },
            TickStep::Resolve => if self.is_sequence_due(config, now) {
                Some(self.resolve(config))
            } else {
                None
            },
            TickStep::Clear => {
                if self.is_sequence_due(config, now) {
                    self.last_main_release = None;
                    self.sequence.clear();
                }
                None
            },
            TickStep::UpdateKeys => {
                update_key_state(&mut self.main_key_state, keys.main, now);
                update_key_state(&mut self.lang_key_state, keys.change_lang, now);
                update_key_state(&mut self.change_case_key_state, keys.change_case, now);
                update_key_state(&mut self.pause_key_state, keys.pause, now);
                update_key_state(&mut self.exit_key_state, keys.exit, now);
                None
            },
        }
    }

    /// Makes a whole tick: the eight steps in their order, on one set of
    /// samples taken at `now`. Returns the events of the steps in the order
    /// in which they were reported.
    pub fn tick<K: Copy>(&mut self, config: &Config<K>, keys: KeySamples, now: Timestamp) -> (events:
        Vec<InputEvent<K>>)
        ensures
            final(self)@ == tick_state(old(self)@, config@, keys, now),
            event_views(events@) == tick_events(old(self)@, config@, keys, now),
    {
        let mut events: Vec<InputEvent<K>> = Vec::new();
        let mut step = Some(TickStep::first());
        assert(event_views(events@) =~= Seq::<InputEventView<K>>::empty());
        loop
            invariant_except_break
                steps_from(old(self)@, config@, Some(TickStep::MainKey), keys, now) == (
                    steps_from(self@, config@, step, keys, now).0,
                    event_views(events@) + steps_from(self@, config@, step, keys, now).1,
                ),
            ensures
                self@ == tick_state(old(self)@, config@, keys, now),
                event_views(events@) == tick_events(old(self)@, config@, keys, now),
            decreases steps_left(step),
        {
            let this = match step {
                Some(this) => this,
                None => {
                    assert(event_views(events@) + Seq::<InputEventView<K>>::empty()
                        =~= event_views(events@));
                    break ;
                },
            };
            let ghost before = self@;
            let ghost reported_before = event_views(events@);
            let event = self.step(config, this, keys, now);
            match event {
                Some(event) => {
                    events.push(event);
                    assert(event_views(events@) =~= reported_before.push(event@));
                },
                None => {},
            }
            step = this.next();
            proof {
                let here = reported(step_event(before, config@, this, keys, now));
                let rest = steps_from(self@, config@, step, keys, now).1;
                assert(event_views(events@) =~= reported_before + here);
                assert((reported_before + here) + rest =~= reported_before + (here + rest));
            }
        }
        events
    }

    /// Runs the loop of ticks over `trace`, one tick for each sample, until
    /// the decoder is stopped or the trace is at its end. Returns the events
    /// of all the ticks made.
    pub fn run<K: Copy>(&mut self, config: &Config<K>, trace: &Vec<Sample>) -> (events: Vec<
        InputEvent<K>,
    >)
        ensures
            final(self)@ == run_from(old(self)@, config@, trace@, 0).0,
            event_views(events@) == run_from(old(self)@, config@, trace@, 0).1,
    {
        let mut events: Vec<InputEvent<K>> = Vec::new();
        let mut i: usize = 0;
        assert(event_views(events@) =~= Seq::<InputEventView<K>>::empty());
        loop
            invariant_except_break
                i <= trace@.len(),
                run_from(old(self)@, config@, trace@, 0) == (
                    run_from(self@, config@, trace@, i as int).0,
                    event_views(events@) + run_from(self@, config@, trace@, i as int).1,
                ),
            ensures
                self@ == run_from(old(self)@, config@, trace@, 0).0,
                event_views(events@) == run_from(old(self)@, config@, trace@, 0).1,
            decreases trace@.len() - i,
        {
            let stopped = match self.work_state {
                InputWorkState::Exit => true,
                _ => false,
            };
            if i >= trace.len() || stopped {
                assert(event_views(events@) + Seq::<InputEventView<K>>::empty() =~= event_views(
                    events@,
                ));
                break ;
            }
            let ghost before = self@;
            let ghost reported_before = event_views(events@);
            let sample = trace[i];
            let mut ticked = self.tick(config, sample.keys, sample.time);
            let ghost here = event_views(ticked@);
            events.append(&mut ticked);
            i += 1;
            proof {
                let rest = run_from(self@, config@, trace@, i as int).1;
                assert(event_views(events@) =~= reported_before + here);
                assert((reported_before + here) + rest =~= reported_before + (here + rest));
            }
        }
        events
    }

    /// Whether the decoder runs, is paused or is stopped.
    pub fn work_state(&self) -> (work: InputWorkState)
        ensures
            work == self@.work_state,
    {
        self.work_state
    }

    /// Whether sequences stand for their upper keys.
    pub fn is_upper_case(&self) -> (upper: bool)
        ensures
            upper == self@.is_upper_case,
    {
        self.is_upper_case
    }

    /// The name of the active language.
    pub fn lang(&self) -> (lang: &Option<String>)
        ensures
            lang_view(*lang) == self@.lang,
    {
        &self.lang
    }

    /// The symbols keyed since the last finished sequence.
    pub fn sequence(&self) -> (sequence: &MorseSequence)
        ensures
            sequence@ == self@.sequence,
    {
        &self.sequence
    }

    /// When the main key was last released, unless the sequence was
    /// finished since.
    pub fn last_main_release(&self) -> (released: Option<Timestamp>)
        ensures
            released == self@.last_main_release,
    {
        self.last_main_release
    }

    /// What the decoder remembers of the main key.
    pub fn main_key_state(&self) -> (state: KeyState)
        ensures
            state == self@.main_key_state,
    {
        self.main_key_state
    }

    /// What the decoder remembers of the language key.
    pub fn lang_key_state(&self) -> (state: KeyState)
        ensures
            state == self@.lang_key_state,
    {
        self.lang_key_state
    }

    /// What the decoder remembers of the case key.
    pub fn change_case_key_state(&self) -> (state: KeyState)
        ensures
            state == self@.change_case_key_state,
    {
        self.change_case_key_state
    }

    /// What the decoder remembers of the pause key.
    pub fn pause_key_state(&self) -> (state: KeyState)
        ensures
            state == self@.pause_key_state,
    {
        self.pause_key_state
    }

    /// What the decoder remembers of the exit key.
    pub fn exit_key_state(&self) -> (state: KeyState)
        ensures
            state == self@.exit_key_state,
    {
        self.exit_key_state
    }
}

/// Decodes a recorded session: starts a decoder for `config` and runs the
/// loop of ticks over `trace` until the decoder is stopped or the trace is at
/// its end. Returns the events in the order in which they were reported.
pub fn listen_loop<K: Copy>(config: &Config<K>, trace: &Vec<Sample>) -> (events: Vec<InputEvent<K>>)
    ensures
        event_views(events@) == run_from(initial_state(config@), config@, trace@, 0).1,
{
    let mut state = InputState::new(config);
    state.run(config, trace)
}

} // verus!
