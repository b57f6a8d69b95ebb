//! What holds of the decoder in general, proved from the definitions of its
//! steps.

use crate::config::{
    is_position,
    lemma_first_position_exists,
    lemma_position_of_distinct,
    names_distinct,
    position_of,
    ConfigView,
};
use crate::event::{InputEventView, SequenceRejectReason};
use crate::keys::{hold_duration, is_release, next_key_state, KeySamples, KeyState};
use crate::sequence::{decode, is_glyph, is_sequence_text, symbol_of};
use crate::state::{
    classify,
    initial_state,
    pause_toggled,
    reported,
    resolution,
    run_from,
    sequence_due,
    step_event,
    step_state,
    steps_from,
    tick_events,
    tick_state,
    InputStateView,
    InputWorkState,
    Sample,
    TickStep,
};
use crate::time::Timestamp;
use vstd::arithmetic::div_mod::{lemma_fundamental_div_mod, lemma_fundamental_div_mod_converse, lemma_mod_bound};
use vstd::prelude::*;

verus! {

/// Two texts made of glyphs that spell the same sequence are the same text.
pub proof fn lemma_decode_tells_texts_apart(a: Seq<char>, b: Seq<char>)
    requires
        is_sequence_text(a),
        is_sequence_text(b),
        decode(a) == decode(b),
    ensures
        a == b,
{
    assert(a.len() == decode(a).len());
    assert(b.len() == decode(b).len());
    assert forall|i: int| 0 <= i < a.len() implies a[i] == b[i] by {
        assert(is_glyph(a[i]) && is_glyph(b[i]));
        assert(decode(a)[i] == symbol_of(a[i]));
        assert(decode(b)[i] == symbol_of(b[i]));
    }
    assert(a =~= b);
}

/// A release is seen once: the sample after it, with the key still up, shows
/// none.
pub proof fn lemma_release_seen_once(state: KeyState, now: Timestamp, later: Timestamp)
    ensures
        hold_duration(next_key_state(state, false, now), false, later) is None,
        !is_release(next_key_state(state, false, now), false),
{
}

/// A press is timed from the first sample that shows the key down: the
/// samples that show it held do not move that time.
pub proof fn lemma_press_keeps_its_time(since: Timestamp, now: Timestamp)
    ensures
        next_key_state(KeyState::Down(since), true, now) == KeyState::Down(since),
        next_key_state(KeyState::NotPressed, true, now) == KeyState::Down(now),
{
}

/// Two releases of the pause key leave the work state as it was.
pub proof fn lemma_pause_toggles_back(work: InputWorkState)
    ensures
        pause_toggled(pause_toggled(work)) == work,
{
}

/// The active language after a number of changes of language.
pub open spec fn language_after<K>(
    cfg: ConfigView<K>,
    start: Option<Seq<char>>,
    changes: nat,
) -> Option<Seq<char>>
    decreases changes,
{
    if changes == 0 {
        start
    } else {
        cfg.next_language(language_after(cfg, start, (changes - 1) as nat))
    }
}

/// Changes of language walk through the languages in their order and start
/// over after the last: from the language at place `at`, `changes` changes
/// lead to the one at place `(at + changes) % n`, where `n` is the number of
/// languages.
pub proof fn lemma_language_walk<K>(cfg: ConfigView<K>, at: int, changes: nat)
    requires
        names_distinct(cfg.langs),
        0 <= at < cfg.langs.len(),
    ensures
        0 <= (at + changes) % (cfg.langs.len() as int) < cfg.langs.len(),
        language_after(cfg, Some(cfg.langs[at].name), changes) == Some(
            cfg.langs[(at + changes) % (cfg.langs.len() as int)].name,
        ),
    decreases changes,
{
    let n = cfg.langs.len() as int;
    lemma_mod_bound(at + changes, n);
    if changes == 0 {
        lemma_fundamental_div_mod_converse(at, n, 0, at);
    } else {
        lemma_language_walk(cfg, at, (changes - 1) as nat);
        let before = at + changes - 1;
        let place = before % n;
        let turns = before / n;
        lemma_position_of_distinct(cfg.langs, place);
        lemma_fundamental_div_mod(before, n);
        if place + 1 < n {
            assert(before + 1 == turns * n + (place + 1)) by (nonlinear_arith)
                requires
                    before == n * turns + place,
            ;
            lemma_fundamental_div_mod_converse(before + 1, n, turns, place + 1);
        } else {
            assert(before + 1 == (turns + 1) * n + 0) by (nonlinear_arith)
                requires
                    before == n * turns + place,
                    place + 1 == n,
            ;
            lemma_fundamental_div_mod_converse(before + 1, n, turns + 1, 0);
        }
    }
}

/// As many changes of language as there are languages lead back to the
/// language that was active before them.
pub proof fn lemma_language_cycle<K>(cfg: ConfigView<K>, at: int)
    requires
        names_distinct(cfg.langs),
        0 <= at < cfg.langs.len(),
    ensures
        language_after(cfg, Some(cfg.langs[at].name), cfg.langs.len()) == Some(cfg.langs[at].name),
{
    let n = cfg.langs.len() as int;
    lemma_language_walk(cfg, at, cfg.langs.len());
    assert(at + n == 1 * n + at) by (nonlinear_arith);
    lemma_fundamental_div_mod_converse(at + n, n, 1, at);
}

/// On the way round, fewer changes than there are languages lead to another
/// language: a full cycle comes by each language once.
pub proof fn lemma_language_cycle_visits_each_once<K>(cfg: ConfigView<K>, at: int, changes: nat)
    requires
        names_distinct(cfg.langs),
        0 <= at < cfg.langs.len(),
        0 < changes < cfg.langs.len(),
    ensures
        language_after(cfg, Some(cfg.langs[at].name), changes) != Some(cfg.langs[at].name),
{
    let n = cfg.langs.len() as int;
    lemma_language_walk(cfg, at, changes);
    let place = (at + changes) % n;
    if place == at {
        let turns = (at + changes) / n;
        lemma_fundamental_div_mod(at + changes, n);
        assert(false) by (nonlinear_arith)
            requires
                at + changes == n * turns + at,
                0 < changes < n,
        ;
    } else if place < at {
        assert(cfg.langs[place].name != cfg.langs[at].name);
    } else {
        assert(cfg.langs[at].name != cfg.langs[place].name);
    }
}

/// In a configuration without languages a change of language leads to no
/// language, whatever was active, and every sequence is rejected for want
/// of a language.
pub proof fn lemma_without_languages<K>(s: InputStateView, cfg: ConfigView<K>)
    requires
        cfg.langs.len() == 0,
    ensures
        cfg.first_language() is None,
        cfg.next_language(s.lang) is None,
        resolution(s, cfg) == InputEventView::<K>::SeqRejected(
            s.sequence,
            SequenceRejectReason::NoLangsLoaded,
        ),
{
    if s.lang is Some {
        assert(position_of(cfg.langs, s.lang->0) is None);
    }
}

/// The state after the first five steps of a tick, which act on the
/// releases of the five keys.
pub open spec fn after_releases<K>(
    s: InputStateView,
    cfg: ConfigView<K>,
    keys: KeySamples,
    now: Timestamp,
) -> InputStateView {
    step_state(
        step_state(
            step_state(
                step_state(
                    step_state(s, cfg, TickStep::MainKey, keys, now),
                    cfg,
                    TickStep::ChangeLang,
                    keys,
                    now,
                ),
                cfg,
                TickStep::ChangeCase,
                keys,
                now,
            ),
            cfg,
            TickStep::Pause,
            keys,
            now,
        ),
        cfg,
        TickStep::Exit,
        keys,
        now,
    )
}

/// A tick is its eight steps, one after the other.
proof fn lemma_tick_as_steps<K>(
    s: InputStateView,
    cfg: ConfigView<K>,
    keys: KeySamples,
    now: Timestamp,
)
    ensures
        ({
            let s1 = step_state(s, cfg, TickStep::MainKey, keys, now);
            let s2 = step_state(s1, cfg, TickStep::ChangeLang, keys, now);
            let s3 = step_state(s2, cfg, TickStep::ChangeCase, keys, now);
            let s4 = step_state(s3, cfg, TickStep::Pause, keys, now);
            let s5 = step_state(s4, cfg, TickStep::Exit, keys, now);
            let s7 = step_state(s5, cfg, TickStep::Clear, keys, now);
            let s8 = step_state(s7, cfg, TickStep::UpdateKeys, keys, now);
            &&& s5 == after_releases(s, cfg, keys, now)
            &&& tick_state(s, cfg, keys, now) == s8
            &&& tick_events(s, cfg, keys, now) == reported(
                step_event(s, cfg, TickStep::MainKey, keys, now),
            ) + reported(step_event(s1, cfg, TickStep::ChangeLang, keys, now)) + reported(
                step_event(s2, cfg, TickStep::ChangeCase, keys, now),
            ) + reported(step_event(s3, cfg, TickStep::Pause, keys, now)) + reported(
                step_event(s4, cfg, TickStep::Exit, keys, now),
            ) + reported(step_event(s5, cfg, TickStep::Resolve, keys, now))
        }),
{
    let s1 = step_state(s, cfg, TickStep::MainKey, keys, now);
    let s2 = step_state(s1, cfg, TickStep::ChangeLang, keys, now);
    let s3 = step_state(s2, cfg, TickStep::ChangeCase, keys, now);
    let s4 = step_state(s3, cfg, TickStep::Pause, keys, now);
    let s5 = step_state(s4, cfg, TickStep::Exit, keys, now);
    let s6 = step_state(s5, cfg, TickStep::Resolve, keys, now);
    let s7 = step_state(s6, cfg, TickStep::Clear, keys, now);
    let s8 = step_state(s7, cfg, TickStep::UpdateKeys, keys, now);
    let e1 = reported(step_event(s, cfg, TickStep::MainKey, keys, now));
    let e2 = reported(step_event(s1, cfg, TickStep::ChangeLang, keys, now));
    let e3 = reported(step_event(s2, cfg, TickStep::ChangeCase, keys, now));
    let e4 = reported(step_event(s3, cfg, TickStep::Pause, keys, now));
    let e5 = reported(step_event(s4, cfg, TickStep::Exit, keys, now));
    let e6 = reported(step_event(s5, cfg, TickStep::Resolve, keys, now));
    let e7 = reported(step_event(s6, cfg, TickStep::Clear, keys, now));
    let e8 = reported(step_event(s7, cfg, TickStep::UpdateKeys, keys, now));
    let none = Seq::<InputEventView<K>>::empty();
    let r8 = steps_from(s7, cfg, Some(TickStep::UpdateKeys), keys, now);
    let r7 = steps_from(s6, cfg, Some(TickStep::Clear), keys, now);
    let r6 = steps_from(s5, cfg, Some(TickStep::Resolve), keys, now);
    let r5 = steps_from(s4, cfg, Some(TickStep::Exit), keys, now);
    let r4 = steps_from(s3, cfg, Some(TickStep::Pause), keys, now);
    let r3 = steps_from(s2, cfg, Some(TickStep::ChangeCase), keys, now);
    let r2 = steps_from(s1, cfg, Some(TickStep::ChangeLang), keys, now);
    let r1 = steps_from(s, cfg, Some(TickStep::MainKey), keys, now);
    assert(steps_from(s8, cfg, None, keys, now) == (s8, none));
    assert(r8 == (s8, e8 + none));
    assert(r7 == (s8, e7 + r8.1));
    assert(r6 == (s8, e6 + r7.1));
    assert(r5 == (s8, e5 + r6.1));
    assert(r4 == (s8, e4 + r5.1));
    assert(r3 == (s8, e3 + r4.1));
    assert(r2 == (s8, e2 + r3.1));
    assert(r1 == (s8, e1 + r2.1));
    assert(e7 == none && e8 == none);
    assert(s6 == s5);
    assert(e1 + (e2 + (e3 + (e4 + (e5 + (e6 + (none + (none + none))))))) =~= e1 + e2 + e3 + e4
        + e5 + e6);
}

/// The first five steps of a tick, part by part of the state: the main
/// key's release adds a symbol, the releases of the other four keys change
/// language, case and work state. The key states stay.
pub proof fn lemma_releases_unfolded<K>(
    s: InputStateView,
    cfg: ConfigView<K>,
    keys: KeySamples,
    now: Timestamp,
)
    ensures
        ({
            let after = after_releases(s, cfg, keys, now);
            &&& after.main_key_state == s.main_key_state
            &&& after.lang_key_state == s.lang_key_state
            &&& after.change_case_key_state == s.change_case_key_state
            &&& after.pause_key_state == s.pause_key_state
            &&& after.exit_key_state == s.exit_key_state
            &&& after.lang == if is_release(s.lang_key_state, keys.change_lang) {
                cfg.next_language(s.lang)
            } else {
                s.lang
            }
            &&& after.is_upper_case == if is_release(s.change_case_key_state, keys.change_case) {
                !s.is_upper_case
            } else {
                s.is_upper_case
            }
            &&& after.work_state == if is_release(s.exit_key_state, keys.exit) {
                InputWorkState::Exit
            } else if is_release(s.pause_key_state, keys.pause) {
                pause_toggled(s.work_state)
            } else {
                s.work_state
            }
            &&& after.sequence == match hold_duration(s.main_key_state, keys.main, now) {
                Some(held) => s.sequence.push(classify(held, cfg.time_to_long_press)),
                None => s.sequence,
            }
            &&& after.last_main_release == match hold_duration(s.main_key_state, keys.main, now) {
                Some(_) => Some(now),
                None => s.last_main_release,
            }
            &&& sequence_due(after, cfg, now) == sequence_due(s, cfg, now)
        }),
{
}

/// What a tick does, part by part of the state. The main key's release
/// adds a symbol; the releases of the other four keys change language,
/// case and work state; a sequence that was finished before the tick is
/// reported, in the language and the case that the tick has led to, and
/// dropped; the key states move on. The events come in that order.
pub proof fn lemma_tick_unfolded<K>(
    s: InputStateView,
    cfg: ConfigView<K>,
    keys: KeySamples,
    now: Timestamp,
)
    ensures
        ({
            let mid = after_releases(s, cfg, keys, now);
            let after = tick_state(s, cfg, keys, now);
            let due = sequence_due(s, cfg, now);
            &&& after.main_key_state == next_key_state(s.main_key_state, keys.main, now)
            &&& after.lang_key_state == next_key_state(s.lang_key_state, keys.change_lang, now)
            &&& after.change_case_key_state == next_key_state(
                s.change_case_key_state,
                keys.change_case,
                now,
            )
            &&& after.pause_key_state == next_key_state(s.pause_key_state, keys.pause, now)
            &&& after.exit_key_state == next_key_state(s.exit_key_state, keys.exit, now)
            &&& after.lang == mid.lang
            &&& after.is_upper_case == mid.is_upper_case
            &&& after.work_state == mid.work_state
            &&& after.sequence == if due {
                Seq::empty()
            } else {
                mid.sequence
            }
            &&& after.last_main_release == if due {
                None
            } else {
                mid.last_main_release
            }
            &&& tick_events(s, cfg, keys, now) == reported(
                step_event(s, cfg, TickStep::MainKey, keys, now),
            ) + reported(step_event(s, cfg, TickStep::ChangeLang, keys, now)) + reported(
                step_event(s, cfg, TickStep::ChangeCase, keys, now),
            ) + reported(step_event(s, cfg, TickStep::Pause, keys, now)) + reported(
                step_event(s, cfg, TickStep::Exit, keys, now),
            ) + reported(
                if due {
                    Some(resolution(mid, cfg))
                } else {
                    None
                },
            )
        }),
{
    lemma_tick_as_steps(s, cfg, keys, now);
    lemma_releases_unfolded(s, cfg, keys, now);
}

/// A release of the exit key stops the decoder in the same tick, and the
/// tick reports it.
pub proof fn lemma_exit_release_stops<K>(
    s: InputStateView,
    cfg: ConfigView<K>,
    keys: KeySamples,
    now: Timestamp,
)
    requires
        is_release(s.exit_key_state, keys.exit),
    ensures
        tick_state(s, cfg, keys, now).work_state is Exit,
        tick_events(s, cfg, keys, now).contains(InputEventView::Exit),
{
    lemma_tick_unfolded(s, cfg, keys, now);
    let events = tick_events(s, cfg, keys, now);
    let e1 = reported(step_event(s, cfg, TickStep::MainKey, keys, now));
    let e2 = reported(step_event(s, cfg, TickStep::ChangeLang, keys, now));
    let e3 = reported(step_event(s, cfg, TickStep::ChangeCase, keys, now));
    let e4 = reported(step_event(s, cfg, TickStep::Pause, keys, now));
    let at = e1.len() + e2.len() + e3.len() + e4.len();
    assert(events[at as int] == InputEventView::<K>::Exit);
}

/// A stopped decoder stays stopped.
pub proof fn lemma_stopped_for_good<K>(
    s: InputStateView,
    cfg: ConfigView<K>,
    keys: KeySamples,
    now: Timestamp,
)
    requires
        s.work_state is Exit,
    ensures
        tick_state(s, cfg, keys, now).work_state is Exit,
{
    lemma_tick_unfolded(s, cfg, keys, now);
}

/// The loop makes no tick once the decoder is stopped: the state stays as
/// it is and nothing is reported, whatever samples are left.
pub proof fn lemma_no_tick_when_stopped<K>(
    s: InputStateView,
    cfg: ConfigView<K>,
    trace: Seq<Sample>,
    from: int,
)
    requires
        s.work_state is Exit,
    ensures
        run_from(s, cfg, trace, from) == (s, Seq::<InputEventView<K>>::empty()),
{
}

/// The tick in which the exit key is released is the last one that the loop
/// makes: it ends in the state after that tick, with the events of that tick
/// as the last ones.
pub proof fn lemma_exit_release_ends_loop<K>(
    s: InputStateView,
    cfg: ConfigView<K>,
    trace: Seq<Sample>,
    from: int,
)
    requires
        0 <= from < trace.len(),
        !(s.work_state is Exit),
        is_release(s.exit_key_state, trace[from].keys.exit),
    ensures
        run_from(s, cfg, trace, from) == (
            tick_state(s, cfg, trace[from].keys, trace[from].time),
            tick_events(s, cfg, trace[from].keys, trace[from].time),
        ),
        run_from(s, cfg, trace, from).0.work_state is Exit,
        run_from(s, cfg, trace, from).1.contains(InputEventView::Exit),
{
    let after = tick_state(s, cfg, trace[from].keys, trace[from].time);
    let events = tick_events(s, cfg, trace[from].keys, trace[from].time);
    lemma_exit_release_stops(s, cfg, trace[from].keys, trace[from].time);
    lemma_no_tick_when_stopped(after, cfg, trace, from + 1);
    assert(events + Seq::<InputEventView<K>>::empty() =~= events);
}

/// What holds of a decoder's state between two steps, in a given
/// configuration: a time of release is kept exactly while symbols are
/// keyed, and the active language is one of the configuration, or none
/// where the configuration has none.
pub open spec fn settled<K>(s: InputStateView, cfg: ConfigView<K>) -> bool {
    &&& s.sequence.len() > 0 <==> s.last_main_release is Some
    &&& match s.lang {
        Some(name) => position_of(cfg.langs, name) is Some,
        None => cfg.langs.len() == 0,
    }
}

/// A decoder starts settled.
pub proof fn lemma_starts_settled<K>(cfg: ConfigView<K>)
    ensures
        settled(initial_state(cfg), cfg),
{
    if cfg.langs.len() > 0 {
        lemma_first_position_exists(cfg.langs, cfg.langs[0].name, 0);
    }
}

/// Every step keeps a decoder settled.
pub proof fn lemma_step_keeps_settled<K>(
    s: InputStateView,
    cfg: ConfigView<K>,
    step: TickStep,
    keys: KeySamples,
    now: Timestamp,
)
    requires
        settled(s, cfg),
    ensures
        settled(step_state(s, cfg, step, keys, now), cfg),
{
    if step == TickStep::ChangeLang && is_release(s.lang_key_state, keys.change_lang) {
        match s.lang {
            Some(name) => {
                let at = position_of(cfg.langs, name)->0;
                assert(is_position(cfg.langs, name, at));
                let follower = if at + 1 < cfg.langs.len() {
                    at + 1
                } else {
                    0
                };
                lemma_first_position_exists(cfg.langs, cfg.langs[follower].name, follower);
            },
            None => {},
        }
    }
}

/// Every tick keeps a decoder settled.
pub proof fn lemma_tick_keeps_settled<K>(
    s: InputStateView,
    cfg: ConfigView<K>,
    keys: KeySamples,
    now: Timestamp,
)
    requires
        settled(s, cfg),
    ensures
        settled(tick_state(s, cfg, keys, now), cfg),
{
    reveal_with_fuel(steps_from, 9);
    let s1 = step_state(s, cfg, TickStep::MainKey, keys, now);
    let s2 = step_state(s1, cfg, TickStep::ChangeLang, keys, now);
    let s3 = step_state(s2, cfg, TickStep::ChangeCase, keys, now);
    let s4 = step_state(s3, cfg, TickStep::Pause, keys, now);
    let s5 = step_state(s4, cfg, TickStep::Exit, keys, now);
    let s6 = step_state(s5, cfg, TickStep::Resolve, keys, now);
    let s7 = step_state(s6, cfg, TickStep::Clear, keys, now);
    lemma_step_keeps_settled(s, cfg, TickStep::MainKey, keys, now);
    lemma_step_keeps_settled(s1, cfg, TickStep::ChangeLang, keys, now);
    lemma_step_keeps_settled(s2, cfg, TickStep::ChangeCase, keys, now);
    lemma_step_keeps_settled(s3, cfg, TickStep::Pause, keys, now);
    lemma_step_keeps_settled(s4, cfg, TickStep::Exit, keys, now);
    lemma_step_keeps_settled(s5, cfg, TickStep::Resolve, keys, now);
    lemma_step_keeps_settled(s6, cfg, TickStep::Clear, keys, now);
    lemma_step_keeps_settled(s7, cfg, TickStep::UpdateKeys, keys, now);
}

/// The loop of ticks keeps a decoder settled.
pub proof fn lemma_run_keeps_settled<K>(
    s: InputStateView,
    cfg: ConfigView<K>,
    trace: Seq<Sample>,
    from: int,
)
    requires
        settled(s, cfg),
    ensures
        settled(run_from(s, cfg, trace, from).0, cfg),
    decreases trace.len() - from,
{
    if 0 <= from < trace.len() && !(s.work_state is Exit) {
        lemma_tick_keeps_settled(s, cfg, trace[from].keys, trace[from].time);
        lemma_run_keeps_settled(
            tick_state(s, cfg, trace[from].keys, trace[from].time),
            cfg,
            trace,
            from + 1,
        );
    }
}

/// From a settled decoder's language, as many changes of language as the
/// configuration has languages lead back to that language.
pub proof fn lemma_settled_language_cycle<K>(s: InputStateView, cfg: ConfigView<K>)
    requires
        cfg.well_formed(),
        settled(s, cfg),
        cfg.langs.len() > 0,
    ensures
        language_after(cfg, s.lang, cfg.langs.len()) == s.lang,
{
    let name = s.lang->0;
    let at = position_of(cfg.langs, name)->0;
    assert(is_position(cfg.langs, name, at));
    lemma_language_cycle(cfg, at);
}

/// A settled decoder in a configuration that has languages never rejects a
/// sequence for want of a language.
pub proof fn lemma_settled_has_language<K>(s: InputStateView, cfg: ConfigView<K>)
    requires
        settled(s, cfg),
        cfg.langs.len() > 0,
    ensures
        resolution(s, cfg) != InputEventView::<K>::SeqRejected(
            s.sequence,
            SequenceRejectReason::NoLangsLoaded,
        ),
{
}

} // verus!
