//! What the live view promises of its run: when it refreshes, how it ends, and what of it
//! never changes on the way.
use vstd::prelude::*;
use crate::config::Settings;
use crate::render::images::{
    ImageErrorView, ImageSession, SelectedProtocol, TerminalCapabilities, TerminalKind,
};
use crate::render::live;
use crate::render::live::{
    map_event, shows_image, FrameClock, Key, LiveAction, LiveError,
    LiveErrorView, LiveEvent, LiveInput, LiveLoop, LoopView, Phase, TerminalEvent,
};

verus! {

/// After entering the terminal and after every refresh that succeeds, at the time `now`,
/// the next refresh is due at `now` and the interval, or at `now` and an eighth of a second
/// where the interval is shorter than that. The times are in nanoseconds, and the last
/// time that can be told stands for all behind it.
pub proof fn law_the_next_refresh_is_an_interval_away(
    state: LoopView,
    input: LiveInput,
    now: u64,
    interval: u64,
)
    requires
        (state.phase == Phase::Refreshing && input == (LiveInput::Refreshed {
            result: Ok(()),
            now,
            interval,
        })) || (state.phase == Phase::Entering && input == (LiveInput::Entered {
            result: Ok(()),
            now,
            interval,
        })),
    ensures
        ({
            let after = state.next(input);
            &&& after.phase == Phase::Drawing
            &&& interval >= 125_000_000 && now + interval <= u64::MAX ==> after.next_refresh == now
                + interval
            &&& interval < 125_000_000 && now + 125_000_000 <= u64::MAX ==> after.next_refresh
                == now + 125_000_000
            &&& now + interval > u64::MAX || now + 125_000_000 > u64::MAX ==> after.next_refresh
                == u64::MAX
            &&& after.failure == state.failure
        }),
{
}

/// A view that keeps ticking refreshes again and again. Once a refresh has succeeded at
/// the time `now`, and the card was drawn, whatever of it, a wait that no event ended by
/// quitting leads to the next refresh exactly where the clock has come to the time that
/// is due; before that the card is drawn once more, and the time that is due stays.
#[verifier::spinoff_prover]
pub proof fn law_a_ticking_view_refreshes_again(
    state: LoopView,
    now: u64,
    interval: u64,
    drawn: bool,
    before: u64,
    event: Option<LiveEvent>,
    after: u64,
)
    requires
        state.phase == Phase::Refreshing,
        event is None || event == Some(LiveEvent::Tick),
        now + interval <= u64::MAX,
        now + 125_000_000 <= u64::MAX,
    ensures
        ({
            let ended = state.next(LiveInput::Refreshed { result: Ok(()), now, interval }).next(
                LiveInput::Drawn(Ok(drawn)),
            ).next(LiveInput::Clock { now: before }).next(LiveInput::Arrived(Ok(event))).next(
                LiveInput::Clock { now: after },
            );
            &&& after >= now + interval && after >= now + 125_000_000 ==> ended.phase
                == Phase::Refreshing
            &&& after < now + interval || after < now + 125_000_000 ==> ended.phase
                == Phase::Drawing
            &&& ended.failure == state.failure
            &&& ended.next_refresh >= now + interval
            &&& ended.next_refresh >= now + 125_000_000
            &&& ended.next_refresh == now + interval || ended.next_refresh == now + 125_000_000
        }),
{
    let refreshed = state.next(LiveInput::Refreshed { result: Ok(()), now, interval });
    assert(refreshed.phase == Phase::Drawing);
    let shown = refreshed.next(LiveInput::Drawn(Ok(drawn)));
    assert(shown.phase == Phase::Timing);
    let waiting = shown.next(LiveInput::Clock { now: before });
    assert(waiting.phase is Waiting);
    let arrived = waiting.next(LiveInput::Arrived(Ok(event)));
    assert(arrived.phase == Phase::Checking);
    assert(arrived.next_refresh == refreshed.next_refresh);
}

/// The time that a refresh is due at changes with a refresh alone: no drawing, no wait, no
/// event and no change of size moves it.
pub proof fn law_only_a_refresh_moves_the_next_one(state: LoopView, input: LiveInput)
    ensures
        state.next(input).next_refresh != state.next_refresh ==> (state.phase == Phase::Entering
            && input is Entered) || (state.phase == Phase::Refreshing && input is Refreshed),
        state.next(input).options == state.options,
        state.next(input).protocol == state.protocol,
        state.next(input).has_image == state.has_image,
        state.next(input).on_terminal == state.on_terminal,
{
}

/// A wait ends with the eighth of a second in which a picture of the spinner stays, or
/// with the time that a refresh is due at, whichever comes first; where that time is past
/// there is no wait.
pub proof fn law_a_wait_ends_with_what_is_due_first(state: LoopView, now: u64)
    requires
        state.phase == Phase::Timing,
    ensures
        ({
            let after = state.next(LiveInput::Clock { now }).phase;
            &&& after is Waiting
            &&& state.next_refresh <= now ==> after->timeout == 0
            &&& now < state.next_refresh && state.next_refresh - now <= 125_000_000 ==> now
                + after->timeout == state.next_refresh
            &&& now < state.next_refresh && state.next_refresh - now > 125_000_000
                ==> after->timeout == 125_000_000
        }),
{
}

/// Quitting leads out of the view, a new size to following it, and anything else to
/// looking at the clock; each of them turns the spinner by one picture of four.
pub proof fn law_events_are_followed(state: LoopView, timeout: u64, event: Option<LiveEvent>)
    requires
        state.phase == (Phase::Waiting { timeout }),
        0 <= state.spinner < 4,
    ensures
        ({
            let after = state.next(LiveInput::Arrived(Ok(event)));
            &&& event == Some(LiveEvent::Quit) ==> after.phase == Phase::Leaving
            &&& event == Some(LiveEvent::Resize) ==> after.phase == Phase::Resizing && after.next(
                LiveInput::Resized,
            ).phase == Phase::Checking
            &&& event is None || event == Some(LiveEvent::Tick) ==> after.phase == Phase::Checking
            &&& state.spinner < 3 ==> after.spinner == state.spinner + 1
            &&& state.spinner == 3 ==> after.spinner == 0
            &&& after.failure == state.failure
            &&& after.kitty_rendered == state.kitty_rendered
        }),
{
}

/// Nothing but an event turns the spinner.
pub proof fn law_only_events_turn_the_spinner(state: LoopView, input: LiveInput)
    ensures
        state.next(input).spinner != state.spinner ==> state.phase is Waiting && input is Arrived,
{
}

/// Whatever fails is what the view fails with, and it ends: a failed preparation or
/// entering at once, a failed drawing, event or refresh by leaving the terminal.
pub proof fn law_failures_end_the_view(state: LoopView, error: LiveError, message: String, time: u64)
    ensures
        state.phase == Phase::Preparing ==> ({
            let after = state.next(LiveInput::Prepared(Err(error)));
            after.phase == Phase::Finished && after.failure == Some(error@)
        }),
        state.phase == Phase::Entering ==> ({
            let after = state.next(
                LiveInput::Entered { result: Err(message), now: time, interval: time },
            );
            after.phase == Phase::Finished && after.failure == Some(
                LiveErrorView::Terminal(message@),
            )
        }),
        state.phase == Phase::Drawing ==> ({
            let after = state.next(LiveInput::Drawn(Err(error)));
            after.phase == Phase::Leaving && after.failure == Some(error@)
        }),
        state.phase is Waiting ==> ({
            let after = state.next(LiveInput::Arrived(Err(error)));
            after.phase == Phase::Leaving && after.failure == Some(error@)
        }),
        state.phase == Phase::Refreshing ==> ({
            let after = state.next(
                LiveInput::Refreshed { result: Err(error), now: time, interval: time },
            );
            after.phase == Phase::Leaving && after.failure == Some(error@)
        }),
        state.phase == Phase::Deleting ==> ({
            let after = state.next(LiveInput::Deleted(Err(message)));
            &&& after.phase == Phase::Finished
            &&& state.failure is None ==> after.failure == Some(LiveErrorView::Terminal(message@))
            &&& state.failure is Some ==> after.failure == state.failure
        }),
{
}

/// No failure comes of what succeeded: where the streams are terminals, every answer that
/// tells of a success leaves what had failed before.
pub proof fn law_success_is_no_failure(state: LoopView, drawn: bool, time: u64, interval: u64)
    ensures
        state.on_terminal ==> state.next(LiveInput::Prepared(Ok(()))).failure == state.failure,
        state.on_terminal && state.phase == Phase::Preparing ==> state.next(
            LiveInput::Prepared(Ok(())),
        ).phase == Phase::Entering,
        !state.on_terminal && state.phase == Phase::Preparing ==> state.next(
            LiveInput::Prepared(Ok(())),
        ).failure == Some(LiveErrorView::Image(ImageErrorView::LiveRequiresTtys)) && state.next(
            LiveInput::Prepared(Ok(())),
        ).phase == Phase::Finished,
        state.next(LiveInput::Entered { result: Ok(()), now: time, interval }).failure
            == state.failure,
        state.next(LiveInput::Drawn(Ok(drawn))).failure == state.failure,
        state.next(LiveInput::Clock { now: time }).failure == state.failure,
        state.next(LiveInput::Resized).failure == state.failure,
        state.next(LiveInput::Left).failure == state.failure,
        state.next(LiveInput::Deleted(Ok(()))).failure == state.failure,
{
}

/// An image that was drawn by its id is deleted behind leaving the terminal, and the view
/// is over behind that; without such an image it is over at once.
pub proof fn law_a_drawn_image_is_deleted_at_the_end(state: LoopView, drawn: bool)
    requires
        state.phase == Phase::Drawing,
        !state.kitty_rendered,
    ensures
        ({
            let shown = state.next(LiveInput::Drawn(Ok(drawn)));
            let left = shown.to(Phase::Leaving).next(LiveInput::Left);
            &&& shown.phase == Phase::Timing
            &&& drawn && state.has_image && state.protocol == SelectedProtocol::Kitty
                ==> left.phase == Phase::Deleting && left.next(LiveInput::Deleted(Ok(()))).phase
                == Phase::Finished
            &&& !drawn || !state.has_image || state.protocol != SelectedProtocol::Kitty
                ==> left.phase == Phase::Finished
        }),
{
}

/// What was drawn by its id once stays to be deleted, whatever comes behind.
pub proof fn law_a_drawn_image_is_remembered(state: LoopView, input: LiveInput)
    requires
        state.kitty_rendered,
    ensures
        state.next(input).kitty_rendered,
{
}

/// The keys that end the view: `q`, Escape, and `c` with Control; only when they are
/// pressed, and no other key means anything.
pub proof fn law_keys_that_quit(event: TerminalEvent, meaning: Option<LiveEvent>)
    requires
        call_ensures(map_event, (event,), meaning),
    ensures
        meaning == Some(LiveEvent::Quit) <==> exists|control: bool|
            event == (TerminalEvent::Key { press: true, key: Key::Char('q'), control }) || event
                == (TerminalEvent::Key { press: true, key: Key::Escape, control }) || event == (
            TerminalEvent::Key { press: true, key: Key::Char('c'), control: true }),
        meaning == Some(LiveEvent::Resize) <==> event == TerminalEvent::Resize,
        meaning != Some(LiveEvent::Tick),
{
    if meaning == Some(LiveEvent::Quit) {
        assert(event->press);
        let control = event->control;
        assert(event == (TerminalEvent::Key { press: true, key: Key::Char('q'), control }) || event
            == (TerminalEvent::Key { press: true, key: Key::Escape, control }) || event == (
        TerminalEvent::Key { press: true, key: Key::Char('c'), control: true }));
    }
}

/// What is to be done answers the phase: a refresh is collected in the phase of refreshing
/// and in no other, a card is drawn with the spinner and the options of the view, and a
/// wait lasts as long as was decided.
pub proof fn law_actions_follow_the_phase(live: LiveLoop, action: LiveAction)
    requires
        call_ensures(LiveLoop::action, (&live,), action),
    ensures
        action == LiveAction::Refresh <==> live.phase == Phase::Refreshing,
        action == LiveAction::Leave <==> live.phase == Phase::Leaving,
        action == LiveAction::Delete <==> live.phase == Phase::Deleting,
        action == LiveAction::Finish <==> live.phase == Phase::Finished,
        action == LiveAction::Enter <==> live.phase == Phase::Entering,
        action == LiveAction::Prepare <==> live.phase == Phase::Preparing,
        action == LiveAction::Resize <==> live.phase == Phase::Resizing,
        action is Draw <==> live.phase == Phase::Drawing,
        action is Draw ==> action->spinner == live.spinner && action->options == live.options,
        action is Wait <==> live.phase is Waiting,
        action is Wait ==> action->timeout == live.phase->timeout,
        action == LiveAction::ReadClock <==> live.phase == Phase::Timing || live.phase
            == Phase::Checking,
{
}

/// A protocol that was decided on stays; where the decision was left to a query, the view
/// takes the protocol of the terminal that it knows, and text where it knows neither the
/// terminal nor the size of a cell in pixels.
pub proof fn law_the_protocol_of_the_view(decided: SelectedProtocol, caps: TerminalCapabilities)
    ensures
        ({
            let taken = live::live_protocol(decided, caps);
            &&& taken != SelectedProtocol::BoundedQueryRequired
            &&& decided != SelectedProtocol::BoundedQueryRequired ==> taken == decided
            &&& decided == SelectedProtocol::BoundedQueryRequired ==> {
                &&& taken == SelectedProtocol::Kitty <==> caps.cell_pixels is Some
                    && caps.terminal == TerminalKind::Ghostty
                &&& taken == SelectedProtocol::Iterm2 <==> caps.cell_pixels is Some
                    && caps.terminal == TerminalKind::Iterm2
                &&& taken == SelectedProtocol::Text <==> caps.cell_pixels is None || caps.terminal
                    == TerminalKind::Other
            }
        }),
{
}

/// A view is refused exactly where the image has no cell to stand in, or where pixels are
/// to be drawn of an image in cells of an unknown size.
pub proof fn law_views_that_are_refused(
    settings: Settings,
    has_image: bool,
    caps: TerminalCapabilities,
    session: ImageSession,
)
    ensures
        live::input_fault(settings, has_image, caps, session) is Some <==> settings.image.width_cells
            == 0 || settings.image.max_height_rows == 0 || (has_image && caps.cell_pixels is None
            && (session.decision.protocol == SelectedProtocol::Kitty || session.decision.protocol
            == SelectedProtocol::Iterm2 || session.decision.protocol == SelectedProtocol::Sixel)),
{
}

/// Milliseconds in nanoseconds: a million each, as far as 64 bits go.
pub proof fn law_milliseconds_are_a_million_nanoseconds(milliseconds: u64)
    ensures
        milliseconds <= 18_446_744_073_709 ==> live::nanoseconds(milliseconds) == milliseconds
            * 1_000_000,
        milliseconds > 18_446_744_073_709 ==> live::nanoseconds(milliseconds) == u64::MAX,
{
}

/// The next frame is due where there is one that can be shown under its id, and its time
/// has come.
pub proof fn law_frames_that_are_due(clock: FrameClock, frames: nat, now: u64)
    ensures
        clock.due(frames, now) <==> clock.kitty is Some && frames > 1 && clock.next_frame <= now,
{
}

/// An image is shown by every protocol but text and none: by pixels or by half blocks.
pub proof fn law_protocols_that_show_images(protocol: SelectedProtocol, shows: bool)
    requires
        call_ensures(shows_image, (protocol,), shows),
    ensures
        shows <==> protocol != SelectedProtocol::Text && protocol != SelectedProtocol::Off && protocol
            != SelectedProtocol::BoundedQueryRequired,
{
}

} // verus!
