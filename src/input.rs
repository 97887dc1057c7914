//! Orders from the player: selecting actors, targeting runs and throws, and
//! the keys that move the match on.
use vstd::prelude::*;
use crate::actor::{Actor, ActorAction, ActorRecord};
use crate::ball::{ActorId, BallPossession, TRUE_SPRITE_SIZE};
use crate::geometry::Vec2i;
use crate::states::{AppState, PhaseEvent, next_phase, phase_after};

verus! {

/// The action that an order for `action` gives: an actor that is recovering
/// queues it, any other actor starts it at once.
pub open spec fn ordered(actor: Actor, action: ActorAction) -> Actor {
    if actor.act_action is Recovering {
        actor.queued(action)
    } else {
        Actor { act_action: action, queued_action: None, ..actor }
    }
}

/// Gives an actor an order: a recovering actor takes it up when it has
/// recovered, any other at once.
pub fn give_order(actor: &mut Actor, action: ActorAction)
    ensures
        *final(actor) == ordered(*old(actor), action),
{
    match actor.act_action {
        ActorAction::Recovering(_) => {
            actor.queue_action(action);
        },
        _ => {
            actor.set_action(action);
        },
    }
}

/// Width of the window.
pub const WIN_W: i32 = 800;

/// Height of the window.
pub const WIN_H: i32 = 600;

/// Height of the strip of buttons at the top of the window.
pub const UI_SIZE: i32 = 20;

/// What a click on the field orders the selected actor to do.
#[derive(PartialEq, Eq, Structural, Clone, Copy, Debug)]
pub enum ControlMode {
    Run,
    Throw,
}

/// The control mode in force.
#[derive(PartialEq, Eq, Structural, Clone, Copy, Debug)]
pub struct CurrentControlMode(pub ControlMode);

/// Every round starts in run mode.
pub fn reset_control_mode(control_mode: &mut CurrentControlMode)
    ensures
        final(control_mode).0 == ControlMode::Run,
{
    control_mode.0 = ControlMode::Run;
}

/// A window position, origin at the bottom left corner, as a world position,
/// origin at the centre.
pub fn transform_pos_window_to_screen(window_pos: Vec2i) -> (r: Vec2i)
    requires
        window_pos.in_world(),
    ensures
        r.x == window_pos.x - WIN_W / 2,
        r.y == window_pos.y - WIN_H / 2,
{
    Vec2i { x: window_pos.x - WIN_W / 2, y: window_pos.y - WIN_H / 2 }
}

/// Whether `point` lies strictly inside the square of half side
/// `rect_half_size` centred on `rect_origin`.
pub open spec fn in_square(point: Vec2i, rect_origin: Vec2i, rect_half_size: int) -> bool {
    &&& rect_origin.x - rect_half_size < point.x < rect_origin.x + rect_half_size
    &&& rect_origin.y - rect_half_size < point.y < rect_origin.y + rect_half_size
}

/// Whether `point` lies strictly inside the square of half side
/// `rect_half_size` centred on `rect_origin`.
pub fn is_point_in_square(point: Vec2i, rect_origin: Vec2i, rect_half_size: i32) -> (r: bool)
    ensures
        r == in_square(point, rect_origin, rect_half_size as int),
{
    let x = point.x as i64;
    let y = point.y as i64;
    let h = rect_half_size as i64;
    x > rect_origin.x as i64 - h && x < rect_origin.x as i64 + h && y > rect_origin.y as i64 - h && y
        < rect_origin.y as i64 + h
}

/// The start key moves the match on from the introduction or the score screen.
pub fn handle_keyboard_input_pre_round(app_state: AppState, start_pressed: bool) -> (r: AppState)
    ensures
        r == if start_pressed {
            phase_after(app_state, PhaseEvent::Confirmed)
        } else {
            app_state
        },
{
    if start_pressed {
        next_phase(app_state, PhaseEvent::Confirmed)
    } else {
        app_state
    }
}

/// The control mode after the mode key: it switches between running and
/// throwing while the selected actor holds the ball.
pub open spec fn toggled_mode(mode: ControlMode, selected_has_ball: bool) -> ControlMode {
    if selected_has_ball {
        match mode {
            ControlMode::Run => ControlMode::Throw,
            ControlMode::Throw => ControlMode::Run,
        }
    } else {
        mode
    }
}

/// Keys while planning: the play key starts the round; the mode key switches
/// the control mode while the selected actor holds the ball.
pub fn handle_keyboard_input(
    app_state: &mut AppState,
    control_mode: &mut CurrentControlMode,
    play_pressed: bool,
    mode_pressed: bool,
    selected: Option<ActorId>,
    possession: &BallPossession,
)
    ensures
        *final(app_state) == if play_pressed {
            phase_after(*old(app_state), PhaseEvent::PlayOrdered)
        } else {
            *old(app_state)
        },
        final(control_mode).0 == if mode_pressed {
            toggled_mode(old(control_mode).0, selected is Some && possession@ == selected)
        } else {
            old(control_mode).0
        },
{
    if play_pressed {
        *app_state = next_phase(*app_state, PhaseEvent::PlayOrdered);
    }
    if let Some(entity) = selected {
        if mode_pressed && possession.has_actor_ball(entity) {
            control_mode.0 = match control_mode.0 {
                ControlMode::Throw => ControlMode::Run,
                ControlMode::Run => ControlMode::Throw,
            };
        }
    }
}

/// The player's actor under a click at `click`: the last in the roster whose
/// sprite holds the point, other than the one already selected.
pub open spec fn clicked_actor(roster: Seq<ActorRecord>, click: Vec2i, selected: Option<ActorId>, i: int) -> Option<ActorId>
    decreases i,
{
    if i <= 0 {
        None
    } else {
        let j = i - 1;
        let r = roster[j];
        if r.ai is None && selected != Some(j as ActorId) && in_square(click, r.position, (TRUE_SPRITE_SIZE / 2) as int) {
            Some(j as ActorId)
        } else {
            clicked_actor(roster, click, selected, j)
        }
    }
}

/// What a left click on the field did.
#[derive(PartialEq, Eq, Structural, Clone, Copy, Debug)]
pub enum ClickOutcome {
    /// The click fell on the buttons.
    Ignored,
    /// The click selected one of the player's actors; `has_ball` says whether
    /// it holds the ball.
    Selected { actor: ActorId, has_ball: bool },
    /// The selected actor was ordered to run or throw to the click.
    Ordered { actor: ActorId, action: ActorAction },
    /// Nothing was selected to give an order to.
    NothingSelected,
}

/// Handles a left click at world position `click` while planning. A click on
/// the buttons is ignored. A click on one of the player's actors selects it
/// and sets run mode. Any other click orders the selected actor to run, or to
/// throw, to that point, as the control mode says.
pub fn handle_mouse_click(
    roster: &mut Vec<ActorRecord>,
    selected: &mut Option<ActorId>,
    control_mode: &mut CurrentControlMode,
    possession: &BallPossession,
    click: Vec2i,
) -> (r: ClickOutcome)
    ensures
        final(roster)@.len() == old(roster)@.len(),
        click.y >= WIN_H / 2 - UI_SIZE ==> r == ClickOutcome::Ignored && final(roster)@ == old(roster)@
            && *final(selected) == *old(selected) && *final(control_mode) == *old(control_mode),
        click.y < WIN_H / 2 - UI_SIZE ==> match clicked_actor(old(roster)@, click, *old(selected), old(roster)@.len() as int) {
            Some(a) => {
                &&& r == ClickOutcome::Selected { actor: a, has_ball: possession@ == Some(a) }
                &&& *final(selected) == Some(a)
                &&& final(control_mode).0 == ControlMode::Run
                &&& final(roster)@ == old(roster)@
            },
            None => match *old(selected) {
                Some(s) if s < old(roster)@.len() => {
                    let action = match old(control_mode).0 {
                        ControlMode::Run => ActorAction::Running { x: click.x, y: click.y },
                        ControlMode::Throw => ActorAction::Throwing { x: click.x, y: click.y },
                    };
                    &&& r == ClickOutcome::Ordered { actor: s, action }
                    &&& final(roster)@ == old(roster)@.update(
                        s as int,
                        ActorRecord { actor: ordered(old(roster)@[s as int].actor, action), ..old(roster)@[s as int] },
                    )
                    &&& *final(selected) == *old(selected)
                    &&& *final(control_mode) == *old(control_mode)
                },
                _ => {
                    &&& r == ClickOutcome::NothingSelected
                    &&& final(roster)@ == old(roster)@
                    &&& *final(selected) == *old(selected)
                    &&& *final(control_mode) == *old(control_mode)
                },
            },
        },
{
    if click.y >= WIN_H / 2 - UI_SIZE {
        return ClickOutcome::Ignored;
    }
    let n = roster.len();
    let mut found: Option<ActorId> = None;
    let mut i: usize = 0;
    while i < n
        invariant
            n == roster@.len(),
            0 <= i <= n,
            found == clicked_actor(roster@, click, *selected, i as int),
        decreases n - i,
    {
        let r = &roster[i];
        if r.ai.is_none() && *selected != Some(i) && is_point_in_square(click, r.position, TRUE_SPRITE_SIZE / 2) {
            found = Some(i);
        } else {
            proof {
                assert(clicked_actor(roster@, click, *selected, i as int + 1) == clicked_actor(
                    roster@,
                    click,
                    *selected,
                    i as int,
                ));
            }
        }
        i += 1;
    }
    match found {
        Some(a) => {
            *selected = Some(a);
            control_mode.0 = ControlMode::Run;
            ClickOutcome::Selected { actor: a, has_ball: possession.has_actor_ball(a) }
        },
        None => match *selected {
            Some(s) => {
                if s < n {
                    let action = match control_mode.0 {
                        ControlMode::Run => ActorAction::Running { x: click.x, y: click.y },
                        ControlMode::Throw => ActorAction::Throwing { x: click.x, y: click.y },
                    };
                    give_order(&mut roster[s].actor, action);
                    ClickOutcome::Ordered { actor: s, action }
                } else {
                    ClickOutcome::NothingSelected
                }
            },
            None => ClickOutcome::NothingSelected,
        },
    }
}

/// The buttons on the strip at the top of the window.
#[derive(PartialEq, Eq, Structural, Clone, Copy, Debug)]
pub enum ButtonAction {
    Throw,
    Run,
    Play,
}

/// A pressed button: run and throw set the control mode, play starts the
/// planned round.
pub fn handle_button_action(action: ButtonAction, control_mode: &mut CurrentControlMode, app_state: &mut AppState)
    ensures
        match action {
            ButtonAction::Run => final(control_mode).0 == ControlMode::Run && *final(app_state) == *old(app_state),
            ButtonAction::Throw => final(control_mode).0 == ControlMode::Throw && *final(app_state) == *old(app_state),
            ButtonAction::Play => *final(control_mode) == *old(control_mode) && *final(app_state) == phase_after(
                *old(app_state),
                PhaseEvent::PlayOrdered,
            ),
        },
{
    match action {
        ButtonAction::Run => {
            control_mode.0 = ControlMode::Run;
        },
        ButtonAction::Throw => {
            control_mode.0 = ControlMode::Throw;
        },
        ButtonAction::Play => {
            *app_state = next_phase(*app_state, PhaseEvent::PlayOrdered);
        },
    }
}

/// A right click drops the selection.
pub fn handle_right_click(selected: &mut Option<ActorId>)
    ensures
        *final(selected) is None,
{
    *selected = None;
}

} // verus!
