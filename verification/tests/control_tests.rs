use chip8::control::{Actions, Control, Tick, DELAY_INCREMENT, SOUND_DELAY_INCREMENT};

fn quiet() -> Tick {
    Tick {
        since_delay_tick: 0,
        since_sound_tick: 0,
        step_pressed: false,
        stop_pressed: false,
        continue_pressed: false,
    }
}

#[test]
fn timers_tick_at_sixty_hertz() {
    assert_eq!(DELAY_INCREMENT, 16);
    assert_eq!(SOUND_DELAY_INCREMENT, 16);
}

#[test]
fn a_new_control_lets_the_engine_run() {
    let mut control = Control::initialise();
    assert_eq!(control.should_run, true);
    let actions = control.advance(&quiet());
    assert_eq!(
        actions,
        Actions { decrement_delay: false, decrement_sound: false, run_cycle: true }
    );
    assert_eq!(control.should_run, true);
}

#[test]
fn a_timer_ticks_once_its_period_is_over() {
    let mut control = Control::initialise();
    let at = control.advance(&Tick { since_delay_tick: 16, since_sound_tick: 17, ..quiet() });
    assert_eq!(at.decrement_delay, false);
    assert_eq!(at.decrement_sound, true);
    let over = control.advance(&Tick { since_delay_tick: 17, since_sound_tick: 16, ..quiet() });
    assert_eq!(over.decrement_delay, true);
    assert_eq!(over.decrement_sound, false);
    let back = control.advance(&Tick { since_delay_tick: -5, since_sound_tick: i64::MAX, ..quiet() });
    assert_eq!(back.decrement_delay, false);
    assert_eq!(back.decrement_sound, true);
}

#[test]
fn stop_takes_effect_after_the_pass_it_is_pressed_in() {
    let mut control = Control::initialise();
    let pressed = control.advance(&Tick { stop_pressed: true, ..quiet() });
    assert_eq!(pressed.run_cycle, true);
    assert_eq!(control.should_run, false);
    let after = control.advance(&quiet());
    assert_eq!(after.run_cycle, false);
    assert_eq!(control.should_run, false);
}

#[test]
fn a_stopped_engine_can_be_stepped() {
    let mut control = Control { should_run: false };
    let stepped = control.advance(&Tick { step_pressed: true, ..quiet() });
    assert_eq!(stepped.run_cycle, true);
    assert_eq!(control.should_run, false);
    let idle = control.advance(&quiet());
    assert_eq!(idle.run_cycle, false);
}

#[test]
fn continue_lets_the_engine_run_again() {
    let mut control = Control { should_run: false };
    let pressed = control.advance(&Tick { continue_pressed: true, ..quiet() });
    assert_eq!(pressed.run_cycle, false);
    assert_eq!(control.should_run, true);
    let after = control.advance(&quiet());
    assert_eq!(after.run_cycle, true);
}

#[test]
fn continue_wins_over_stop() {
    let mut control = Control::initialise();
    control.advance(&Tick { stop_pressed: true, continue_pressed: true, ..quiet() });
    assert_eq!(control.should_run, true);
    let mut control = Control { should_run: false };
    control.advance(&Tick { stop_pressed: true, continue_pressed: true, ..quiet() });
    assert_eq!(control.should_run, true);
}
