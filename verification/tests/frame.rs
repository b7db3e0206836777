use karakuri_bridge::frame::{live, render_size, selected_renderer};

#[test]
fn the_largest_enabled_output_decides() {
    assert_eq!(render_size(&[Some((1280, 720)), Some((1920, 1080))]), Some((1920, 1080)));
    assert_eq!(render_size(&[Some((1920, 1080)), Some((1280, 720))]), Some((1920, 1080)));
}

#[test]
fn the_answer_is_some_outputs_own_size() {
    assert_eq!(render_size(&[Some((1920, 1080)), Some((1024, 1280))]), Some((1920, 1080)));
    assert_eq!(render_size(&[Some((1024, 1280)), Some((1920, 1080))]), Some((1920, 1080)));
    assert_eq!(render_size(&[Some((1000, 2000)), Some((1920, 1080))]), Some((1920, 1080)));
}

#[test]
fn a_tie_goes_to_the_program_view() {
    assert_eq!(render_size(&[Some((200, 100)), Some((100, 200))]), Some((200, 100)));
}

#[test]
fn every_output_off_says_nothing() {
    assert_eq!(render_size(&[None, None]), None);
    assert_eq!(render_size(&[]), None);
    assert_eq!(render_size(&[None, Some((640, 480))]), Some((640, 480)));
}

#[test]
fn huge_outputs_do_not_overflow() {
    assert_eq!(
        render_size(&[Some((u32::MAX, u32::MAX)), Some((u32::MAX, u32::MAX - 1))]),
        Some((u32::MAX, u32::MAX))
    );
}

#[test]
fn one_live_input_is_the_selection() {
    assert_eq!(selected_renderer(&[false, true, false]), Some(1));
}

#[test]
fn every_input_live_is_no_selection() {
    assert_eq!(selected_renderer(&[true, true]), None);
    assert_eq!(selected_renderer(&[true]), None);
    assert_eq!(selected_renderer(&[]), None);
}

#[test]
fn two_live_inputs_or_none_are_no_selection() {
    assert_eq!(selected_renderer(&[true, true, false]), None);
    assert_eq!(selected_renderer(&[false, false]), None);
}

#[test]
fn the_loop_runs_while_anything_shows_a_frame() {
    assert!(live(true, &[false; 4], false));
    assert!(live(false, &[false, false, true, false], false));
    // The projector alone keeps the show going.
    assert!(live(false, &[false; 4], true));
    assert!(!live(false, &[false; 4], false));
}
