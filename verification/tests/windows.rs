use hopp_core::drawing::{DrawAction, LocalDrawing, StrokeTracker};
use hopp_core::room_service::{DrawSettings, DrawingMode};
use hopp_core::share_input::{
    button_number, clears_paths, click_count, key_action, sharer_display_name, first_word_of,
    CursorKind, KeyAction, PointerButton, ScreenShareTab, ShareInput, SharePointer, SharerCandidate,
};
use hopp_core::windows::{
    overlay_redraw_step, redraw_schedule, share_redraw_step, tab_for_id, CameraWindowError, DrawingWindowError,
    FrameDecision, FrameTracker, OverlayRedrawCommand, RedrawAction, RedrawCommand, RedrawWake,
    ScreensharingMessage, ScreensharingWindowError, ShareToolbar,
};

#[test]
fn window_error_texts() {
    assert_eq!(ScreensharingWindowError::WindowCreation.message(), "Failed to create window");
    assert_eq!(ScreensharingWindowError::SurfaceCreation.message(), "Failed to create wgpu surface");
    assert_eq!(DrawingWindowError::AdapterRequest.message(), "No suitable GPU adapter found");
    assert_eq!(CameraWindowError::DeviceRequest.message(), "Failed to request GPU device");
    assert_eq!(DrawingWindowError::WindowCreation.message(), "Failed to create window");
    assert_eq!(CameraWindowError::SurfaceCreation.message(), "Failed to create wgpu surface");
}

#[test]
fn tab_ids() {
    assert_eq!(tab_for_id("draw"), ScreenShareTab::Draw);
    assert_eq!(tab_for_id("point"), ScreenShareTab::Point);
    assert_eq!(tab_for_id("control"), ScreenShareTab::Control);
    assert_eq!(tab_for_id("Draw"), ScreenShareTab::Control);
    assert_eq!(tab_for_id(""), ScreenShareTab::Control);
}

#[test]
fn toolbar_tab_choice_sets_the_mode() {
    let mut bar = ShareToolbar::new();
    assert_eq!(bar.active_tab, "control");
    let mut p: SharePointer<(i32, i32)> = SharePointer::new();
    let r = bar.apply(&mut p, &ScreensharingMessage::TabSelected("draw"));
    assert_eq!(r, Some((DrawingMode::Draw(DrawSettings { permanent: false }), false)));
    assert_eq!(bar.active_tab, "draw");
    assert_eq!(p.tab, ScreenShareTab::Draw);
    let r = bar.apply(&mut p, &ScreensharingMessage::TabSelected("point"));
    assert_eq!(r, Some((DrawingMode::ClickAnimation, true)));
    let r = bar.apply(&mut p, &ScreensharingMessage::TabSelected("control"));
    assert_eq!(r, Some((DrawingMode::Disabled, true)));
}

#[test]
fn toolbar_dropdown() {
    let mut bar = ShareToolbar::new();
    let mut p: SharePointer<(i32, i32)> = SharePointer::new();
    assert_eq!(bar.apply(&mut p, &ScreensharingMessage::ToggleDropdown), None);
    assert!(bar.dropdown_open);
    assert_eq!(bar.apply(&mut p, &ScreensharingMessage::ToggleDropdown), None);
    assert!(!bar.dropdown_open);
    bar.apply(&mut p, &ScreensharingMessage::ToggleDropdown);
    assert_eq!(bar.apply(&mut p, &ScreensharingMessage::DismissDropdown), None);
    assert!(!bar.dropdown_open);
    bar.apply(&mut p, &ScreensharingMessage::ToggleDropdown);
    let r = bar.apply(&mut p, &ScreensharingMessage::DropdownItemClicked(1));
    assert_eq!(r, Some((DrawingMode::Draw(DrawSettings { permanent: true }), false)));
    assert!(!bar.dropdown_open);
    assert!(p.draw_persist);
    // Entries other than 0 and 1 keep the setting but publish fading strokes.
    let r = bar.apply(&mut p, &ScreensharingMessage::DropdownItemClicked(5));
    assert_eq!(r, Some((DrawingMode::Draw(DrawSettings { permanent: false }), false)));
    assert!(p.draw_persist);
    bar.apply(&mut p, &ScreensharingMessage::DropdownItemClicked(0));
    assert!(!p.draw_persist);
}

#[test]
fn share_redraw_timer() {
    assert_eq!(share_redraw_step(RedrawWake::Received(RedrawCommand::ForceRedraw), false), RedrawAction::Redraw);
    assert_eq!(share_redraw_step(RedrawWake::Received(RedrawCommand::ForceRedraw), true), RedrawAction::Wait);
    assert_eq!(share_redraw_step(RedrawWake::Received(RedrawCommand::Stop), false), RedrawAction::Exit);
    assert_eq!(share_redraw_step(RedrawWake::Disconnected, false), RedrawAction::Exit);
    assert_eq!(share_redraw_step(RedrawWake::TimedOut, true), RedrawAction::Redraw);
}

#[test]
fn overlay_redraw_timer() {
    let ms = 1_000_000u128;
    assert_eq!(
        overlay_redraw_step(RedrawWake::Received(OverlayRedrawCommand::Activity), 5 * ms),
        (RedrawAction::Wait, false)
    );
    assert_eq!(
        overlay_redraw_step(RedrawWake::Received(OverlayRedrawCommand::Activity), 16 * ms),
        (RedrawAction::Redraw, true)
    );
    assert_eq!(overlay_redraw_step(RedrawWake::TimedOut, 15_000 * ms), (RedrawAction::Redraw, false));
    assert_eq!(overlay_redraw_step(RedrawWake::TimedOut, 15_001 * ms), (RedrawAction::Wait, false));
    assert_eq!(
        overlay_redraw_step(RedrawWake::Received(OverlayRedrawCommand::Stop), 0),
        (RedrawAction::Exit, false)
    );
    assert_eq!(overlay_redraw_step(RedrawWake::Disconnected, 0), (RedrawAction::Exit, false));
}

#[test]
fn frame_tracker_draws_each_frame_once() {
    let mut g = FrameTracker::new();
    assert_eq!(g.check(1, 1920, 1080), FrameDecision::Resize { width: 1920, height: 1080 });
    assert_eq!(g.check(1, 1920, 1080), FrameDecision::Render { draw_frame: true });
    g.rendered(1, true);
    assert_eq!(g.check(1, 1920, 1080), FrameDecision::Render { draw_frame: false });
    g.rendered(1, false);
    assert_eq!(g.check(2, 1920, 1080), FrameDecision::Render { draw_frame: true });
    g.rendered(2, true);
    // A zero size does not count as a size change.
    assert_eq!(g.check(3, 0, 0), FrameDecision::Render { draw_frame: true });
}

#[test]
fn frame_tracker_detects_stream_restarts() {
    let mut g = FrameTracker::new();
    g.check(100, 640, 480);
    g.rendered(100, true);
    // 59 is within 40 of 100: not a restart, already drawn.
    assert_eq!(g.check(60, 640, 480), FrameDecision::Render { draw_frame: false });
    assert_eq!(g.last_rendered_frame_id, 100);
    // 59 is more than 40 below: the stream started over.
    assert_eq!(g.check(59, 640, 480), FrameDecision::Render { draw_frame: true });
    assert_eq!(g.last_rendered_frame_id, 0);
    g.rendered(59, true);
    g.reset_frames();
    assert_eq!(g.last_rendered_frame_id, 0);
}

#[test]
fn button_numbers() {
    assert_eq!(button_number(PointerButton::Left), 0);
    assert_eq!(button_number(PointerButton::Middle), 1);
    assert_eq!(button_number(PointerButton::Right), 2);
    assert_eq!(button_number(PointerButton::Back), 3);
    assert_eq!(button_number(PointerButton::Forward), 4);
    assert_eq!(button_number(PointerButton::Other(9)), 9);
}

#[test]
fn modes_that_clear_paths() {
    assert!(clears_paths(DrawingMode::Disabled));
    assert!(clears_paths(DrawingMode::ClickAnimation));
    assert!(!clears_paths(DrawingMode::Draw(DrawSettings { permanent: true })));
}

#[test]
fn copy_paste_keys() {
    assert_eq!(key_action(true, "c"), KeyAction::Copy);
    assert_eq!(key_action(true, "x"), KeyAction::Cut);
    assert_eq!(key_action(true, "v"), KeyAction::Paste);
    assert_eq!(key_action(true, "a"), KeyAction::Keystroke);
    assert_eq!(key_action(true, "cv"), KeyAction::Keystroke);
    assert_eq!(key_action(false, "c"), KeyAction::Keystroke);
}

#[test]
fn click_counting() {
    assert_eq!(click_count(0, 0, 0, true, true), 1);
    assert_eq!(click_count(1, 0, 0, true, true), 2);
    assert_eq!(click_count(2, 0, 0, true, true), 3);
    assert_eq!(click_count(3, 0, 0, true, true), 1);
    assert_eq!(click_count(3, 0, 0, true, false), 4);
    assert_eq!(click_count(1, 0, 2, true, true), 1);
    assert_eq!(click_count(1, 0, 0, false, true), 1);
}

#[test]
fn sharer_names() {
    assert_eq!(first_word_of("  Ada Lovelace"), Some("Ada".to_string()));
    assert_eq!(first_word_of("   "), None);
    let c = vec![
        SharerCandidate { sid: "a".to_string(), name: "Bob Smith".to_string(), is_screensharing: false },
        SharerCandidate { sid: "b".to_string(), name: "Alice Doe".to_string(), is_screensharing: true },
    ];
    assert_eq!(sharer_display_name(&c), "Alice");
    assert_eq!(sharer_display_name(&c[..1]), "Screen");
    let blank = vec![SharerCandidate { sid: "c".to_string(), name: " ".to_string(), is_screensharing: true }];
    assert_eq!(sharer_display_name(&blank), "Screen");
}

#[test]
fn share_pointer_drawing_strokes() {
    let mut p: SharePointer<(i32, i32)> = SharePointer::new();
    assert_eq!(p.cursor(), CursorKind::Default);
    p.select_tab(ScreenShareTab::Draw);
    assert_eq!(p.cursor_moved(true, (1, 1)), Some(ShareInput::CursorMoved((1, 1))));
    assert_eq!(p.cursor(), CursorKind::Pencil);
    assert_eq!(
        p.mouse_button(PointerButton::Left, true, (1, 1), false, true),
        Some(ShareInput::Draw(DrawAction::Start { point: (1, 1), path_id: 1 }))
    );
    assert_eq!(p.cursor_moved(true, (2, 2)), Some(ShareInput::Draw(DrawAction::AddPoint((2, 2)))));
    // Leaving ends the stroke where the pointer last was.
    assert_eq!(p.cursor_moved(false, (9, 9)), Some(ShareInput::Draw(DrawAction::End((2, 2)))));
    assert!(!p.left_mouse_pressed);
    assert_eq!(p.pointer_left(), None);
    p.cursor_moved(true, (3, 3));
    assert_eq!(
        p.mouse_button(PointerButton::Left, true, (3, 3), false, true),
        Some(ShareInput::Draw(DrawAction::Start { point: (3, 3), path_id: 2 }))
    );
    assert_eq!(p.mouse_button(PointerButton::Right, true, (3, 3), false, true), None);
    p.choose_draw_setting(1);
    assert_eq!(
        p.mouse_button(PointerButton::Right, true, (3, 3), false, true),
        Some(ShareInput::Draw(DrawAction::ClearAll))
    );
}

#[test]
fn share_pointer_control_clicks() {
    let mut p: SharePointer<(i32, i32)> = SharePointer::new();
    p.cursor_moved(true, (5, 5));
    assert_eq!(p.cursor(), CursorKind::Hand);
    assert!(p.forwards_wheel_and_keys());
    assert_eq!(
        p.mouse_button(PointerButton::Left, true, (5, 5), true, true),
        Some(ShareInput::MouseClick { point: (5, 5), button: 0, clicks: 1, down: true })
    );
    assert_eq!(
        p.mouse_button(PointerButton::Left, false, (5, 5), true, true),
        Some(ShareInput::MouseClick { point: (5, 5), button: 0, clicks: 1, down: false })
    );
    assert_eq!(
        p.mouse_button(PointerButton::Left, true, (5, 5), true, true),
        Some(ShareInput::MouseClick { point: (5, 5), button: 0, clicks: 2, down: true })
    );
    p.remote_control_allowed = false;
    assert_eq!(p.mouse_button(PointerButton::Left, true, (5, 5), true, true), None);
    assert!(!p.forwards_wheel_and_keys());
    p.reset_for_new_sharer();
    assert!(p.remote_control_allowed);
    assert_eq!(p.last_click_count, 0);
    p.select_tab(ScreenShareTab::Point);
    assert_eq!(p.cursor(), CursorKind::ClickPointer);
    assert_eq!(
        p.mouse_button(PointerButton::Left, true, (6, 6), false, true),
        Some(ShareInput::ClickAnimation((6, 6)))
    );
}

#[test]
fn local_drawing_on_the_overlay() {
    let mut d: LocalDrawing<(i32, i32)> = LocalDrawing::new();
    assert_eq!(d.on_left_button(true, true), None);
    assert_eq!(d.enable(true, true), DrawingMode::Draw(DrawSettings { permanent: true }));
    assert_eq!(d.on_cursor_moved((4, 4), true), None);
    assert_eq!(d.on_left_button(true, true), Some(DrawAction::Start { point: (4, 4), path_id: 1 }));
    assert_eq!(d.on_cursor_moved((5, 5), true), Some(DrawAction::AddPoint((5, 5))));
    assert_eq!(d.on_left_button(false, true), Some(DrawAction::End((5, 5))));
    assert_eq!(d.on_right_press(true), Some(DrawAction::ClearAll));
    assert!(d.disable());
    assert!(!d.enabled);
    d.reset();
    assert_eq!(d.current_path_id, 0);
}

#[test]
fn stroke_tracker_of_the_drawing_window() {
    let mut t: StrokeTracker<u8> = StrokeTracker::new();
    assert_eq!(t.cursor_moved(1), None);
    assert_eq!(t.left_button(true, 1), DrawAction::Start { point: 1, path_id: 1 });
    assert_eq!(t.cursor_moved(2), Some(DrawAction::AddPoint(2)));
    assert_eq!(t.pointer_left(), Some(DrawAction::End(2)));
    assert_eq!(t.pointer_left(), None);
    assert_eq!(t.right_button(true), None);
    t.set_draw_persist(true);
    assert_eq!(t.right_button(true), Some(DrawAction::ClearAll));
    assert_eq!(t.left_button(true, 3), DrawAction::Start { point: 3, path_id: 2 });
    assert_eq!(t.left_button(false, 4), DrawAction::End(4));
}

#[test]
fn redraw_schedule_wakes_at_the_earliest_redraw() {
    let (due, wake) = redraw_schedule(100, &[Some(90), None, Some(150), Some(120)]);
    assert_eq!(due, vec![true, false, false, false]);
    assert_eq!(wake, Some(90));
    let (due, wake) = redraw_schedule(100, &[None, Some(130), Some(110)]);
    assert_eq!(due, vec![false, false, false]);
    assert_eq!(wake, Some(110));
    let (due, wake) = redraw_schedule(5, &[None, None]);
    assert_eq!(due, vec![false, false]);
    assert_eq!(wake, None);
    assert_eq!(redraw_schedule(0, &[]), (vec![], None));
}
