use rvi::editor::Editor;

fn numbered(n: usize) -> String {
    (0..n).map(|i| format!("line{}", i)).collect::<Vec<_>>().join("\n")
}

#[test]
fn test_ctrl_f_scrolls_forward_full_screen() {
    let mut editor = Editor::for_testing(&numbered(40));
    editor.state.viewport.set_height(10);
    editor.scroll_full_screen_forward(1);
    assert_eq!(editor.state.viewport.top_line(), 8);
    assert_eq!(editor.document.cursor.row, 8);
}

#[test]
fn test_ctrl_b_scrolls_backward_full_screen() {
    let mut editor = Editor::for_testing(&numbered(40));
    editor.state.viewport.set_height(10);
    editor.state.viewport.set_top_line(20);
    editor.document.cursor.row = 20;
    editor.scroll_full_screen_backward(1);
    assert_eq!(editor.state.viewport.top_line(), 12);
    assert_eq!(editor.document.cursor.row, 12);
}

#[test]
fn test_ctrl_d_scrolls_half_screen_down() {
    let mut editor = Editor::for_testing(&numbered(40));
    editor.state.viewport.set_height(20);
    editor.scroll_half_screen_down(None);
    assert_eq!(editor.state.viewport.top_line(), 10);
    assert_eq!(editor.document.cursor.row, 10);
}

#[test]
fn test_ctrl_u_scrolls_half_screen_up() {
    let mut editor = Editor::for_testing(&numbered(40));
    editor.state.viewport.set_height(20);
    editor.state.viewport.set_top_line(20);
    editor.document.cursor.row = 20;
    editor.scroll_half_screen_up(None);
    assert_eq!(editor.state.viewport.top_line(), 10);
    assert_eq!(editor.document.cursor.row, 10);
}

#[test]
fn test_ctrl_e_scrolls_one_line_down() {
    let mut editor = Editor::for_testing(&numbered(20));
    editor.state.viewport.set_height(10);
    editor.document.cursor.row = 5;
    editor.scroll_line_down(1);
    assert_eq!(editor.state.viewport.top_line(), 1);
    assert_eq!(editor.document.cursor.row, 5);
}

#[test]
fn test_ctrl_y_scrolls_one_line_up() {
    let mut editor = Editor::for_testing(&numbered(20));
    editor.state.viewport.set_height(10);
    editor.state.viewport.set_top_line(5);
    editor.document.cursor.row = 5;
    editor.scroll_line_up(1);
    assert_eq!(editor.state.viewport.top_line(), 4);
    assert_eq!(editor.document.cursor.row, 5);
}

#[test]
fn test_ctrl_e_clamps_cursor_when_scrolled_past() {
    let mut editor = Editor::for_testing(&numbered(20));
    editor.state.viewport.set_height(5);
    editor.state.viewport.set_top_line(10);
    editor.document.cursor.row = 10;
    for _ in 0..3 {
        editor.scroll_line_down(1);
    }
    assert!(editor.document.cursor.row >= editor.state.viewport.top_line());
}

#[test]
fn test_h_moves_to_top_of_screen() {
    let mut editor = Editor::for_testing(&numbered(30));
    editor.state.viewport.set_height(10);
    editor.state.viewport.set_top_line(5);
    editor.document.cursor.row = 10;
    editor.move_to_screen_top(0);
    assert_eq!(editor.document.cursor.row, 5);
}

#[test]
fn test_m_moves_to_middle_of_screen() {
    let mut editor = Editor::for_testing(&numbered(30));
    editor.state.viewport.set_height(10);
    editor.state.viewport.set_top_line(0);
    editor.document.cursor.row = 0;
    editor.move_to_screen_middle();
    assert_eq!(editor.document.cursor.row, 5);
}

#[test]
fn test_l_moves_to_bottom_of_screen() {
    let mut editor = Editor::for_testing(&numbered(30));
    editor.state.viewport.set_height(10);
    editor.state.viewport.set_top_line(0);
    editor.document.cursor.row = 0;
    editor.move_to_screen_bottom(0);
    assert_eq!(editor.document.cursor.row, 9);
}

#[test]
fn test_zt_scrolls_cursor_to_top() {
    let mut editor = Editor::for_testing(&numbered(30));
    editor.state.viewport.set_height(10);
    editor.document.cursor.row = 15;
    editor.scroll_cursor_top();
    assert_eq!(editor.state.viewport.top_line(), 15);
}

#[test]
fn test_zz_scrolls_cursor_to_middle() {
    let mut editor = Editor::for_testing(&numbered(30));
    editor.state.viewport.set_height(10);
    editor.document.cursor.row = 20;
    editor.scroll_cursor_middle();
    assert_eq!(editor.state.viewport.top_line(), 15);
}

#[test]
fn test_zb_scrolls_cursor_to_bottom() {
    let mut editor = Editor::for_testing(&numbered(30));
    editor.state.viewport.set_height(10);
    editor.document.cursor.row = 20;
    editor.scroll_cursor_bottom();
    assert_eq!(editor.state.viewport.top_line(), 11);
}

#[test]
fn scroll_cursor_middle_stops_at_last_screenful() {
    let mut editor = Editor::for_testing(&numbered(30));
    editor.state.viewport.set_height(10);
    editor.document.cursor.row = 28;
    editor.scroll_cursor_middle();
    assert_eq!(editor.state.viewport.top_line(), 20);
    editor.scroll_cursor_bottom();
    assert_eq!(editor.state.viewport.top_line(), 19);
    assert_eq!(editor.document.cursor.row, 28);
}

#[test]
fn scroll_cursor_top_past_end_uses_last_row() {
    let mut editor = Editor::for_testing(&numbered(3));
    editor.document.cursor.row = 7;
    editor.scroll_cursor_top();
    assert_eq!(editor.state.viewport.top_line(), 2);
}

#[test]
fn half_screen_count_is_remembered() {
    let mut editor = Editor::for_testing(&numbered(40));
    editor.state.viewport.set_height(20);
    editor.scroll_half_screen_down(Some(3));
    assert_eq!(editor.state.viewport.top_line(), 3);
    assert_eq!(editor.document.cursor.row, 3);
    editor.scroll_half_screen_down(None);
    assert_eq!(editor.state.viewport.top_line(), 6);
    editor.scroll_half_screen_up(None);
    assert_eq!(editor.state.viewport.top_line(), 3);
}

#[test]
fn full_screen_forward_stops_at_last_line() {
    let mut editor = Editor::for_testing(&numbered(12));
    editor.state.viewport.set_height(10);
    editor.scroll_full_screen_forward(5);
    assert_eq!(editor.state.viewport.top_line(), 11);
    assert_eq!(editor.document.cursor.row, 11);
}
