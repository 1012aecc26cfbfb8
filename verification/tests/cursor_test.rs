use lazyssh::cursor::{normalize, step_left, step_right, vertical_step, Direction};

#[test]
fn test_normalize_clamps_and_advances() {
    assert_eq!(normalize("hello", 10), 5);
    assert_eq!(normalize("hello", 3), 3);
    // "é" takes two bytes: offset 1 lies inside it.
    assert_eq!(normalize("é", 1), 2);
    assert_eq!(normalize("", 0), 0);
    assert_eq!(normalize("", 7), 0);
}

#[test]
fn test_step_left_and_right() {
    assert_eq!(step_left("", 0), 0);
    assert_eq!(step_right("", 0), 0);
    assert_eq!(step_left("aé", 3), 1);
    assert_eq!(step_left("aé", 2), 1);
    assert_eq!(step_left("aé", 1), 0);
    assert_eq!(step_left("aé", 9), 1);
    assert_eq!(step_right("aé", 0), 1);
    assert_eq!(step_right("aé", 1), 3);
    assert_eq!(step_right("aé", 2), 3);
    assert_eq!(step_right("aé", 3), 3);
}

#[test]
fn test_vertical_step_lines() {
    let text = "abcd\nef\nghij";
    assert_eq!(vertical_step(text, 3, Direction::Down), 7);
    assert_eq!(vertical_step(text, 7, Direction::Down), 10);
    assert_eq!(vertical_step(text, 10, Direction::Down), 10);
    assert_eq!(vertical_step(text, 10, Direction::Up), 7);
    assert_eq!(vertical_step(text, 6, Direction::Up), 1);
    assert_eq!(vertical_step(text, 1, Direction::Up), 1);
    assert_eq!(vertical_step("\n\n", 0, Direction::Down), 1);
    assert_eq!(vertical_step("\n\n", 1, Direction::Down), 2);
    assert_eq!(vertical_step("\n\n", 2, Direction::Down), 2);
    assert_eq!(vertical_step("\n\n", 2, Direction::Up), 1);
}

#[test]
fn test_normalize_twice_is_normalize_once() {
    let text = "aé中😀\nz";
    let len = text.len();
    for pos in 0..len + 3 {
        let once = normalize(text, pos);
        assert!(text.is_char_boundary(once));
        assert!(once <= len);
        assert!(once >= pos.min(len));
        assert_eq!(normalize(text, once), once);
    }
}

#[test]
fn test_left_then_right_covers_one_character() {
    let text = "aé中😀\nz";
    let len = text.len();
    for pos in 0..len + 3 {
        let left = step_left(text, pos);
        let right = step_right(text, left);
        assert!(text.is_char_boundary(left));
        assert!(text.is_char_boundary(right));
        assert!(left < right);
        assert_eq!(text[left..right].chars().count(), 1);
        if pos > 0 {
            assert_eq!(right, normalize(text, pos));
        }
    }
    assert_eq!(step_right("中", step_left("中", 0)), 3);
}

#[test]
fn test_vertical_step_on_single_line_is_no_op() {
    let text = "héllo wörld";
    for pos in 0..text.len() + 1 {
        if text.is_char_boundary(pos) {
            assert_eq!(vertical_step(text, pos, Direction::Up), pos);
            assert_eq!(vertical_step(text, pos, Direction::Down), pos);
        } else {
            assert_eq!(vertical_step(text, pos, Direction::Up), normalize(text, pos));
            assert_eq!(vertical_step(text, pos, Direction::Down), normalize(text, pos));
        }
    }
    assert_eq!(vertical_step("", 0, Direction::Up), 0);
    assert_eq!(vertical_step("", 5, Direction::Down), 0);
    assert_eq!(vertical_step("abc", 9, Direction::Down), 3);
}

#[test]
fn test_vertical_step_keeps_byte_column_and_lands_on_boundary() {
    // Line 0 is "abcd" (0..4), line 1 is "éé" (5..9), line 2 is "xyz" (10..13).
    let text = "abcd\néé\nxyz";
    assert_eq!(vertical_step(text, 1, Direction::Down), 7);
    assert_eq!(vertical_step(text, 2, Direction::Down), 7);
    assert_eq!(vertical_step(text, 3, Direction::Down), 9);
    assert_eq!(vertical_step(text, 4, Direction::Down), 9);
    assert_eq!(vertical_step(text, 9, Direction::Down), 13);
    assert_eq!(vertical_step(text, 7, Direction::Up), 2);
    assert_eq!(vertical_step(text, 13, Direction::Up), 9);
    assert_eq!(vertical_step(text, 11, Direction::Up), 7);
    assert_eq!(vertical_step(text, 5, Direction::Up), 0);
    // A cursor exactly on a line feed belongs to the line that it ends.
    assert_eq!(vertical_step(text, 4, Direction::Up), 4);
    assert_eq!(vertical_step("ab\n", 2, Direction::Down), 3);
    assert_eq!(vertical_step("ab\n", 3, Direction::Up), 0);
    assert_eq!(vertical_step("ab\n", 3, Direction::Down), 3);
}
