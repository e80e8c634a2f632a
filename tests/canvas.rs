use char_canvas::Canvas;

#[test]
fn test_empty_canvas() {
    let canvas = Canvas::new(1, 5);
    let expected_res = String::from("     \n");
    let result = canvas.get_string();

    assert_eq!(result, expected_res);
}

#[test]
fn test_horizontal_with_blank_chars() {
    let mut canvas = Canvas::new(1, 10);
    let expected_res = String::from("    +---+ \n");

    canvas.draw_horizontal_line('+', '-', '+', (0, 4), 5).unwrap();
    let result = canvas.get_string();

    assert_eq!(result, expected_res);
}

#[test]
fn test_horizontal_with_empty_line() {
    let mut canvas = Canvas::new(2, 5);
    let expected_res = String::from("+---+\n     \n");

    canvas.draw_horizontal_line('+', '-', '+', (0, 0), 5).unwrap();
    let result = canvas.get_string();

    assert_eq!(result, expected_res);
}

#[test]
fn test_horizontal_line() {
    let mut canvas = Canvas::new(1, 5);
    let expected_res = String::from("+---+\n");

    canvas.draw_horizontal_line('+', '-', '+', (0, 0), 5).unwrap();
    let result = canvas.get_string();

    assert_eq!(result, expected_res);
}

#[test]
fn test_vertical_with_blank_chars() {
    let mut canvas = Canvas::new(10, 1);
    let expected_res = String::from(" \n \n \n \n+\n|\n|\n|\n+\n \n");

    canvas.draw_vertical_line('+', '|', '+', (4, 0), 5).unwrap();
    let result = canvas.get_string();

    assert_eq!(result, expected_res);
}

#[test]
fn test_vertical_with_empty_column() {
    let mut canvas = Canvas::new(10, 2);
    let expected_res = String::from("  \n  \n  \n  \n+ \n| \n| \n| \n+ \n  \n");

    canvas.draw_vertical_line('+', '|', '+', (4, 0), 5).unwrap();
    let result = canvas.get_string();

    assert_eq!(result, expected_res);
}

#[test]
fn test_vertical_line() {
    let mut canvas = Canvas::new(5, 1);
    let expected_res = String::from("+\n|\n|\n|\n+\n");

    canvas.draw_vertical_line('+', '|', '+', (0, 0), 5).unwrap();
    let result = canvas.get_string();

    assert_eq!(result, expected_res);
}

#[test]
fn test_square() {
    let mut canvas = Canvas::new(4, 4);
    let expected_res = String::from("+--+\n|  |\n|  |\n+--+\n");

    canvas.draw_square((0, 0), 4).unwrap();
    let result = canvas.get_string();

    assert_eq!(result, expected_res);
}

#[test]
fn test_square_empty_lines() {
    let mut canvas = Canvas::new(6, 4);
    let expected_res = String::from("    \n+--+\n|  |\n|  |\n+--+\n    \n");

    canvas.draw_square((1, 0), 4).unwrap();
    let result = canvas.get_string();

    assert_eq!(result, expected_res);
}

#[test]
fn test_square_empty_lines_columns() {
    let mut canvas = Canvas::new(6, 6);
    let expected_res = String::from("      \n +--+ \n |  | \n |  | \n +--+ \n      \n");

    canvas.draw_square((1, 1), 4).unwrap();
    let result = canvas.get_string();

    assert_eq!(result, expected_res);
}
