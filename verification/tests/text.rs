use tic_tac_toe::text::push_int;
use tic_tac_toe::Pos;

#[test]
fn ui_text_joins_the_coordinates() {
    assert_eq!(Pos::new(0, 0).ui_text(), "00");
    assert_eq!(Pos::new(1, 2).ui_text(), "12");
    assert_eq!(Pos::new(2, 1).ui_text(), "21");
    assert_eq!(Pos::new(10, 7).ui_text(), "107");
    assert_eq!(Pos::new(-3, 10).ui_text(), "-310");
    assert_eq!(Pos::new(5, -42).ui_text(), "5-42");
}

#[test]
fn ui_text_at_the_limits() {
    assert_eq!(Pos::new(i32::MIN, i32::MAX).ui_text(), "-21474836482147483647");
    assert_eq!(Pos::new(i32::MAX, i32::MIN).ui_text(), "2147483647-2147483648");
}

#[test]
fn ui_text_agrees_with_the_standard_formatting() {
    let samples = [0, 1, 9, 10, 11, 99, 100, 101, 1000, 65535, 1_000_000, i32::MAX, -1, -9, -10, -100, i32::MIN];
    for &x in samples.iter() {
        for &y in samples.iter() {
            assert_eq!(Pos::new(x, y).ui_text(), format!("{}{}", x, y));
        }
    }
}

#[test]
fn push_int_appends() {
    let mut text = String::from("n=");
    push_int(&mut text, 0);
    assert_eq!(text, "n=0");
    push_int(&mut text, -120);
    assert_eq!(text, "n=0-120");
    push_int(&mut text, 7);
    assert_eq!(text, "n=0-1207");
}
