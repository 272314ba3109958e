use tw3d::controls::{command_for_key, idle_command, rest_after, Command, Key};
use tw3d::Scalar;

fn turn(dx: f32, dy: f32, dz: f32) -> Command {
    let s = |v: f32| Scalar::from_bits(v.to_bits());
    Command::Rotate { dx: s(dx), dy: s(dy), dz: s(dz) }
}

#[test]
fn keys_turn_the_mesh() {
    assert_eq!(command_for_key(Key::Char('w')), turn(0.1, 0.0, 0.0));
    assert_eq!(command_for_key(Key::Up), turn(0.1, 0.0, 0.0));
    assert_eq!(command_for_key(Key::Char('s')), turn(-0.1, 0.0, 0.0));
    assert_eq!(command_for_key(Key::Down), turn(-0.1, 0.0, 0.0));
    assert_eq!(command_for_key(Key::Char('a')), turn(0.0, -0.1, 0.0));
    assert_eq!(command_for_key(Key::Left), turn(0.0, -0.1, 0.0));
    assert_eq!(command_for_key(Key::Char('d')), turn(0.0, 0.1, 0.0));
    assert_eq!(command_for_key(Key::Right), turn(0.0, 0.1, 0.0));
    assert_eq!(command_for_key(Key::Char('e')), turn(0.0, 0.0, 0.1));
    assert_eq!(command_for_key(Key::Char('r')), turn(0.0, 0.0, -0.1));
}

#[test]
fn keys_quit_or_are_ignored() {
    assert_eq!(command_for_key(Key::Char('q')), Command::Quit);
    assert_eq!(command_for_key(Key::Esc), Command::Quit);
    for key in [Key::Char('Q'), Key::Char('x'), Key::Char(' '), Key::Char('W'), Key::Other] {
        assert_eq!(command_for_key(key), Command::Ignore);
    }
}

#[test]
fn idle_turn_is_slow() {
    assert_eq!(idle_command(), turn(0.01, 0.015, 0.0));
}

#[test]
fn rest_fills_the_frame() {
    assert_eq!(rest_after(10, 33), Some(23));
    assert_eq!(rest_after(0, 33), Some(33));
    assert_eq!(rest_after(33, 33), None);
    assert_eq!(rest_after(40, 33), None);
    assert_eq!(rest_after(0, 0), None);
}
