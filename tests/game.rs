use chess::{Color, Game};

#[test]
fn test_create_new_game() {
    let game = Game::new();
    assert_eq!(game.current_player(), Color::White);
}
