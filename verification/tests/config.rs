use game_of_life::config::{EdgeRule, UniverseConfig, UniverseInput, DEFAULT_CELL_SIZE, DEFAULT_PADDING};

#[test]
fn default_configuration() {
    let config = UniverseConfig::new();
    assert!(matches!(config.get_input(), UniverseInput::RleString(text) if text == "this"));
    assert_eq!(config.get_padding(), DEFAULT_PADDING);
    assert_eq!(config.get_padding(), 0);
    assert_eq!(config.get_cell_size(), DEFAULT_CELL_SIZE);
    assert_eq!(config.get_cell_size(), 10);
    assert_eq!(config.get_override_size(), None);
    assert_eq!(config.get_edge_rule(), EdgeRule::Wrap);
    assert!(config.lines_enabled);
    assert_eq!(config.line_width, 2);
    assert_eq!(config.border_width, 4);
    assert!(!config.allow_overflow);
    assert_eq!(config.get_line_color(), "white");
    assert_eq!(config.get_cell_alive_color(), "black");
    assert_eq!(config.get_cell_dead_color(), "white");
}

#[test]
fn setters_change_one_field_each() {
    let config = UniverseConfig::new()
        .set_random_input()
        .set_padding(3)
        .set_cell_size(7)
        .set_edge_rule(EdgeRule::Truncate)
        .set_line_color("red")
        .set_cell_alive_color("#00FF00")
        .set_cell_dead_color("blue")
        .set_override_size(40, 30);
    assert!(matches!(config.get_input(), UniverseInput::Random));
    assert_eq!(config.get_padding(), 3);
    assert_eq!(config.get_cell_size(), 7);
    assert_eq!(config.get_edge_rule(), EdgeRule::Truncate);
    assert_eq!(config.get_line_color(), "red");
    assert_eq!(config.get_cell_alive_color(), "#00FF00");
    assert_eq!(config.get_cell_dead_color(), "blue");
    assert_eq!(config.get_override_size(), Some((40, 30)));
    assert!(config.get_lines_enabled());
    assert_eq!(config.get_line_width(), 2);
    assert_eq!(config.get_border_width(), 4);
    assert!(!config.get_allow_overflow());
}

#[test]
fn set_rle_input_keeps_the_text() {
    let config = UniverseConfig::new().set_random_input().set_rle_input("#C\nx = 001, y = 001\no!");
    assert!(matches!(config.get_input(), UniverseInput::RleString(text) if text == "#C\nx = 001, y = 001\no!"));
}

#[test]
fn construct_keeps_the_configuration() {
    let universe = UniverseConfig::new().set_padding(5).construct();
    assert_eq!(universe.config().get_padding(), 5);
    assert_eq!(universe.width(), 0);
    assert_eq!(universe.height(), 0);
}
