use endless_runner::tile::{is_solid, same_rgb, Rgb, TileClass};

#[test]
fn rgb_new_keeps_the_channels() {
    let c = Rgb::new(1, 2, 3);
    assert_eq!(c.red, 1);
    assert_eq!(c.green, 2);
    assert_eq!(c.blue, 3);
}

#[test]
fn same_rgb_compares_all_three_channels() {
    let c = Rgb::new(10, 20, 30);
    assert!(same_rgb(&c, &Rgb::new(10, 20, 30)));
    assert!(!same_rgb(&c, &Rgb::new(11, 20, 30)));
    assert!(!same_rgb(&c, &Rgb::new(10, 21, 30)));
    assert!(!same_rgb(&c, &Rgb::new(10, 20, 31)));
}

#[test]
fn white_and_boost_blue_are_solid() {
    assert!(is_solid(&Rgb::new(255, 255, 255)));
    assert!(is_solid(&Rgb::new(99, 155, 255)));
}

#[test]
fn hazard_red_and_other_colours_are_not_solid() {
    assert!(!is_solid(&Rgb::new(217, 87, 99)));
    assert!(!is_solid(&Rgb::new(0, 0, 0)));
    assert!(!is_solid(&Rgb::new(255, 255, 254)));
    assert!(!is_solid(&Rgb::new(99, 155, 254)));
}

#[test]
fn the_four_classes_come_from_their_colours() {
    assert_eq!(TileClass::from_rgb(&Rgb::new(255, 255, 255)), TileClass::Solid);
    assert_eq!(TileClass::from_rgb(&Rgb::new(217, 87, 99)), TileClass::Hazard);
    assert_eq!(TileClass::from_rgb(&Rgb::new(99, 155, 255)), TileClass::Boost);
    assert_eq!(TileClass::from_rgb(&Rgb::new(0, 0, 0)), TileClass::Empty);
    assert_eq!(TileClass::from_rgb(&Rgb::new(175, 175, 175)), TileClass::Empty);
}

#[test]
fn a_near_miss_of_a_palette_colour_is_empty() {
    assert_eq!(TileClass::from_rgb(&Rgb::new(254, 255, 255)), TileClass::Empty);
    assert_eq!(TileClass::from_rgb(&Rgb::new(217, 87, 100)), TileClass::Empty);
    assert_eq!(TileClass::from_rgb(&Rgb::new(99, 156, 255)), TileClass::Empty);
    assert_eq!(TileClass::from_rgb(&Rgb::new(217, 155, 255)), TileClass::Empty);
}

#[test]
fn solid_and_boost_stop_a_fall() {
    assert!(TileClass::Solid.is_stopping());
    assert!(TileClass::Boost.is_stopping());
    assert!(!TileClass::Hazard.is_stopping());
    assert!(!TileClass::Empty.is_stopping());
}
