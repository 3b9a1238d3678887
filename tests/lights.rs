use flask::brightness::Brightness;
use flask::lights::{lighting_at, PointLight};

#[test]
fn light_bands_by_distance() {
    let light = PointLight::new(0, 0, 10);
    assert_eq!(light.get_brightness(5, 0), Brightness::Normal);
    assert_eq!(light.get_brightness(9, 0), Brightness::Dark);
    assert_eq!(light.get_brightness(15, 0), Brightness::VeryDark);
    assert_eq!(light.get_brightness(0, 7), Brightness::Dim);
    // exactly 0.8 and 0.6 stay in the lighter band
    assert_eq!(light.get_brightness(8, 0), Brightness::Dim);
    assert_eq!(light.get_brightness(6, 0), Brightness::Normal);
    assert_eq!(light.get_brightness(10, 0), Brightness::Dark);
    // 3-4-5 triangle: distance 5
    assert_eq!(light.get_brightness(3, 4), Brightness::Normal);
}

#[test]
fn far_points_are_darkest() {
    let light = PointLight::new(i64::MAX, i64::MIN, 65535);
    assert_eq!(light.get_brightness(i64::MIN, i64::MAX), Brightness::VeryDark);
    assert_eq!(light.get_brightness(i64::MAX - 100, i64::MIN + 100), Brightness::Normal);
}

#[test]
fn zero_radius_light() {
    let light = PointLight::new(2, 2, 0);
    assert_eq!(light.get_brightness(2, 2), Brightness::Normal);
    assert_eq!(light.get_brightness(2, 3), Brightness::VeryDark);
}

#[test]
fn lighting_keeps_the_lightest_band() {
    let lights = vec![PointLight::new(0, 0, 10), PointLight::new(20, 0, 10)];
    assert_eq!(lighting_at(Brightness::VeryDark, &lights, 9, 0), Brightness::Dark);
    assert_eq!(lighting_at(Brightness::VeryDark, &lights, 18, 0), Brightness::Normal);
    assert_eq!(lighting_at(Brightness::Dim, &lights, 100, 0), Brightness::Dim);
    assert_eq!(lighting_at(Brightness::Normal, &lights, 100, 0), Brightness::Normal);
    assert_eq!(lighting_at(Brightness::Dark, &vec![], 0, 0), Brightness::Dark);
}
