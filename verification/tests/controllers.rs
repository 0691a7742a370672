use daktronics_allsport_5000::controllers::{ActiveSport, ControllerType};
use daktronics_allsport_5000::web::parse_sport;

#[test]
fn daktronics_supports_configured_sports() {
    assert!(ControllerType::Daktronics
        .compatible_sports()
        .contains(&ActiveSport::Basketball));
}

#[test]
fn daktronics_supports_every_sport_in_order() {
    let sports = ControllerType::Daktronics.compatible_sports();
    assert_eq!(
        sports,
        &[
            ActiveSport::Baseball,
            ActiveSport::Basketball,
            ActiveSport::Football,
            ActiveSport::Soccer,
            ActiveSport::Volleyball,
            ActiveSport::Wrestling,
            ActiveSport::WaterPolo,
        ]
    );
}

#[test]
fn sport_names() {
    assert_eq!(ActiveSport::Baseball.as_str(), "baseball");
    assert_eq!(ActiveSport::Basketball.as_str(), "basketball");
    assert_eq!(ActiveSport::Football.as_str(), "football");
    assert_eq!(ActiveSport::Soccer.as_str(), "soccer");
    assert_eq!(ActiveSport::Volleyball.as_str(), "volleyball");
    assert_eq!(ActiveSport::Wrestling.as_str(), "wrestling");
    assert_eq!(ActiveSport::WaterPolo.as_str(), "water_polo");
}

#[test]
fn sport_names_read_back() {
    for sport in ActiveSport::all() {
        assert_eq!(parse_sport(sport.as_str()), Some(*sport));
    }
}

#[test]
fn unknown_sport_names_are_refused() {
    assert_eq!(parse_sport("hockey"), None);
    assert_eq!(parse_sport("Basketball"), None);
    assert_eq!(parse_sport("water polo"), None);
    assert_eq!(parse_sport(""), None);
}
