use openmensa::gateway::FetchError;
use openmensa::model::{display_name, Canteen, Coordinates};
use openmensa::query::{
    get_canteen_by_id, get_canteen_by_name, get_canteens_by_ids, get_canteens_by_location,
    get_canteens_by_locations, get_canteens_by_names,
};

fn canteen(id: u32, name: &str, city: &str, address: &str) -> Canteen {
    Canteen {
        id,
        name: name.to_string(),
        city: city.to_string(),
        address: address.to_string(),
        coordinates: None,
    }
}

fn fixture() -> Vec<Canteen> {
    let mut alte = canteen(79, "TU Dresden, Alte Mensa", "Dresden", "Mommsenstr. 13, 01062 Dresden");
    alte.coordinates = Some(Coordinates {
        latitude: 51.02696_f64.to_bits(),
        longitude: 13.72628_f64.to_bits(),
    });
    vec![
        canteen(1, "Mensa Academica", "Aachen", "Pontwall 3, 52062 Aachen"),
        alte,
        canteen(80, "TU Dresden, Neue Mensa", "Dresden", "Bergstr. 51, 01069 Dresden"),
        canteen(5, "Cafeteria Nord", "Leipzig", "Nordplatz 1, 04105 Leipzig"),
        canteen(6, "Cafeteria Süd", "Leipzig", "Südplatz 2, 04103 Leipzig"),
    ]
}

#[test]
fn by_id_finds_the_matching_canteen() {
    let found = get_canteen_by_id(Ok(fixture()), 80).unwrap().unwrap();
    assert_eq!(found.id, 80);
    assert_eq!(found.name, "TU Dresden, Neue Mensa");
    assert_eq!(found.city, "Dresden");
}

#[test]
fn by_id_absent_gives_none() {
    assert!(get_canteen_by_id(Ok(fixture()), 4242).unwrap().is_none());
    assert!(get_canteen_by_id(Ok(Vec::new()), 1).unwrap().is_none());
}

#[test]
fn by_id_keeps_coordinates() {
    let found = get_canteen_by_id(Ok(fixture()), 79).unwrap().unwrap();
    let coords = found.coordinates.unwrap();
    assert_eq!(f64::from_bits(coords.latitude), 51.02696);
    assert_eq!(f64::from_bits(coords.longitude), 13.72628);
}

#[test]
fn by_id_passes_a_failure_through() {
    let r = get_canteen_by_id(Err(FetchError::Status(503)), 1);
    assert_eq!(r.unwrap_err(), FetchError::Status(503));
}

#[test]
fn by_ids_is_the_intersection_in_list_order() {
    let found = get_canteens_by_ids(Ok(fixture()), vec![6, 999, 1, 79, 6]).unwrap();
    let ids: Vec<u32> = found.iter().map(|c| c.id).collect();
    assert_eq!(ids, vec![1, 79, 6]);
}

#[test]
fn by_ids_with_no_match_is_empty_not_an_error() {
    assert!(get_canteens_by_ids(Ok(fixture()), vec![2, 3]).unwrap().is_empty());
    assert!(get_canteens_by_ids(Ok(fixture()), Vec::new()).unwrap().is_empty());
}

#[test]
fn by_ids_passes_a_failure_through() {
    let r = get_canteens_by_ids(Err(FetchError::Decode), vec![1]);
    assert_eq!(r.unwrap_err(), FetchError::Decode);
}

#[test]
fn by_name_matches_the_raw_name_exactly() {
    let found = get_canteen_by_name(Ok(fixture()), "Cafeteria Nord").unwrap().unwrap();
    assert_eq!(found.id, 5);
    assert!(get_canteen_by_name(Ok(fixture()), "Alte Mensa").unwrap().is_none());
    assert!(get_canteen_by_name(Ok(fixture()), "cafeteria nord").unwrap().is_none());
}

#[test]
fn by_name_passes_a_failure_through() {
    let r = get_canteen_by_name(Err(FetchError::Transport), "Cafeteria Nord");
    assert_eq!(r.unwrap_err(), FetchError::Transport);
}

#[test]
fn by_names_keeps_list_order() {
    let found = get_canteens_by_names(
        Ok(fixture()),
        vec!["Cafeteria Süd", "Mensa Academica", "Nowhere"],
    )
    .unwrap();
    let ids: Vec<u32> = found.iter().map(|c| c.id).collect();
    assert_eq!(ids, vec![1, 6]);
    assert_eq!(found[1].name, "Cafeteria Süd");
}

#[test]
fn by_names_passes_a_failure_through() {
    let r = get_canteens_by_names(Err(FetchError::Status(404)), vec!["Mensa Academica"]);
    assert_eq!(r.unwrap_err(), FetchError::Status(404));
}

#[test]
fn by_location_derives_display_names() {
    let found = get_canteens_by_location(Ok(fixture()), "Dresden").unwrap();
    assert_eq!(found.len(), 2);
    assert_eq!(found[0].name, "Alte Mensa");
    assert_eq!(found[0].city, "Dresden");
    assert_eq!(found[0].address, "Mommsenstr. 13, 01062 Dresden");
    assert_eq!(found[0].id, 79);
    assert!(found[0].coordinates.is_some());
    assert_eq!(found[1].name, "Neue Mensa");
    assert_eq!(found[1].city, "Dresden");
    assert_eq!(found[1].address, "Bergstr. 51, 01069 Dresden");
}

#[test]
fn by_location_without_comma_gives_empty_name() {
    let found = get_canteens_by_location(Ok(fixture()), "Leipzig").unwrap();
    assert_eq!(found.len(), 2);
    assert_eq!(found[0].name, "");
    assert_eq!(found[0].id, 5);
    assert_eq!(found[1].name, "");
}

#[test]
fn by_location_unknown_city_is_empty() {
    assert!(get_canteens_by_location(Ok(fixture()), "Berlin").unwrap().is_empty());
    assert!(get_canteens_by_location(Ok(fixture()), "dresden").unwrap().is_empty());
}

#[test]
fn by_location_passes_a_failure_through() {
    let r = get_canteens_by_location(Err(FetchError::Status(500)), "Dresden");
    assert_eq!(r.unwrap_err(), FetchError::Status(500));
}

#[test]
fn by_locations_keeps_list_order() {
    let found = get_canteens_by_locations(Ok(fixture()), vec!["Leipzig", "Aachen"]).unwrap();
    let ids: Vec<u32> = found.iter().map(|c| c.id).collect();
    assert_eq!(ids, vec![1, 5, 6]);
    assert_eq!(found[0].name, "");
}

#[test]
fn by_locations_passes_a_failure_through() {
    let r = get_canteens_by_locations(Err(FetchError::Transport), vec!["Leipzig"]);
    assert_eq!(r.unwrap_err(), FetchError::Transport);
}

#[test]
fn display_name_takes_the_second_segment() {
    assert_eq!(display_name("TU Dresden, Alte Mensa"), "Alte Mensa");
    assert_eq!(display_name("A, B, C"), "B");
    assert_eq!(display_name("A,B"), "B");
    assert_eq!(display_name("A,  B  "), "B");
    assert_eq!(display_name("A,"), "");
    assert_eq!(display_name(",B"), "B");
    assert_eq!(display_name("A,,C"), "");
    assert_eq!(display_name("Süd, Mensa Café"), "Mensa Café");
}

#[test]
fn display_name_without_comma_is_empty() {
    assert_eq!(display_name("Cafeteria Nord"), "");
    assert_eq!(display_name(""), "");
}

#[test]
fn with_display_name_leaves_the_original() {
    let original = canteen(80, "TU Dresden, Neue Mensa", "Dresden", "Bergstr. 51");
    let derived = original.with_display_name();
    assert_eq!(derived.name, "Neue Mensa");
    assert_eq!(derived.id, 80);
    assert_eq!(derived.address, "Bergstr. 51");
    assert_eq!(original.name, "TU Dresden, Neue Mensa");
}
