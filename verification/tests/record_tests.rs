use mon_fs_box::box_mon::{BoxMon, StringsMon};
use mon_fs_box::marker_mon::{MarkerMon, MarkerMonNewError};
use mon_fs_box::mon_field::{BitCount, GameSerializer};
use mon_fs_box::mon_gender::BoxMonGender;
use mon_fs_box::mon_held_item::BoxMonHeldItem;
use mon_fs_box::mon_name::{BoxMonCharacter, BoxMonName};
use mon_fs_box::mon_species::BoxMonSpecies;

#[test]
fn test_get_value_of_box_mon() {
    let mon = BoxMon {
        species: BoxMonSpecies::POOCHYENA,
        gender: BoxMonGender::Male,
        name: BoxMonName::new([
            BoxMonCharacter::UpperP,
            BoxMonCharacter::LowerO,
            BoxMonCharacter::LowerO,
            BoxMonCharacter::LowerC,
            BoxMonCharacter::LowerH,
            BoxMonCharacter::LowerY,
            BoxMonCharacter::LowerE,
            BoxMonCharacter::LowerN,
            BoxMonCharacter::LowerA,
            BoxMonCharacter::Seven,
        ]),
        held_item: BoxMonHeldItem::Empty,
    };

    let bits = mon.game_value_to_bits().unwrap();
    let recreated_mon = BoxMon::bits_to_game_value(&bits).unwrap();
    assert_eq!(mon, recreated_mon);
}

#[test]
fn parse_from_raw() {
    let raw = StringsMon {
        name: "ADBASDGADS".to_string(),
        species: "POOCHYENA".to_string(),
        gender: "M".to_string(),
        item: "".to_string(),
    };

    let mon = BoxMon::try_from_strings_mon(raw).unwrap();

    assert_eq!(
        mon.name,
        BoxMonName::new([
            BoxMonCharacter::UpperA,
            BoxMonCharacter::UpperD,
            BoxMonCharacter::UpperB,
            BoxMonCharacter::UpperA,
            BoxMonCharacter::UpperS,
            BoxMonCharacter::UpperD,
            BoxMonCharacter::UpperG,
            BoxMonCharacter::UpperA,
            BoxMonCharacter::UpperD,
            BoxMonCharacter::UpperS,
        ])
    );
    assert_eq!(mon.species, BoxMonSpecies::POOCHYENA);
    assert_eq!(mon.gender, BoxMonGender::Male);
    assert_eq!(mon.held_item, BoxMonHeldItem::Empty);
}

#[test]
fn test_box_mon_size() {
    assert_eq!(BoxMon::bit_count() * 2 % 8, 0);
}

#[test]
fn marker_mon_parse_from_raw() {
    let raw = StringsMon {
        name: "ADBASDGADS".to_string(),
        species: "".to_string(),
        gender: "F".to_string(),
        item: "".to_string(),
    };

    let mon: MarkerMon = MarkerMon::try_from_strings_mon(raw).unwrap();

    assert_eq!(mon.gender, BoxMonGender::Female);
    assert_eq!(
        mon.name,
        BoxMonName::new([
            BoxMonCharacter::UpperA,
            BoxMonCharacter::UpperD,
            BoxMonCharacter::UpperB,
            BoxMonCharacter::UpperA,
            BoxMonCharacter::UpperS,
            BoxMonCharacter::UpperD,
            BoxMonCharacter::UpperG,
            BoxMonCharacter::UpperA,
            BoxMonCharacter::UpperD,
            BoxMonCharacter::UpperS,
        ])
    );
    assert_eq!(mon.held_item, BoxMonHeldItem::Empty);
}

#[test]
fn test_padding_amount() {
    for i in 0..=BoxMon::bit_count() {
        let compress = i % 2 == 0;
        let mon = MarkerMon::new_starter_marker("a.txt", i as u8, compress).unwrap();
        assert_eq!(i as u8, mon.padding_amount());
        assert_eq!(compress, mon.is_compressed(), "i = {}", i);
    }
}

#[test]
fn starter_marker_fields() {
    let mon = MarkerMon::new_starter_marker("a.txt", 34, true).unwrap();
    assert_eq!(mon.padding_amount(), 34);
    assert!(mon.is_compressed());
    assert_eq!(mon.name_field_bytes(), vec![b'a', b'.', b't', b'x', b't', 0, 0]);

    let again = MarkerMon::new_starter_marker("a.txt", 34, true).unwrap();
    assert_eq!(mon, again);
}

#[test]
fn starter_marker_rejects_bad_inputs() {
    let r = MarkerMon::new_starter_marker("a.txt", 69, false);
    assert!(matches!(r, Err(MarkerMonNewError::PaddingTooLarge)));
    let r = MarkerMon::new_starter_marker("too-long.txt", 0, false);
    assert!(matches!(r, Err(MarkerMonNewError::FilenameTooLong)));
}

#[test]
fn marker_record_round_trip() {
    let mon = MarkerMon::new_starter_marker("b.bin", 17, false).unwrap();
    let bits = mon.game_value_to_bits().unwrap();
    assert_eq!(bits.0.len(), MarkerMon::bit_count());
    let again = MarkerMon::bits_to_game_value(&bits).unwrap();
    assert_eq!(mon, again);
}
