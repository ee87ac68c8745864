use mon_fs_box::mon_field::{BitCount, FromStringInput, GameSerializer, PossibleValues};
use mon_fs_box::mon_captured_ball::BoxMonCapturedBall;
use mon_fs_box::mon_gender::BoxMonGender;
use mon_fs_box::mon_held_item::BoxMonHeldItem;
use mon_fs_box::mon_name::{BoxMonCharacter, BoxMonName};
use mon_fs_box::mon_species::BoxMonSpecies;
use mon_fs_box::BoxMonBitVec;
use mon_fs_box::count_to_bits;
use rand::{Rng, SeedableRng};
use rand_chacha::ChaCha8Rng;
use mon_fs_box::mon_field::ToGameValueError;

#[test]
fn test_to_and_from() {
    for i in 0..BoxMonGender::possible_values() as u8 {
        let starting = BoxMonBitVec::new(BoxMonGender::bit_count(), i as u64);
        let box_mon_gender = BoxMonGender::bits_to_game_value(&starting).unwrap();
        let decoded = box_mon_gender.game_value_to_bits().unwrap();
        assert_eq!(starting, decoded);
        assert_eq!(i, decoded.as_u8());
    }
}

#[test]
fn test_from_string() {
    assert_eq!(BoxMonGender::try_from_string("M"), Some(BoxMonGender::Male));
}

#[test]
fn mon_species_test_to_and_from() {
    for i in 0..BoxMonSpecies::possible_values() as u8 {
        let starting = BoxMonBitVec::new(BoxMonSpecies::bit_count(), i as u64);
        let box_mon_gender = BoxMonSpecies::bits_to_game_value(&starting).unwrap();
        let decoded = box_mon_gender.game_value_to_bits().unwrap();
        assert_eq!(starting, decoded);
        assert_eq!(i, decoded.as_u8());
    }
}

#[test]
fn mon_species_test_from_string() {
    assert_eq!(
        BoxMonSpecies::try_from_string("POOCHYENA"),
        Some(BoxMonSpecies::POOCHYENA)
    );

    assert_eq!(
        BoxMonSpecies::try_from_string("NINCADA"),
        Some(BoxMonSpecies::NINCADA)
    );

    assert_eq!(
        BoxMonSpecies::try_from_string("WHISMUR"),
        Some(BoxMonSpecies::WHISMUR)
    );

    assert_eq!(
        BoxMonSpecies::try_from_string("TAILLOW"),
        Some(BoxMonSpecies::TAILLOW)
    );
}

#[test]
fn test_from_bits() {
    let box_mon_species =
        BoxMonSpecies::bits_to_game_value(&BoxMonBitVec(vec![false, false])).unwrap();
    assert_eq!(BoxMonSpecies::POOCHYENA, box_mon_species);

    let box_mon_species =
        BoxMonSpecies::bits_to_game_value(&BoxMonBitVec(vec![true, false])).unwrap();
    assert_eq!(BoxMonSpecies::NINCADA, box_mon_species);

    let box_mon_species =
        BoxMonSpecies::bits_to_game_value(&BoxMonBitVec(vec![false, true])).unwrap();
    assert_eq!(BoxMonSpecies::WHISMUR, box_mon_species);

    let box_mon_species =
        BoxMonSpecies::bits_to_game_value(&BoxMonBitVec(vec![true, true])).unwrap();
    assert_eq!(BoxMonSpecies::TAILLOW, box_mon_species);
}

#[test]
fn mon_held_item_test_to_and_from() {
    for i in 0..BoxMonHeldItem::possible_values() as u8 {
        let starting = BoxMonBitVec::new(BoxMonHeldItem::bit_count(), i as u64);
        let box_mon_gender = BoxMonHeldItem::bits_to_game_value(&starting).unwrap();
        let decoded = box_mon_gender.game_value_to_bits().unwrap();
        assert_eq!(starting, decoded);
        assert_eq!(i, decoded.as_u8());
    }
}

#[test]
fn mon_held_item_test_from_string() {
    assert_eq!(
        BoxMonHeldItem::try_from_string(""),
        Some(BoxMonHeldItem::Empty)
    );
}

#[test]
fn held_item_exact_and_alias_lookup() {
    assert_eq!(
        BoxMonHeldItem::try_from_string("NESTBALL"),
        Some(BoxMonHeldItem::NestBall)
    );
    assert_eq!(
        BoxMonHeldItem::try_from_string("PROTEIN"),
        Some(BoxMonHeldItem::NestBall)
    );
    assert_eq!(
        BoxMonHeldItem::try_from_string("XSPECIAL"),
        Some(BoxMonHeldItem::XSpecial)
    );
}

#[test]
fn held_item_fuzzy_lookup() {
    // One edit away from "ANTIDOTE": the fallback picks the nearest key.
    assert_eq!(
        BoxMonHeldItem::try_from_string("ANTIDOT"),
        Some(BoxMonHeldItem::Antidote)
    );
    // One edit away from "MAXREPEL".
    assert_eq!(
        BoxMonHeldItem::try_from_string("MAXREPELL"),
        Some(BoxMonHeldItem::MaxRepel)
    );
}

#[test]
fn held_item_display_names() {
    assert_eq!(BoxMonHeldItem::Empty.to_string(), "");
    assert_eq!(BoxMonHeldItem::GuardSpec.to_string(), "Guard Spec.");
    assert_eq!(BoxMonHeldItem::PokeBall.to_string(), "Poké Ball");
}

#[test]
fn mon_captured_ball_test_to_and_from() {
    for i in 0..BoxMonCapturedBall::possible_values() as u8 {
        let starting = BoxMonBitVec::new(BoxMonCapturedBall::bit_count(), i as u64);
        let box_mon_gender = BoxMonCapturedBall::bits_to_game_value(&starting).unwrap();
        let decoded = box_mon_gender.game_value_to_bits().unwrap();
        assert_eq!(starting, decoded);
        assert_eq!(i, decoded.as_u8());
    }
}

#[test]
fn test_char_to_and_from() {
    for i in 0..BoxMonCharacter::possible_values() as u8 {
        let starting = BoxMonBitVec::new(BoxMonCharacter::bit_count(), i as u64);
        let box_mon_gender = BoxMonCharacter::bits_to_game_value(&starting).unwrap();
        let decoded = box_mon_gender.game_value_to_bits().unwrap();
        assert_eq!(starting, decoded);
        assert_eq!(i, decoded.as_u8());
    }
}

#[test]
fn test_name_to_and_from() {
    let count = BoxMonName::possible_values() as u64;
    let mut rng = ChaCha8Rng::seed_from_u64(3);

    let mut chosen = vec![];
    for _ in 0..1000 {
        chosen.push(rng.gen::<u64>() % count);
    }

    for i in chosen {
        let starting = BoxMonBitVec::new(BoxMonName::bit_count(), i);
        let box_mon_gender = BoxMonName::bits_to_game_value(&starting).unwrap();
        let decoded = box_mon_gender.game_value_to_bits().unwrap();
        assert_eq!(starting, decoded);
        assert_eq!(i, decoded.as_u64());
    }
}

#[test]
fn test_name_to_and_from_string() {
    let name = "ABCDEFGHIJ";
    let box_mon_name = BoxMonName::try_from_string(name).unwrap();
    assert_eq!(
        box_mon_name.name.to_vec(),
        vec![
            BoxMonCharacter::UpperA,
            BoxMonCharacter::UpperB,
            BoxMonCharacter::UpperC,
            BoxMonCharacter::UpperD,
            BoxMonCharacter::UpperE,
            BoxMonCharacter::UpperF,
            BoxMonCharacter::UpperG,
            BoxMonCharacter::UpperH,
            BoxMonCharacter::UpperI,
            BoxMonCharacter::UpperJ,
        ]
    )
}

#[test]
fn name_to_string_round_trip() {
    let name = BoxMonName::try_from_string("♂Iq5/iGJD9").unwrap();
    assert_eq!(name.to_string(), "♂Iq5/iGJD9");
    let again = BoxMonName::try_from_string(&name.to_string()).unwrap();
    assert_eq!(name, again);
}

#[test]
fn name_rejects_bad_strings() {
    assert_eq!(BoxMonName::try_from_string("SHORT"), None);
    assert_eq!(BoxMonName::try_from_string("WAYTOOLONGNAME"), None);
    assert_eq!(BoxMonName::try_from_string("ABCDEFGHI%"), None);
    assert_eq!(BoxMonName::try_from_string("ABCDEFGHIL"), None);
}

#[test]
fn width_matches_cardinality() {
    assert_eq!(count_to_bits(2), BoxMonGender::bit_count());
    assert_eq!(count_to_bits(4), BoxMonSpecies::bit_count());
    assert_eq!(count_to_bits(8), BoxMonCapturedBall::bit_count());
    assert_eq!(count_to_bits(32), BoxMonHeldItem::bit_count());
    assert_eq!(count_to_bits(64), BoxMonCharacter::bit_count());
    assert_eq!(count_to_bits(0), 0);
    assert_eq!(count_to_bits(1), 0);
    assert_eq!(count_to_bits(33), 6);
    assert_eq!(count_to_bits(65), 7);
}

#[test]
fn decode_rejects_wrong_length() {
    let r = BoxMonGender::bits_to_game_value(&BoxMonBitVec(vec![false, false]));
    assert!(matches!(r, Err(ToGameValueError::BadBitsLength)));
    let r = BoxMonSpecies::bits_to_game_value(&BoxMonBitVec(vec![false]));
    assert!(matches!(r, Err(ToGameValueError::BadBitsLength)));
}
