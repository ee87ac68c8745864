use mon_fs_box::mon_field::{BitCount, ByteCount};
use mon_fs_box::pc::{PcError, PC};
use mon_fs_box::store::SlotStore;
use mon_fs_box::pc::PcDecodeError;
use mon_fs_box::box_mon::StringsMon;
use mon_fs_box::store::SlotStoreError;

#[test]
fn ensure_normal_amount_of_bits() {
    assert_eq!(PC::bit_count() % 8, 0);
}

#[test]
fn byte_count_accuracy() {
    let pc = PC::new();
    assert_eq!(PC::byte_count(), pc.remaining_bytes());
}

#[test]
fn completely_fill_pc() {
    let mut pc = PC::new();

    let mut data = vec![0; PC::byte_count()];
    for i in 0..data.len() {
        data[i] = (i % 255) as u8;
    }

    pc.write(&data).unwrap();

    let buf = pc.read_to_end();

    assert_eq!(data, buf);
}

#[test]
fn large_payload_round_trip() {
    let mut pc = PC::new();

    let mut data = vec![0u8; 2000];
    let mut state: u32 = 0x1234_5678;
    for i in 0..data.len() {
        state = state.wrapping_mul(1_103_515_245).wrapping_add(12_345);
        data[i] = (state >> 16) as u8;
    }

    pc.write(&data).unwrap();

    let buf = pc.read_to_end();

    assert_eq!(data, buf);
}

#[test]
fn split_write_equals_combined_write() {
    let first = b"hello".to_vec();
    let second = b", splice me into the padded tail".to_vec();
    let mut combined = first.clone();
    combined.extend_from_slice(&second);

    let mut split_pc = PC::new();
    split_pc.write(&first).unwrap();
    split_pc.write(&second).unwrap();

    let mut combined_pc = PC::new();
    combined_pc.write(&combined).unwrap();

    // Bit-exact: the slot arrays agree record for record.
    assert_eq!(split_pc.mons, combined_pc.mons);
    assert_eq!(split_pc.read_to_end(), combined);
}

#[test]
fn capacity_exceeded_leaves_pc_unchanged() {
    let mut pc = PC::new();
    pc.write(&b"present".to_vec()).unwrap();
    let before = pc.mons.clone();
    let remaining = pc.remaining_bytes();

    let huge = vec![7u8; PC::byte_count() + 1];
    let r = pc.write(&huge);
    assert_eq!(r, Err(PcError::CapacityExceeded));
    assert_eq!(pc.mons, before);
    assert_eq!(pc.remaining_bytes(), remaining);

    assert_eq!(pc.read_to_end(), b"present".to_vec());
}

#[test]
fn padding_matches_formula() {
    // 5 bytes are 40 bits: one 68-bit record with 28 filler bits.
    let mut pc = PC::new();
    pc.write(&vec![0xAB; 5]).unwrap();
    assert_eq!(pc.get_padding_amount(), 28);

    // 17 bytes are 136 bits: exactly two records, no filler.
    let mut pc = PC::new();
    pc.write(&vec![0xCD; 17]).unwrap();
    assert_eq!(pc.get_padding_amount(), 0);
}

#[test]
fn read_in_small_chunks() {
    let mut pc = PC::new();
    let data = b"chunked reading works".to_vec();
    pc.write(&data).unwrap();

    let mut collected = Vec::new();
    loop {
        let mut buf = vec![0u8; 4];
        let n = pc.read(&mut buf);
        if n == 0 {
            break;
        }
        collected.extend_from_slice(&buf[..n]);
    }
    assert_eq!(collected, data);
}

#[test]
fn three_record_store_scenario() {
    // A store of three 33-bit records: a 5-byte (40-bit) payload takes
    // two records, leaving 66 - 40 = 26 filler bits.
    let mut store = SlotStore::new(33, 3);
    assert_eq!(store.remaining_bytes(), 12);

    let payload = vec![0x12, 0x34, 0x56, 0x78, 0x9A];
    store.append(&payload).unwrap();

    assert_eq!(store.filled_count(), 2);
    assert_eq!(store.padding_amount(), 26);
    assert_eq!(store.remaining_bytes(), 4);

    let back = store.read_to_end();
    assert_eq!(back, payload);
}

#[test]
fn store_capacity_check_precedes_mutation() {
    let mut store = SlotStore::new(33, 3);
    store.append(&vec![1, 2, 3]).unwrap();
    let filled = store.filled_count();
    let r = store.append(&vec![0u8; 13]);
    assert_eq!(r, Err(SlotStoreError::CapacityExceeded));
    assert_eq!(store.filled_count(), filled);
    assert_eq!(store.read_to_end(), vec![1, 2, 3]);
}

#[test]
fn pc_from_strings_rebuilds_records() {

    let entry = |name: &str, species: &str, gender: &str, item: &str| StringsMon {
        name: name.to_string(),
        species: species.to_string(),
        gender: gender.to_string(),
        item: item.to_string(),
    };

    // Slot 0 carries padding 0 (the all-zero record), followed by one
    // data record.
    let meta = entry("aaaaaaaaaa", "POOCHYENA", "M", "");
    let data = entry("ADBASDGADS", "TAILLOW", "F", "");
    let boxes = vec![vec![meta, data]];

    let pc = PC::try_from_strings(&boxes).unwrap();
    assert!(pc.mons[0].is_some());
    assert!(pc.mons[1].is_some());
    assert!(pc.mons[2].is_none());
    let mon = pc.mons[1].unwrap();
    assert_eq!(mon.species, mon_fs_box::mon_species::BoxMonSpecies::TAILLOW);
}

#[test]
fn pc_from_strings_rejects_bad_fields() {

    let bad = StringsMon {
        name: "ADBASDGADS".to_string(),
        species: "MISSINGNO".to_string(),
        gender: "M".to_string(),
        item: "".to_string(),
    };
    let r = PC::try_from_strings(&vec![vec![bad]]);
    assert!(matches!(r, Err(PcDecodeError::InvalidMon(_))));
}

#[test]
fn from_mons_validates_layout() {
    let pc = PC::new();
    let rebuilt = PC::from_mons(pc.mons.clone()).unwrap();
    assert_eq!(rebuilt.mons, pc.mons);

    // A gap between filled slots is rejected.
    let mut pc2 = PC::new();
    pc2.write(&b"xy".to_vec()).unwrap();
    let mut mons = pc2.mons.clone();
    let record = mons[1];
    mons[3] = record;
    assert!(PC::from_mons(mons).is_none());
}
