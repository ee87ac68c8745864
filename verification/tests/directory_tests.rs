use mon_fs_box::file_pc::{AddFileError, FilePc, FilePcError, FileSlot, PcFile};

fn read_all(pc: &mut FilePc) -> Vec<u8> {
    let mut collected = Vec::new();
    loop {
        let mut buf = vec![0u8; 7];
        let n = pc.read(&mut buf).unwrap();
        if n == 0 {
            break;
        }
        collected.extend_from_slice(&buf[..n]);
    }
    collected
}

#[test]
fn compression_applied_iff_smaller() {
    // A long run of zeros deflates well.
    let zeros = vec![0u8; 512];
    let f = PcFile::new("z.bin", &zeros);
    assert!(f.is_compressed());
    assert!(f.data.len() < zeros.len());
    assert_eq!(f.get_data().unwrap(), zeros);

    // A tiny payload cannot shrink.
    let tiny = vec![1u8, 2, 3];
    let f = PcFile::new("t.bin", &tiny);
    assert!(!f.is_compressed());
    assert_eq!(f.data, tiny);
    assert_eq!(f.get_data().unwrap(), tiny);
}

#[test]
fn file_encode_decode_files() {
    let mut pc = FilePc::new();

    let mut payloads = Vec::new();
    for i in 0..5usize {
        let mut data = vec![0u8; 100 + i];
        for j in 0..data.len() {
            data[j] = ((i * 31 + j * 7) % 251) as u8;
        }
        payloads.push(data);
    }

    for (i, data) in payloads.iter().enumerate() {
        let name = format!("f{}.bin", i);
        pc.add_file_raw(&name, data).unwrap();
    }

    let names = pc.list_files();
    assert_eq!(names.len(), 5);
    for (i, name) in names.iter().enumerate() {
        assert_eq!(name, &format!("f{}.bin", i));
    }

    for (i, data) in payloads.iter().enumerate() {
        let name = format!("f{}.bin", i);
        pc.seek_file(&name).unwrap();
        assert_eq!(&read_all(&mut pc), data);
    }
}

#[test]
fn fail_encode_duplicated_file() {
    let data = vec![0; 10];
    let mut pc = FilePc::new();

    pc.add_file_raw("t.txt", &data).unwrap();

    let r = pc.add_file_raw("t.txt", &data);
    assert_eq!(r, Err(AddFileError::DuplicateFileName));
    assert_eq!(pc.list_files().len(), 1);
}

#[test]
fn filename_rules() {
    let data = vec![1u8, 2, 3];
    let mut pc = FilePc::new();
    assert_eq!(
        pc.add_file_raw("too-long.txt", &data),
        Err(AddFileError::FilenameTooLong)
    );
    assert_eq!(pc.add_file_raw("", &data), Err(AddFileError::InvalidFilename));
    assert_eq!(
        pc.add_file_raw("a\0b", &data),
        Err(AddFileError::InvalidFilename)
    );
    assert_eq!(pc.add_file_raw("ok.txt", &data), Ok(()));
}

#[test]
fn directory_capacity_is_checked() {
    let mut pc = FilePc::new();
    // Incompressible pseudo-random payloads fill the 420-record store.
    let mut state: u32 = 99;
    let mut added = 0usize;
    loop {
        let mut data = vec![0u8; 800];
        for j in 0..data.len() {
            state = state.wrapping_mul(1_103_515_245).wrapping_add(12_345);
            data[j] = (state >> 16) as u8;
        }
        let name = format!("f{}", added);
        match pc.add_file_raw(&name, &data) {
            Ok(()) => added += 1,
            Err(e) => {
                assert_eq!(e, AddFileError::CapacityExceeded);
                break;
            }
        }
        assert!(added < 100, "the store must fill up eventually");
    }
    assert!(added >= 1);
    assert_eq!(pc.list_files().len(), added);
}

#[test]
fn seek_missing_file_fails() {
    let mut pc = FilePc::new();
    pc.add_file_raw("a.txt", &vec![1, 2, 3]).unwrap();
    assert_eq!(pc.seek_file("b.txt"), Err(FilePcError::FileNotFound));
    // Reading with no successful seek in effect is not an error; a
    // fresh directory simply has nothing selected.
    let mut fresh = FilePc::new();
    let mut buf = vec![0u8; 4];
    assert_eq!(fresh.read(&mut buf), Ok(0));
}

#[test]
fn reads_are_exhausted_then_zero() {
    let mut pc = FilePc::new();
    let data = vec![9u8; 10];
    pc.add_file_raw("d.bin", &data).unwrap();
    pc.seek_file("d.bin").unwrap();
    assert_eq!(read_all(&mut pc), data);
    let mut buf = vec![0u8; 4];
    assert_eq!(pc.read(&mut buf), Ok(0));
    // Seeking again rewinds.
    pc.seek_file("d.bin").unwrap();
    assert_eq!(read_all(&mut pc), data);
}

#[test]
fn compressed_files_read_back_transparently() {
    let mut pc = FilePc::new();
    let compressible = vec![5u8; 3000];
    let incompressible: Vec<u8> = (0..64u32)
        .map(|i| (i.wrapping_mul(2_654_435_761) >> 24) as u8)
        .collect();
    pc.add_file_raw("big.bin", &compressible).unwrap();
    pc.add_file_raw("raw.bin", &incompressible).unwrap();

    assert!(pc.files[0].is_compressed());

    pc.seek_file("big.bin").unwrap();
    assert_eq!(read_all(&mut pc), compressible);
    pc.seek_file("raw.bin").unwrap();
    assert_eq!(read_all(&mut pc), incompressible);
}

#[test]
fn directory_slot_stream_round_trip() {
    let mut pc = FilePc::new();
    pc.add_file_raw("a.txt", &vec![1u8, 2, 3, 4, 5]).unwrap();
    pc.add_file_raw("b.bin", &vec![0u8; 400]).unwrap();
    pc.add_file_raw("empty", &Vec::new()).unwrap();

    let slots = pc.to_slots();
    let rebuilt = FilePc::from_slots(&slots).unwrap();

    assert_eq!(rebuilt.list_files(), vec!["a.txt", "b.bin", "empty"]);

    // The payloads read back identically from the rebuilt directory.
    let mut rebuilt = rebuilt;
    rebuilt.seek_file("a.txt").unwrap();
    assert_eq!(read_all(&mut rebuilt), vec![1u8, 2, 3, 4, 5]);
    rebuilt.seek_file("b.bin").unwrap();
    assert_eq!(read_all(&mut rebuilt), vec![0u8; 400]);
    rebuilt.seek_file("empty").unwrap();
    assert_eq!(read_all(&mut rebuilt), Vec::<u8>::new());

    // The rebuilt directory holds the same files, field for field.
    for (orig, back) in pc.files.iter().zip(rebuilt.files.iter()) {
        assert_eq!(orig.name, back.name);
        assert_eq!(orig.attributes, back.attributes);
        assert_eq!(orig.data, back.data);
    }

    // Re-encoding the rebuilt directory gives the same stream shape.
    let again = rebuilt.to_slots();
    assert_eq!(again.len(), slots.len());
}

#[test]
fn from_files_validates_directories() {
    let good = vec![
        PcFile {
            name: "a.txt".to_string(),
            attributes: 0,
            data: vec![1, 2, 3],
        },
        PcFile {
            name: "b".to_string(),
            attributes: 1,
            data: vec![],
        },
    ];
    let fp = FilePc::from_files(good).unwrap();
    assert_eq!(fp.list_files(), vec!["a.txt", "b"]);

    // A duplicated name is rejected.
    let dup = vec![
        PcFile {
            name: "a".to_string(),
            attributes: 0,
            data: vec![],
        },
        PcFile {
            name: "a".to_string(),
            attributes: 0,
            data: vec![],
        },
    ];
    assert!(FilePc::from_files(dup).is_none());

    // An over-long name is rejected.
    let long = vec![PcFile {
        name: "too-long.txt".to_string(),
        attributes: 0,
        data: vec![],
    }];
    assert!(FilePc::from_files(long).is_none());

    // An attribute byte beyond the compression flag is rejected.
    let attrs = vec![PcFile {
        name: "a".to_string(),
        attributes: 2,
        data: vec![],
    }];
    assert!(FilePc::from_files(attrs).is_none());
}

#[test]
fn from_slots_rejects_garbage() {
    // A stream that opens with a data record has no directory entry.
    let mut pc = FilePc::new();
    pc.add_file_raw("x", &vec![9u8; 20]).unwrap();
    let slots = pc.to_slots();
    let tail: Vec<FileSlot> = slots[1..].to_vec();
    assert!(matches!(
        FilePc::from_slots(&tail),
        Err(FilePcError::ArchiveCorrupt)
    ));
}
