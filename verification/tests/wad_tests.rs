use goldsrc_rs::error::DecodeError;
use goldsrc_rs::wad::{archive, decode_entry, wad_entries, wad_header, Content, ContentType, Entry};

fn pic_record() -> Vec<u8> {
    // width=2, height=2, indices [0,1,2,3], count field, 768-byte palette
    // with entry 1 = (10, 20, 30)
    let mut pic = Vec::new();
    pic.extend(2u32.to_le_bytes());
    pic.extend(2u32.to_le_bytes());
    pic.extend([0u8, 1, 2, 3]);
    pic.extend(256u16.to_le_bytes());
    let mut pal = vec![0u8; 768];
    pal[3] = 10;
    pal[4] = 20;
    pal[5] = 30;
    pic.extend(pal);
    pic
}

fn wad_one_pic() -> Vec<u8> {
    let pic = pic_record();
    let mut w = Vec::new();
    w.extend(*b"WAD3");
    w.extend(1u32.to_le_bytes());
    let dir_off = 12 + pic.len() as u32;
    w.extend(dir_off.to_le_bytes());
    w.extend(&pic);
    w.extend(12u32.to_le_bytes());
    w.extend((pic.len() as u32).to_le_bytes());
    w.extend((pic.len() as u32).to_le_bytes());
    w.push(0x42);
    w.push(0);
    w.extend([0u8, 0]);
    let mut name = [0u8; 16];
    name[..7].copy_from_slice(b"TESTPIC");
    w.extend(name);
    w
}

fn wad_two_blobs(name_bytes: [u8; 16], data1: &[u8], data2: &[u8]) -> Vec<u8> {
    let mut w = Vec::new();
    w.extend(*b"WAD3");
    w.extend(2u32.to_le_bytes());
    let dir_off = 12 + (data1.len() + data2.len()) as u32;
    w.extend(dir_off.to_le_bytes());
    w.extend(data1);
    w.extend(data2);
    // entry 1
    w.extend(12u32.to_le_bytes());
    w.extend((data1.len() as u32).to_le_bytes());
    w.extend((data1.len() as u32).to_le_bytes());
    w.push(0x05);
    w.push(0);
    w.extend([0u8, 0]);
    w.extend(name_bytes);
    // entry 2
    w.extend((12 + data1.len() as u32).to_le_bytes());
    w.extend((data2.len() as u32).to_le_bytes());
    w.extend((data2.len() as u32).to_le_bytes());
    w.push(0x07);
    w.push(0);
    w.extend([0u8, 0]);
    w.extend(name_bytes);
    w
}

#[test]
fn directory_is_decoded() {
    let w = wad_one_pic();
    let entries = wad_entries(&w, false).unwrap();
    assert_eq!(entries.len(), 1);
    assert_eq!(entries[0].0, "TESTPIC".to_string());
    let e = entries[0].1;
    assert_eq!(e.offset, 12);
    assert_eq!(e.size, pic_record().len() as u32);
    assert_eq!(e.full_size, pic_record().len() as u32);
    assert_eq!(e.ty, ContentType::Picture);
    assert_eq!(e.compression, 0);
}

#[test]
fn picture_entry_roundtrip() {
    let w = wad_one_pic();
    let entries = wad_entries(&w, false).unwrap();
    let content = decode_entry(&w, &entries[0].1).unwrap();
    match content {
        Content::Picture(p) => {
            assert_eq!(p.width, 2);
            assert_eq!(p.height, 2);
            assert_eq!(p.data.indices[0], vec![0u8, 1, 2, 3]);
            assert_eq!(p.data.palette.len(), 256);
            assert_eq!(p.data.palette[1], [10, 20, 30]);
            assert_eq!(p.data.palette[0], [0, 0, 0]);
        },
        other => panic!("expected a picture, got {:?}", other),
    }
}

#[test]
fn eager_matches_lazy() {
    let w = wad_one_pic();
    let eager = archive(&w).unwrap();
    let entries = wad_entries(&w, false).unwrap();
    assert_eq!(eager.contents.len(), entries.len());
    for (i, (name, entry)) in entries.iter().enumerate() {
        let lazy = decode_entry(&w, entry).unwrap();
        assert_eq!(eager.contents[i].0, *name);
        assert_eq!(eager.contents[i].1, lazy);
    }
}

#[test]
fn compressed_entry_is_refused() {
    let mut w = wad_one_pic();
    let dir_off = 12 + pic_record().len();
    // compression flag lives at byte 13 of the directory record:
    // the directory decode itself refuses the compressed record
    w[dir_off + 13] = 1;
    assert_eq!(
        wad_entries(&w, false),
        Err(DecodeError::UnsupportedCompression)
    );
    assert_eq!(archive(&w), Err(DecodeError::UnsupportedCompression));
    // whatever the record's type tag says
    w[dir_off + 12] = 0x99;
    assert_eq!(
        wad_entries(&w, false),
        Err(DecodeError::UnsupportedCompression)
    );
    // and before the record's name is even looked at
    w[dir_off + 16] = 0xFF;
    assert_eq!(
        wad_entries(&w, false),
        Err(DecodeError::UnsupportedCompression)
    );
    // decoding a hand-made compressed entry directly is refused too
    let entry = Entry {
        offset: 12,
        size: 4,
        full_size: 4,
        ty: ContentType::Picture,
        compression: 1,
    };
    assert_eq!(
        decode_entry(&w, &entry),
        Err(DecodeError::UnsupportedCompression)
    );
}

#[test]
fn records_fail_in_directory_order() {
    let mut name = [0u8; 16];
    name[..4].copy_from_slice(b"SAME");
    // two one-byte blobs: the directory starts at 14, records at 14 and 46
    let base = wad_two_blobs(name, &[1], &[2]);
    // an unreadable name in the first record wins over a compressed
    // second record
    let mut w = base.clone();
    w[14 + 16] = 0xFF;
    w[46 + 13] = 1;
    assert_eq!(wad_entries(&w, false), Err(DecodeError::InvalidName));
    // a compressed first record wins over an unreadable second name
    let mut w = base.clone();
    w[14 + 13] = 1;
    w[46 + 16] = 0xFF;
    assert_eq!(
        wad_entries(&w, false),
        Err(DecodeError::UnsupportedCompression)
    );
}

#[test]
fn invalid_magic_is_reported() {
    let mut w = wad_one_pic();
    w[3] = b'2'; // now "WAD2"
    assert_eq!(wad_entries(&w, false), Err(DecodeError::InvalidMagic));
    assert_eq!(archive(&w), Err(DecodeError::InvalidMagic));
}

#[test]
fn truncated_wad_is_reported() {
    let w = wad_one_pic();
    assert_eq!(wad_entries(&w[..3], false), Err(DecodeError::UnexpectedEnd));
    assert_eq!(wad_entries(&w[..8], false), Err(DecodeError::UnexpectedEnd));
    // a directory that sticks out past the end
    assert_eq!(
        wad_entries(&w[..w.len() - 5], false),
        Err(DecodeError::UnexpectedEnd)
    );
}

#[test]
fn invalid_name_is_reported() {
    let mut w = wad_one_pic();
    let dir_off = 12 + pic_record().len();
    w[dir_off + 16] = 0xFF; // not valid UTF-8
    assert_eq!(wad_entries(&w, false), Err(DecodeError::InvalidName));
}

#[test]
fn names_fold_to_lowercase_on_request() {
    let w = wad_one_pic();
    let entries = wad_entries(&w, true).unwrap();
    assert_eq!(entries[0].0, "testpic".to_string());
    let entries = wad_entries(&w, false).unwrap();
    assert_eq!(entries[0].0, "TESTPIC".to_string());
}

#[test]
fn unknown_type_is_kept_raw() {
    let mut name = [0u8; 16];
    name[..4].copy_from_slice(b"BLOB");
    let w = wad_two_blobs(name, &[1, 2, 3], &[9, 9]);
    let a = archive(&w).unwrap();
    assert_eq!(a.contents.len(), 2);
    assert_eq!(
        a.contents[0].1,
        Content::Other { ty: 0x05, data: vec![1, 2, 3] }
    );
    assert_eq!(a.contents[1].1, Content::Other { ty: 0x07, data: vec![9, 9] });
}

#[test]
fn lookup_answers_from_the_later_entry() {
    let mut name = [0u8; 16];
    name[..4].copy_from_slice(b"SAME");
    let w = wad_two_blobs(name, &[1, 2, 3], &[9, 9]);
    let a = archive(&w).unwrap();
    let found = a.get(&"SAME".to_string()).unwrap();
    assert_eq!(*found, Content::Other { ty: 0x07, data: vec![9, 9] });
    assert!(a.get(&"OTHER".to_string()).is_none());
}

#[test]
fn header_reports_count_and_offset() {
    let w = wad_one_pic();
    let (count, dir_off) = wad_header(&w).unwrap();
    assert_eq!(count, 1);
    assert_eq!(dir_off, 12 + pic_record().len() as u32);
    assert_eq!(wad_header(&w[..2]), Err(DecodeError::UnexpectedEnd));
    assert_eq!(wad_header(&w[..10]), Err(DecodeError::UnexpectedEnd));
    assert_eq!(wad_header(b"NOPE00000000"), Err(DecodeError::InvalidMagic));
}

#[test]
fn empty_wad_has_no_entries() {
    let mut w = Vec::new();
    w.extend(*b"WAD3");
    w.extend(0u32.to_le_bytes());
    w.extend(0u32.to_le_bytes());
    let entries = wad_entries(&w, false).unwrap();
    assert!(entries.is_empty());
    let a = archive(&w).unwrap();
    assert!(a.contents.is_empty());
}
