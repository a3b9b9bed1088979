use goldsrc_rs::wad::{archive, Content};

// A WAD whose single entry holds `data` under type tag `ty`.
fn wad_with_entry(ty: u8, data: &[u8]) -> Vec<u8> {
    let mut w = Vec::new();
    w.extend(*b"WAD3");
    w.extend(1u32.to_le_bytes());
    w.extend((12 + data.len() as u32).to_le_bytes());
    w.extend(data);
    w.extend(12u32.to_le_bytes());
    w.extend((data.len() as u32).to_le_bytes());
    w.extend((data.len() as u32).to_le_bytes());
    w.push(ty);
    w.push(0);
    w.extend([0u8, 0]);
    let mut name = [0u8; 16];
    name[..5].copy_from_slice(b"ENTRY");
    w.extend(name);
    w
}

fn miptex_record() -> Vec<u8> {
    let mut b = Vec::new();
    let mut name = [0u8; 16];
    name[..4].copy_from_slice(b"WALL");
    b.extend(name);
    b.extend(8u32.to_le_bytes());
    b.extend(8u32.to_le_bytes());
    b.extend(40u32.to_le_bytes());
    b.extend(104u32.to_le_bytes());
    b.extend(120u32.to_le_bytes());
    b.extend(124u32.to_le_bytes());
    b.extend(vec![1u8; 64]);
    b.extend(vec![2u8; 16]);
    b.extend(vec![3u8; 4]);
    b.extend(vec![4u8; 1]);
    b.extend(256u16.to_le_bytes());
    b.extend(vec![0u8; 768]);
    b
}

fn font_record() -> Vec<u8> {
    let stored_w = 2u32;
    let height = 2u32;
    let mut b = Vec::new();
    b.extend(stored_w.to_le_bytes());
    b.extend(height.to_le_bytes());
    b.extend(1u32.to_le_bytes());
    b.extend(height.to_le_bytes());
    for _ in 0..256 {
        b.extend(0u16.to_le_bytes());
        b.extend(8u16.to_le_bytes());
    }
    let pixels = (height * stored_w * 16) as usize;
    b.extend(vec![5u8; pixels + 2 + 768 + 64]);
    b
}

#[test]
fn miptex_entry_dispatches_to_its_codec() {
    let w = wad_with_entry(0x43, &miptex_record());
    let a = archive(&w).unwrap();
    match &a.contents[0].1 {
        Content::MipTexture(m) => {
            assert_eq!(m.name, "WALL".to_string());
            assert_eq!(m.width, 8);
            assert_eq!(m.height, 8);
            let cd = m.data.as_ref().unwrap();
            assert_eq!(cd.indices[1], vec![2u8; 16]);
        },
        other => panic!("expected a mip texture, got {:?}", other),
    }
}

#[test]
fn font_entry_dispatches_to_its_codec() {
    let w = wad_with_entry(0x46, &font_record());
    let a = archive(&w).unwrap();
    match &a.contents[0].1 {
        Content::Font(f) => {
            assert_eq!(f.width, 32);
            assert_eq!(f.height, 2);
            assert_eq!(f.chars_info.len(), 256);
            assert_eq!(f.data.indices[0].len(), 64);
        },
        other => panic!("expected a font, got {:?}", other),
    }
}

#[test]
fn failing_entry_fails_the_eager_decode() {
    // a picture entry whose bytes are far too short
    let w = wad_with_entry(0x42, &[1, 2, 3]);
    assert_eq!(
        archive(&w),
        Err(goldsrc_rs::error::DecodeError::UnexpectedEnd)
    );
}
