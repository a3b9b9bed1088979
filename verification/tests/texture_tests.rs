use goldsrc_rs::error::DecodeError;
use goldsrc_rs::source::Source;
use goldsrc_rs::texture::{read_palette, PaletteSizing};
use goldsrc_rs::{font, miptex, pic};

fn pic_record() -> Vec<u8> {
    let mut b = Vec::new();
    b.extend(2u32.to_le_bytes());
    b.extend(2u32.to_le_bytes());
    b.extend([0u8, 1, 2, 3]);
    b.extend(256u16.to_le_bytes());
    let mut pal = vec![0u8; 768];
    pal[3] = 10;
    pal[4] = 20;
    pal[5] = 30;
    b.extend(pal);
    b
}

// An 8x8 mip texture with pixel data: levels of 64, 16, 4 and 1
// bytes, back to back after the 40-byte header, then the 2-byte count
// field and the 768-byte palette.
fn miptex_record() -> Vec<u8> {
    let mut b = Vec::new();
    let mut name = [0u8; 16];
    name[..3].copy_from_slice(b"TEX");
    b.extend(name);
    b.extend(8u32.to_le_bytes());
    b.extend(8u32.to_le_bytes());
    b.extend(40u32.to_le_bytes());
    b.extend(104u32.to_le_bytes());
    b.extend(120u32.to_le_bytes());
    b.extend(124u32.to_le_bytes());
    b.extend(vec![1u8; 64]);
    b.extend(vec![2u8; 16]);
    b.extend(vec![3u8; 4]);
    b.extend(vec![4u8; 1]);
    b.extend(256u16.to_le_bytes());
    let mut pal = vec![0u8; 768];
    pal[0] = 1;
    pal[1] = 2;
    pal[2] = 3;
    b.extend(pal);
    b
}

#[test]
fn picture_decodes_exactly() {
    let p = pic(&pic_record()).unwrap();
    assert_eq!(p.width, 2);
    assert_eq!(p.height, 2);
    assert_eq!(p.data.indices[0], vec![0, 1, 2, 3]);
    assert_eq!(p.data.palette.len(), 256);
    assert_eq!(p.data.palette[1], [10, 20, 30]);
}

#[test]
fn truncated_picture_is_reported() {
    assert_eq!(pic(&[1, 2]), Err(DecodeError::UnexpectedEnd));
    let b = pic_record();
    assert_eq!(pic(&b[..b.len() - 1]), Err(DecodeError::UnexpectedEnd));
}

#[test]
fn mip_levels_shrink_by_four() {
    let m = miptex(&miptex_record()).unwrap();
    assert_eq!(m.name, "TEX".to_string());
    assert_eq!(m.width, 8);
    assert_eq!(m.height, 8);
    let cd = m.data.unwrap();
    // level k holds width*height / 4^k bytes
    assert_eq!(cd.indices[0].len(), 64);
    assert_eq!(cd.indices[1].len(), 16);
    assert_eq!(cd.indices[2].len(), 4);
    assert_eq!(cd.indices[3].len(), 1);
    assert_eq!(cd.indices[0], vec![1u8; 64]);
    assert_eq!(cd.indices[3], vec![4u8; 1]);
    // the palette is the 768 bytes after the 2-byte trailer that
    // follows level 3's data
    assert_eq!(cd.palette.len(), 256);
    assert_eq!(cd.palette[0], [1, 2, 3]);
    assert_eq!(cd.palette[1], [0, 0, 0]);
}

#[test]
fn zero_mip_offset_means_no_pixel_data() {
    for k in 0..4 {
        let mut b = miptex_record();
        let pos = 24 + 4 * k;
        b[pos..pos + 4].copy_from_slice(&0u32.to_le_bytes());
        let m = miptex(&b).unwrap();
        assert_eq!(m.name, "TEX".to_string());
        assert_eq!(m.width, 8);
        assert_eq!(m.height, 8);
        assert!(m.data.is_none());
    }
}

#[test]
fn miptex_name_must_be_text() {
    let mut b = miptex_record();
    b[0] = 0xFF;
    assert_eq!(miptex(&b), Err(DecodeError::InvalidName));
}

#[test]
fn truncated_miptex_is_reported() {
    let b = miptex_record();
    assert_eq!(miptex(&b[..30]), Err(DecodeError::UnexpectedEnd));
    assert_eq!(miptex(&b[..b.len() - 1]), Err(DecodeError::UnexpectedEnd));
}

fn font_record(stored_w: u32, height: u32, tail: usize) -> Vec<u8> {
    let mut b = Vec::new();
    b.extend(stored_w.to_le_bytes());
    b.extend(height.to_le_bytes());
    b.extend(1u32.to_le_bytes()); // row count
    b.extend(height.to_le_bytes()); // row height
    for i in 0..256u32 {
        b.extend((i as u16).to_le_bytes()); // glyph offset
        b.extend(8u16.to_le_bytes()); // glyph width
    }
    b.extend(vec![7u8; tail]);
    b
}

#[test]
fn font_width_from_matching_byte_count() {
    // remaining bytes = height*stored*16 + 2 + 768 + 64 exactly:
    // the stored width is trusted
    let stored = 2u32;
    let height = 2u32;
    let pixels = (height * stored * 16) as usize;
    let b = font_record(stored, height, pixels + 2 + 768 + 64);
    let f = font(&b).unwrap();
    assert_eq!(f.width, 32);
    assert_eq!(f.height, 2);
    assert_eq!(f.row_count, 1);
    assert_eq!(f.row_height, 2);
    assert_eq!(f.chars_info.len(), 256);
    assert_eq!(f.chars_info[3].offset, 3);
    assert_eq!(f.chars_info[3].width, 8);
    assert_eq!(f.data.indices[0].len(), pixels);
    assert_eq!(f.data.palette.len(), 256);
}

#[test]
fn font_width_falls_back_to_256() {
    // remaining bytes do not match the stored width's prediction:
    // the width falls back to 256
    let stored = 2u32;
    let height = 1u32;
    let b = font_record(stored, height, 1100);
    let f = font(&b).unwrap();
    assert_eq!(f.width, 256);
    assert_eq!(f.data.indices[0].len(), 256);
}

#[test]
fn truncated_font_is_reported() {
    let b = font_record(2, 2, 100);
    assert_eq!(font(&b[..500]), Err(DecodeError::UnexpectedEnd));
    assert_eq!(font(&b), Err(DecodeError::UnexpectedEnd));
}

#[test]
fn palette_sizing_modes_differ() {
    // count field says 2: the count-prefixed codec reads 2 entries,
    // the fixed codec wants 256 and runs out of bytes
    let mut b = Vec::new();
    b.extend(2u16.to_le_bytes());
    b.extend([1u8, 2, 3, 4, 5, 6, 99]);
    let mut src = Source::new(&b);
    let pal = read_palette(&mut src, PaletteSizing::FromCount).unwrap();
    assert_eq!(pal, vec![[1, 2, 3], [4, 5, 6]]);
    let mut src = Source::new(&b);
    assert_eq!(
        read_palette(&mut src, PaletteSizing::Fixed),
        Err(DecodeError::UnexpectedEnd)
    );
}

#[test]
fn palette_count_is_capped_at_256() {
    let mut b = Vec::new();
    b.extend(65535u16.to_le_bytes());
    b.extend(vec![9u8; 768]);
    let mut src = Source::new(&b);
    let pal = read_palette(&mut src, PaletteSizing::FromCount).unwrap();
    assert_eq!(pal.len(), 256);
    assert_eq!(pal[255], [9, 9, 9]);
}
