use goldsrc_rs::bsp as decode_bsp;
use goldsrc_rs::error::DecodeError;

// Build a BSP buffer: version 30, a 15-entry lump table, then the
// lump bytes. `lumps` gives (index, bytes) pairs; every other lump is
// zero-sized.
fn bsp_with_lumps(lumps: &[(usize, Vec<u8>)]) -> Vec<u8> {
    let mut table = [(0u32, 0u32); 15];
    let mut body: Vec<u8> = Vec::new();
    let mut pos = 124u32;
    for (idx, bytes) in lumps {
        table[*idx] = (pos, bytes.len() as u32);
        body.extend(bytes);
        pos += bytes.len() as u32;
    }
    let mut b = Vec::new();
    b.extend(30u32.to_le_bytes());
    for (off, size) in table {
        b.extend(off.to_le_bytes());
        b.extend(size.to_le_bytes());
    }
    b.extend(body);
    b
}

#[test]
fn wrong_version_is_rejected_before_the_lumps() {
    // only the version field is present: nothing past it is needed to
    // reject the buffer
    assert_eq!(
        decode_bsp(&31u32.to_le_bytes()),
        Err(DecodeError::UnsupportedVersion)
    );
    assert_eq!(
        decode_bsp(&29u32.to_le_bytes()),
        Err(DecodeError::UnsupportedVersion)
    );
    // the same with a full (but wrong-version) buffer
    let mut b = bsp_with_lumps(&[]);
    b[0] = 31;
    assert_eq!(decode_bsp(&b), Err(DecodeError::UnsupportedVersion));
}

#[test]
fn truncated_header_is_reported() {
    assert_eq!(decode_bsp(&[30, 0]), Err(DecodeError::UnexpectedEnd));
    let b = bsp_with_lumps(&[]);
    assert_eq!(decode_bsp(&b[..100]), Err(DecodeError::UnexpectedEnd));
}

#[test]
fn minimal_level_with_one_entity() {
    let text = b"{\n\"classname\" \"worldspawn\"\n}\n".to_vec();
    let b = bsp_with_lumps(&[(0, text)]);
    let level = decode_bsp(&b).unwrap();
    assert_eq!(level.entities.len(), 1);
    assert_eq!(level.entities[0].props.len(), 1);
    let value = level.entities[0].get(&"classname".to_string()).unwrap();
    assert_eq!(*value, "worldspawn".to_string());
    assert!(level.planes.is_empty());
    assert!(level.textures.is_empty());
    assert!(level.vertices.is_empty());
    assert!(level.visdata.is_empty());
    assert!(level.nodes.is_empty());
    assert!(level.texture_infos.is_empty());
    assert!(level.faces.is_empty());
    assert!(level.lighting.is_empty());
    assert!(level.clip_nodes.is_empty());
    assert!(level.leaves.is_empty());
    assert!(level.mark_surfaces.is_empty());
    assert!(level.edges.is_empty());
    assert!(level.surfedges.is_empty());
    assert!(level.models.is_empty());
}

#[test]
fn typed_lumps_decode_record_by_record() {
    let mut planes = Vec::new();
    planes.extend(1u32.to_le_bytes());
    planes.extend(2u32.to_le_bytes());
    planes.extend(3u32.to_le_bytes());
    planes.extend(4u32.to_le_bytes());
    planes.extend(5u32.to_le_bytes());
    let mut edges = Vec::new();
    edges.extend(7u16.to_le_bytes());
    edges.extend(9u16.to_le_bytes());
    let mut marks = Vec::new();
    marks.extend(5u16.to_le_bytes());
    marks.extend(6u16.to_le_bytes());
    let mut surfedges = Vec::new();
    surfedges.extend((-1i32).to_le_bytes());
    surfedges.extend(8i32.to_le_bytes());
    let vis = vec![0xAAu8, 0xBB];
    let light = vec![0x11u8, 0x22, 0x33];
    let b = bsp_with_lumps(&[
        (1, planes),
        (4, vis.clone()),
        (8, light.clone()),
        (11, marks),
        (12, edges),
        (13, surfedges),
    ]);
    let level = decode_bsp(&b).unwrap();
    assert_eq!(level.planes.len(), 1);
    assert_eq!(level.planes[0].normal, [1, 2, 3]);
    assert_eq!(level.planes[0].distance, 4);
    assert_eq!(level.planes[0].ty, 5);
    assert_eq!(level.visdata, vis);
    assert_eq!(level.lighting, light);
    assert_eq!(level.mark_surfaces, vec![5, 6]);
    assert_eq!(level.edges, vec![(7, 9)]);
    assert_eq!(level.surfedges, vec![-1, 8]);
}

#[test]
fn lump_size_must_divide_into_records() {
    // a 10-byte planes lump is no run of 20-byte records
    let b = bsp_with_lumps(&[(1, vec![0u8; 10])]);
    assert_eq!(decode_bsp(&b), Err(DecodeError::BadLumpSize));
    // a 21-byte leaves lump is no run of 28-byte records
    let b = bsp_with_lumps(&[(10, vec![0u8; 21])]);
    assert_eq!(decode_bsp(&b), Err(DecodeError::BadLumpSize));
}

#[test]
fn lump_out_of_bounds_is_reported() {
    let mut b = bsp_with_lumps(&[(1, vec![0u8; 20])]);
    // stretch the planes lump past the end of the buffer
    let size_pos = 4 + 8 * 1 + 4;
    b[size_pos..size_pos + 4].copy_from_slice(&40u32.to_le_bytes());
    assert_eq!(decode_bsp(&b), Err(DecodeError::UnexpectedEnd));
}

#[test]
fn textures_lump_holds_a_mini_directory() {
    // one mip-texture record without pixel data (a zero mip offset)
    let mut rec = Vec::new();
    let mut name = [0u8; 16];
    name[..5].copy_from_slice(b"BRICK");
    rec.extend(name);
    rec.extend(16u32.to_le_bytes());
    rec.extend(32u32.to_le_bytes());
    rec.extend(0u32.to_le_bytes());
    rec.extend(0u32.to_le_bytes());
    rec.extend(0u32.to_le_bytes());
    rec.extend(0u32.to_le_bytes());
    let mut lump = Vec::new();
    lump.extend(1u32.to_le_bytes());
    lump.extend(8u32.to_le_bytes()); // record starts after count + 1 offset
    lump.extend(rec);
    let b = bsp_with_lumps(&[(2, lump)]);
    let level = decode_bsp(&b).unwrap();
    assert_eq!(level.textures.len(), 1);
    assert_eq!(level.textures[0].name, "BRICK".to_string());
    assert_eq!(level.textures[0].width, 16);
    assert_eq!(level.textures[0].height, 32);
    assert!(level.textures[0].data.is_none());
}
