use kami_data::pmx::{pmx_to_model, Deform, ONE_F32_BITS};

/// A minimal 3-vertex, 1-triangle PMX (UTF-8 text, 1-byte indices, BDEF1).
fn synthetic_pmx() -> Vec<u8> {
    let mut v = Vec::new();
    v.extend_from_slice(b"PMX ");
    v.extend_from_slice(&2.0f32.to_le_bytes());
    // globals: count=8, [enc=1(UTF8), addUV=0, vidx=1, tex=1, mat=1, bone=1, morph=1, rb=1]
    v.push(8);
    v.extend_from_slice(&[1, 0, 1, 1, 1, 1, 1, 1]);
    // 4 text fields (i32 len + bytes)
    for t in [b"Tri".as_slice(), b"", b"", b""] {
        v.extend_from_slice(&(t.len() as i32).to_le_bytes());
        v.extend_from_slice(t);
    }
    // 3 vertices
    v.extend_from_slice(&3i32.to_le_bytes());
    for (i, p) in [[0.0f32, 0.0, 0.0], [1.0, 0.0, 0.0], [0.0, 1.0, 0.0]].iter().enumerate() {
        for f in p {
            v.extend_from_slice(&f.to_le_bytes());
        }
        for f in [0.0f32, 0.0, 1.0] {
            v.extend_from_slice(&f.to_le_bytes()); // normal
        }
        for f in [i as f32 * 0.5, 0.0] {
            v.extend_from_slice(&f.to_le_bytes()); // uv
        }
        v.push(0); // BDEF1
        v.push(0); // bone index (1 byte)
        v.extend_from_slice(&1.0f32.to_le_bytes()); // edge scale
    }
    // 3 indices (1 triangle), 1-byte each
    v.extend_from_slice(&3i32.to_le_bytes());
    v.extend_from_slice(&[0u8, 1, 2]);
    v
}

fn f(bits: u32) -> f32 {
    f32::from_bits(bits)
}

#[test]
fn parses_pmx_mesh() {
    let m = pmx_to_model(&synthetic_pmx()).expect("pmx");
    assert_eq!(m.name, "Tri");
    assert_eq!(m.vertices.len(), 3);
    assert_eq!(m.indices, vec![0, 1, 2]);
    let p = m.vertices[1].pos;
    assert_eq!((f(p.x), f(p.y), f(p.z)), (1.0, 0.0, 0.0));
    assert_eq!(f(m.vertices[0].weights[0]), 1.0);
}

#[test]
fn rejects_non_pmx() {
    assert!(pmx_to_model(b"NOPE....").is_none());
}

#[test]
fn pmx_vertex_fields_round_trip() {
    let m = pmx_to_model(&synthetic_pmx()).unwrap();
    let v = m.vertices[2];
    assert_eq!((f(v.normal.x), f(v.normal.y), f(v.normal.z)), (0.0, 0.0, 1.0));
    assert_eq!((f(v.uv.x), f(v.uv.y)), (1.0, 0.0));
    assert_eq!(v.bones, [0, -1, -1, -1]);
    assert_eq!(v.weights, [ONE_F32_BITS, 0, 0, 0]);
    assert_eq!(v.deform, Deform::Bdef1);
}

#[test]
fn pmx_trailing_bytes_are_ignored() {
    let mut bytes = synthetic_pmx();
    let m = pmx_to_model(&bytes).unwrap();
    bytes.extend_from_slice(b"materials, bones, morphs...");
    assert_eq!(pmx_to_model(&bytes), Some(m));
}

#[test]
fn pmx_truncated_file_is_rejected() {
    let bytes = synthetic_pmx();
    for cut in 0..bytes.len() {
        assert!(pmx_to_model(&bytes[..cut]).is_none(), "cut at {cut}");
    }
}

#[test]
fn pmx_too_few_globals_is_rejected() {
    let mut bytes = synthetic_pmx();
    bytes[8] = 5;
    assert!(pmx_to_model(&bytes).is_none());
}

#[test]
fn pmx_unknown_deform_is_rejected() {
    let mut bytes = synthetic_pmx();
    // header 9 + 8 globals, 4 texts of 4+3, 4, 4, 4 bytes, then the count (4), then 32 bytes.
    let kind_at = 9 + 8 + (4 + 3) + 12 + 4 + 32;
    assert_eq!(bytes[kind_at], 0);
    bytes[kind_at] = 5;
    assert!(pmx_to_model(&bytes).is_none());
}

#[test]
fn pmx_negative_vertex_count_is_rejected() {
    let mut bytes = synthetic_pmx();
    let count_at = 9 + 8 + (4 + 3) + 12;
    bytes[count_at..count_at + 4].copy_from_slice(&(-1i32).to_le_bytes());
    assert!(pmx_to_model(&bytes).is_none());
}

/// BDEF2 with 2-byte bone indices and 2-byte vertex indices, UTF-16 name.
#[test]
fn pmx_bdef2_and_wide_indices() {
    let mut v = Vec::new();
    v.extend_from_slice(b"PMX ");
    v.extend_from_slice(&2.1f32.to_le_bytes());
    // globals: [enc=0(UTF-16), addUV=0, vidx=2, tex=1, mat=1, bone=2]
    v.push(6);
    v.extend_from_slice(&[0, 0, 2, 1, 1, 2]);
    let name: Vec<u8> = "Mik".encode_utf16().flat_map(|u| u.to_le_bytes()).collect();
    v.extend_from_slice(&(name.len() as i32).to_le_bytes());
    v.extend_from_slice(&name);
    for _ in 0..3 {
        v.extend_from_slice(&0i32.to_le_bytes());
    }
    v.extend_from_slice(&1i32.to_le_bytes());
    for _ in 0..8 {
        v.extend_from_slice(&0.25f32.to_le_bytes());
    }
    v.push(1); // BDEF2
    v.extend_from_slice(&7i16.to_le_bytes());
    v.extend_from_slice(&(-1i16).to_le_bytes());
    v.extend_from_slice(&0.75f32.to_le_bytes());
    v.extend_from_slice(&1.0f32.to_le_bytes()); // edge
    v.extend_from_slice(&3i32.to_le_bytes());
    for i in [0u16, 0, 300] {
        v.extend_from_slice(&i.to_le_bytes());
    }
    let m = pmx_to_model(&v).expect("bdef2");
    assert_eq!(m.name, "Mik");
    assert_eq!(m.vertices[0].bones, [7, -1, -1, -1]);
    assert_eq!(f(m.vertices[0].weights[0]), 0.75);
    assert_eq!(m.vertices[0].deform, Deform::Bdef2);
    assert_eq!(m.indices, vec![0, 0, 300]);
}

fn with_name(name: &[u8], utf16: bool) -> Vec<u8> {
    let mut v = Vec::new();
    v.extend_from_slice(b"PMX ");
    v.extend_from_slice(&2.0f32.to_le_bytes());
    v.push(6);
    v.extend_from_slice(&[if utf16 { 0 } else { 1 }, 0, 1, 1, 1, 1]);
    v.extend_from_slice(&(name.len() as i32).to_le_bytes());
    v.extend_from_slice(name);
    for _ in 0..3 {
        v.extend_from_slice(&0i32.to_le_bytes());
    }
    v.extend_from_slice(&0i32.to_le_bytes()); // no vertices
    v.extend_from_slice(&0i32.to_le_bytes()); // no indices
    v
}

#[test]
fn pmx_utf8_name_is_decoded() {
    let m = pmx_to_model(&with_name("初音ミク".as_bytes(), false)).unwrap();
    assert_eq!(m.name, "初音ミク");
    assert!(m.vertices.is_empty() && m.indices.is_empty());
}

#[test]
fn pmx_invalid_utf8_name_gets_replacement_characters() {
    let m = pmx_to_model(&with_name(&[b'A', 0xff, b'B'], false)).unwrap();
    assert_eq!(m.name, "A\u{fffd}B");
}

#[test]
fn pmx_utf16_name_with_byte_order_mark() {
    let mut name = vec![0xff, 0xfe];
    name.extend("初音".encode_utf16().flat_map(|u| u.to_le_bytes()));
    let m = pmx_to_model(&with_name(&name, true)).unwrap();
    assert_eq!(m.name, "初音");
}

#[test]
fn pmx_negative_text_length_is_rejected() {
    let mut bytes = with_name(b"x", false);
    bytes[15..19].copy_from_slice(&(-5i32).to_le_bytes());
    assert!(pmx_to_model(&bytes).is_none());
}

/// The bone index size is globals[5]; globals[4] is the material index size.
#[test]
fn pmx_bone_index_size_is_globals_5() {
    let mut v = Vec::new();
    v.extend_from_slice(b"PMX ");
    v.extend_from_slice(&2.0f32.to_le_bytes());
    v.push(8);
    v.extend_from_slice(&[1, 0, 1, 1, 1, 2, 1, 1]);
    for t in [b"Tri".as_slice(), b"", b"", b""] {
        v.extend_from_slice(&(t.len() as i32).to_le_bytes());
        v.extend_from_slice(t);
    }
    v.extend_from_slice(&3i32.to_le_bytes());
    for p in [[0.0f32, 0.0, 0.0], [1.0, 0.0, 0.0], [0.0, 1.0, 0.0]] {
        for f in p.iter().chain([0.0f32, 0.0, 1.0].iter()).chain([0.0f32, 0.0].iter()) {
            v.extend_from_slice(&f.to_le_bytes());
        }
        v.push(0); // BDEF1
        v.extend_from_slice(&0i16.to_le_bytes()); // 2-byte bone index
        v.extend_from_slice(&1.0f32.to_le_bytes());
    }
    v.extend_from_slice(&3i32.to_le_bytes());
    v.extend_from_slice(&[0u8, 1, 2]);
    let m = pmx_to_model(&v).expect("pmx");
    assert_eq!(m.name, "Tri");
    assert_eq!(m.vertices.len(), 3);
    for vx in &m.vertices {
        assert_eq!(vx.bones, [0, -1, -1, -1]);
    }
    let p = m.vertices[1].pos;
    assert_eq!((f(p.x), f(p.y), f(p.z)), (1.0, 0.0, 0.0));
    assert_eq!(m.indices, vec![0, 1, 2]);
}
