use material_binding::layout::{
    compute_layout, read_field, serialize, FieldDescriptor, FieldType, FieldValue, LayoutError,
    Packing, UniformLayout, BUFFER_ALIGNMENT,
};

fn table(types: &[FieldType]) -> Vec<FieldDescriptor> {
    let mut rows = Vec::new();
    for (i, ty) in types.iter().enumerate() {
        rows.push(FieldDescriptor { name: format!("field{}", i), ty: *ty });
    }
    rows
}

fn layout(types: &[FieldType]) -> UniformLayout {
    match compute_layout(&table(types)) {
        Ok(layout) => layout,
        Err(error) => panic!("no layout: {:?}", error),
    }
}

fn offsets(layout: &UniformLayout) -> Vec<usize> {
    let mut out = Vec::new();
    for field in layout.fields() {
        out.push(field.offset);
    }
    out
}

#[test]
fn packing_rules_of_each_type() {
    assert_eq!(FieldType::Float.packing(), Some(Packing { alignment: 4, size: 4 }));
    assert_eq!(FieldType::Vec3.packing(), Some(Packing { alignment: 16, size: 12 }));
    assert_eq!(FieldType::Vec4.packing(), Some(Packing { alignment: 16, size: 16 }));
    assert_eq!(FieldType::Color.packing(), Some(Packing { alignment: 16, size: 16 }));
    assert_eq!(FieldType::Vec2.packing(), None);
    assert_eq!(FieldType::Mat4.packing(), None);
    assert_eq!(BUFFER_ALIGNMENT, 16);
}

#[test]
fn empty_table_has_empty_layout() {
    let l = layout(&[]);
    assert_eq!(l.fields().len(), 0);
    assert_eq!(l.size(), 0);
}

#[test]
fn single_float_is_padded_to_sixteen_bytes() {
    let l = layout(&[FieldType::Float]);
    assert_eq!(offsets(&l), vec![0]);
    assert_eq!(l.fields()[0].size, 4);
    assert_eq!(l.size(), 16);
}

#[test]
fn single_color_fills_sixteen_bytes() {
    let l = layout(&[FieldType::Color]);
    assert_eq!(offsets(&l), vec![0]);
    assert_eq!(l.fields()[0].size, 16);
    assert_eq!(l.size(), 16);
}

#[test]
fn float_follows_vec3_in_the_same_sixteen_bytes() {
    let l = layout(&[FieldType::Vec3, FieldType::Float]);
    assert_eq!(offsets(&l), vec![0, 12]);
    assert_eq!(l.size(), 16);
}

#[test]
fn vec3_after_float_starts_at_the_next_boundary() {
    let l = layout(&[FieldType::Float, FieldType::Vec3]);
    assert_eq!(offsets(&l), vec![0, 16]);
    assert_eq!(l.fields()[1].size, 12);
    assert_eq!(l.size(), 32);
}

#[test]
fn floats_are_packed_four_bytes_apart() {
    let l = layout(&[FieldType::Float, FieldType::Float, FieldType::Float]);
    assert_eq!(offsets(&l), vec![0, 4, 8]);
    assert_eq!(l.size(), 16);
}

#[test]
fn mixed_table_offsets_and_size() {
    let l = layout(&[
        FieldType::Float,
        FieldType::Vec3,
        FieldType::Float,
        FieldType::Vec4,
        FieldType::Color,
        FieldType::Float,
    ]);
    assert_eq!(offsets(&l), vec![0, 16, 28, 32, 48, 64]);
    assert_eq!(l.size(), 80);
}

#[test]
fn layout_keeps_names_and_types_in_order() {
    let rows = vec![
        FieldDescriptor { name: "tint".to_string(), ty: FieldType::Color },
        FieldDescriptor { name: "power".to_string(), ty: FieldType::Float },
    ];
    let l = compute_layout(&rows).unwrap();
    assert_eq!(l.fields()[0].name, "tint");
    assert_eq!(l.fields()[0].ty, FieldType::Color);
    assert_eq!(l.fields()[1].name, "power");
    assert_eq!(l.fields()[1].ty, FieldType::Float);
    assert_eq!(offsets(&l), vec![0, 16]);
    assert_eq!(l.size(), 32);
}

#[test]
fn layout_is_deterministic() {
    let types = [FieldType::Vec3, FieldType::Float, FieldType::Color, FieldType::Float];
    assert_eq!(layout(&types), layout(&types));
}

#[test]
fn unsupported_type_is_rejected_with_its_index() {
    let rows = table(&[FieldType::Float, FieldType::Vec2, FieldType::Vec4]);
    assert_eq!(compute_layout(&rows), Err(LayoutError::UnsupportedType { index: 1 }));
    let rows = table(&[FieldType::Mat4]);
    assert_eq!(compute_layout(&rows), Err(LayoutError::UnsupportedType { index: 0 }));
}

#[test]
fn first_unsupported_type_is_reported() {
    let rows = table(&[FieldType::Color, FieldType::Color, FieldType::Mat4, FieldType::Vec2]);
    assert_eq!(compute_layout(&rows), Err(LayoutError::UnsupportedType { index: 2 }));
}

fn sequence(mut code: usize, len: usize) -> Vec<FieldType> {
    let supported = [FieldType::Float, FieldType::Vec3, FieldType::Vec4, FieldType::Color];
    let mut out = Vec::new();
    for _ in 0..len {
        out.push(supported[code % 4]);
        code /= 4;
    }
    out
}

#[test]
fn offsets_are_aligned_disjoint_and_size_is_multiple_of_sixteen() {
    for len in 0..6usize {
        for code in 0..4usize.pow(len as u32) {
            let types = sequence(code, len);
            let l = layout(&types);
            assert_eq!(l.size() % 16, 0);
            let fields = l.fields();
            assert_eq!(fields.len(), len);
            let mut end = 0usize;
            for (i, field) in fields.iter().enumerate() {
                let rule = types[i].packing().unwrap();
                assert_eq!(field.ty, types[i]);
                assert_eq!(field.size, rule.size);
                assert_eq!(field.offset % rule.alignment, 0);
                assert!(field.offset >= end);
                assert!(field.offset - end < rule.alignment);
                end = field.offset + field.size;
                assert!(end <= l.size());
            }
            assert!(l.size() - end < 16);
        }
    }
}

#[test]
fn vec3_never_straddles_a_sixteen_byte_boundary() {
    for code in 0..4usize.pow(5) {
        let types = sequence(code, 5);
        let l = layout(&types);
        for field in l.fields() {
            if field.ty == FieldType::Vec3 {
                assert_eq!(field.offset / 16, (field.offset + field.size - 1) / 16);
            }
        }
    }
}

#[test]
fn serialize_writes_words_least_significant_byte_first() {
    let l = layout(&[FieldType::Float]);
    let buffer = serialize(&l, &[FieldValue::Float(0x1122_3344)]).unwrap();
    assert_eq!(buffer, vec![0x44, 0x33, 0x22, 0x11, 0, 0, 0, 0, 0, 0, 0, 0, 0, 0, 0, 0]);
}

#[test]
fn serialize_places_values_and_zeroes_padding() {
    let l = layout(&[FieldType::Float, FieldType::Vec3, FieldType::Float, FieldType::Vec4]);
    let values = [
        FieldValue::Float(0xa1a2_a3a4),
        FieldValue::Vec3(0x0102_0304, 0x0506_0708, 0x090a_0b0c),
        FieldValue::Float(0xffff_ffff),
        FieldValue::Vec4(0x1111_1111, 0x2222_2222, 0x3333_3333, 0x4444_4444),
    ];
    let buffer = serialize(&l, &values).unwrap();
    let mut expected = vec![0u8; 48];
    expected[0..4].copy_from_slice(&[0xa4, 0xa3, 0xa2, 0xa1]);
    expected[16..28]
        .copy_from_slice(&[0x04, 0x03, 0x02, 0x01, 0x08, 0x07, 0x06, 0x05, 0x0c, 0x0b, 0x0a, 0x09]);
    expected[28..32].copy_from_slice(&[0xff; 4]);
    expected[32..36].copy_from_slice(&[0x11; 4]);
    expected[36..40].copy_from_slice(&[0x22; 4]);
    expected[40..44].copy_from_slice(&[0x33; 4]);
    expected[44..48].copy_from_slice(&[0x44; 4]);
    assert_eq!(buffer, expected);
}

#[test]
fn serialize_floats_as_their_bit_patterns() {
    let l = layout(&[FieldType::Vec4]);
    let v = [1.5f32, -0.25, 1.0e-30, f32::INFINITY];
    let value = FieldValue::Vec4(v[0].to_bits(), v[1].to_bits(), v[2].to_bits(), v[3].to_bits());
    let buffer = serialize(&l, &[value]).unwrap();
    let mut expected = Vec::new();
    for x in v {
        expected.extend_from_slice(&x.to_le_bytes());
    }
    assert_eq!(buffer, expected);
}

#[test]
fn serialize_of_empty_layout_is_empty() {
    let l = layout(&[]);
    assert_eq!(serialize(&l, &[]), Ok(Vec::new()));
}

#[test]
fn serialize_rejects_wrong_count() {
    let l = layout(&[FieldType::Float, FieldType::Color]);
    assert_eq!(
        serialize(&l, &[FieldValue::Float(1)]),
        Err(LayoutError::CountMismatch { expected: 2, found: 1 })
    );
    assert_eq!(
        serialize(
            &l,
            &[FieldValue::Float(1), FieldValue::Color(1, 2, 3, 4), FieldValue::Float(2)]
        ),
        Err(LayoutError::CountMismatch { expected: 2, found: 3 })
    );
}

#[test]
fn serialize_rejects_wrong_type_with_first_index() {
    let l = layout(&[FieldType::Float, FieldType::Color, FieldType::Vec3]);
    assert_eq!(
        serialize(
            &l,
            &[FieldValue::Float(1), FieldValue::Vec4(1, 2, 3, 4), FieldValue::Float(9)]
        ),
        Err(LayoutError::TypeMismatch { index: 1 })
    );
}

#[test]
fn vec4_value_does_not_fill_a_color_field() {
    let l = layout(&[FieldType::Color]);
    assert_eq!(
        serialize(&l, &[FieldValue::Vec4(1, 2, 3, 4)]),
        Err(LayoutError::TypeMismatch { index: 0 })
    );
    let l = layout(&[FieldType::Vec4]);
    assert_eq!(
        serialize(&l, &[FieldValue::Color(1, 2, 3, 4)]),
        Err(LayoutError::TypeMismatch { index: 0 })
    );
}

#[test]
fn count_is_checked_before_types() {
    let l = layout(&[FieldType::Float]);
    assert_eq!(
        serialize(&l, &[FieldValue::Color(1, 2, 3, 4), FieldValue::Float(1)]),
        Err(LayoutError::CountMismatch { expected: 1, found: 2 })
    );
}

#[test]
fn check_values_agrees_with_serialize() {
    let l = layout(&[FieldType::Vec3]);
    assert_eq!(l.check_values(&[FieldValue::Vec3(1, 2, 3)]), Ok(()));
    assert_eq!(
        l.check_values(&[FieldValue::Float(1)]),
        Err(LayoutError::TypeMismatch { index: 0 })
    );
    assert_eq!(l.check_values(&[]), Err(LayoutError::CountMismatch { expected: 1, found: 0 }));
}

#[test]
fn field_type_of_each_value() {
    assert_eq!(FieldValue::Float(0).field_type(), FieldType::Float);
    assert_eq!(FieldValue::Vec3(0, 0, 0).field_type(), FieldType::Vec3);
    assert_eq!(FieldValue::Vec4(0, 0, 0, 0).field_type(), FieldType::Vec4);
    assert_eq!(FieldValue::Color(0, 0, 0, 0).field_type(), FieldType::Color);
}

fn value_for(ty: FieldType, seed: u32) -> FieldValue {
    let w = |k: u32| seed.wrapping_mul(0x9e37_79b9).wrapping_add(k.wrapping_mul(0x85eb_ca6b)) ^ (seed >> 3);
    match ty {
        FieldType::Float => FieldValue::Float(w(1)),
        FieldType::Vec3 => FieldValue::Vec3(w(1), w(2), w(3)),
        FieldType::Vec4 => FieldValue::Vec4(w(1), w(2), w(3), w(4)),
        _ => FieldValue::Color(w(1), w(2), w(3), w(4)),
    }
}

#[test]
fn reading_each_field_gives_back_what_was_serialized() {
    for len in 0..5usize {
        for code in 0..4usize.pow(len as u32) {
            let types = sequence(code, len);
            let l = layout(&types);
            let mut values = Vec::new();
            for (i, ty) in types.iter().enumerate() {
                values.push(value_for(*ty, (code * 7 + i) as u32));
            }
            let buffer = serialize(&l, &values).unwrap();
            assert_eq!(buffer.len(), l.size());
            for (i, value) in values.iter().enumerate() {
                assert_eq!(read_field(&l, &buffer, i), Ok(*value));
            }
        }
    }
}

#[test]
fn round_trip_keeps_nan_payloads_and_signed_zero() {
    let l = layout(&[FieldType::Vec4, FieldType::Float]);
    let values = [
        FieldValue::Vec4(0x7fc0_0001, 0xffc1_2345, 0x8000_0000, 0x0000_0001),
        FieldValue::Float(0x7f80_0000),
    ];
    let buffer = serialize(&l, &values).unwrap();
    assert_eq!(read_field(&l, &buffer, 0), Ok(values[0]));
    assert_eq!(read_field(&l, &buffer, 1), Ok(values[1]));
}

#[test]
fn read_field_decodes_bytes_at_the_offset() {
    let l = layout(&[FieldType::Float, FieldType::Vec3]);
    let mut buffer = vec![0u8; 32];
    buffer[16..20].copy_from_slice(&[1, 0, 0, 0]);
    buffer[20..24].copy_from_slice(&[0, 1, 0, 0]);
    buffer[24..28].copy_from_slice(&[0, 0, 0, 0x80]);
    assert_eq!(read_field(&l, &buffer, 0), Ok(FieldValue::Float(0)));
    assert_eq!(read_field(&l, &buffer, 1), Ok(FieldValue::Vec3(1, 256, 0x8000_0000)));
}

#[test]
fn read_field_rejects_missing_field() {
    let l = layout(&[FieldType::Float]);
    let buffer = vec![0u8; 16];
    assert_eq!(read_field(&l, &buffer, 1), Err(LayoutError::NoSuchField { index: 1 }));
    let empty = layout(&[]);
    assert_eq!(read_field(&empty, &[], 0), Err(LayoutError::NoSuchField { index: 0 }));
}

#[test]
fn read_field_rejects_buffer_of_other_size() {
    let l = layout(&[FieldType::Float]);
    assert_eq!(
        read_field(&l, &[0u8; 4], 0),
        Err(LayoutError::BufferSizeMismatch { expected: 16, found: 4 })
    );
    assert_eq!(
        read_field(&l, &[0u8; 32], 0),
        Err(LayoutError::BufferSizeMismatch { expected: 16, found: 32 })
    );
}

#[test]
fn missing_field_is_reported_before_buffer_size() {
    let l = layout(&[FieldType::Float]);
    assert_eq!(read_field(&l, &[0u8; 4], 3), Err(LayoutError::NoSuchField { index: 3 }));
}
