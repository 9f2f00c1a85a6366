use emblinkenator::auxiliary_data::{
    aux_data_consumer_type_is_compatible, aux_data_is_compatible, aux_data_to_consumer_type,
    AuxDataError, AuxDataF32Vec, AuxDataF32Vec2, AuxDataF32Vec3, AuxDataF32Vec4, AuxiliaryData,
    AuxiliaryDataType, AuxiliaryDataTypeConsumer,
};

fn bits(values: &[f32]) -> Vec<u32> {
    values.iter().map(|v| v.to_bits()).collect()
}

fn native(values: &[f32]) -> Vec<u8> {
    values.iter().flat_map(|v| v.to_ne_bytes()).collect()
}

#[test]
fn vec_accepts_matching_length() {
    let made = AuxDataF32Vec::try_from((bits(&[1.0, 2.0, 3.0]), 3)).unwrap();
    assert_eq!(made.data(), &bits(&[1.0, 2.0, 3.0]));
    assert_eq!(made.dimensions(), vec![3]);
}

#[test]
fn vec_rejects_wrong_length() {
    let made = AuxDataF32Vec::try_from((bits(&[1.0, 2.0, 3.0]), 4));
    assert!(matches!(made, Err(AuxDataError::IncorrectDimensions)));
}

#[test]
fn vec2_accepts_product_of_dimensions() {
    let made = AuxDataF32Vec2::try_from((bits(&[0.0; 6]), 2, 3)).unwrap();
    assert_eq!(made.dimensions(), vec![2, 3]);
    assert_eq!(made.data().len(), 6);
}

#[test]
fn vec2_rejects_wrong_product() {
    assert!(matches!(
        AuxDataF32Vec2::try_from((bits(&[0.0; 6]), 2, 2)),
        Err(AuxDataError::IncorrectDimensions)
    ));
    assert!(matches!(
        AuxDataF32Vec2::try_from((bits(&[0.0; 6]), 6, 0)),
        Err(AuxDataError::IncorrectDimensions)
    ));
}

#[test]
fn vec3_and_vec4_check_their_shape() {
    assert!(AuxDataF32Vec3::try_from((bits(&[0.5; 8]), 2, 2, 2)).is_ok());
    assert!(matches!(
        AuxDataF32Vec3::try_from((bits(&[0.5; 8]), 2, 2, 3)),
        Err(AuxDataError::IncorrectDimensions)
    ));
    assert!(AuxDataF32Vec4::try_from((bits(&[0.5; 16]), 2, 2, 2, 2)).is_ok());
    assert!(matches!(
        AuxDataF32Vec4::try_from((bits(&[0.5; 16]), 2, 2, 2, 1)),
        Err(AuxDataError::IncorrectDimensions)
    ));
}

#[test]
fn zero_dimension_means_no_values() {
    assert!(AuxDataF32Vec3::try_from((Vec::new(), 5, 0, 7)).is_ok());
    assert!(AuxDataF32Vec3::try_from((bits(&[1.0]), 5, 0, 7)).is_err());
}

#[test]
fn dimension_beyond_32_bits_is_rejected() {
    let huge = u32::MAX as usize + 1;
    assert!(matches!(
        AuxDataF32Vec2::try_from((Vec::new(), huge, 0)),
        Err(AuxDataError::IncorrectDimensions)
    ));
}

#[test]
fn number_of_values_is_the_product_of_dimensions() {
    assert_eq!(AuxiliaryDataType::Empty.get_number_of_values(), 0);
    assert_eq!(AuxiliaryDataType::F32(1.5f32.to_bits()).get_number_of_values(), 1);
    let v = AuxiliaryDataType::F32Vec(AuxDataF32Vec::try_from((bits(&[1.0; 5]), 5)).unwrap());
    assert_eq!(v.get_number_of_values(), 5);
    let v3 =
        AuxiliaryDataType::F32Vec3(AuxDataF32Vec3::try_from((bits(&[1.0; 24]), 2, 3, 4)).unwrap());
    assert_eq!(v3.get_number_of_values(), 24);
}

#[test]
fn empty_encodes_to_nothing() {
    assert_eq!(AuxiliaryDataType::Empty.to_data_buffer(), Vec::<u8>::new());
}

#[test]
fn scalar_encodes_big_endian_without_prefix() {
    let value = AuxiliaryDataType::F32(1.0f32.to_bits());
    assert_eq!(value.to_data_buffer(), vec![0x3f, 0x80, 0x00, 0x00]);
}

#[test]
fn vector_encodes_prefix_then_payload() {
    let value =
        AuxiliaryDataType::F32Vec(AuxDataF32Vec::try_from((bits(&[1.0, -2.0, 0.25]), 3)).unwrap());
    let mut expected = vec![0u8, 0, 0, 3];
    expected.extend(native(&[1.0, -2.0, 0.25]));
    assert_eq!(value.to_data_buffer(), expected);
}

#[test]
fn payload_is_the_memory_image_of_the_scalars() {
    // One word with four different bytes: the payload must hold them in the
    // order of the machine, not hand the word back or reorder it.
    let word = 0x0102_0304u32;
    let value = AuxiliaryDataType::F32Vec(AuxDataF32Vec::try_from((vec![word], 1)).unwrap());
    let bytes = value.to_data_buffer();
    assert_eq!(bytes.len(), 8);
    assert_eq!(&bytes[0..4], &[0, 0, 0, 1]);
    assert_eq!(&bytes[4..8], &word.to_ne_bytes());
}

#[test]
fn three_dimensions_encode_three_prefixes() {
    let values: Vec<f32> = (0..8).map(|i| i as f32).collect();
    let value = AuxiliaryDataType::F32Vec3(
        AuxDataF32Vec3::try_from((bits(&values), 2, 2, 2)).unwrap(),
    );
    let mut expected = vec![0u8, 0, 0, 2, 0, 0, 0, 2, 0, 0, 0, 2];
    expected.extend(native(&values));
    assert_eq!(value.to_data_buffer(), expected);
}

fn decode(bytes: &[u8], rank: usize) -> (Vec<u32>, Vec<u32>) {
    let mut dims = Vec::new();
    for d in 0..rank {
        let mut word = [0u8; 4];
        word.copy_from_slice(&bytes[4 * d..4 * d + 4]);
        dims.push(u32::from_be_bytes(word));
    }
    let mut values = Vec::new();
    for chunk in bytes[4 * rank..].chunks_exact(4) {
        let mut word = [0u8; 4];
        word.copy_from_slice(chunk);
        values.push(u32::from_ne_bytes(word));
    }
    (dims, values)
}

#[test]
fn encoding_round_trips_through_the_documented_layout() {
    let values: Vec<f32> = (0..24).map(|i| i as f32 * 0.125 - 1.0).collect();
    let value = AuxiliaryDataType::F32Vec4(
        AuxDataF32Vec4::try_from((bits(&values), 1, 2, 3, 4)).unwrap(),
    );
    let (dims, decoded) = decode(&value.to_data_buffer(), 4);
    assert_eq!(dims, vec![1, 2, 3, 4]);
    assert_eq!(decoded, bits(&values));
    assert_eq!(decoded.len() as u32, dims.iter().product::<u32>());

    let scalar = AuxiliaryDataType::F32(0.75f32.to_bits());
    let bytes = scalar.to_data_buffer();
    let mut word = [0u8; 4];
    word.copy_from_slice(&bytes);
    assert_eq!(f32::from_bits(u32::from_be_bytes(word)), 0.75);
}

#[test]
fn mem_size_is_four_bytes_but_for_empty() {
    assert_eq!(AuxiliaryDataTypeConsumer::Empty.mem_size(), 0);
    assert_eq!(AuxiliaryDataTypeConsumer::F32.mem_size(), 4);
    assert_eq!(AuxiliaryDataTypeConsumer::F32Vec.mem_size(), 4);
    assert_eq!(AuxiliaryDataTypeConsumer::F32Vec2.mem_size(), 4);
    assert_eq!(AuxiliaryDataTypeConsumer::F32Vec3.mem_size(), 4);
    assert_eq!(AuxiliaryDataTypeConsumer::F32Vec4.mem_size(), 4);
}

#[test]
fn empty_buffers_are_zero_prefixes_and_one_zero_scalar() {
    assert_eq!(AuxiliaryDataTypeConsumer::Empty.empty_buffer(), Vec::<u8>::new());
    assert_eq!(AuxiliaryDataTypeConsumer::F32.empty_buffer(), vec![0u8; 4]);
    assert_eq!(AuxiliaryDataTypeConsumer::F32Vec.empty_buffer(), vec![0u8; 8]);
    assert_eq!(AuxiliaryDataTypeConsumer::F32Vec2.empty_buffer(), vec![0u8; 12]);
    assert_eq!(AuxiliaryDataTypeConsumer::F32Vec3.empty_buffer(), vec![0u8; 16]);
    assert_eq!(AuxiliaryDataTypeConsumer::F32Vec4.empty_buffer(), vec![0u8; 20]);
}

#[test]
fn shapes_are_listed_in_order_with_their_names() {
    let all = AuxiliaryDataTypeConsumer::all();
    let names: Vec<String> = all.iter().map(|k| k.name()).collect();
    assert_eq!(names, vec!["Empty", "F32", "F32Vec", "F32Vec2", "F32Vec3", "F32Vec4"]);
    let ranks: Vec<usize> = all.iter().map(|k| k.dimensions()).collect();
    assert_eq!(ranks, vec![0, 0, 1, 2, 3, 4]);
}

#[test]
fn compatibility_is_equality_of_shape() {
    let scalar = AuxiliaryDataType::F32(0);
    assert!(aux_data_is_compatible(&scalar, &AuxiliaryDataTypeConsumer::F32));
    assert!(!aux_data_is_compatible(&scalar, &AuxiliaryDataTypeConsumer::F32Vec));
    assert!(!aux_data_is_compatible(&AuxiliaryDataType::Empty, &AuxiliaryDataTypeConsumer::F32));
    assert!(aux_data_is_compatible(&AuxiliaryDataType::Empty, &AuxiliaryDataTypeConsumer::Empty));
    let cube =
        AuxiliaryDataType::F32Vec3(AuxDataF32Vec3::try_from((Vec::new(), 0, 0, 0)).unwrap());
    assert!(aux_data_is_compatible(&cube, &AuxiliaryDataTypeConsumer::F32Vec3));
    assert!(!aux_data_is_compatible(&cube, &AuxiliaryDataTypeConsumer::F32Vec4));
    assert_eq!(aux_data_to_consumer_type(&cube), AuxiliaryDataTypeConsumer::F32Vec3);
    assert!(aux_data_consumer_type_is_compatible(
        &AuxiliaryDataTypeConsumer::F32Vec2,
        &AuxiliaryDataTypeConsumer::F32Vec2
    ));
    assert!(!aux_data_consumer_type_is_compatible(
        &AuxiliaryDataTypeConsumer::F32Vec2,
        &AuxiliaryDataTypeConsumer::F32
    ));
}

#[test]
fn default_values_have_zero_dimensions() {
    let scalar = AuxiliaryDataTypeConsumer::F32.default_aux_value();
    assert!(matches!(scalar, AuxiliaryDataType::F32(0)));
    match AuxiliaryDataTypeConsumer::F32Vec2.default_aux_value() {
        AuxiliaryDataType::F32Vec2(v) => {
            assert_eq!(v.dimensions(), vec![0, 0]);
            assert!(v.data().is_empty());
        }
        other => panic!("wrong shape: {:?}", other),
    }
    assert!(matches!(
        AuxiliaryDataTypeConsumer::Empty.default_aux_value(),
        AuxiliaryDataType::Empty
    ));
}

#[test]
fn auxiliary_data_keeps_value_and_size() {
    let data = AuxiliaryData::new(AuxiliaryDataType::F32(7), 1);
    assert_eq!(data.size, 1);
    let derived = AuxiliaryData::of(AuxiliaryDataType::F32Vec(
        AuxDataF32Vec::try_from((bits(&[1.0; 9]), 9)).unwrap(),
    ));
    assert_eq!(derived.size, 9);
    let copy = derived.clone();
    assert_eq!(copy.size, 9);
    assert_eq!(copy.data.to_data_buffer(), derived.data.to_data_buffer());
}
