use deskovery::data::{PrxData, RequestType, PRX_DATA_SIZE};

/// The first byte of the C image whose setting shows in the field that `field_set` reads.
fn offset_of_field(field_set: impl Fn(&PrxData) -> bool) -> usize {
    (0..PRX_DATA_SIZE)
        .find(|&i| {
            let mut image = [0u8; 44];
            image[i] = 1;
            field_set(&PrxData::from_c_bytes(&image))
        })
        .unwrap()
}

#[test]
fn bindgen_test_layout_PrxData() {
    assert_eq!(::core::mem::size_of::<PrxData>(), 44usize, "Size of: PrxData");
    assert_eq!(::core::mem::align_of::<PrxData>(), 4usize, "Alignment of PrxData");
    assert_eq!(PRX_DATA_SIZE, 44usize, "Size of: PrxData");
    assert_eq!(offset_of_field(|p| p.alarmRatio10 != 0), 0usize, "Offset of field: PrxData::alarmRatio10");
    assert_eq!(offset_of_field(|p| p.alarms != [false; 4]), 4usize, "Offset of field: PrxData::alarms");
    assert_eq!(offset_of_field(|p| p.alarm), 8usize, "Offset of field: PrxData::alarm");
    assert_eq!(offset_of_field(|p| p.darkResponse != [0; 4]), 12usize, "Offset of field: PrxData::darkResponse");
    assert_eq!(offset_of_field(|p| p.lightResponse != [0; 4]), 28usize, "Offset of field: PrxData::lightResponse");
}

#[test]
fn c_image_is_read_little_endian() {
    let mut image = [0u8; 44];
    image[0..4].copy_from_slice(&(-5i32).to_le_bytes());
    image[4] = 1;
    image[6] = 1;
    image[8] = 1;
    for i in 0..4 {
        image[12 + 4 * i..16 + 4 * i].copy_from_slice(&(100 * i as i32 + 7).to_le_bytes());
        image[28 + 4 * i..32 + 4 * i].copy_from_slice(&(-(i as i32) - 1000).to_le_bytes());
    }
    let p = PrxData::from_c_bytes(&image);
    assert_eq!(
        p,
        PrxData {
            alarmRatio10: -5,
            alarms: [true, false, true, false],
            alarm: true,
            darkResponse: [7, 107, 207, 307],
            lightResponse: [-1000, -1001, -1002, -1003],
        }
    );
}

#[test]
fn request_types() {
    assert_eq!(RequestType::Move, RequestType::Move);
}
