use narrow::Bitmap;

use std::mem;

#[test]
fn offset_byte_slice() {
    let mut bitmap = Bitmap::from_bools(&vec![true; 32]);
    // "unset" first byte
    bitmap.buffer[0] = 0;
    // "construct" new bitmap with last byte sliced off
    let mut bytes = bitmap.buffer.clone();
    bytes.truncate(3);
    let bitmap_slice = Bitmap::from_raw_parts(bytes, 24, 0);
    assert!(!bitmap_slice.to_vec().into_iter().all(|x| x));
}

#[test]
fn offset_bit_slice() {
    let bitmap = Bitmap::from_raw_parts(vec![0b10100000u8], 3, 4);
    assert_eq!(bitmap.len(), 3);
    assert_eq!(bitmap.leading_bits(), 4);
    assert_eq!(bitmap.trailing_bits(), 1);
    assert!(!bitmap.get(0).unwrap());
    assert!(bitmap.get(1).unwrap());
    assert!(!bitmap.get(2).unwrap());
    assert_eq!(bitmap.to_vec().into_iter().filter(|x| !x).count(), 2);
    assert_eq!(bitmap.to_vec().into_iter().filter(|x| *x).count(), 1);
    assert_eq!(bitmap.to_vec(), [false, true, false]);
}

#[test]
fn offset_byte_vec() {
    let mut bitmap = Bitmap::from_bools(&vec![true; 32]);
    // "unset" first byte
    let vec: &mut Vec<u8> = bitmap.buffer_ref_mut();
    vec[0] = 0;
    // "construct" new bitmap with last byte sliced off
    let mut bytes = bitmap.buffer.clone();
    bytes.truncate(3);
    let bitmap_sliced = Bitmap::from_raw_parts(bytes, 24, 0);
    assert!(!bitmap_sliced.to_vec().into_iter().all(|x| x));
}

#[test]
fn from_slice() {
    let bitmap = Bitmap { bits: 5, buffer: vec![42u8], offset: 0 };
    let slice: &[u8] = bitmap.buffer_ref();
    assert_eq!(&slice[0], &42);
    let mut bitmap = Bitmap { bits: 5, buffer: vec![22u8], offset: 0 };
    let slice: &mut Vec<u8> = bitmap.buffer_ref_mut();
    slice[0] += 20;
    assert_eq!(&slice[0], &42);
}

#[test]
fn as_ref() {
    let bitmap = Bitmap::from_bools(&vec![false, true, true, false, true]);
    let slice: &[u8] = bitmap.buffer_ref();
    assert_eq!(&slice[0], &22);
}

#[test]
fn as_ref_u8() {
    let bitmap = Bitmap::from_bools(&vec![false, true, false, true, false, true]);
    let bytes = bitmap.buffer_ref();
    assert_eq!(bytes.len(), 1);
    assert_eq!(bytes[0], 42);
}

#[test]
fn as_ref_bitslice() {
    let bits = Bitmap::from_bools(&vec![
        false, true, false, true, false, true, false, false, false, true,
    ]);
    assert_eq!(bits.len(), 10);
    assert!(!bits.get(0).unwrap());
    assert!(bits.get(1).unwrap());
    assert!(!bits.get(2).unwrap());
    assert!(bits.get(3).unwrap());
    assert!(!bits.get(4).unwrap());
    assert!(bits.get(5).unwrap());
    assert!(!bits.get(6).unwrap());
    assert!(!bits.get(7).unwrap());
    assert!(!bits.get(8).unwrap());
    assert!(bits.get(9).unwrap());
}

#[test]
fn count() {
    let vec = vec![false, true, false, true, false, true];
    let bitmap = Bitmap::from_bools(&vec);
    assert_eq!(bitmap.len(), 6);
    assert!(!bitmap.is_empty());
    vec.iter()
        .zip(bitmap.to_vec().into_iter())
        .for_each(|(a, b)| assert_eq!(*a, b));
}

#[test]
fn mod_from_iter() {
    let vec = vec![true, false, true, false];
    let bitmap = Bitmap::from_bools(&vec);
    assert_eq!(bitmap.len(), vec.len());
    assert_eq!(vec, bitmap.to_vec());
}

#[test]
fn from_iter_ref() {
    let array = [true, false, true, false];
    let bitmap = Bitmap::from_bools(&array.to_vec());
    assert_eq!(bitmap.len(), array.len());
    assert_eq!(array.to_vec(), bitmap.to_vec());
}

#[test]
fn into_iter() {
    let vec = vec![true, false, true, false];
    let bitmap = Bitmap::from_bools(&vec);
    assert_eq!(bitmap.to_vec(), vec);
}

#[test]
fn size_of() {
    assert_eq!(
        mem::size_of::<Bitmap>(),
        mem::size_of::<Vec<u8>>() + 2 * mem::size_of::<usize>()
    );
}

#[test]
fn arrow_buffer() {
    let input = vec![true, false, true];
    let bitmap = Bitmap::from_bools(&input);
    assert_eq!(bitmap.len(), 3);

    let input = vec![true, false, true];
    let bitmap = Bitmap::from_bools(&input);
    assert_eq!(bitmap.len(), 3);
    assert_eq!(bitmap.to_vec(), [true, false, true]);
}

#[test]
fn round_trip_any_length() {
    let inputs: Vec<Vec<bool>> = vec![
        vec![],
        vec![true],
        vec![true, false, true, false],
        vec![true, true, true, false, false, true, false],
        vec![false, true, false, true, false, true, false, true, true],
        vec![true; 17],
    ];
    for input in inputs {
        let bitmap = Bitmap::from_bools(&input);
        assert_eq!(bitmap.to_vec(), input);
    }
}

#[test]
fn extend_matches_from_bools() {
    // Lengths chosen so that appends repeatedly cross and avoid byte
    // boundaries.
    let xs = vec![true, false, true, false, true];
    let ys = vec![false, false, true, true, false, true, false];
    let zs = vec![true, true, false, false, true, false, true, true, false];

    let mut all = xs.clone();
    all.extend(ys.iter().copied());
    all.extend(zs.iter().copied());
    let bulk = Bitmap::from_bools(&all);

    let mut grown = Bitmap::from_bools(&xs);
    grown.extend(&ys);
    grown.extend(&zs);

    assert_eq!(grown.buffer, bulk.buffer);
    assert_eq!(grown.bits, bulk.bits);
    assert_eq!(grown.offset, bulk.offset);
    assert_eq!(grown.to_vec(), all);
}

#[test]
fn empty_bitmap() {
    let bitmap = Bitmap::default();
    assert_eq!(bitmap.len(), 0);
    assert!(bitmap.is_empty());
    assert!(bitmap.buffer.is_empty());
    assert_eq!(bitmap.get(0), None);
    assert_eq!(bitmap.get(100), None);
    assert_eq!(bitmap.trailing_bits(), 0);
    assert_eq!(bitmap.leading_bits(), 0);
    assert_eq!(bitmap.to_vec(), Vec::<bool>::new());
}

#[test]
fn bit_addressing() {
    let bitmap = Bitmap::from_raw_parts(vec![0u8, 0, 0], 10, 6);
    assert_eq!(bitmap.byte_index(0), 0);
    assert_eq!(bitmap.bit_index(0), 6);
    assert_eq!(bitmap.byte_index(2), 1);
    assert_eq!(bitmap.bit_index(2), 0);
    assert_eq!(bitmap.byte_index(9), 1);
    assert_eq!(bitmap.bit_index(9), 7);
    assert_eq!(bitmap.trailing_bits(), 0);
    let bitmap = Bitmap::from_bools(&vec![true; 5]);
    assert_eq!(bitmap.trailing_bits(), 3);
}
