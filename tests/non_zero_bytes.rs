use openssh_mux_client::{NonZeroByteSlice, NonZeroByteVec};

#[test]
fn test_byte_slice_with_zero() {
    let mut vec: Vec<u8> = (0..9).collect();
    vec.push(0);

    let option = NonZeroByteSlice::new(&vec);
    assert!(option.is_none(), "{:#?}", option);
}

#[test]
fn test_byte_slice_without_zero() {
    let vec: Vec<u8> = (1..102).collect();
    NonZeroByteSlice::new(&vec).unwrap();
}

#[test]
fn test_byte_vec_without_zero() {
    let vec: Vec<u8> = (1..102).collect();
    NonZeroByteVec::new(vec).unwrap();
}

#[test]
fn test_byte_vec_from_bytes_remove_nul_zero() {
    let mut vec: Vec<u8> = (0..3).collect();
    vec.push(0);
    assert_eq!(NonZeroByteVec::from_bytes_remove_nul(vec).into_inner(), vec![1, 2]);
}

#[test]
fn byte_vec_with_zero_is_refused() {
    assert!(NonZeroByteVec::new(vec![1, 0, 2]).is_none());
}

#[test]
fn byte_vec_push_and_copy() {
    let slice_bytes = [104u8, 105];
    let slice = NonZeroByteSlice::new(&slice_bytes).unwrap();
    let mut v = NonZeroByteVec::from_slice(&slice);
    v.push(33);
    assert_eq!(v.as_bytes(), &[104, 105, 33]);
    assert_eq!(slice.into_inner(), &[104, 105]);
}

#[test]
fn remove_nul_keeps_order() {
    let v = NonZeroByteVec::from_bytes_remove_nul(vec![0, 5, 0, 0, 7, 9, 0]);
    assert_eq!(v.into_inner(), vec![5, 7, 9]);
}
