use narrow::from_rows;
use narrow::Array;
use narrow::FixedSizePrimitiveArray;
use narrow::NullableFixedSizePrimitiveArray;
use narrow::NullableStructArray;
use narrow::NullableVariableSizeListArray;
use narrow::StructArray;
use narrow::VariableSizeListArray;

#[test]
fn variable_size_list_from_iter() {
    let input = vec![vec![1u8], vec![2, 3], vec![4]];
    let array: VariableSizeListArray<FixedSizePrimitiveArray<u8>> = from_rows(input);
    assert_eq!(array.data.0, &[1, 2, 3, 4]);
    assert_eq!(array.offsets, &[0, 1, 3, 4]);

    let input = vec![Some(vec![1u8]), None, Some(vec![2, 3]), Some(vec![4])];
    let array: NullableVariableSizeListArray<FixedSizePrimitiveArray<u8>> = from_rows(input);
    assert_eq!(array.len(), 4);
    assert_eq!(array.data.0, &[1, 2, 3, 4]);
    assert!(array.is_valid(0).unwrap());
    assert!(array.is_null(1).unwrap());
    assert!(array.is_valid(2).unwrap());
    assert!(array.is_valid(3).unwrap());
    assert_eq!(array.offsets.data.as_slice(), &[0, 1, 1, 3, 4]);

    let input = vec![
        vec![vec![1u8, 2, 3], vec![1, 2, 3]],
        vec![vec![4, 5, 6]],
    ];
    let array: VariableSizeListArray<VariableSizeListArray<FixedSizePrimitiveArray<u8>>> =
        from_rows(input);
    assert_eq!(array.data.data.0, &[1, 2, 3, 1, 2, 3, 4, 5, 6]);
    assert_eq!(array.offsets, &[0, 2, 3]);
    assert_eq!(array.data.offsets, &[0, 3, 6, 9]);

    let input = vec![vec![
        vec![vec![1u8, 2, 3], vec![1, 2, 3]],
        vec![vec![4, 5, 6]],
    ]];
    let array: VariableSizeListArray<
        VariableSizeListArray<VariableSizeListArray<FixedSizePrimitiveArray<u8>>>,
    > = from_rows(input);
    assert_eq!(array.data.data.data.0, &[1, 2, 3, 1, 2, 3, 4, 5, 6]);
    assert_eq!(array.offsets, &[0, 2]);
    assert_eq!(array.data.offsets, &[0, 2, 3]);
    assert_eq!(array.data.data.offsets, &[0, 3, 6, 9]);

    let input = vec![
        None,
        Some(vec![
            None,
            Some(vec![None, Some(vec![1u8, 2, 3]), Some(vec![1, 2, 3])]),
            Some(vec![None, Some(vec![4, 5, 6])]),
        ]),
    ];
    let array: NullableVariableSizeListArray<
        NullableVariableSizeListArray<NullableVariableSizeListArray<FixedSizePrimitiveArray<u8>>>,
    > = from_rows(input);
    assert_eq!(array.data.data.data.0, &[1, 2, 3, 1, 2, 3, 4, 5, 6]);
    assert_eq!(array.offsets.data.as_slice(), &[0, 0, 3]);
    assert_eq!(array.data.offsets.data.as_slice(), &[0, 0, 3, 5]);
    assert_eq!(array.data.data.offsets.data.as_slice(), &[0, 0, 3, 6, 6, 9]);
    assert_eq!(array.is_null(0), Some(true));
    assert_eq!(array.is_valid(1), Some(true));
    assert_eq!(array.data.is_null(0), Some(true));
    assert_eq!(array.data.is_valid(1), Some(true));
    assert_eq!(array.data.data.is_null(0), Some(true));
    assert_eq!(array.data.data.is_valid(1), Some(true));

    let input = vec![
        None,
        Some(vec![
            None,
            Some(vec![
                None,
                Some(vec![None, Some(2u8), Some(3)]),
                Some(vec![None, Some(2), Some(3)]),
            ]),
            Some(vec![None, Some(vec![None, Some(5), Some(6)])]),
        ]),
    ];
    let array: NullableVariableSizeListArray<
        NullableVariableSizeListArray<
            NullableVariableSizeListArray<NullableFixedSizePrimitiveArray<u8>>,
        >,
    > = from_rows(input);
    assert_eq!(
        array.data.data.data.0.data.as_slice(),
        &[
            u8::default(),
            2,
            3,
            u8::default(),
            2,
            3,
            u8::default(),
            5,
            6
        ]
    );
    assert_eq!(array.offsets.data.as_slice(), &[0, 0, 3]);
    assert_eq!(array.data.offsets.data.as_slice(), &[0, 0, 3, 5]);
    assert_eq!(array.data.data.offsets.data.as_slice(), &[0, 0, 3, 6, 6, 9]);
    assert_eq!(array.is_null(0), Some(true));
    assert_eq!(array.is_valid(1), Some(true));
    assert_eq!(array.data.is_null(0), Some(true));
    assert_eq!(array.data.is_valid(1), Some(true));
    assert_eq!(array.data.data.is_null(0), Some(true));
    assert_eq!(array.data.data.is_valid(1), Some(true));
    assert_eq!(array.data.data.data.is_null(0), Some(true));
    assert_eq!(array.data.data.data.is_valid(1), Some(true));
}

type FooRecord = (
    u32,
    (Option<()>, ((), (Option<(u128, u128)>, (bool, (Vec<u8>, Vec<u8>))))),
);

fn foo(
    a: u32,
    b: Option<()>,
    c: (),
    d: Option<(u128, u128)>,
    e: bool,
    f: Vec<u8>,
    g: Vec<u8>,
) -> FooRecord {
    (a, (b, (c, (d, (e, (f, g))))))
}

#[test]
fn struct_from_iter() {
    let input = vec![
        foo(1, None, (), Some((1, 2)), false, vec![1], vec![97]),
        foo(2, Some(()), (), Some((3, 4)), true, vec![2, 3], vec![115]),
        foo(3, None, (), None, true, vec![4], vec![100]),
        foo(4, None, (), None, true, vec![], vec![102]),
    ];
    let array: StructArray<FooRecord> = from_rows(input);
    let cols = &array.columns;
    assert_eq!(cols.0.to_vec(), &[1, 2, 3, 4]);
    assert_eq!(cols.1.0.to_vec(), &[None, Some(()), None, None]);
    assert_eq!(cols.1.1.0.0, &[(), (), (), ()]);
    let d = &cols.1.1.1.0;
    assert_eq!(d.is_valid(0), Some(true));
    assert_eq!(d.is_valid(1), Some(true));
    assert_eq!(d.is_null(2), Some(true));
    assert_eq!(d.is_null(3), Some(true));
    assert_eq!(d.columns.0.0, &[1, 3, 0, 0]);
    assert_eq!(d.columns.1.0, &[2, 4, 0, 0]);
    assert_eq!(cols.1.1.1.1.0.to_vec(), &[false, true, true, true]);
    let f = &cols.1.1.1.1.1.0;
    assert_eq!(f.data.0, &[1, 2, 3, 4]);
    assert_eq!(f.offsets, &[0, 1, 3, 4, 4]);
    let g = &cols.1.1.1.1.1.1;
    assert_eq!(
        g.data.0,
        &[97, 115, 100, 102] // a s d f
    );
    assert_eq!(g.offsets, &[0, 1, 2, 3, 4]);

    let input = vec![
        None,
        Some(foo(1, None, (), Some((1, 2)), false, vec![1], vec![97])),
    ];
    let array: NullableStructArray<FooRecord> = from_rows(input);
    assert_eq!(array.len(), 2);
    assert_eq!(array.is_null(0), Some(true));
    assert_eq!(array.is_valid(1), Some(true));
    assert_eq!(array.is_valid(2), None);
}
