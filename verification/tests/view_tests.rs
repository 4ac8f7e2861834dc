use binocle::view::View;

#[test]
fn view_basic_access() {
    let data: Vec<u8> = vec![0, 1, 2];
    let view = View::new(&data, 0, 1);

    assert_eq!(view.byte_at(0), Some(0));
    assert_eq!(view.byte_at(1), Some(1));
    assert_eq!(view.byte_at(2), Some(2));
    assert_eq!(view.byte_at(3), None);
    assert_eq!(view.byte_at(4), None);
}

#[test]
fn view_access_with_offset() {
    let data: Vec<u8> = vec![0, 1, 2, 3, 4, 5];
    {
        let view = View::new(&data, 2, 1);

        assert_eq!(view.byte_at(0), Some(2));
        assert_eq!(view.byte_at(1), Some(3));
        assert_eq!(view.byte_at(2), Some(4));
        assert_eq!(view.byte_at(3), Some(5));
        assert_eq!(view.byte_at(4), None);
        assert_eq!(view.byte_at(5), None);
    }
    {
        let view = View::new(&data, 5, 1);

        assert_eq!(view.byte_at(0), Some(5));
        assert_eq!(view.byte_at(1), None);
        assert_eq!(view.byte_at(2), None);
    }
    {
        let view = View::new(&data, 6, 1);

        assert_eq!(view.byte_at(0), None);
        assert_eq!(view.byte_at(1), None);
    }
}

#[test]
fn view_access_with_stride() {
    let data: Vec<u8> = vec![0, 1, 2, 3, 4, 5, 6, 7, 8, 9];
    {
        let view = View::new(&data, 2, 3);

        assert_eq!(view.byte_at(0), Some(2));
        assert_eq!(view.byte_at(1), Some(5));
        assert_eq!(view.byte_at(2), Some(8));
        assert_eq!(view.byte_at(3), None);
        assert_eq!(view.byte_at(4), None);
    }
    {
        let view = View::new(&data, 0, 2);

        assert_eq!(view.byte_at(0), Some(0));
        assert_eq!(view.byte_at(1), Some(2));
        assert_eq!(view.byte_at(2), Some(4));
        assert_eq!(view.byte_at(3), Some(6));
        assert_eq!(view.byte_at(4), Some(8));
        assert_eq!(view.byte_at(5), None);
        assert_eq!(view.byte_at(6), None);
    }
    {
        let view = View::new(&data, 0, 3);

        assert_eq!(view.byte_at(0), Some(0));
        assert_eq!(view.byte_at(1), Some(3));
        assert_eq!(view.byte_at(2), Some(6));
        assert_eq!(view.byte_at(3), Some(9));
        assert_eq!(view.byte_at(4), None);
        assert_eq!(view.byte_at(5), None);
    }
    {
        let view = View::new(&data, 0, 9);

        assert_eq!(view.byte_at(0), Some(0));
        assert_eq!(view.byte_at(1), Some(9));
        assert_eq!(view.byte_at(2), None);
    }
    {
        let view = View::new(&data, 0, 10);

        assert_eq!(view.byte_at(0), Some(0));
        assert_eq!(view.byte_at(1), None);
        assert_eq!(view.byte_at(2), None);
    }
}

#[test]
fn view_access_u32() {
    let data: Vec<u8> = vec![0x12, 0x34, 0x56, 0x78, 0xaa, 0xbb, 0xcc, 0xdd];
    let view = View::new(&data, 0, 4);

    assert_eq!(view.byte_at(0), Some(0x12));
    assert_eq!(view.byte_at(1), Some(0xaa));

    assert_eq!(view.le_u32_at(0), Some(0x78563412));
    assert_eq!(view.le_u32_at(1), Some(0xddccbbaa));
    assert_eq!(view.le_u32_at(2), None);
}

#[test]
fn byte_at_rejects_negative_data_index() {
    let data: Vec<u8> = vec![10, 20, 30];
    let view = View::new(&data, -2, 1);

    assert_eq!(view.byte_at(0), None);
    assert_eq!(view.byte_at(1), None);
    assert_eq!(view.byte_at(2), Some(10));
    assert_eq!(view.byte_at(3), Some(20));
    assert_eq!(view.byte_at(4), Some(30));
    assert_eq!(view.byte_at(5), None);
}

#[test]
fn slice_at_never_returns_partial_windows() {
    let data: Vec<u8> = vec![0, 1, 2, 3, 4];
    let view = View::new(&data, 0, 1);

    assert_eq!(view.slice_at(0, 5).map(<[u8]>::to_vec), Some(vec![0, 1, 2, 3, 4]));
    assert_eq!(view.slice_at(1, 4).map(<[u8]>::to_vec), Some(vec![1, 2, 3, 4]));
    // A window that straddles the end of the buffer yields nothing, never a
    // truncated slice.
    assert_eq!(view.slice_at(2, 4), None);
    assert_eq!(view.slice_at(4, 2), None);
    assert_eq!(view.slice_at(5, 1), None);
    // Windows that straddle the front are rejected too.
    let shifted = View::new(&data, -1, 1);
    assert_eq!(shifted.slice_at(0, 2), None);
    assert_eq!(shifted.slice_at(1, 2).map(<[u8]>::to_vec), Some(vec![0, 1]));
}

#[test]
fn view_len_rounds_toward_infinity() {
    let data: Vec<u8> = vec![0; 10];

    assert_eq!(View::new(&data, 0, 1).len(), 10);
    assert_eq!(View::new(&data, 0, 3).len(), 4);
    assert_eq!(View::new(&data, 2, 3).len(), 3);
    assert_eq!(View::new(&data, 9, 3).len(), 1);
    assert_eq!(View::new(&data, 0, 10).len(), 1);
    assert_eq!(View::new(&data, 0, 11).len(), 1);
}

#[test]
fn view_multi_byte_reads() {
    let data: Vec<u8> = vec![0x12, 0x34, 0x56, 0x78, 0xaa];
    let view = View::new(&data, 0, 1);

    assert_eq!(view.be_u32_at(0), Some(0x12345678));
    assert_eq!(view.be_u32_at(1), Some(0x345678aa));
    assert_eq!(view.be_u32_at(2), None);

    // This accessor reads its two bytes least-significant first.
    assert_eq!(view.be_u16_at(0), Some(0x3412));
    assert_eq!(view.be_u16_at(3), Some(0xaa78));
    assert_eq!(view.be_u16_at(4), None);

    assert_eq!(view.rgb_at(0), Some([0x12, 0x34, 0x56]));
    assert_eq!(view.rgb_at(2), Some([0x56, 0x78, 0xaa]));
    assert_eq!(view.rgb_at(3), None);

    assert_eq!(view.data_index(3), 3);
    let strided = View::new(&data, 1, 2);
    assert_eq!(strided.data_index(2), 5);
}
