use qusb2snes_client::chunked_range;

#[test]
fn range_chunks() {
    assert_eq!(chunked_range(0, 10), vec![(0, 10)],);

    assert_eq!(chunked_range(0, 1024), vec![(0, 1024)],);

    assert_eq!(chunked_range(0, 2000), vec![(0, 1024), (1024, 976)],);

    assert_eq!(
        chunked_range(0xF5_0000, 0x2000),
        vec![
            (0xF5_0000, 1024),
            (0xF5_0400, 1024),
            (0xF5_0800, 1024),
            (0xF5_0C00, 1024),
            (0xF5_1000, 1024),
            (0xF5_1400, 1024),
            (0xF5_1800, 1024),
            (0xF5_1C00, 1024),
        ],
    );

    assert_eq!(
        chunked_range(0xF5_0000, 0x1FFF),
        vec![
            (0xF5_0000, 1024),
            (0xF5_0400, 1024),
            (0xF5_0800, 1024),
            (0xF5_0C00, 1024),
            (0xF5_1000, 1024),
            (0xF5_1400, 1024),
            (0xF5_1800, 1024),
            (0xF5_1C00, 1023),
        ],
    );
}

#[test]
fn zero_length_is_one_empty_pair() {
    assert_eq!(chunked_range(0x1234, 0), vec![(0x1234, 0)]);
}

#[test]
fn short_range_is_one_pair_from_any_start() {
    assert_eq!(chunked_range(7, 1), vec![(7, 1)]);
    assert_eq!(chunked_range(usize::MAX, 1024), vec![(usize::MAX, 1024)]);
}

#[test]
fn long_range_pages_cover_it_exactly() {
    let start = 100usize;
    let length = 5000usize;
    let plan = chunked_range(start, length);
    assert_eq!(plan.len(), 5);
    let total: usize = plan.iter().map(|p| p.1).sum();
    assert_eq!(total, length);
    assert_eq!(plan[0].0, start);
    for i in 0..plan.len() - 1 {
        assert_eq!(plan[i].1, 1024);
        assert_eq!(plan[i + 1].0, plan[i].0 + plan[i].1);
    }
    assert_eq!(plan[4], (100 + 4096, 904));
}

#[test]
fn one_byte_over_a_page() {
    assert_eq!(chunked_range(0, 1025), vec![(0, 1024), (1024, 1)]);
}

#[test]
fn range_ending_at_top_of_address_space() {
    let start = usize::MAX - 2047;
    assert_eq!(chunked_range(start, 2048), vec![(start, 1024), (start + 1024, 1024)]);
}
