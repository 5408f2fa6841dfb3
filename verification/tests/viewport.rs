use butterfly::viewport::{byte_to_x, cell_of, page_size, x_to_byte, Viewport, MAX_LEN, SCROLL_OFFSET};

fn vp(base_offset: u64, loc: u64) -> Viewport {
    Viewport { base_offset, loc }
}

#[test]
fn columns_of_the_hex_field() {
    let expected = [0u8, 3, 6, 9, 13, 16, 19, 22, 27, 30, 33, 36, 40, 43, 46, 49];
    for byte in 0..16u8 {
        assert_eq!(byte_to_x(byte), expected[byte as usize]);
    }
}

#[test]
fn column_round_trip() {
    let mut digits = 0;
    for x in 0..=255u8 {
        match x_to_byte(x) {
            Some(byte) => {
                assert!(byte < 16);
                let first = byte_to_x(byte);
                assert!(x == first || x == first + 1, "column {}", x);
                digits += 1;
            }
            None => {
                for byte in 0..16u8 {
                    assert!(byte_to_x(byte) != x && byte_to_x(byte) + 1 != x, "column {}", x);
                }
            }
        }
    }
    assert_eq!(digits, 32);
    for byte in 0..16u8 {
        assert_eq!(x_to_byte(byte_to_x(byte)), Some(byte));
        assert_eq!(x_to_byte(byte_to_x(byte) + 1), Some(byte));
    }
}

#[test]
fn gaps_show_no_byte() {
    for x in [2u8, 5, 8, 11, 12, 15, 24, 25, 26, 38, 39, 51, 52, 53, 100, 255] {
        assert_eq!(x_to_byte(x), None, "column {}", x);
    }
}

#[test]
fn page_is_height_less_two_rows() {
    assert_eq!(page_size(0), 0);
    assert_eq!(page_size(1), 0);
    assert_eq!(page_size(2), 0);
    assert_eq!(page_size(3), 16);
    assert_eq!(page_size(4), 32);
    assert_eq!(page_size(25), 368);
    assert_eq!(page_size(u32::MAX), 16 * (u32::MAX as u64 - 2));
}

#[test]
fn end_offset_is_window_or_file() {
    assert_eq!(vp(0, 0).end_offset(40, 4), 32);
    assert_eq!(vp(16, 16).end_offset(40, 4), 40);
    assert_eq!(vp(0, 0).end_offset(0, 4), 0);
    assert_eq!(vp(16, 16).end_offset(40, 2), 16);
    assert_eq!(vp(48, 0).end_offset(40, 2), 40);
}

#[test]
fn goto_recenter_pins_the_window_at_the_end() {
    // 40 bytes, 2 rows of 16: the window that shows the last row starts at
    // 48 - 32 = 16.
    let after = vp(0, 0).goto(0x25, 40, 4);
    assert_eq!(after, vp(16, 0x25));
}

#[test]
fn goto_one_past_the_end_clamps() {
    for lof in [1u64, 15, 16, 17, 40, 1000, 4096] {
        for height in [0u32, 2, 3, 4, 10, 25] {
            let after = vp(0, 0).goto(lof, lof, height);
            assert_eq!(after.loc, lof - 1);
            let end = after.base_offset + page_size(height);
            assert!(after.base_offset == 0 || end <= (lof + 15) / 16 * 16, "{} {}", lof, height);
            assert_eq!(after.base_offset % 16, 0);
            let far = vp(0, 0).goto(u64::MAX, lof, height);
            assert_eq!(far, after);
        }
    }
    assert_eq!(vp(0, 0).goto(0, 0, 10), vp(0, 0));
    assert_eq!(vp(0, 0).goto(7, 0, 10), vp(0, 0));
}

#[test]
fn goto_centres_the_cursor_row() {
    // 10 rows: half a page is 5 rows
    let after = vp(0, 0).goto(0x1234, 0x10000, 12);
    assert_eq!(after, vp(0x1230 - 0x50, 0x1234));
    // a cursor in view leaves the window alone
    assert_eq!(after.goto(0x1200, 0x10000, 12), vp(0x1230 - 0x50, 0x1200));
    // near the start the window starts at 0
    assert_eq!(after.goto(0x20, 0x10000, 12), vp(0, 0x20));
    // near the end the last row is the file's last
    assert_eq!(after.goto(0xfff0, 0x10000, 12), vp(0x10000 - 0xa0, 0xfff0));
}

#[test]
fn cursor_to_bounds_with_the_least_movement() {
    // above the window: the cursor's row becomes the first
    assert_eq!(vp(0x100, 0x35).cursor_to_bounds(0x1000, 6, false), vp(0x30, 0x35));
    // below: the cursor's row becomes the last of four
    assert_eq!(vp(0x100, 0x235).cursor_to_bounds(0x1000, 6, false), vp(0x200, 0x235));
    assert_eq!(vp(0, 0x25).cursor_to_bounds(0x1000, 6, false), vp(0, 0x25));
    assert_eq!(vp(0, 0x45).cursor_to_bounds(0x1000, 6, false), vp(0x10, 0x45));
    // in view: nothing moves
    assert_eq!(vp(0x100, 0x135).cursor_to_bounds(0x1000, 6, false), vp(0x100, 0x135));
    assert_eq!(vp(0x100, 0x135).cursor_to_bounds(0x1000, 6, true), vp(0x100, 0x135));
}

#[test]
fn line_moves() {
    let lof = 0x100;
    let h = 6; // four rows
    assert_eq!(vp(0, 0x15).cursor_up(lof, h), vp(0, 0x05));
    assert_eq!(vp(0, 0x05).cursor_up(lof, h), vp(0, 0x05));
    assert_eq!(vp(0x20, 0x25).cursor_up(lof, h), vp(0x10, 0x15));
    assert_eq!(vp(0, 0x25).cursor_down(lof, h), vp(0, 0x35));
    assert_eq!(vp(0, 0x35).cursor_down(lof, h), vp(0x10, 0x45));
    assert_eq!(vp(0xc0, 0xf5).cursor_down(lof, h), vp(0xc0, 0xf5));
    assert_eq!(vp(0, 0x0e).cursor_right(lof, h), vp(0, 0x0f));
    assert_eq!(vp(0, 0x0f).cursor_right(lof, h), vp(0, 0x10));
    assert_eq!(vp(0, 0x3f).cursor_right(lof, h), vp(0x10, 0x40));
    assert_eq!(vp(0xc0, 0xff).cursor_right(lof, h), vp(0xc0, 0xff));
    assert_eq!(vp(0, 0x11).cursor_left(lof, h), vp(0, 0x10));
    assert_eq!(vp(0, 0x10).cursor_left(lof, h), vp(0, 0x0f));
    assert_eq!(vp(0x10, 0x10).cursor_left(lof, h), vp(0, 0x0f));
    assert_eq!(vp(0, 0).cursor_left(lof, h), vp(0, 0));
    assert_eq!(vp(0, 0).cursor_right(0, h), vp(0, 0));
    assert_eq!(vp(0, 0).cursor_down(0, h), vp(0, 0));
}

#[test]
fn down_on_a_short_last_row() {
    // 40 bytes: the last row holds 8; from 0x1c there is nothing below
    assert_eq!(vp(0, 0x1c).cursor_down(40, 6), vp(0, 0x1c));
    assert_eq!(vp(0, 0x17).cursor_down(40, 6), vp(0, 0x27));
}

#[test]
fn page_moves() {
    let lof = 0x1000;
    let h = 6; // a page is 0x40
    assert_eq!(vp(0x100, 0x123).page_up(lof, h), vp(0xc0, 0xe3));
    assert_eq!(vp(0x20, 0x33).page_up(lof, h), vp(0, 0));
    assert_eq!(vp(0x20, 0x53).page_up(lof, h), vp(0, 0x13));
    assert_eq!(vp(0x100, 0x123).page_down(lof, h), vp(0x140, 0x163));
    assert_eq!(vp(0xf80, 0xf83).page_down(lof, h), vp(0xfc0, 0xfc3));
    assert_eq!(vp(0xfc0, 0xfc3).page_down(lof, h), vp(0xfc0, 0xfff));
    assert_eq!(vp(0, 0).page_down(0, h), vp(0, 0));
    assert_eq!(vp(0, 3).page_down(40, h), vp(0, 39));
    assert_eq!(vp(0, 3).page_down(100, h), vp(48, 67));
}

#[test]
fn wheel_moves() {
    let lof = 0x1000;
    let h = 6;
    assert_eq!(SCROLL_OFFSET, 0x100);
    assert_eq!(vp(0x300, 0x305).scroll_up(lof, h), vp(0x200, 0x235));
    assert_eq!(vp(0x80, 0x85).scroll_up(lof, h), vp(0, 0x35));
    assert_eq!(vp(0x300, 0x105).scroll_up(lof, h), vp(0x200, 0x105));
    assert_eq!(vp(0, 0).scroll_up(0, h), vp(0, 0));
    assert_eq!(vp(0x300, 0x305).scroll_down(lof, h), vp(0x400, 0x405));
    assert_eq!(vp(0x300, 0x505).scroll_down(lof, h), vp(0x400, 0x505));
    assert_eq!(vp(0xf00, 0xf05).scroll_down(lof, h), vp(0xfc0, 0xfc5));
    assert_eq!(vp(0xfc0, 0xfc5).scroll_down(lof, h), vp(0xfc0, 0xfc5));
    assert_eq!(vp(0, 5).scroll_down(lof, 2), vp(0, 5));
    // one row, 40 bytes: the window goes to the last row, and the cursor
    // to the last byte, since the row ends before its column
    assert_eq!(vp(0, 15).scroll_down(40, 3), vp(32, 39));
    assert_eq!(vp(0, 3).scroll_down(40, 3), vp(32, 35));
}

#[test]
fn end_and_home() {
    assert_eq!(vp(0, 0x23).key_end(0x100), vp(0, 0x2f));
    assert_eq!(vp(0, 0x23).key_end(0x28), vp(0, 0x27));
    assert_eq!(vp(0, 0).key_end(0), vp(0, 0));
    assert_eq!(vp(0, 0x23).key_home(0x100), vp(0, 0x20));
    assert_eq!(vp(0, 0x20).key_home(0x100), vp(0, 0x20));
}

#[test]
fn cells_of_the_screen() {
    assert_eq!(cell_of(19, 0, 25), Some((0, 0)));
    assert_eq!(cell_of(20, 3, 25), Some((3, 0)));
    assert_eq!(cell_of(21, 3, 25), None);
    assert_eq!(cell_of(19 + 49, 22, 25), Some((22, 15)));
    assert_eq!(cell_of(19 + 50, 22, 25), Some((22, 15)));
    assert_eq!(cell_of(19 + 51, 22, 25), None);
    assert_eq!(cell_of(73, 0, 25), None);
    assert_eq!(cell_of(74, 0, 25), Some((0, 0)));
    assert_eq!(cell_of(89, 0, 25), Some((0, 15)));
    assert_eq!(cell_of(90, 0, 25), None);
    assert_eq!(cell_of(18, 0, 25), None);
    assert_eq!(cell_of(19, 23, 25), None);
    assert_eq!(cell_of(19, 0, 1), None);
    assert_eq!(cell_of(19, 0, 2), None);
}

#[test]
fn clicks() {
    let at = vp(0x100, 0x105);
    assert_eq!(at.click(19 + 13, 2, 0x1000, 25), vp(0x100, 0x124));
    assert_eq!(at.click(74 + 9, 1, 0x1000, 25), vp(0x100, 0x119));
    assert_eq!(at.click(21, 2, 0x1000, 25), at);
    assert_eq!(at.click(19, 24, 0x1000, 25), at);
    // a row behind the end of the file: the last byte
    assert_eq!(at.click(19, 5, 0x128, 25), vp(0x100, 0x127));
}

#[test]
fn viewport_starts_at_the_top() {
    assert_eq!(Viewport::new(), vp(0, 0));
    assert_eq!(MAX_LEN, i64::MAX as u64);
    assert_eq!(vp(0, 0).place(5, 3), vp(0, 2));
    assert_eq!(vp(16, 0).place(5, 30), vp(16, 5));
}
