use rm690b0_rs::framebuffer::{decode, encode, Framebuffer, Rgb};
use rm690b0_rs::init::{init_sequence, InitStep};
use rm690b0_rs::geometry::frame_len_ok;
use rm690b0_rs::{framebuffer_size, ColorMode, DisplaySize};

fn patterned(len: usize) -> Vec<u8> {
    (0..len).map(|i| (i % 251) as u8).collect()
}

#[test]
fn framebuffer_size_of_the_panel() {
    let size = framebuffer_size(DisplaySize::new(450, 600), ColorMode::Rgb888);
    assert_eq!(size, 450 * 600 * 3);
    assert_eq!(size, 810000);
}

#[test]
fn framebuffer_size_is_pixels_times_pixel_width() {
    let display = DisplaySize::new(7, 5);
    assert_eq!(framebuffer_size(display, ColorMode::Rgb565), 7 * 5 * 2);
    assert_eq!(framebuffer_size(display, ColorMode::Rgb888), 7 * 5 * 3);
    assert_eq!(framebuffer_size(display, ColorMode::Rgb666), 7 * 5 * 3);
    assert_eq!(framebuffer_size(display, ColorMode::Gray8), 7 * 5);
    assert_eq!(framebuffer_size(DisplaySize::new(0, 5), ColorMode::Rgb888), 0);
}

#[test]
fn display_size_keeps_its_fields() {
    let display = DisplaySize::new(450, 600);
    assert_eq!(display.width, 450);
    assert_eq!(display.height, 600);
}

#[test]
fn bytes_per_pixel_of_each_mode() {
    assert_eq!(ColorMode::Rgb565.bytes_per_pixel(), 2);
    assert_eq!(ColorMode::Rgb888.bytes_per_pixel(), 3);
    assert_eq!(ColorMode::Rgb666.bytes_per_pixel(), 3);
    assert_eq!(ColorMode::Gray8.bytes_per_pixel(), 1);
}

#[test]
fn pixel_format_of_each_mode() {
    assert_eq!(ColorMode::Rgb565.pixel_format(), 0x55);
    assert_eq!(ColorMode::Rgb888.pixel_format(), 0x77);
    assert_eq!(ColorMode::Rgb666.pixel_format(), 0x66);
    assert_eq!(ColorMode::Gray8.pixel_format(), 0x11);
}

#[test]
fn both_storages_show_their_bytes() {
    let fixed: &'static mut [u8] = Box::leak(vec![1u8, 2, 3].into_boxed_slice());
    let mut a = Framebuffer::Static(fixed);
    let mut b = Framebuffer::Heap(vec![4u8, 5].into_boxed_slice());
    assert_eq!(a.len(), 3);
    assert_eq!(b.len(), 2);
    assert_eq!(a.as_slice(), &[1, 2, 3]);
    assert_eq!(b.as_slice(), &[4, 5]);
    a.as_mut_slice()[1] = 9;
    b.as_mut_slice()[0] = 8;
    assert_eq!(a.as_slice(), &[1, 9, 3]);
    assert_eq!(b.as_slice(), &[8, 5]);
}

#[test]
fn every_pixel_written_is_read_back() {
    let size = DisplaySize::new(5, 4);
    let mut fb = Framebuffer::Heap(vec![0u8; 5 * 4 * 3].into_boxed_slice());
    for y in 0..4 {
        for x in 0..5 {
            let c = Rgb { r: (x + 1) as u8, g: (y + 10) as u8, b: (x * y + 100) as u8 };
            fb.write_pixel(size, ColorMode::Rgb888, x, y, c);
            assert_eq!(fb.read_pixel(size, ColorMode::Rgb888, x, y), Some(c));
        }
    }
    for y in 0..4 {
        for x in 0..5 {
            let c = Rgb { r: (x + 1) as u8, g: (y + 10) as u8, b: (x * y + 100) as u8 };
            assert_eq!(fb.read_pixel(size, ColorMode::Rgb888, x, y), Some(c));
        }
    }
}

#[test]
fn pixel_bytes_lie_at_the_row_major_offset() {
    let size = DisplaySize::new(5, 4);
    let mut fb = Framebuffer::Heap(vec![0u8; 60].into_boxed_slice());
    fb.write_pixel(size, ColorMode::Rgb888, 2, 3, Rgb { r: 0xAA, g: 0xBB, b: 0xCC });
    let at = (3 * 5 + 2) * 3;
    let mut expected = vec![0u8; 60];
    expected[at] = 0xAA;
    expected[at + 1] = 0xBB;
    expected[at + 2] = 0xCC;
    assert_eq!(fb.as_slice(), expected.as_slice());
}

#[test]
fn writes_outside_the_panel_change_nothing() {
    let size = DisplaySize::new(5, 4);
    let before = patterned(60);
    let mut fb = Framebuffer::Heap(before.clone().into_boxed_slice());
    let c = Rgb { r: 255, g: 255, b: 255 };
    let outside =
        [(-1, 0), (0, -1), (5, 0), (0, 4), (5, 4), (i32::MAX, 1), (1, i32::MIN), (65536, 0)];
    for (x, y) in outside {
        fb.write_pixel(size, ColorMode::Rgb888, x, y, c);
        assert_eq!(fb.as_slice(), before.as_slice());
        assert_eq!(fb.read_pixel(size, ColorMode::Rgb888, x, y), None);
    }
}

#[test]
fn a_pixel_that_the_frame_does_not_hold_is_dropped() {
    let size = DisplaySize::new(5, 4);
    let mut fb = Framebuffer::Heap(vec![7u8; 59].into_boxed_slice());
    fb.write_pixel(size, ColorMode::Rgb888, 4, 3, Rgb { r: 1, g: 2, b: 3 });
    assert_eq!(fb.as_slice(), vec![7u8; 59].as_slice());
    assert_eq!(fb.read_pixel(size, ColorMode::Rgb888, 4, 3), None);
    fb.write_pixel(size, ColorMode::Rgb888, 3, 3, Rgb { r: 1, g: 2, b: 3 });
    assert_eq!(fb.read_pixel(size, ColorMode::Rgb888, 3, 3), Some(Rgb { r: 1, g: 2, b: 3 }));
}

#[test]
fn one_row_of_ten_pixels_is_thirty_bytes() {
    let bytes = patterned(450 * 600 * 3);
    let fb = Framebuffer::Heap(bytes.clone().into_boxed_slice());
    let packed = fb.pack_window(450, ColorMode::Rgb888, 10, 19, 5, 5).unwrap();
    let at = (5 * 450 + 10) * 3;
    assert_eq!(at, 6780);
    assert_eq!(packed.len(), 30);
    assert_eq!(packed.as_slice(), &bytes[at..at + 30]);
}

#[test]
fn rows_are_gathered_top_to_bottom() {
    let bytes = patterned(6 * 4 * 2);
    let fb = Framebuffer::Heap(bytes.clone().into_boxed_slice());
    let packed = fb.pack_window(6, ColorMode::Rgb565, 1, 3, 1, 3).unwrap();
    let mut expected = Vec::new();
    for y in 1..=3 {
        for x in 1..=3 {
            let at = (y * 6 + x) * 2;
            expected.push(bytes[at]);
            expected.push(bytes[at + 1]);
        }
    }
    assert_eq!(packed, expected);
    assert_eq!(packed.len(), 3 * 3 * 2);
}

#[test]
fn the_whole_frame_packs_to_itself() {
    let bytes = patterned(6 * 4);
    let fb = Framebuffer::Heap(bytes.clone().into_boxed_slice());
    let packed = fb.pack_window(6, ColorMode::Gray8, 0, 5, 0, 3).unwrap();
    assert_eq!(packed, bytes);
}

#[test]
fn windows_outside_the_frame_are_not_packed() {
    let fb = Framebuffer::Heap(patterned(6 * 4 * 3).into_boxed_slice());
    assert!(fb.pack_window(6, ColorMode::Rgb888, 0, 5, 0, 4).is_none());
    assert!(fb.pack_window(6, ColorMode::Rgb888, 1, 6, 3, 3).is_none());
    assert!(fb.pack_window(6, ColorMode::Rgb888, 3, 2, 0, 0).is_none());
    assert!(fb.pack_window(6, ColorMode::Rgb888, 0, 0, 2, 1).is_none());
    assert!(fb.pack_window(6, ColorMode::Rgb888, 0, 5, 3, 3).is_some());
    assert!(fb.pack_window(65535, ColorMode::Rgb888, 0, 65535, 65535, 65535).is_none());
}

#[test]
fn a_row_may_run_over_the_panel_edge_inside_the_frame() {
    let bytes = patterned(6 * 4);
    let fb = Framebuffer::Heap(bytes.clone().into_boxed_slice());
    let packed = fb.pack_window(6, ColorMode::Gray8, 4, 7, 0, 1).unwrap();
    let mut expected = bytes[4..8].to_vec();
    expected.extend_from_slice(&bytes[10..14]);
    assert_eq!(packed, expected);
}

#[test]
fn initialization_table_in_order() {
    for (color, format) in [
        (ColorMode::Rgb565, 0x55),
        (ColorMode::Rgb888, 0x77),
        (ColorMode::Rgb666, 0x66),
        (ColorMode::Gray8, 0x11),
    ] {
        assert_eq!(
            init_sequence(color),
            vec![
                InitStep::Command(0x11),
                InitStep::Delay(120),
                InitStep::Write(0xFE, 0x20),
                InitStep::Write(0x26, 0x0A),
                InitStep::Write(0x24, 0x80),
                InitStep::Write(0x5A, 0x51),
                InitStep::Write(0x5B, 0x2E),
                InitStep::Write(0xFE, 0x00),
                InitStep::Write(0x3A, format),
                InitStep::Command(0x34),
                InitStep::Command(0x29),
                InitStep::Delay(20),
                InitStep::Write(0x51, 0xFF),
            ]
        );
    }
}

#[test]
fn a_framebuffer_reads_and_writes_like_a_slice() {
    let mut fb = Framebuffer::Heap(vec![1u8, 2, 3, 4].into_boxed_slice());
    assert_eq!(fb[2], 3);
    assert_eq!(&fb[1..3], &[2, 3]);
    fb[0] = 9;
    fb[1..3].copy_from_slice(&[7, 8]);
    assert_eq!(fb.as_slice(), &[9, 7, 8, 4]);
    assert_eq!(fb.iter().map(|b| *b as u32).sum::<u32>(), 28);
}

#[test]
fn a_one_byte_pixel_changes_one_byte() {
    let size = DisplaySize::new(2, 2);
    let mut fb = Framebuffer::Heap(vec![9u8; 4].into_boxed_slice());
    fb.write_pixel(size, ColorMode::Gray8, 0, 0, Rgb { r: 255, g: 255, b: 255 });
    assert_eq!(fb.as_slice(), &[255, 9, 9, 9]);
    fb.write_pixel(size, ColorMode::Gray8, 1, 1, Rgb { r: 0, g: 0, b: 0 });
    assert_eq!(fb.as_slice(), &[255, 9, 9, 0]);
    fb.write_pixel(size, ColorMode::Gray8, 1, 0, Rgb { r: 100, g: 50, b: 200 });
    let grey = ((100 * 77 + 50 * 150 + 200 * 29) / 256) as u8;
    assert_eq!(grey, 82);
    assert_eq!(fb.as_slice(), &[255, grey, 9, 0]);
    assert_eq!(
        fb.read_pixel(size, ColorMode::Gray8, 1, 0),
        Some(Rgb { r: grey, g: grey, b: grey })
    );
}

#[test]
fn a_two_byte_pixel_changes_two_bytes() {
    let size = DisplaySize::new(3, 2);
    let mut fb = Framebuffer::Heap(vec![7u8; 12].into_boxed_slice());
    fb.write_pixel(size, ColorMode::Rgb565, 2, 1, Rgb { r: 0xFF, g: 0x00, b: 0xFF });
    let at = (1 * 3 + 2) * 2;
    let mut expected = vec![7u8; 12];
    expected[at] = 0xF8;
    expected[at + 1] = 0x1F;
    assert_eq!(fb.as_slice(), expected.as_slice());
    assert_eq!(
        fb.read_pixel(size, ColorMode::Rgb565, 2, 1),
        Some(Rgb { r: 0xF8, g: 0x00, b: 0xF8 })
    );
    fb.write_pixel(size, ColorMode::Rgb565, 0, 0, Rgb { r: 0x12, g: 0x34, b: 0x56 });
    let v: u16 = (0x12 / 8) * 2048 + (0x34 / 4) * 32 + 0x56 / 8;
    assert_eq!(v, 0x11AA);
    expected[0] = 0x11;
    expected[1] = 0xAA;
    assert_eq!(fb.as_slice(), expected.as_slice());
}

#[test]
fn colours_in_each_format() {
    let c = Rgb { r: 0x12, g: 0x34, b: 0x56 };
    assert_eq!(encode(c, ColorMode::Rgb888), [0x12, 0x34, 0x56]);
    assert_eq!(encode(c, ColorMode::Rgb666), [0x12, 0x34, 0x56]);
    assert_eq!(encode(c, ColorMode::Rgb565), [0x11, 0xAA, 0]);
    assert_eq!(encode(c, ColorMode::Gray8), [45, 0, 0]);
    assert_eq!(encode(Rgb { r: 255, g: 255, b: 255 }, ColorMode::Rgb565), [0xFF, 0xFF, 0]);
    assert_eq!(encode(Rgb { r: 255, g: 255, b: 255 }, ColorMode::Gray8), [255, 0, 0]);
    assert_eq!(decode(0x12, 0x34, 0x56, ColorMode::Rgb888), c);
    assert_eq!(decode(0x12, 0x34, 0x56, ColorMode::Rgb666), c);
    assert_eq!(decode(0x11, 0xAA, 9, ColorMode::Rgb565), Rgb { r: 0x10, g: 0x34, b: 0x50 });
    assert_eq!(decode(44, 8, 9, ColorMode::Gray8), Rgb { r: 44, g: 44, b: 44 });
}

#[test]
fn frame_length_against_the_panel() {
    let display = DisplaySize::new(450, 600);
    assert!(frame_len_ok(display, ColorMode::Rgb888, 810000));
    assert!(!frame_len_ok(display, ColorMode::Rgb888, 809999));
    assert!(!frame_len_ok(display, ColorMode::Rgb565, 810000));
    assert!(frame_len_ok(display, ColorMode::Rgb565, 540000));
    assert!(frame_len_ok(display, ColorMode::Gray8, 270000));
    assert!(frame_len_ok(DisplaySize::new(0, 600), ColorMode::Gray8, 0));
    assert!(!frame_len_ok(DisplaySize::new(65535, 65535), ColorMode::Rgb888, 0));
}
