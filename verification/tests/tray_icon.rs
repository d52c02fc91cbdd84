use screenblocker::tray_icon::{decimal_text, digits_in, segments, time_label, unpremultiply, SIZE};

#[test]
fn segments_of_each_digit() {
    assert_eq!(segments(8), [true; 7]);
    assert_eq!(segments(1), [false, true, true, false, false, false, false]);
    assert_eq!(segments(0), [true, true, true, true, true, true, false]);
    assert_eq!(segments(10), [false; 7]);
    for a in 0..10u8 {
        for b in 0..10u8 {
            if a != b {
                assert_ne!(segments(a), segments(b));
            }
        }
    }
}

#[test]
fn unpremultiply_keeps_the_buffer_size() {
    let data = vec![0u8; (SIZE * SIZE * 4) as usize];
    assert_eq!(unpremultiply(&data).len() as u32, SIZE * SIZE * 4);
}

#[test]
fn unpremultiply_converts_each_pixel() {
    let data = [255, 255, 255, 255, 0, 9, 9, 0, 64, 32, 0, 128, 10, 20, 30, 255, 200, 1, 1, 100];
    let out = unpremultiply(&data);
    assert_eq!(&out[0..4], &[255, 255, 255, 255]);
    assert_eq!(&out[4..8], &[0, 0, 0, 0]);
    assert_eq!(&out[8..12], &[128, 64, 0, 128]);
    assert_eq!(&out[12..16], &[10, 20, 30, 255]);
    // More colour than alpha allows is clamped.
    assert_eq!(&out[16..20], &[255, 3, 3, 100]);
}

#[test]
fn unpremultiply_drops_a_partial_pixel() {
    assert_eq!(unpremultiply(&[1, 2, 3, 255, 7, 7]), vec![1, 2, 3, 255]);
    assert!(unpremultiply(&[]).is_empty());
}

#[test]
fn label_shows_seconds_in_the_final_minute() {
    assert_eq!(time_label(59), ("59".to_string(), true));
    assert_eq!(time_label(5), ("5".to_string(), true));
    assert_eq!(time_label(0), ("0".to_string(), true));
    assert_eq!(time_label(-7), ("0".to_string(), true));
}

#[test]
fn label_shows_minutes_rounded_up_otherwise() {
    assert_eq!(time_label(60), ("1".to_string(), false));
    assert_eq!(time_label(61), ("2".to_string(), false));
    assert_eq!(time_label(1500), ("25".to_string(), false));
    assert_eq!(time_label(1441), ("25".to_string(), false));
    assert_eq!(time_label(7200), ("120".to_string(), false));
}

#[test]
fn decimal_text_has_no_leading_zeros() {
    assert_eq!(decimal_text(0), "0");
    assert_eq!(decimal_text(7), "7");
    assert_eq!(decimal_text(10), "10");
    assert_eq!(decimal_text(u64::MAX), u64::MAX.to_string());
}

#[test]
fn digits_are_read_in_order_skipping_other_characters() {
    assert_eq!(digits_in("24"), vec![2, 4]);
    assert_eq!(digits_in("4:05"), vec![4, 0, 5]);
    assert_eq!(digits_in("x"), Vec::<u8>::new());
    assert_eq!(digits_in("٣1"), vec![1]);
}
