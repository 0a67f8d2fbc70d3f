use chatbot_core::braille::{image_to_patterns, BrailleConfig, LumaImage};
use chatbot_core::unicode::{
    pattern_messages, target_size, DISCORD_WIDTH_LIMIT, N_CHAR_IN_ROW, ROW_PER_MESSAGE,
    TARGET_WIDTH,
};

fn rows(count: usize, width: usize) -> Vec<Vec<char>> {
    (0..count)
        .map(|r| (0..width).map(|c| char::from_u32(0x2800 + ((r + c) % 256) as u32).unwrap()).collect())
        .collect()
}

#[test]
fn limits() {
    assert_eq!(DISCORD_WIDTH_LIMIT, 60);
    assert_eq!(N_CHAR_IN_ROW, 60);
    assert_eq!(ROW_PER_MESSAGE, 33);
    assert_eq!(TARGET_WIDTH, 118);
}

#[test]
fn target_keeps_proportions() {
    assert_eq!(target_size(118, 118), Some((118, 118)));
    assert_eq!(target_size(236, 100), Some((118, 50)));
    assert_eq!(target_size(1920, 1080), Some((118, 66)));
    assert_eq!(target_size(100, 33), Some((118, 38)));
    assert_eq!(target_size(1, 1), Some((118, 118)));
}

#[test]
fn target_rounds_down() {
    // 7 * 118 / 3 = 275.33
    assert_eq!(target_size(3, 7), Some((118, 275)));
    assert_eq!(target_size(119, 1), Some((118, 0)));
    assert_eq!(target_size(10, 0), Some((118, 0)));
}

#[test]
fn target_of_unusable_sizes() {
    assert_eq!(target_size(0, 10), None);
    assert_eq!(target_size(0, 0), None);
    // 36398028 * 118 is the first product past 32 bits
    assert_eq!(target_size(1, 36398027), Some((118, 4294967186)));
    assert_eq!(target_size(1, 36398028), None);
    assert_eq!(target_size(u32::MAX, u32::MAX), None);
}

#[test]
fn no_rows_no_messages() {
    assert!(pattern_messages(&Vec::new()).is_empty());
}

#[test]
fn rows_end_with_line_breaks() {
    let text = vec![vec!['⣿', '⡇'], vec!['⢸']];
    assert_eq!(pattern_messages(&text), vec!["⣿⡇\n⢸\n".to_string()]);
}

#[test]
fn empty_rows_still_make_a_message() {
    let text: Vec<Vec<char>> = vec![Vec::new(), Vec::new()];
    assert_eq!(pattern_messages(&text), vec!["\n\n".to_string()]);
}

#[test]
fn messages_hold_at_most_33_rows() {
    for count in [1usize, 32, 33, 34, 66, 67, 100] {
        let text = rows(count, 3);
        let messages = pattern_messages(&text);
        assert_eq!(messages.len(), (count + 32) / 33);
        let mut seen = 0;
        for (m, message) in messages.iter().enumerate() {
            let lines: Vec<&str> = message.split_terminator('\n').collect();
            let expected = if m + 1 < messages.len() { 33 } else { count - 33 * m };
            assert_eq!(lines.len(), expected);
            assert!(message.ends_with('\n'));
            for line in lines {
                assert_eq!(line.chars().collect::<Vec<char>>(), text[seen]);
                seen += 1;
            }
        }
        assert_eq!(seen, count);
    }
}

#[test]
fn full_width_text_fits_a_message() {
    // an image of the target width gives 59 characters and a line break a row
    let image = LumaImage::new(118, 132, vec![0; 118 * 132]).unwrap();
    let text = image_to_patterns(&image, &BrailleConfig::default());
    assert_eq!(text.len(), 33);
    assert!(text.iter().all(|row| row.len() == 59));
    let messages = pattern_messages(&text);
    assert_eq!(messages.len(), 1);
    assert_eq!(messages[0].chars().count(), 33 * 60);
}
