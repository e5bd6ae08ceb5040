use chat_relay::chatline::chat_line;

#[test]
fn chat_line_pads_the_time() {
    assert_eq!(chat_line(9, 5, "ann", "hi there"), "[09:05] ann: hi there");
    assert_eq!(chat_line(0, 0, "bob", "midnight"), "[00:00] bob: midnight");
}

#[test]
fn chat_line_with_two_digit_time() {
    assert_eq!(chat_line(23, 59, "zoë", "bye: now"), "[23:59] zoë: bye: now");
    assert_eq!(chat_line(10, 10, "", ""), "[10:10] : ");
}

#[test]
fn chat_line_agrees_with_std_formatting() {
    for hours in [0u32, 7, 9, 10, 12, 23, 100] {
        for minutes in [0u32, 1, 9, 10, 30, 59, 4096] {
            assert_eq!(
                chat_line(hours, minutes, "name", "body"),
                format!("[{:02}:{:02}] {}: {}", hours, minutes, "name", "body")
            );
        }
    }
}
