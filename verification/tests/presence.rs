use chat_relay::presence::presence_message;

#[test]
fn presence_of_zero() {
    assert_eq!(presence_message(0), "[SYSTEM] current online: 0");
}

#[test]
fn presence_of_single_digits() {
    assert_eq!(presence_message(1), "[SYSTEM] current online: 1");
    assert_eq!(presence_message(9), "[SYSTEM] current online: 9");
}

#[test]
fn presence_of_several_digits() {
    assert_eq!(presence_message(10), "[SYSTEM] current online: 10");
    assert_eq!(presence_message(12), "[SYSTEM] current online: 12");
    assert_eq!(presence_message(100), "[SYSTEM] current online: 100");
    assert_eq!(presence_message(9070), "[SYSTEM] current online: 9070");
}

#[test]
fn presence_of_the_largest_count() {
    assert_eq!(
        presence_message(usize::MAX),
        format!("[SYSTEM] current online: {}", usize::MAX)
    );
}

#[test]
fn presence_agrees_with_std_formatting() {
    let mut n: usize = 0;
    while n < 2500 {
        assert_eq!(presence_message(n), format!("[SYSTEM] current online: {}", n));
        n += 7;
    }
}
