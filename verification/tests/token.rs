use netreactor::token::{descriptor_for, token_for};

#[test]
fn token_of_a_descriptor_is_the_descriptor() {
    assert_eq!(token_for(0), 0);
    assert_eq!(token_for(3), 3);
    assert_eq!(token_for(1024), 1024);
    assert_eq!(token_for(i32::MAX), 2147483647);
}

#[test]
fn token_of_a_negative_number_is_its_sign_extension() {
    assert_eq!(token_for(-1), u64::MAX);
    assert_eq!(token_for(i32::MIN), 0xffff_ffff_8000_0000);
}

#[test]
fn descriptor_of_a_token_is_its_low_half() {
    assert_eq!(descriptor_for(0), 0);
    assert_eq!(descriptor_for(7), 7);
    assert_eq!(descriptor_for(0x1_0000_0003), 3);
    assert_eq!(descriptor_for(0xffff_ffff), -1);
    assert_eq!(descriptor_for(u64::MAX), -1);
    assert_eq!(descriptor_for(0x8000_0000), i32::MIN);
}

#[test]
fn token_leads_back_to_its_descriptor() {
    for descriptor in [0, 1, 2, 3, 4, 5, 63, 64, 1023, 65535, 1 << 20, i32::MAX, -1, -7, i32::MIN] {
        assert_eq!(descriptor_for(token_for(descriptor)), descriptor);
    }
}
