use font_obfuscation::mask::{mask, KEY_LEN, WINDOW_LEN};

fn counting_key() -> [u8; 20] {
    let mut key = [0u8; 20];
    for (i, byte) in key.iter_mut().enumerate() {
        *byte = i as u8 + 1;
    }
    key
}

#[test]
fn mask_constants() {
    assert_eq!(KEY_LEN, 20);
    assert_eq!(WINDOW_LEN, 1040);
    assert_eq!(WINDOW_LEN, 52 * KEY_LEN);
}

#[test]
fn mask_empty_input() {
    assert_eq!(mask(&[], &counting_key()), Vec::<u8>::new());
    assert_eq!(mask(&[], &[0u8; 20]), Vec::<u8>::new());
}

#[test]
fn mask_of_zeros_shows_the_key() {
    let key = counting_key();
    let output = mask(&[0u8; 45], &key);
    assert_eq!(&output[0..20], &key[..]);
    assert_eq!(&output[20..40], &key[..]);
    assert_eq!(&output[40..45], &key[0..5]);
}

#[test]
fn mask_exact_bytes() {
    let key = counting_key();
    let input = [0xffu8, 0x00, 0x0f, 0xf0, 0x55];
    assert_eq!(mask(&input, &key), vec![0xfe, 0x02, 0x0c, 0xf4, 0x50]);
}

#[test]
fn mask_wraps_at_key_length() {
    let key = counting_key();
    let input = vec![0x80u8; 22];
    let output = mask(&input, &key);
    assert_eq!(output[19], 0x80 ^ 20);
    assert_eq!(output[20], 0x80 ^ 1);
    assert_eq!(output[21], 0x80 ^ 2);
}

#[test]
fn mask_short_input_is_masked_throughout() {
    let key = [0xffu8; 20];
    let input: Vec<u8> = (0..100u8).collect();
    let expected: Vec<u8> = (0..100u8).map(|b| !b).collect();
    assert_eq!(mask(&input, &key), expected);
}

#[test]
fn mask_window_boundary() {
    let key = [0xffu8; 20];
    let input = vec![0x12u8; 1100];
    let output = mask(&input, &key);
    assert_eq!(output.len(), 1100);
    assert!(output[..1040].iter().all(|&b| b == 0xed));
    assert!(output[1040..].iter().all(|&b| b == 0x12));
    assert_eq!(output[1039], 0xed);
    assert_eq!(output[1040], 0x12);
}

#[test]
fn mask_input_of_window_length() {
    let key = counting_key();
    let input = vec![0u8; 1040];
    let output = mask(&input, &key);
    assert_eq!(output.len(), 1040);
    assert_eq!(output[1039], 20);
    assert_eq!(output[1020], 1);
}

#[test]
fn mask_with_zero_key_is_identity() {
    let input: Vec<u8> = (0..2000).map(|i| (i % 251) as u8).collect();
    assert_eq!(mask(&input, &[0u8; 20]), input);
}

#[test]
fn mask_twice_restores_input() {
    let key = counting_key();
    for len in [0usize, 1, 20, 1039, 1040, 1041, 4000] {
        let input: Vec<u8> = (0..len).map(|i| (i * 13 + 5) as u8).collect();
        let once = mask(&input, &key);
        assert_eq!(once.len(), len);
        assert_eq!(mask(&once, &key), input);
    }
}

#[test]
fn mask_leaves_input_untouched() {
    let key = counting_key();
    let input = vec![7u8; 30];
    let copy = input.clone();
    let _ = mask(&input, &key);
    assert_eq!(input, copy);
}
