use pair_monitor::address::{address_from_word, address_text};
use pair_monitor::pair::{factory_address, weth_address, UNISWAP_FACTORY, WETH_ADDRESS};

const WETH_BYTES: [u8; 20] = [
    0xc0, 0x2a, 0xaa, 0x39, 0xb2, 0x23, 0xfe, 0x8d, 0x0a, 0x0e, 0x5c, 0x4f, 0x27, 0xea, 0xd9, 0x08,
    0x3c, 0x75, 0x6c, 0xc2,
];

#[test]
fn address_text_is_lowercase_hex_with_prefix() {
    assert_eq!(address_text(&WETH_BYTES), WETH_ADDRESS);
    assert_eq!(address_text(&[0u8; 20]), "0x0000000000000000000000000000000000000000");
    let mut small = [0u8; 20];
    small[19] = 15;
    small[0] = 0xab;
    assert_eq!(address_text(&small), "0xab0000000000000000000000000000000000000f");
}

#[test]
fn reads_the_library_constants() {
    assert_eq!(weth_address(), WETH_BYTES);
    assert_eq!(address_text(&weth_address()), WETH_ADDRESS);
    let factory = factory_address();
    assert_eq!(factory[0], 0x5c);
    assert_eq!(factory[19], 0x6f);
    assert_eq!(address_text(&factory), UNISWAP_FACTORY.to_lowercase());
}

#[test]
fn address_is_the_last_twenty_bytes_of_a_word() {
    let mut word = [0u8; 32];
    for i in 0..32 {
        word[i] = i as u8;
    }
    let a = address_from_word(&word);
    for i in 0..20 {
        assert_eq!(a[i], (i + 12) as u8);
    }
}
