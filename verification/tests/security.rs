use stardust::security::cdt::{init, CapabilityDerivationTree};
use stardust::security::token::{Token, RIGHT_GOD, RIGHT_MAP, RIGHT_NONE, RIGHT_READ, RIGHT_WRITE};

#[test]
fn genesis_token_has_every_right() {
    let t = Token::mint_genesis();
    assert_eq!(t.id, 0);
    assert_eq!(t.rights, RIGHT_GOD);
    assert!(t.has_right(RIGHT_READ | RIGHT_WRITE | RIGHT_MAP));
    assert!(t.has_right(u64::MAX));
}

#[test]
fn has_right_requires_all_bits() {
    let t = Token { id: 7, rights: RIGHT_READ | RIGHT_WRITE };
    assert!(t.has_right(RIGHT_READ));
    assert!(t.has_right(RIGHT_READ | RIGHT_WRITE));
    assert!(!t.has_right(RIGHT_READ | RIGHT_MAP));
    assert!(t.has_right(RIGHT_NONE));
}

#[test]
fn sealed_tree_validates_only_genesis() {
    let mut tree = CapabilityDerivationTree::new();
    assert!(!tree.validate(0, Token::mint_genesis()));
    assert!(init(&mut tree));
    assert!(tree.validate(0, Token::mint_genesis()));
    assert!(!tree.validate(1, Token::mint_genesis()));
    assert!(!tree.validate(0, Token { id: 0, rights: RIGHT_READ }));
    assert!(!tree.validate(0, Token { id: 5, rights: RIGHT_GOD }));
    assert!(!tree.validate(0, Token { id: 1024, rights: RIGHT_GOD }));
    assert!(!tree.validate(0, Token { id: u64::MAX, rights: RIGHT_GOD }));
}

#[test]
fn token_display_line() {
    let t = Token { id: 0x1F, rights: 0xA0 };
    assert_eq!(t.display(), b"[+] Token ID: 0x1F | Rights Map: 0xA0\n".to_vec());
}
