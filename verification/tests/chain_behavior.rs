use bookchain::Block;
use bookchain::Blockchain;
use bookchain::Book;
use bookchain::BookCheckout;

#[test]
fn chain_new_is_valid_for_any_difficulty() {
    for d in [0usize, 1, 3, 7] {
        let c = Blockchain::new(d);
        assert_eq!(c.len(), 1);
        assert!(c.is_chain_valid());
    }
}

#[test]
fn genesis_block_shape() {
    let c = Blockchain::new(2);
    let g = c.block(0);
    assert_eq!(g.index, 0);
    assert_eq!(g.previous_hash, "");
    assert!(g.data.is_genesis());
    assert_eq!(g.data.book_id(), "");
    assert_eq!(g.data.user(), "");
    assert_eq!(g.data.checkout_date(), "");
    // genesis is mined at difficulty 1 regardless of the chain's difficulty
    assert!(g.hash.starts_with('0'));
    assert_eq!(g.hash.len(), 64);
}

#[test]
fn end_to_end_scenario() {
    let mut chain = Blockchain::new(1);

    let first = Book::new("Book1", "123456").checkout("User1");
    chain.add_block(first);

    let second = Book::new("Book2", "7890").checkout("User2");
    chain.add_block(second);

    assert_eq!(chain.len(), 3);
    assert!(chain.is_chain_valid());
    assert_eq!(chain.block(2).previous_hash, chain.block(1).hash);
}

#[test]
fn linkage_holds_across_chain() {
    let mut chain = Blockchain::new(1);
    for k in 0..3 {
        let user = format!("user-{}", k);
        chain.add_block(BookCheckout::new_checkout("some-book", &user));
    }
    assert_eq!(chain.len(), 4);
    assert!(chain.is_chain_valid());
    for i in 1..chain.len() {
        assert_eq!(chain.block(i).previous_hash, chain.block(i - 1).hash);
    }
}

#[test]
fn appended_blocks_meet_difficulty() {
    let mut chain = Blockchain::new(2);
    chain.add_block(BookCheckout::new_checkout("b", "u"));
    assert_eq!(chain.len(), 2);
    let b = chain.block(1);
    assert!(b.hash.starts_with("00"));
}

#[test]
fn forged_previous_hash_is_rejected() {
    let mut chain = Blockchain::new(1);
    let len_before = chain.len();

    let forged = Block::new(
        1,
        String::from("not-the-real-previous-hash"),
        1,
        BookCheckout::new_checkout("b", "u"),
    );
    assert_ne!(forged.previous_hash, chain.block(0).hash);
    assert!(!chain.block_is_valid(&forged));
    assert_eq!(chain.len(), len_before);
    assert!(chain.is_chain_valid());
}

#[test]
fn candidate_with_true_linkage_is_accepted() {
    let mut chain = Blockchain::new(1);
    let genuine = Block::new(
        1,
        chain.block(0).hash(),
        1,
        BookCheckout::new_checkout("b", "u"),
    );
    assert!(chain.block_is_valid(&genuine));
}

#[test]
fn checkout_record_fields() {
    let book = Book::new("Some Title", "978-3-16");
    let id = book.id.clone();
    let record = book.checkout("User9");
    assert_eq!(record.book_id(), &id);
    assert_eq!(record.user(), "User9");
    assert!(!record.is_genesis());
    assert!(!record.checkout_date().is_empty());
    assert!(record.checkout_date().chars().all(|c| c.is_ascii_digit()));

    let genesis = BookCheckout::new_genesis();
    assert!(genesis.is_genesis());
    assert_eq!(genesis.book_id(), "");
}
