use ticket_store::guard::DropBomb;

#[test]
fn test_defused_drop_bomb() {
    let mut bomb = DropBomb::new();
    bomb.defuse();
    assert!(!bomb.is_armed());
    bomb.release();
}

#[test]
fn new_bomb_is_armed() {
    let bomb = DropBomb::new();
    assert!(bomb.is_armed());
    let mut copy = bomb.clone();
    copy.defuse();
    assert!(bomb.is_armed());
    assert!(!copy.is_armed());
}
