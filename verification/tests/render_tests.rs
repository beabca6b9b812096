use taskman::render::Block;

#[test]
fn block_draw_borders_and_rows() {
    let mut b = Block::new(3, 2, 10, 4, "T");
    b.content = vec!["ab".to_string()];
    let ops = b.draw();
    assert_eq!(ops.len(), 4);
    // Top border at the panel origin: fill, title, fill to the width.
    assert_eq!((ops[0].row, ops[0].col), (2, 3));
    assert_eq!(ops[0].text, "-T--------");
    // First interior row shows the content line padded to width - 2.
    assert_eq!((ops[1].row, ops[1].col), (3, 3));
    assert_eq!(ops[1].text, "|ab      |");
    // Rows beyond the content are blank.
    assert_eq!((ops[2].row, ops[2].col), (4, 3));
    assert_eq!(ops[2].text, "|        |");
    // Bottom border spans the full width.
    assert_eq!((ops[3].row, ops[3].col), (5, 3));
    assert_eq!(ops[3].text, "----------");
}

#[test]
fn block_draw_clips_long_lines() {
    let mut b = Block::new(0, 0, 8, 3, "A");
    b.content = vec!["0123456789".to_string()];
    let ops = b.draw();
    assert_eq!(ops[1].text, "|012345|");
}

#[test]
fn block_draw_trims_content_whitespace() {
    let mut b = Block::new(0, 0, 8, 3, "A");
    b.content = vec!["  hi  ".to_string()];
    let ops = b.draw();
    assert_eq!(ops[1].text, "|hi    |");
}
