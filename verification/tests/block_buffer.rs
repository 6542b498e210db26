//! Fixed-size block assembly from arbitrary fragments.

use rsl_crypto::block_buffer::BlockBuffer;

#[test]
fn fragmentation_preserves_complete_blocks_and_tail() {
    let input = b"the same byte stream has the same blocks";
    let expected_blocks: Vec<[u8; 7]> = input
        .chunks_exact(7)
        .map(|block| block.try_into().unwrap())
        .collect();
    let expected_tail = input.chunks_exact(7).remainder();

    for split in 0..=input.len() {
        let mut buffer = BlockBuffer::<7>::new();
        let mut blocks = Vec::new();
        blocks.extend(buffer.push(&input[..split]));
        blocks.extend(buffer.push(&input[split..]));

        assert_eq!(blocks, expected_blocks, "split {split}");
        assert_eq!(buffer.remainder(), expected_tail, "split {split}");
    }
}

#[test]
fn clear_discards_the_partial_block() {
    let mut buffer = BlockBuffer::<8>::new();
    assert!(buffer.push(b"secret").is_empty(), "six bytes cannot complete a block");
    assert!(!buffer.is_empty());

    buffer.clear();

    assert!(buffer.is_empty());
    assert_eq!(buffer.remainder(), b"");
}

/// A buffer that is exactly filled emits the block and keeps nothing.
#[test]
fn exact_fill_emits_one_block_and_an_empty_tail() {
    let mut buffer = BlockBuffer::<4>::new();
    assert!(buffer.push(b"ab").is_empty());
    assert_eq!(buffer.push(b"cd"), vec![*b"abcd"]);
    assert!(buffer.is_empty());
    assert_eq!(buffer.push(b"efghijklm"), vec![*b"efgh", *b"ijkl"]);
    assert_eq!(buffer.remainder(), b"m");
}
