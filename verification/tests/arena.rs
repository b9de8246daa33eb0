use seff::arena::{check_images_fit, earlier_copies, find_first, intern, select_earlier, stands_at, ArenaMatch};
use seff::Glyph;

fn image(offset: u16, row_bytes: u8, height: u8) -> Glyph {
    Glyph { row_bytes, image_offset: offset, image_height: height, origin: (0, 0), advance: 1 }
}

#[test]
fn first_occurrence_is_found() {
    let arena = vec![1u8, 2, 1, 2, 3];
    assert_eq!(find_first(&arena, &vec![1, 2]), Some(0));
    assert_eq!(find_first(&arena, &vec![1, 2, 3]), Some(2));
    assert_eq!(find_first(&arena, &vec![3]), Some(4));
    assert_eq!(find_first(&arena, &vec![2, 2]), None);
    assert_eq!(find_first(&arena, &vec![1, 2, 1, 2, 3, 4]), None);
    assert_eq!(find_first(&arena, &vec![]), Some(0));
    assert_eq!(find_first(&vec![], &vec![1]), None);
    assert!(stands_at(&arena, &vec![2, 1], 1));
    assert!(!stands_at(&arena, &vec![2, 1], 0));
}

#[test]
fn interning_adds_what_is_new() {
    let mut arena = vec![1u8];
    // Not there as a whole: added at the end, though it begins in the arena.
    assert_eq!(intern(&mut arena, &vec![1, 1]), 1);
    assert_eq!(arena, vec![1, 1, 1]);
    assert_eq!(intern(&mut arena, &vec![1, 1]), 0);
    assert_eq!(arena, vec![1, 1, 1]);
    assert_eq!(intern(&mut arena, &vec![1, 2]), 3);
    assert_eq!(arena, vec![1, 1, 1, 1, 2]);
    assert_eq!(intern(&mut arena, &vec![1, 1, 2]), 2);
}

#[test]
fn copies_before_the_recorded_place_are_found() {
    let arena = vec![0xC0u8, 0x40, 0xC0];
    let glyphs = vec![image(2, 1, 1), image(1, 1, 1), image(0, 1, 1)];
    assert!(check_images_fit(&glyphs, arena.len()));
    assert_eq!(earlier_copies(&glyphs, &arena), vec![ArenaMatch { pattern: 0, start: 0, end: 1 }]);
}

#[test]
fn copies_that_reach_into_the_recorded_place_do_not_count() {
    let arena = vec![1u8, 1, 1, 1];
    let glyphs = vec![image(2, 2, 1)];
    assert_eq!(earlier_copies(&glyphs, &arena), vec![ArenaMatch { pattern: 0, start: 0, end: 2 }]);
    let glyphs = vec![image(1, 2, 1)];
    assert_eq!(earlier_copies(&glyphs, &arena), vec![]);
}

#[test]
fn shared_images_have_no_earlier_copy() {
    let arena = vec![0xA0u8, 0x40, 0xC0];
    let blank = Glyph { row_bytes: 0, image_offset: 0, image_height: 0, origin: (0, 0), advance: 3 };
    let glyphs = vec![image(0, 1, 2), image(2, 1, 1), blank, image(1, 1, 2), image(0, 1, 2)];
    assert_eq!(earlier_copies(&glyphs, &arena), vec![]);
    assert_eq!(earlier_copies(&Vec::new(), &arena), vec![]);
    assert_eq!(earlier_copies(&vec![blank], &Vec::new()), vec![]);
}

#[test]
fn every_glyph_with_an_earlier_copy_is_named() {
    let arena = vec![7u8, 8, 7, 8, 7, 8];
    let glyphs = vec![image(4, 2, 1), image(4, 1, 2), image(5, 1, 1)];
    let mut copies = earlier_copies(&glyphs, &arena);
    copies.sort_by_key(|m| (m.pattern, m.start));
    assert_eq!(
        copies,
        vec![
            ArenaMatch { pattern: 0, start: 0, end: 2 },
            ArenaMatch { pattern: 0, start: 2, end: 4 },
            ArenaMatch { pattern: 1, start: 0, end: 2 },
            ArenaMatch { pattern: 1, start: 2, end: 4 },
            ArenaMatch { pattern: 2, start: 1, end: 2 },
            ArenaMatch { pattern: 2, start: 3, end: 4 },
        ]
    );
}

#[test]
fn matches_are_selected_by_the_glyphs_place() {
    let glyphs = vec![image(4, 2, 1), image(0, 1, 1)];
    let found = vec![
        ArenaMatch { pattern: 0, start: 0, end: 2 },
        ArenaMatch { pattern: 0, start: 3, end: 5 },
        ArenaMatch { pattern: 1, start: 0, end: 1 },
        ArenaMatch { pattern: 0, start: 2, end: 4 },
        ArenaMatch { pattern: 0, start: 4, end: 6 },
        ArenaMatch { pattern: 9, start: 0, end: 0 },
    ];
    assert_eq!(
        select_earlier(&glyphs, &found),
        vec![ArenaMatch { pattern: 0, start: 0, end: 2 }, ArenaMatch { pattern: 0, start: 2, end: 4 }]
    );
}

#[test]
fn images_outside_the_arena_are_told() {
    assert!(check_images_fit(&vec![image(2, 1, 1)], 3));
    assert!(!check_images_fit(&vec![image(3, 1, 1)], 3));
    assert!(!check_images_fit(&vec![image(0, 2, 2)], 3));
    assert!(!check_images_fit(&vec![image(0, 0, 1)], 3));
    assert!(check_images_fit(&vec![image(3, 0, 0)], 3));
    assert!(!check_images_fit(&vec![image(4, 0, 0)], 3));
}
