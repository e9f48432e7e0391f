use locket::Viewport;

#[test]
fn test_movement() {
    let mut viewport = Viewport::new(25, 7);
    assert_eq!(viewport.down(), 7);
    assert_eq!(viewport.down(), 14);
    assert_eq!(viewport.down(), 21);
    assert_eq!(viewport.down(), 28);
    assert_eq!(viewport.down(), 28);
    assert_eq!(viewport.up(), 21);
    assert_eq!(viewport.up(), 14);
    assert_eq!(viewport.up(), 7);
    assert_eq!(viewport.up(), 0);
    assert_eq!(viewport.up(), 0);
}

#[test]
fn test_render() {
    let text = "one\r\ntwo\r\nthree\r\nfour\r\nfive\r\nsix\r\nseven\r\neight";

    let mut viewport = Viewport::new(10, 2);
    assert_eq!(viewport.down(), 2);
    assert_eq!(
        viewport.render(text),
        "three\r\nfour\r\nfive\r\nsix\r\nseven\r\neight\r\n\r\n\r\n\r\n"
    );
}

#[test]
fn test_bounds() {
    // 11 lines.
    let text = vec!["_", "_", "_", "_", "_", "_", "_", "_", "_", "_", "_"];
    assert_eq!(text.len(), 11, "test cases expect 11 lines");

    let one = Viewport::new(5, 3).bounds(text.len());
    assert_eq!(one.len(), 3);
    assert!(one
        .get(&0)
        .is_some_and(|n| n.upper == 0 && n.lower.is_some_and(|f| f == 4)));
    assert!(one
        .get(&6)
        .is_some_and(|n| n.upper == 6 && n.lower.is_some_and(|f| f == 10)));

    let two = Viewport::new(4, 2).bounds(text.len());
    assert_eq!(two.len(), 5);
    assert!(two
        .get(&0)
        .is_some_and(|n| n.upper == 0 && n.lower.is_some_and(|f| f == 3)));
    assert!(two
        .get(&8)
        .is_some_and(|n| n.upper == 8 && n.lower.is_some_and(|f| f == 10)));

    let three = Viewport::new(10, 10).bounds(text.len());
    assert_eq!(three.len(), 2);
    assert!(three
        .get(&0)
        .is_some_and(|n| n.upper == 0 && n.lower.is_some_and(|f| f == 9)));
    assert!(three
        .get(&10)
        .is_some_and(|n| n.upper == 10 && n.lower.is_none()));
}

#[test]
fn bounds_of_nothing_is_empty() {
    assert_eq!(Viewport::new(5, 3).bounds(0).len(), 0);
}

#[test]
fn bounds_of_one_item() {
    let map = Viewport::new(5, 3).bounds(1);
    assert_eq!(map.len(), 1);
    let b = map.get(&0).unwrap();
    assert_eq!(b.upper, 0);
    assert_eq!(b.lower, None);
}

#[test]
fn bounds_cover_every_index_without_gaps() {
    for (height, step) in [(5u16, 3u16), (4, 2), (3, 3), (1, 1), (6, 1)] {
        for len in 0..40usize {
            let map = Viewport::new(height, step).bounds(len);
            for i in 0..len {
                let covered = map.iter().any(|(&y, b)| {
                    let last = b.lower.unwrap_or(b.upper);
                    y == b.upper && y <= i && i <= last
                });
                assert!(covered, "index {i} of {len} not covered");
            }
            for (&y, b) in map.iter() {
                assert!(b.lower.unwrap_or(b.upper) < len);
                assert_eq!(y % step as usize, 0);
                if y + (height as usize) < len && y + (step as usize) < len {
                    assert!(map.contains_key(&(y + step as usize)));
                }
            }
        }
    }
}

#[test]
fn render_pads_short_content() {
    let viewport = Viewport::new(4, 1);
    assert_eq!(viewport.render("a\nb\n"), "a\r\nb\r\n\r\n\r\n");
    assert_eq!(viewport.render(""), "\r\n\r\n\r\n\r\n");
}

#[test]
fn render_takes_at_most_height_lines() {
    let mut viewport = Viewport::new(2, 1);
    viewport.down();
    assert_eq!(viewport.render("1\n2\n3\n4\n"), "2\r\n3\r\n");
    assert_eq!(viewport.render("1\n2\n3\n4"), "2\r\n3");
    viewport.down();
    assert_eq!(viewport.render("1\n2\n3\n4"), "3\r\n4");
}

#[test]
fn render_lines_three_to_eight_then_blanks() {
    let mut viewport = Viewport::new(10, 2);
    assert_eq!(viewport.down(), 2);
    let text = "1\n2\n3\n4\n5\n6\n7\n8";
    assert_eq!(viewport.render(text), "3\r\n4\r\n5\r\n6\r\n7\r\n8\r\n\r\n\r\n\r\n");
}

#[test]
fn render_after_two_steps_down() {
    let mut viewport = Viewport::new(10, 2);
    viewport.down();
    viewport.down();
    let text = "1\n2\n3\n4\n5\n6\n7\n8";
    assert_eq!(viewport.render(text), "5\r\n6\r\n7\r\n8\r\n\r\n\r\n\r\n\r\n\r\n");
}

#[test]
fn render_has_height_lines_when_content_ends_with_newline() {
    let mut viewport = Viewport::new(6, 2);
    viewport.down();
    let out = viewport.render("a\nb\nc\nd\n");
    assert_eq!(out.lines().count(), 6);
}

#[test]
fn render_past_the_end_is_blank() {
    let mut viewport = Viewport::new(3, 5);
    viewport.down();
    assert_eq!(viewport.y(), 5);
    assert_eq!(viewport.render("a\nb"), "\r\n\r\n\r\n");
}

#[test]
fn down_then_up_round_trips() {
    let mut viewport = Viewport::new(25, 7);
    for _ in 0..4 {
        viewport.down();
    }
    assert_eq!(viewport.y(), 28);
    for _ in 0..4 {
        viewport.up();
    }
    assert_eq!(viewport.y(), 0);
}

#[test]
fn offset_stays_below_height_plus_step() {
    let mut viewport = Viewport::new(10, 4);
    for step in 0..40 {
        if step % 5 == 4 {
            viewport.up();
        } else {
            viewport.down();
        }
        assert!(viewport.y() < 14);
        assert_eq!(viewport.y() % 4, 0);
    }
}

#[test]
fn height_can_change() {
    let mut viewport = Viewport::new(10, 4);
    assert_eq!(viewport.height(), 10);
    viewport.set_height(3);
    assert_eq!(viewport.height(), 3);
    assert_eq!(viewport.y(), 0);
}

#[test]
fn render_always_has_height_line_slots() {
    let texts = ["", "a", "a\n", "a\nb\nc", "a\r\nb\r\nc\r\n", "1\n2\n3\n4\n5\n6\n7\n8"];
    for text in texts {
        for height in 0..6u16 {
            let mut viewport = Viewport::new(height, 1);
            for _ in 0..4 {
                let out = viewport.render(text);
                let pieces: Vec<&str> = out.split("\r\n").collect();
                assert!(pieces.len() <= height as usize + 1);
                assert!(pieces.len() >= height as usize);
                assert!(pieces[height as usize..].iter().all(|p| p.is_empty()));
                viewport.down();
            }
        }
    }
}

#[test]
fn bounds_with_step_larger_than_height() {
    let map = Viewport::new(2, 5).bounds(4);
    assert_eq!(map.len(), 1);
    assert_eq!(map.get(&0).unwrap().lower, Some(1));
}

#[test]
fn bounds_with_step_equal_to_height() {
    let map = Viewport::new(3, 3).bounds(7);
    assert_eq!(map.len(), 3);
    assert_eq!(map.get(&6).unwrap().lower, None);
}

#[test]
fn round_trip_from_top_with_blocked_downs() {
    let mut viewport = Viewport::new(5, 3);
    for _ in 0..6 {
        viewport.down();
    }
    assert_eq!(viewport.y(), 6);
    for _ in 0..6 {
        viewport.up();
    }
    assert_eq!(viewport.y(), 0);
}

#[test]
fn bounds_key_count_and_successors() {
    for (height, step) in [(5usize, 3usize), (4, 2), (3, 3), (1, 1), (6, 1)] {
        for len in 0..40usize {
            let map = Viewport::new(height as u16, step as u16).bounds(len);
            let expected = if len == 0 {
                0
            } else if len <= height {
                1
            } else {
                (len - height + step - 1) / step + 1
            };
            assert_eq!(map.len(), expected);
            if len > 0 {
                assert!(map.contains_key(&0));
            }
            for &y in map.keys() {
                assert_eq!(map.contains_key(&(y + step)), y + height < len);
            }
        }
    }
}
