use jid_core::boundary::next_boundary;
use jid_core::boundary::prev_boundary;
use jid_core::text::str_to_chars;

#[test]
fn boundaries_stay_in_range_and_make_progress() {
    for content in ["", "a", "ab\ncd", "e\u{0301}x", "\u{1F468}\u{200D}\u{1F469}\u{200D}\u{1F467}y"] {
        let v = str_to_chars(content);
        let n = v.len();
        for o in 0..=n {
            let p = prev_boundary(&v, o);
            assert!(p <= o);
            if o > 0 {
                assert!(p < o);
            }
            let q = next_boundary(&v, o);
            assert!(o <= q && q <= n);
            if o < n {
                assert!(q > o);
            }
        }
    }
}

#[test]
fn walking_left_reaches_zero_and_right_reaches_the_end() {
    let v = str_to_chars("ab\ne\u{0301}\n\nx");
    let n = v.len();
    let mut o: usize = n;
    let mut steps: usize = 0;
    while o > 0 {
        o = prev_boundary(&v, o);
        steps += 1;
        assert!(steps <= n);
    }
    assert_eq!(o, 0);
    let mut steps: usize = 0;
    while o < n {
        o = next_boundary(&v, o);
        steps += 1;
        assert!(steps <= n);
    }
    assert_eq!(o, n);
}

#[test]
fn line_feed_is_its_own_step_next_to_a_cluster() {
    let v = str_to_chars("e\u{0301}\nz");
    // Characters: 'e', accent, '\n', 'z'.
    assert_eq!(prev_boundary(&v, 3), 2);
    assert_eq!(prev_boundary(&v, 2), 0);
    assert_eq!(next_boundary(&v, 2), 3);
    assert_eq!(next_boundary(&v, 0), 2);
}
