use zenvi::ime::{encode_utf16, marked_text_range, selected_text_range, text_for_range, Composition};

#[test]
fn utf16_encoding_matches_std() {
    for text in ["", "abc", "中文", "a😀b", "\u{10ffff}"] {
        let ours = encode_utf16(text);
        let std_units: Vec<u16> = text.encode_utf16().collect();
        assert_eq!(ours, std_units);
    }
}

#[test]
fn ranges_of_composed_text() {
    assert_eq!(selected_text_range(None), (0, 0));
    assert_eq!(selected_text_range(Some("a😀")), (3, 3));
    assert_eq!(marked_text_range(Some("中文")), Some((0, 2)));
    assert_eq!(marked_text_range(None), None);
}

#[test]
fn text_for_a_range() {
    assert_eq!(text_for_range(Some("hello"), 1, 3), Some(("el".to_string(), (1, 3))));
    assert_eq!(text_for_range(Some("hi"), 1, 10), Some(("i".to_string(), (1, 2))));
    assert_eq!(text_for_range(Some("hi"), 2, 1), None);
    assert_eq!(text_for_range(None, 0, 1), None);
    assert_eq!(text_for_range(Some("😀"), 0, 1), Some(("\u{fffd}".to_string(), (0, 1))));
}

#[test]
fn composition_lifecycle() {
    let mut c = Composition::new();
    assert_eq!(c.marked_text_range(), None);
    c.mark("ni");
    assert_eq!(c.marked_text_range(), Some((0, 2)));
    assert_eq!(c.selected_text_range(), (2, 2));
    assert_eq!(c.text_for_range(0, 1), Some(("n".to_string(), (0, 1))));
    assert_eq!(c.commit("你"), Some("你".to_string()));
    assert_eq!(c.marked, None);
    c.mark("x");
    c.mark("");
    assert_eq!(c.marked, None);
    c.mark("a");
    assert_eq!(c.commit("a"), Some("a".to_string()));
    assert_eq!(c.commit("a"), None);
    c.mark("a");
    c.unmark();
    assert_eq!(c.marked, None);
}

#[test]
fn the_whole_range_decodes_to_the_composed_text() {
    for text in ["a😀b", "中文", "plain", "𝄞x"] {
        let n = encode_utf16(text).len();
        assert_eq!(text_for_range(Some(text), 0, n), Some((text.to_string(), (0, n))));
    }
    assert_eq!(text_for_range(Some("a😀b"), 2, 4), Some(("\u{fffd}b".to_string(), (2, 4))));
}
