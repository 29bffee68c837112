use unsafe_analyzer::{CodeMap, Loc, SourceFile, Span, SpanSnippetError};

const TEXT: &str = "fn main() {\n    unsafe { work(); }\n}\n";

fn one_file() -> CodeMap {
    let mut map = CodeMap::new();
    map.new_filemap("main.rs", TEXT);
    map
}

#[test]
fn files_are_numbered_in_order_of_registration() {
    let mut map = CodeMap::new();
    assert_eq!(map.new_filemap("a.rs", "a"), 0);
    assert_eq!(map.new_filemap("b.rs", "b"), 1);
    assert_eq!(map.new_filemap("a.rs", "a"), 2);
}

#[test]
fn snippet_is_the_text_between_the_offsets() {
    let map = one_file();
    assert_eq!(
        map.span_to_snippet(Span { file: 0, lo: 16, hi: 34 }),
        Ok("unsafe { work(); }".to_string())
    );
}

#[test]
fn snippet_keeps_whitespace_and_comments() {
    let mut map = CodeMap::new();
    let text = "unsafe  {\n\t// why\n\n  x ( ) ;  /* y */ }";
    map.new_filemap("w.rs", text);
    assert_eq!(
        map.span_to_snippet(Span { file: 0, lo: 0, hi: text.len() }),
        Ok(text.to_string())
    );
}

#[test]
fn snippet_of_whole_file_and_of_nothing() {
    let map = one_file();
    assert_eq!(
        map.span_to_snippet(Span { file: 0, lo: 0, hi: TEXT.len() }),
        Ok(TEXT.to_string())
    );
    assert_eq!(map.span_to_snippet(Span { file: 0, lo: 5, hi: 5 }), Ok(String::new()));
    assert_eq!(
        map.span_to_snippet(Span { file: 0, lo: TEXT.len(), hi: TEXT.len() }),
        Ok(String::new())
    );
}

#[test]
fn snippet_put_back_gives_the_file_again() {
    let map = one_file();
    let chars: Vec<char> = TEXT.chars().collect();
    for lo in 0..=chars.len() {
        for hi in lo..=chars.len() {
            let snippet = map.span_to_snippet(Span { file: 0, lo, hi }).unwrap();
            assert_eq!(snippet.chars().count(), hi - lo);
            let mut whole: String = chars[..lo].iter().collect();
            whole.push_str(&snippet);
            whole.extend(chars[hi..].iter());
            assert_eq!(whole, TEXT);
        }
    }
}

#[test]
fn offsets_count_characters_not_bytes() {
    let mut map = CodeMap::new();
    map.new_filemap("u.rs", "é = unsafe { ß }; // ü");
    assert_eq!(
        map.span_to_snippet(Span { file: 0, lo: 4, hi: 16 }),
        Ok("unsafe { ß }".to_string())
    );
    assert_eq!(map.span_to_string(Span { file: 0, lo: 4, hi: 16 }), "u.rs:1:5: 1:17");
    assert_eq!(
        map.span_to_snippet(Span { file: 0, lo: 0, hi: 23 }),
        Err(SpanSnippetError::MalformedForCodemap(Span { file: 0, lo: 0, hi: 23 }))
    );
    assert_eq!(
        map.span_to_snippet(Span { file: 0, lo: 0, hi: 22 }),
        Ok("é = unsafe { ß }; // ü".to_string())
    );
}

#[test]
fn snippet_of_span_that_ends_before_it_starts() {
    let map = one_file();
    let span = Span { file: 0, lo: 7, hi: 3 };
    assert_eq!(map.span_to_snippet(span), Err(SpanSnippetError::IllFormedSpan(span)));
    // This is found before anything else is looked at.
    let span = Span { file: 9, lo: 7, hi: 3 };
    assert_eq!(map.span_to_snippet(span), Err(SpanSnippetError::IllFormedSpan(span)));
}

#[test]
fn snippet_of_span_in_unknown_file() {
    let map = one_file();
    let span = Span { file: 1, lo: 0, hi: 3 };
    assert_eq!(map.span_to_snippet(span), Err(SpanSnippetError::MalformedForCodemap(span)));
    let span = Span { file: 0, lo: 0, hi: 0 };
    assert_eq!(
        CodeMap::new().span_to_snippet(span),
        Err(SpanSnippetError::MalformedForCodemap(span))
    );
}

#[test]
fn snippet_of_span_beyond_the_end() {
    let map = one_file();
    let span = Span { file: 0, lo: 0, hi: TEXT.len() + 1 };
    assert_eq!(map.span_to_snippet(span), Err(SpanSnippetError::MalformedForCodemap(span)));
}

#[test]
fn snippet_after_the_text_was_dropped() {
    let mut map = CodeMap::new();
    map.new_filemap("a.rs", "unsafe {}");
    map.new_filemap("b.rs", "unsafe {}");
    map.unload_source(1);
    let span = Span { file: 1, lo: 0, hi: 9 };
    assert_eq!(
        map.span_to_snippet(span),
        Err(SpanSnippetError::SourceNotAvailable { file: 1 })
    );
    // The other file is untouched.
    assert_eq!(map.span_to_snippet(Span { file: 0, lo: 0, hi: 9 }), Ok("unsafe {}".to_string()));
    // A span that was never inside the file is reported as that.
    let span = Span { file: 1, lo: 0, hi: 10 };
    assert_eq!(map.span_to_snippet(span), Err(SpanSnippetError::MalformedForCodemap(span)));
}

#[test]
fn span_is_still_rendered_after_the_text_was_dropped() {
    let mut map = one_file();
    let span = Span { file: 0, lo: 16, hi: 34 };
    let before = map.span_to_string(span);
    map.unload_source(0);
    assert_eq!(map.span_to_string(span), before);
    assert_eq!(map.lookup_char_pos(0, 16), Some(Loc { line: 2, col: 4 }));
}

#[test]
fn unloading_an_unknown_file_changes_nothing() {
    let mut map = one_file();
    map.unload_source(1);
    assert_eq!(map.span_to_snippet(Span { file: 0, lo: 0, hi: 2 }), Ok("fn".to_string()));
}

#[test]
fn span_is_rendered_as_name_and_two_positions() {
    let map = one_file();
    assert_eq!(map.span_to_string(Span { file: 0, lo: 16, hi: 34 }), "main.rs:2:5: 2:23");
    assert_eq!(map.span_to_string(Span { file: 0, lo: 0, hi: 36 }), "main.rs:1:1: 3:2");
    assert_eq!(map.span_to_string(Span { file: 0, lo: 0, hi: 0 }), "main.rs:1:1: 1:1");
}

#[test]
fn span_at_the_very_end_is_rendered() {
    let map = one_file();
    let end = TEXT.len();
    assert_eq!(map.span_to_string(Span { file: 0, lo: end, hi: end }), "main.rs:4:1: 4:1");
}

#[test]
fn span_outside_any_file_has_no_location() {
    let map = one_file();
    assert_eq!(map.span_to_string(Span { file: 1, lo: 0, hi: 0 }), "no-location");
    assert_eq!(map.span_to_string(Span { file: 0, lo: 3, hi: 2 }), "no-location");
    assert_eq!(map.span_to_string(Span { file: 0, lo: 0, hi: TEXT.len() + 1 }), "no-location");
    assert_eq!(CodeMap::new().span_to_string(Span { file: 0, lo: 0, hi: 0 }), "no-location");
}

#[test]
fn numbers_with_several_digits_are_rendered_in_full() {
    let mut text = String::new();
    for _ in 0..1234 {
        text.push('\n');
    }
    for _ in 0..109 {
        text.push('x');
    }
    let mut map = CodeMap::new();
    map.new_filemap("long.rs", &text);
    assert_eq!(
        map.span_to_string(Span { file: 0, lo: 999, hi: 1234 + 109 }),
        "long.rs:1000:1: 1235:110"
    );
}

#[test]
fn line_and_column_of_every_offset() {
    let file = SourceFile::new("t.rs", "ab\n\ncd\n");
    let expected = [(1, 0), (1, 1), (1, 2), (2, 0), (3, 0), (3, 1), (3, 2), (4, 0)];
    for (pos, (line, col)) in expected.iter().enumerate() {
        assert_eq!(file.lookup_char_pos(pos), Some(Loc { line: *line, col: *col }));
    }
    assert_eq!(file.lookup_char_pos(8), None);
}

#[test]
fn line_and_column_agree_with_counting_by_hand() {
    let text = "\n\nfirst\nsecond line\n\n\nlast";
    let file = SourceFile::new("t.rs", text);
    let chars: Vec<char> = text.chars().collect();
    for pos in 0..=chars.len() {
        let line = 1 + chars[..pos].iter().filter(|c| **c == '\n').count();
        let col = chars[..pos].iter().rev().take_while(|c| **c != '\n').count();
        assert_eq!(file.lookup_char_pos(pos), Some(Loc { line, col }));
    }
}

#[test]
fn line_and_column_in_an_empty_file() {
    let file = SourceFile::new("e.rs", "");
    assert_eq!(file.lookup_char_pos(0), Some(Loc { line: 1, col: 0 }));
    assert_eq!(file.lookup_char_pos(1), None);
}

#[test]
fn lookup_through_the_code_map() {
    let map = one_file();
    assert_eq!(map.lookup_char_pos(0, 12), Some(Loc { line: 2, col: 0 }));
    assert_eq!(map.lookup_char_pos(0, 11), Some(Loc { line: 1, col: 11 }));
    assert_eq!(map.lookup_char_pos(0, TEXT.len() + 1), None);
    assert_eq!(map.lookup_char_pos(1, 0), None);
}

#[test]
fn unloading_a_file_keeps_its_positions() {
    let mut file = SourceFile::new("t.rs", "a\nb");
    file.unload();
    assert_eq!(file.lookup_char_pos(2), Some(Loc { line: 2, col: 0 }));
    assert_eq!(file.lookup_char_pos(4), None);
}

#[test]
fn no_two_offsets_share_line_and_column() {
    let text = "a\n\nbc\n\n\ndef\ng";
    let file = SourceFile::new("t.rs", text);
    let locs: Vec<Loc> = (0..=text.len()).map(|pos| file.lookup_char_pos(pos).unwrap()).collect();
    for a in 0..locs.len() {
        for b in a + 1..locs.len() {
            assert_ne!(locs[a], locs[b]);
            assert!(locs[a].line <= locs[b].line);
        }
    }
}

#[test]
fn every_number_is_rendered_as_the_standard_library_does() {
    let text: String = (0..1500).map(|_| 'x').collect();
    let mut map = CodeMap::new();
    map.new_filemap("wide.rs", &text);
    for lo in 0..=1500 {
        assert_eq!(
            map.span_to_string(Span { file: 0, lo, hi: 1500 }),
            format!("wide.rs:1:{}: 1:1501", lo + 1)
        );
    }
}
