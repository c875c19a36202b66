use code_editor_core::buffer::TextBuffer;
use code_editor_core::code_view::Code;
use code_editor_core::editor::{CodeViewTabs, EditorCore};
use code_editor_core::fs_tree::{FsTree, TreeEntry};
use code_editor_core::highlight::{
    config_from_extension, language_for_extension, spans_from_events, validate_events, Color,
    HighlightEvent, HighlightNames, Language,
};
use code_editor_core::measure::CharWidths;
use code_editor_core::viewport::Dimensions;

fn mono(width: u32) -> CharWidths {
    CharWidths { widths: Vec::new(), default_width: width }
}

fn dims(x: u32, y: u32, width: u32, height: u32) -> Dimensions {
    Dimensions { x, y, width, height }
}

fn assert_covering(spans: &Vec<(usize, usize, Option<HighlightNames>)>, len: usize) {
    if len == 0 {
        if spans.is_empty() {
            return;
        }
    }
    assert!(!spans.is_empty());
    assert_eq!(spans[0].0, 0);
    assert_eq!(spans[spans.len() - 1].1, len);
    for i in 0..spans.len() {
        assert!(spans[i].0 <= spans[i].1);
        if i + 1 < spans.len() {
            assert_eq!(spans[i].1, spans[i + 1].0);
        }
    }
}

#[test]
fn category_index_mapping() {
    assert_eq!(HighlightNames::from_index(0), Some(HighlightNames::Constant));
    assert_eq!(HighlightNames::from_index(19), Some(HighlightNames::Keyword));
    assert_eq!(
        HighlightNames::from_index(31),
        Some(HighlightNames::LocalReference)
    );
    assert_eq!(HighlightNames::from_index(32), None);
}

#[test]
fn category_colors_and_names() {
    let c = HighlightNames::Keyword.color();
    assert_eq!((c.r, c.g, c.b, c.a), (204, 120, 50, 255));
    let s = HighlightNames::String.color();
    assert_eq!((s.r, s.g, s.b, s.a), (129, 186, 89, 255));
    assert_eq!(HighlightNames::Constant.name(), "constant");
    assert_eq!(HighlightNames::FunctionMacro.name(), "function.macro");
    assert_eq!(HighlightNames::LocalReference.name(), "local.reference");
}

#[test]
fn extension_selects_language() {
    assert_eq!(language_for_extension("rs"), Some(Language::Rust));
    assert_eq!(language_for_extension("cpp"), Some(Language::Cpp));
    assert_eq!(language_for_extension("cxx"), Some(Language::Cpp));
    assert_eq!(language_for_extension("mjs"), Some(Language::Javascript));
    assert_eq!(language_for_extension("mli"), Some(Language::OcamlInterface));
    assert_eq!(language_for_extension("tsx"), Some(Language::Tsx));
    assert_eq!(language_for_extension("txt"), None);
    assert_eq!(language_for_extension(""), None);
}

#[test]
fn unknown_extension_gives_no_config() {
    assert!(config_from_extension(None).is_none());
    assert!(config_from_extension(Some("zzz")).is_none());
}

#[test]
fn validate_accepts_chained_sources() {
    let evs = vec![
        HighlightEvent::HighlightStart(19),
        HighlightEvent::Source { start: 0, end: 2 },
        HighlightEvent::HighlightEnd,
        HighlightEvent::Source { start: 2, end: 5 },
    ];
    assert!(validate_events(&evs, 5));
    assert!(!validate_events(&evs, 6));
    let gap = vec![
        HighlightEvent::Source { start: 0, end: 2 },
        HighlightEvent::Source { start: 3, end: 5 },
    ];
    assert!(!validate_events(&gap, 5));
}

#[test]
fn reduction_tags_innermost_category() {
    let evs = vec![
        HighlightEvent::Source { start: 0, end: 1 },
        HighlightEvent::HighlightStart(19),
        HighlightEvent::HighlightStart(20),
        HighlightEvent::Source { start: 1, end: 3 },
        HighlightEvent::HighlightEnd,
        HighlightEvent::Source { start: 3, end: 4 },
        HighlightEvent::HighlightEnd,
        HighlightEvent::Source { start: 4, end: 6 },
    ];
    let spans = spans_from_events(&evs, 6);
    assert_eq!(
        spans,
        vec![
            (0, 1, None),
            (1, 3, Some(HighlightNames::String)),
            (3, 4, Some(HighlightNames::Keyword)),
            (4, 6, None),
        ]
    );
    assert_covering(&spans, 6);
}

#[test]
fn reduction_drops_unknown_categories() {
    let evs = vec![
        HighlightEvent::HighlightStart(1000),
        HighlightEvent::Source { start: 0, end: 3 },
        HighlightEvent::HighlightEnd,
    ];
    let spans = spans_from_events(&evs, 3);
    assert_eq!(spans, vec![(0, 3, None)]);
}

#[test]
fn rust_source_spans_cover_buffer() {
    let mut config = config_from_extension(Some("rs")).expect("rust grammar");
    let buffer = TextBuffer::new("fn main() { let x = \"s\"; }\n");
    config.generate(&buffer);
    let spans = config.spans_ref();
    assert_covering(spans, buffer.len_chars());
    assert!(spans.iter().any(|(_, _, c)| c.is_some()));
}

#[test]
fn multibyte_source_spans_use_char_offsets() {
    let mut config = config_from_extension(Some("py")).expect("python grammar");
    // the comment holds multi-byte characters, so byte and char offsets differ
    let buffer = TextBuffer::new("x = 1  # héllo wörld\n");
    config.generate(&buffer);
    assert!(buffer.len_bytes() > buffer.len_chars());
    assert_covering(config.spans_ref(), buffer.len_chars());
}

#[test]
fn every_language_config_builds() {
    for ext in ["cpp", "cxx", "cc", "java", "js", "cjs", "mjs", "jsx", "ml", "mli", "py", "rs",
        "ts", "tsx"]
    {
        assert!(
            config_from_extension(Some(ext)).is_some(),
            "no grammar for extension {}",
            ext
        );
    }
}

#[test]
fn spans_follow_every_edit() {
    let config = config_from_extension(Some("rs")).expect("rust grammar");
    let w = mono(8);
    let mut code = Code::new(
        TextBuffer::new("fn f() {}\n"),
        w,
        10,
        dims(0, 0, 300, 100),
        Some(config),
    );
    for ch in ['l', 'e', 't', ' ', 'y', ';'] {
        code.input_char(ch);
        let spans = code.highlight_config.as_ref().unwrap().spans_ref();
        assert_covering(spans, code.buffer.len_chars());
    }
    code.input_char('\u{7f}');
    let spans = code.highlight_config.as_ref().unwrap().spans_ref();
    assert_covering(spans, code.buffer.len_chars());
}

#[test]
fn glyph_runs_clamp_to_visible_range() {
    let config = config_from_extension(Some("rs")).expect("rust grammar");
    let w = mono(8);
    let code = Code::new(
        TextBuffer::new("fn main() {}\nfn other() {}\n"),
        w,
        10,
        dims(0, 0, 300, 100),
        Some(config),
    );
    let start = 13; // start of the second line
    let end = code.buffer.len_chars();
    let runs = code.generate_glyph_text(start, end);
    assert!(!runs.is_empty());
    assert_eq!(runs[0].0, start);
    assert_eq!(runs[runs.len() - 1].1, end);
    for i in 0..runs.len() {
        assert!(runs[i].0 <= runs[i].1);
        if i + 1 < runs.len() {
            assert_eq!(runs[i].1, runs[i + 1].0);
        }
    }
}

#[test]
fn unhighlighted_view_renders_default_color() {
    let w = mono(8);
    let code = Code::new(TextBuffer::new("plain text"), w, 10, dims(0, 0, 300, 100), None);
    let runs = code.generate_glyph_text(2, 7);
    let default = Color { r: 230, g: 230, b: 230, a: 255 };
    assert_eq!(runs, vec![(2, 7, default)]);
}

fn leaf(name: &str) -> TreeEntry {
    TreeEntry {
        name: name.to_string(),
        path: name.to_string(),
        inset: 1,
        sub_entry: None,
        folded: false,
    }
}

fn sample_tree() -> TreeEntry {
    let dir = TreeEntry {
        name: "src".to_string(),
        path: "src".to_string(),
        inset: 1,
        sub_entry: Some(vec![TreeEntry { inset: 2, ..leaf("main.rs") }]),
        folded: true,
    };
    TreeEntry {
        name: "root".to_string(),
        path: ".".to_string(),
        inset: 0,
        sub_entry: Some(vec![dir, leaf("README")]),
        folded: false,
    }
}

#[test]
fn walk_lists_visible_entries() {
    let tree = sample_tree();
    let mut rows: Vec<(String, usize)> = Vec::new();
    let count = tree.walk(&mut rows);
    assert_eq!(count, 3);
    assert_eq!(rows.len(), 3);
    assert_eq!(rows[0], ("root".to_string(), 0));
    assert_eq!(rows[1], ("src".to_string(), 1));
    assert_eq!(rows[2], ("README".to_string(), 1));
}

#[test]
fn folded_root_hides_children() {
    let mut tree = sample_tree();
    tree.folded = true;
    let mut rows: Vec<(String, usize)> = Vec::new();
    assert_eq!(tree.walk(&mut rows), 1);
    assert_eq!(rows.len(), 1);
}

#[test]
fn fs_tree_click_unfolds_directory() {
    let mut fs = FsTree::new(sample_tree(), 10, dims(0, 0, 100, 100));
    let rows = fs.redraw();
    assert_eq!(rows.len(), 3);
    assert_eq!(fs.counter, 3);
    // row 1 is the folded "src" directory; the row count the scroll clamp
    // uses is refreshed by the click itself
    fs.click(15);
    assert_eq!(fs.counter, 4);
    let rows = fs.redraw();
    assert_eq!(rows.len(), 4);
    assert_eq!(rows[2], ("main.rs".to_string(), 2));
    // clicking it again folds it back
    fs.click(15);
    let rows = fs.redraw();
    assert_eq!(rows.len(), 3);
}

#[test]
fn fs_tree_click_on_file_changes_nothing() {
    let mut fs = FsTree::new(sample_tree(), 10, dims(0, 0, 100, 100));
    fs.redraw();
    fs.click(25);
    assert_eq!(fs.redraw().len(), 3);
}

#[test]
fn fs_tree_scroll_clamps() {
    let mut fs = FsTree::new(sample_tree(), 10, dims(0, 0, 100, 100));
    fs.redraw();
    fs.scroll(-100);
    assert_eq!(fs.scroll_offset_y, 0);
    fs.scroll(50);
    assert_eq!(fs.scroll_offset_y, 0);
}

#[test]
fn tabs_route_input_to_active_view() {
    let mut tabs = CodeViewTabs::new(10, dims(0, 0, 500, 300));
    tabs.add("a.txt".to_string(), 40, "aaa", mono(8), None);
    tabs.add("b.txt".to_string(), 40, "bbb", mono(8), None);
    assert_eq!(tabs.code_views.len(), 2);
    assert_eq!(tabs.active, Some(1));
    tabs.input_char('x');
    assert_eq!(tabs.code_views[0].2.code.buffer.line_chars(0), vec!['a', 'a', 'a']);
    assert_eq!(
        tabs.code_views[1].2.code.buffer.line_chars(0),
        vec!['x', 'b', 'b', 'b']
    );
}

#[test]
fn config_knows_its_language() {
    let c = config_from_extension(Some("rs")).expect("rust grammar");
    assert_eq!(c.language(), Language::Rust);
    let c = config_from_extension(Some("mli")).expect("ocaml interface grammar");
    assert_eq!(c.language(), Language::OcamlInterface);
}

#[test]
fn tab_strip_click_selects_first_containing_tab() {
    let mut tabs = CodeViewTabs::new(10, dims(0, 0, 500, 300));
    tabs.add("a.txt".to_string(), 40, "aaa", mono(8), None);
    tabs.add("b.txt".to_string(), 40, "bbb", mono(8), None);
    assert_eq!(tabs.active, Some(1));
    // both tab rectangles sit at the strip origin, so a click near the left
    // edge of the strip hits the first tab
    tabs.click(5, 10);
    assert_eq!(tabs.active, Some(0));
    // a click below the strip goes to the active view instead
    tabs.click(5, 200);
    assert_eq!(tabs.active, Some(0));
}

#[test]
fn editor_layout_and_dispatch() {
    let mut ed = EditorCore::new(1000, 500, 10, sample_tree());
    assert_eq!(ed.fs_tree.dimensions.width, 200);
    ed.code_views.add(
        "file.rs".to_string(),
        40,
        "line one\nline two\nline 3\nline 4\nline 5\nline 6",
        mono(8),
        None,
    );
    ed.fs_tree.redraw();
    // a scroll over the file tree moves only the tree
    ed.scroll(0, -5, 10, 10);
    // a scroll over the code area moves the active view
    ed.scroll(0, -12, 600, 100);
    let view = &ed.code_views.code_views[0].2;
    assert_eq!(view.code.viewport.scroll_y, -12);
    // typing lands in the active buffer
    ed.input_char('!');
    let view = &ed.code_views.code_views[0].2;
    assert_eq!(
        view.code.buffer.line_chars(0),
        "!line one".chars().collect::<Vec<char>>()
    );
}
