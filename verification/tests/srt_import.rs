//! Tests of the SubRip importer.

use ass_parser::{AssError, AssFile, Dialogue, Events, ScriptInfo, SrtData, V4Format};

#[test]
fn test_file_contents() {
    // the first block of a SubRip file, as the importer sees it
    let file_contents = "0\n0:00:01.50 --> 0:00:04.90\nLook, I was gonna go easy on you and not to hurt your feelings \n\n";
    let srt_data = SrtData::new();
    let srt_content = srt_data.parse_srt(file_contents).unwrap();

    let test_srt_content = SrtData {
        index: "0".to_owned(),
        start: "0:00:01.50".to_owned(),
        end: "0:00:04.90".to_owned(),
        text: "Look, I was gonna go easy on you and not to hurt your feelings ".to_owned(),
    };

    assert_eq!(test_srt_content, srt_content[0]);
}

#[test]
fn test_srt_import_single() {
    let text = "1\n00:00:01,500 --> 00:00:04,900\nHello world\n\n";
    let srt = AssFile::from_srt(text).unwrap();
    let entries = srt.iter();
    assert_eq!(entries.len(), 1);
    assert_eq!(entries[0].index, "1");
    assert_eq!(entries[0].start, "00:00:01,500");
    assert_eq!(entries[0].end, "00:00:04,900");
    assert_eq!(entries[0].text, "Hello world");
}

#[test]
fn test_srt_multiple_entries() {
    let text = "1\n00:00:01,500 --> 00:00:04,900\nfirst line\nsecond line\n\n2\n00:00:05,000 --> 00:00:06,000\nlater\n\n";
    let entries = SrtData::new().parse_srt(text).unwrap();
    assert_eq!(entries.len(), 2);
    // the text lines of one block concatenate with nothing between them
    assert_eq!(entries[0].text, "first linesecond line");
    assert_eq!(entries[1].index, "2");
    assert_eq!(entries[1].text, "later");
}

#[test]
fn test_srt_trailing_blanks_tolerated() {
    // extra blank lines produce empty blocks, which are dropped, not decoded
    let text = "1\n00:00:01,000 --> 00:00:02,000\nwords\n\n\n\n";
    let entries = SrtData::new().parse_srt(text).unwrap();
    assert_eq!(entries.len(), 1);
    assert_eq!(entries[0].text, "words");
}

#[test]
fn test_srt_unterminated_final_block_kept() {
    // a final block that no blank line closes is still a block: blank
    // lines are only required between blocks
    let text = "1\n00:00:01,000 --> 00:00:02,000\nwords";
    let entries = SrtData::new().parse_srt(text).unwrap();
    assert_eq!(entries.len(), 1);
    assert_eq!(entries[0].index, "1");
    assert_eq!(entries[0].start, "00:00:01,000");
    assert_eq!(entries[0].end, "00:00:02,000");
    assert_eq!(entries[0].text, "words");
}

#[test]
fn test_srt_block_without_text() {
    // a block of exactly index and timestamps has the empty text
    let text = "1\n00:00:01,000 --> 00:00:02,000\n\n";
    let entries = SrtData::new().parse_srt(text).unwrap();
    assert_eq!(entries.len(), 1);
    assert_eq!(entries[0].text, "");
}

#[test]
fn test_srt_missing_separator_is_error() {
    let text = "1\nno separator here\nwords\n\n";
    let result = SrtData::new().parse_srt(text);
    assert!(matches!(result, Err(AssError::MalformedFixedArity)));
}

#[test]
fn test_srt_double_separator_is_error() {
    // three timestamp tokens break the line's fixed arity of two
    let text = "1\n00:00:01,000 --> 00:00:02,000 --> 00:00:03,000\nwords\n\n";
    let result = SrtData::new().parse_srt(text);
    assert!(matches!(result, Err(AssError::MalformedFixedArity)));
}

#[test]
fn test_srt_index_only_block_is_error() {
    // a block with an index line but no timestamp line
    let text = "1\n\n";
    let result = SrtData::new().parse_srt(text);
    assert!(matches!(result, Err(AssError::MalformedFixedArity)));
}

#[test]
fn test_srt_crlf_line_endings() {
    let text = "1\r\n00:00:01,500 --> 00:00:04,900\r\nHello world\r\n\r\n";
    let entries = SrtData::new().parse_srt(text).unwrap();
    assert_eq!(entries.len(), 1);
    assert_eq!(entries[0].index, "1");
    assert_eq!(entries[0].start, "00:00:01,500");
    assert_eq!(entries[0].text, "Hello world");
}

#[test]
fn test_srt_seeds_document() {
    // the imported entries seed a dialogue table, as a converter would
    let text = "1\n0:00:01.50 --> 0:00:04.90\nHello world\n\n";
    let srt = AssFile::from_srt(text).unwrap();
    let mut ass_file = AssFile::new();
    let mut events = Events::default();
    for seg in srt.iter() {
        let dialogue = Dialogue::default()
            .set_start(&seg.start)
            .set_end(&seg.end)
            .set_text(&seg.text);
        events.add_dialogue(dialogue);
    }
    ass_file.components.script.set_script(ScriptInfo::default());
    ass_file.components.v4.set_v4(V4Format::default());
    ass_file.components.events.set_events(events);
    let text = ass_parser::encode::combine_components(&ass_file.components).unwrap();
    assert!(text.contains("Dialogue: 0,0:00:01.50,0:00:04.90,Default,,0,0,0,,Hello world\n"));
}
