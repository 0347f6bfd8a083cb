//! Tests of the document model, the encoders and the decoders.

use ass_parser::decode::{get_each_components, get_info, parse_event, parse_v4};
use ass_parser::encode::{combine_components, plug_v4};
use ass_parser::{
    AssError, AssFile, Dialogue, Dialogues, Events, IndexNotFound, ScriptInfo, V4Format,
};

#[test]
fn test_from_file_wrong() {
    // text with no section headers at all: nothing can be extracted
    let result = AssFile::from_contents("asdfasdf");
    assert!(matches!(result, Err(AssError::MissingSection)));
}

#[test]
fn test_round_trip_document() {
    let mut ass_file = AssFile::new();
    ass_file.components.script.set_script(ScriptInfo::default());
    ass_file.components.v4.set_v4(V4Format::default());

    let first = Dialogue::default()
        .set_text("Hello There!")
        .set_start("0:00:00.10")
        .set_end("0:00:00.50");
    let second = Dialogue::default()
        .set_text("Wait, not yet, friend")
        .set_start("0:00:00.50")
        .set_end("0:00:00.58");
    let mut events = Events::new();
    events.add_first_dialogue(first).unwrap();
    events.add_dialogue(second);
    ass_file.components.events.set_events(events.create());

    let text = combine_components(&ass_file.components).unwrap();
    let reread = AssFile::from_contents(&text).unwrap();
    assert_eq!(ass_file.components, reread.components);
}

#[test]
fn test_default_document_text() {
    let mut ass_file = AssFile::new();
    ass_file.components.script.set_script(ScriptInfo::default());
    ass_file.components.v4.set_v4(V4Format::default());
    ass_file.components.events.set_events(Events::default());

    let text = combine_components(&ass_file.components).unwrap();
    let expected = "[Script Info]\nScriptType: v4.00+\nPlayResX: 384\nPlayResY: 288\nScaledBorderAndShadow: yes\nYCbCr Matrix: None\n\n\n[V4+ Styles]\nFormat: Name, Fontname, Fontsize, PrimaryColour, SecondaryColour, OutlineColour, BackColour, Bold, Italic, Underline, StrikeOut, ScaleX, ScaleY, Spacing, Angle, BorderStyle, Outline, Shadow, Alignment, MarginL, MarginR, MarginV, Encoding\nStyle: Default,Arial,16,&Hffffff,&Hffffff,&H0,&H0,0,0,0,0,100,100,0,0,1,1,0,2,10,10,10,1\n\n\n[Events]\nFormat: Layer, Start, End, Style, Name, MarginL, MarginR, MarginV, Effect, Text\nDialogue: 0,0:00:00.00,0:00:00.00,Default,,0,0,0,,\n";
    assert_eq!(text, expected);
}

#[test]
fn test_empty_script_section_is_error() {
    // the script header is present with zero body lines: strict decoding
    // refuses the group instead of crashing
    let text = "[Script Info]\n\n[V4+ Styles]\nStyle: a\n\n[Events]\n";
    let result = AssFile::from_contents(text);
    assert!(matches!(result, Err(AssError::MalformedFixedArity)));
}

#[test]
fn test_missing_events_section_is_error() {
    let text = "[Script Info]\nScriptType: v4.00+\nPlayResX: 384\nPlayResY: 288\nScaledBorderAndShadow: yes\nYCbCr Matrix: None\n\n[V4+ Styles]\nStyle: Default,Arial,16,&Hffffff,&Hffffff,&H0,&H0,0,0,0,0,100,100,0,0,1,1,0,2,10,10,10,1\n";
    let result = AssFile::from_contents(text);
    assert!(matches!(result, Err(AssError::MissingSection)));
}

#[test]
fn test_style_arity() {
    // the encoded style line always holds exactly 23 comma-separated tokens
    let block = plug_v4(&V4Format::default()).unwrap();
    let style_line = block
        .lines()
        .find(|l| l.starts_with("Style: "))
        .unwrap();
    let tokens: Vec<&str> = style_line["Style: ".len()..].split(',').collect();
    assert_eq!(tokens.len(), 23);

    // and decoding the encoded section yields back the same values
    let lines: Vec<String> = block.lines().map(|l| l.to_owned()).collect();
    let decoded = parse_v4(&lines).unwrap();
    assert_eq!(decoded, V4Format::default());
}

#[test]
fn test_style_too_few_values_is_error() {
    let lines = vec![
        "[V4+ Styles]".to_owned(),
        "Style: only,three,values".to_owned(),
    ];
    assert!(matches!(
        parse_v4(&lines),
        Err(AssError::MalformedFixedArity)
    ));
    let no_lines: Vec<String> = Vec::new();
    assert!(matches!(parse_v4(&no_lines), Err(AssError::MissingSection)));
}

#[test]
fn test_dialogue_arity() {
    // with a comma-free text, the encoded line holds exactly 10 fields
    let d = Dialogue::default().set_text("plain words only");
    let line = d.to_string();
    assert!(line.starts_with("Dialogue: "));
    assert!(line.ends_with('\n'));
    let body = &line["Dialogue: ".len()..line.len() - 1];
    let fields: Vec<&str> = body.split(',').collect();
    assert_eq!(fields.len(), 10);
    assert_eq!(fields[9], "plain words only");
}

#[test]
fn test_dialogue_embedded_commas() {
    // commas in the text corrupt none of the nine fields before it
    let d = Dialogue::default()
        .set_name("speaker")
        .set_effect("fade")
        .set_text("Look, I was gonna go easy, on you");
    let line = d.to_string();
    let lines = vec!["[Events]".to_owned(), line.trim_end().to_owned()];
    let events = parse_event(&lines).unwrap();
    let decoded = events.get_dialogues();
    assert_eq!(decoded.len(), 1);
    assert_eq!(
        decoded[0].get_text().unwrap(),
        "Look, I was gonna go easy, on you"
    );
    assert_eq!(decoded[0].get_name().unwrap(), "speaker");
    assert_eq!(decoded[0].get_effect().unwrap(), "fade");
    assert_eq!(decoded[0].get_start().unwrap(), "0:00:00.00");
}

#[test]
fn test_dialogue_too_few_fields_is_error() {
    let lines = vec!["[Events]".to_owned(), "Dialogue: a,b,c".to_owned()];
    assert!(matches!(
        parse_event(&lines),
        Err(AssError::MalformedFixedArity)
    ));
}

#[test]
fn test_table_bounds() {
    // on the empty table every replacement fails and changes nothing
    let mut empty = Events {
        dialogues: Dialogues { dialogues: vec![] },
    };
    let d = Dialogue::default().set_text("hello");
    assert!(matches!(
        empty.add_first_dialogue(d.clone()),
        Err(IndexNotFound)
    ));
    assert!(matches!(
        empty.add_last_dialogue(d.clone()),
        Err(IndexNotFound)
    ));
    assert!(matches!(
        empty.add_n_dialogue(0, d.clone()),
        Err(IndexNotFound)
    ));
    assert_eq!(empty.get_dialogues().len(), 0);

    // append always succeeds: the empty table grows to length one
    empty.add_dialogue(d.clone());
    assert_eq!(empty.get_dialogues().len(), 1);

    // replacing past the end fails and leaves the table as it was
    let before = empty.get_dialogues();
    assert!(matches!(
        empty.add_n_dialogue(5, d.clone()),
        Err(IndexNotFound)
    ));
    assert_eq!(empty.get_dialogues(), before);
}

#[test]
fn test_table_replacements() {
    let first = Dialogue::default().set_text("first");
    let second = Dialogue::default().set_text("second");
    let third = Dialogue::default().set_text("third");
    let mut events = Events::new();
    events.add_first_dialogue(first).unwrap();
    events.add_dialogue(second);
    events.add_dialogue(third);
    let replacement = Dialogue::default().set_text("replaced");
    events.add_n_dialogue(1, replacement).unwrap();
    let last = Dialogue::default().set_text("last");
    events.add_last_dialogue(last).unwrap();
    let ds = events.get_dialogues();
    assert_eq!(ds.len(), 3);
    assert_eq!(ds[0].get_text().unwrap(), "first");
    assert_eq!(ds[1].get_text().unwrap(), "replaced");
    assert_eq!(ds[2].get_text().unwrap(), "last");
}

#[test]
fn test_events_create_snapshots() {
    let mut events = Events::new();
    events
        .add_first_dialogue(Dialogue::default().set_text("kept"))
        .unwrap();
    let snapshot = events.create();
    events.add_dialogue(Dialogue::default().set_text("later"));
    assert_eq!(snapshot.get_dialogues().len(), 1);
    assert_eq!(events.get_dialogues().len(), 2);
}

#[test]
fn test_script_info_setters() {
    let mut script = ScriptInfo::new();
    script.set_scripttype("FFMPEG");
    script.set_playresx("640");
    script.set_playresy("480");
    script.set_scaledborderandshadow("no");
    script.set_ycbcr_matrix("TV.601");
    let mut doc = AssFile::new();
    doc.components.script.set_script(script);
    doc.components.v4.set_v4(V4Format::default());
    doc.components.events.set_events(Events::default());
    let text = combine_components(&doc.components).unwrap();
    assert!(text.contains("ScriptType: FFMPEG\n"));
    assert!(text.contains("PlayResX: 640\n"));
    assert!(text.contains("PlayResY: 480\n"));
    assert!(text.contains("ScaledBorderAndShadow: no\n"));
    assert!(text.contains("YCbCr Matrix: TV.601\n"));
}

#[test]
fn test_partial_script_info_omits_lines() {
    // an absent field produces no line at all
    let mut doc = AssFile::new();
    doc.components.script.set_scripttype("v4.00+");
    doc.components.v4.set_v4(V4Format::default());
    doc.components.events.set_events(Events::default());
    let text = combine_components(&doc.components).unwrap();
    assert!(text.contains("ScriptType: v4.00+\n"));
    assert!(!text.contains("PlayResX"));
    assert!(!text.contains("YCbCr"));
}

#[test]
fn test_incomplete_style_encode_is_error() {
    // a style record missing any of its 23 fields cannot be encoded
    let mut doc = AssFile::new();
    doc.components.script.set_script(ScriptInfo::default());
    doc.components.v4.set_name("Default");
    doc.components.events.set_events(Events::default());
    assert!(matches!(
        combine_components(&doc.components),
        Err(AssError::MalformedFixedArity)
    ));
    assert!(matches!(
        plug_v4(&V4Format::new()),
        Err(AssError::MalformedFixedArity)
    ));
}

#[test]
fn test_v4_setters_override() {
    let mut v4 = V4Format::default();
    v4.set_primarycolour("&H0000ff");
    v4.set_fontsize("24");
    v4.set_marginv("20");
    v4.set_encoding("0");
    let block = plug_v4(&v4).unwrap();
    assert!(block.contains(
        "Style: Default,Arial,24,&H0000ff,&Hffffff,&H0,&H0,0,0,0,0,100,100,0,0,1,1,0,2,10,10,20,0\n"
    ));
}

#[test]
fn test_get_info_extraction() {
    let lines: Vec<String> = [
        "junk before",
        "[Events]",
        "; a comment line is dropped",
        "Dialogue: 0,a,b,c,d,e,f,g,h,text",
        "kept verbatim",
        "[Next Section]",
        "never reached",
    ]
    .iter()
    .map(|l| (*l).to_owned())
    .collect();
    let group = get_info(&lines, "[Events]");
    assert_eq!(
        group,
        vec![
            "[Events]".to_owned(),
            "\n".to_owned(),
            "Dialogue: 0,a,b,c,d,e,f,g,h,text".to_owned(),
            "kept verbatim".to_owned(),
        ]
    );
    // a header that never occurs extracts nothing
    let missing = get_info(&lines, "[Script Info]");
    assert_eq!(missing.len(), 0);
}

#[test]
fn test_carriage_return_line_endings() {
    let text = "[Script Info]\r\nScriptType: v4.00+\r\nPlayResX: 384\r\nPlayResY: 288\r\nScaledBorderAndShadow: yes\r\nYCbCr Matrix: None\r\n\r\n[V4+ Styles]\r\nStyle: Default,Arial,16,&Hffffff,&Hffffff,&H0,&H0,0,0,0,0,100,100,0,0,1,1,0,2,10,10,10,1\r\n\r\n[Events]\r\nDialogue: 0,0:00:00.00,0:00:01.00,Default,,0,0,0,,Hi\r\n";
    let doc = get_each_components(text).unwrap();
    assert_eq!(doc.script, ScriptInfo::default());
    let ds = doc.events.get_dialogues();
    assert_eq!(ds.len(), 1);
    assert_eq!(ds[0].get_text().unwrap(), "Hi");
}

#[test]
fn test_dialogue_getters() {
    let d = Dialogue::new()
        .set_layer("1")
        .set_start("0:00:01.00")
        .set_end("0:00:02.00")
        .set_style("Alt")
        .set_name("who")
        .set_marginl("2")
        .set_marginr("3")
        .set_marginv("4")
        .set_effect("scroll")
        .set_text("words");
    assert_eq!(d.get_layer().unwrap(), "1");
    assert_eq!(d.get_start().unwrap(), "0:00:01.00");
    assert_eq!(d.get_end().unwrap(), "0:00:02.00");
    assert_eq!(d.get_style().unwrap(), "Alt");
    assert_eq!(d.get_name().unwrap(), "who");
    assert_eq!(d.get_marginl().unwrap(), "2");
    assert_eq!(d.get_marginr().unwrap(), "3");
    assert_eq!(d.get_marginv().unwrap(), "4");
    assert_eq!(d.get_effect().unwrap(), "scroll");
    assert_eq!(d.get_text().unwrap(), "words");
    assert!(d.get_colour().is_none());
    let bare = Dialogue::new();
    assert!(bare.get_layer().is_none());
    assert!(bare.get_text().is_none());
}
