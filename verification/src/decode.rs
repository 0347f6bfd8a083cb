//! The section extractor and the per-section decoders: line groups out of
//! raw text, and typed records out of line groups.
//!
//! Every decode failure is terminal for that call.  An empty line group
//! (the header was never found) decodes to `MissingSection`; a group whose
//! record misses its fixed arity decodes to `MalformedFixedArity`.

use vstd::prelude::*;
use crate::consts::{
    dialogue_label, dialogue_label_str, events_header, events_header_str, newline_str,
    comma_str, playresx_label, playresx_label_str, playresy_label, playresy_label_str,
    scaledborder_label, scaledborder_label_str, script_header, script_header_str,
    script_type_label, script_type_label_str, style_label, style_label_str, v4_header,
    v4_header_str, ycbcr_label, ycbcr_label_str,
};
use crate::doc::{Components, ComponentsView};
use crate::error::AssError;
use crate::events::{Dialogue, DialogueView, Dialogues, EventFormat, Events};
use crate::script_info::{empty_script_view, ScriptInfo, ScriptInfoView};
use crate::text::{
    after_prefix, split_char, splitn_str, spec_split, spec_splitn, starts_with_str, str_eq,
};
use crate::v4::{V4Format, V4FormatView};

verus! {

// ---------- line normalization ----------

/// A line with one trailing newline or carriage return stripped, so both
/// bare and carriage-return line endings decode alike.
pub open spec fn spec_strip(l: Seq<char>) -> Seq<char> {
    if l.len() > 0 && l.last() == '\n' {
        l.drop_last()
    } else if l.len() > 0 && l.last() == '\r' {
        l.drop_last()
    } else {
        l
    }
}

/// One trailing newline or carriage return stripped from a line.
pub fn strip_line_ending(s: &str) -> (r: String)
    ensures
        r@ == spec_strip(s@),
{
    let n = s.unicode_len();
    if n > 0 {
        let last = s.get_char(n - 1);
        if last == '\n' || last == '\r' {
            let body = s.substring_char(0, n - 1);
            proof {
                assert(body@ =~= s@.drop_last());
            }
            return String::from_str(body);
        }
    }
    String::from_str(s)
}

// ---------- section extraction ----------

/// The body lines that follow a section header: each line normalized,
/// collection stopping for good at the next bracketed header, comment
/// lines dropped.
pub open spec fn spec_collect(lines: Seq<Seq<char>>) -> Seq<Seq<char>>
    decreases lines.len(),
{
    if lines.len() == 0 {
        Seq::<Seq<char>>::empty()
    } else {
        let l = spec_strip(lines[0]);
        if l.len() > 0 && l[0] == '[' {
            Seq::<Seq<char>>::empty()
        } else if l.len() > 0 && l[0] == ';' {
            spec_collect(lines.drop_first())
        } else {
            seq![l] + spec_collect(lines.drop_first())
        }
    }
}

/// The verbatim line group of the section under `header`: the header line
/// itself, one marker line, then the collected body.  When the header never
/// occurs the group is empty, which downstream decoders treat as a missing
/// section.
pub open spec fn spec_get_info(lines: Seq<Seq<char>>, header: Seq<char>) -> Seq<Seq<char>>
    decreases lines.len(),
{
    if lines.len() == 0 {
        Seq::<Seq<char>>::empty()
    } else if spec_strip(lines[0]) == header {
        seq![header, seq!['\n']] + spec_collect(lines.drop_first())
    } else {
        spec_get_info(lines.drop_first(), header)
    }
}

/// The line group of the section under `header` within `lines`.
pub fn get_info(lines: &Vec<String>, header: &str) -> (r: Vec<String>)
    ensures
        r.deep_view() == spec_get_info(lines.deep_view(), header@),
{
    let ghost lv = lines.deep_view();
    let n = lines.len();
    let mut out: Vec<String> = Vec::new();
    let mut found = false;
    let mut done = false;
    let mut i: usize = 0;
    proof {
        assert(lv.skip(0int) =~~= lv);
        assert(out.deep_view() =~~= Seq::<Seq<char>>::empty());
    }
    while i < n
        invariant
            0 <= i <= n,
            n == lv.len(),
            lv == lines.deep_view(),
            !found ==> !done && out.deep_view() =~~= Seq::<Seq<char>>::empty()
                && spec_get_info(lv, header@) == spec_get_info(lv.skip(i as int), header@),
            found && !done ==> spec_get_info(lv, header@) == out.deep_view() + spec_collect(
                lv.skip(i as int),
            ),
            done ==> found && spec_get_info(lv, header@) == out.deep_view(),
        decreases n - i,
    {
        proof {
            assert(lv.skip(i as int).len() == n - i);
            assert(lv.skip(i as int)[0] == lv[i as int]);
            assert(lv.skip(i as int).drop_first() =~~= lv.skip(i + 1));
        }
        let stripped = strip_line_ending(lines[i].as_str());
        if done {
        } else if !found {
            if str_eq(stripped.as_str(), header) {
                found = true;
                out.push(String::from_str(header));
                out.push(String::from_str(newline_str()));
                proof {
                    assert(out.deep_view() =~~= seq![header@, seq!['\n']]);
                    assert(spec_get_info(lv.skip(i as int), header@) == seq![header@, seq!['\n']]
                        + spec_collect(lv.skip(i + 1)));
                }
            } else {
                proof {
                    assert(spec_get_info(lv.skip(i as int), header@) == spec_get_info(
                        lv.skip(i + 1),
                        header@,
                    ));
                }
            }
        } else {
            let m = stripped.unicode_len();
            if m > 0 && stripped.as_str().get_char(0) == '[' {
                done = true;
                proof {
                    assert(spec_collect(lv.skip(i as int)) =~~= Seq::<Seq<char>>::empty());
                    assert(out.deep_view() + spec_collect(lv.skip(i as int)) =~~= out.deep_view());
                }
            } else if m > 0 && stripped.as_str().get_char(0) == ';' {
                proof {
                    assert(spec_collect(lv.skip(i as int)) == spec_collect(lv.skip(i + 1)));
                }
            } else {
                let ghost pre = out.deep_view();
                out.push(stripped);
                proof {
                    assert(spec_collect(lv.skip(i as int)) == seq![spec_strip(lv[i as int])]
                        + spec_collect(lv.skip(i + 1)));
                    assert(out.deep_view() =~~= pre.push(spec_strip(lv[i as int])));
                    assert(out.deep_view() + spec_collect(lv.skip(i + 1)) =~~= pre + spec_collect(
                        lv.skip(i as int),
                    ));
                }
            }
        }
        i += 1;
    }
    proof {
        assert(lv.skip(n as int) =~~= Seq::<Seq<char>>::empty());
        if !found {
            assert(spec_get_info(lv, header@) =~~= out.deep_view());
        } else if !done {
            assert(out.deep_view() + spec_collect(lv.skip(n as int)) =~~= out.deep_view());
        }
    }
    out
}

// ---------- script info ----------

/// One line folded into the script-info record: a line carrying one of the
/// five known key labels sets that field to the rest of the line; any other
/// line changes nothing.
pub open spec fn script_scan_step(l: Seq<char>, acc: ScriptInfoView) -> ScriptInfoView {
    if script_type_label().is_prefix_of(l) {
        ScriptInfoView { scripttype: Some(l.skip(script_type_label().len() as int)), ..acc }
    } else if playresx_label().is_prefix_of(l) {
        ScriptInfoView { playresx: Some(l.skip(playresx_label().len() as int)), ..acc }
    } else if playresy_label().is_prefix_of(l) {
        ScriptInfoView { playresy: Some(l.skip(playresy_label().len() as int)), ..acc }
    } else if scaledborder_label().is_prefix_of(l) {
        ScriptInfoView {
            scaledborderandshadow: Some(l.skip(scaledborder_label().len() as int)),
            ..acc
        }
    } else if ycbcr_label().is_prefix_of(l) {
        ScriptInfoView { ycbcr_matrix: Some(l.skip(ycbcr_label().len() as int)), ..acc }
    } else {
        acc
    }
}

pub open spec fn spec_scan_script(lines: Seq<Seq<char>>, acc: ScriptInfoView) -> ScriptInfoView
    decreases lines.len(),
{
    if lines.len() == 0 {
        acc
    } else {
        spec_scan_script(lines.drop_first(), script_scan_step(lines[0], acc))
    }
}

/// Whether all five keys were found, which decoding requires.
pub open spec fn script_complete(s: ScriptInfoView) -> bool {
    s.scripttype is Some && s.playresx is Some && s.playresy is Some
        && s.scaledborderandshadow is Some && s.ycbcr_matrix is Some
}

/// The script-info record of an extracted line group.  Decoding is strict:
/// every one of the five keys must occur, even though the record itself
/// holds optional fields.
pub open spec fn spec_parse_script(lines: Seq<Seq<char>>) -> Result<ScriptInfoView, AssError> {
    if lines.len() == 0 {
        Err(AssError::MissingSection)
    } else {
        let s = spec_scan_script(lines, empty_script_view());
        if script_complete(s) {
            Ok(s)
        } else {
            Err(AssError::MalformedFixedArity)
        }
    }
}

/// Decode the script-info record from its extracted line group.
pub fn parse_script(script_lines: &Vec<String>) -> (r: Result<ScriptInfo, AssError>)
    ensures
        (match r {
            Ok(s) => spec_parse_script(script_lines.deep_view()) == Ok::<_, AssError>(s@),
            Err(e) => spec_parse_script(script_lines.deep_view()) == Err::<ScriptInfoView, _>(e),
        }),
{
    let ghost lv = script_lines.deep_view();
    let n = script_lines.len();
    if n == 0 {
        return Err(AssError::MissingSection);
    }
    let mut acc = ScriptInfo::new();
    let mut i: usize = 0;
    proof {
        assert(lv.skip(0int) =~~= lv);
    }
    while i < n
        invariant
            0 <= i <= n,
            n == lv.len(),
            lv == script_lines.deep_view(),
            spec_scan_script(lv, empty_script_view()) == spec_scan_script(
                lv.skip(i as int),
                acc@,
            ),
        decreases n - i,
    {
        proof {
            assert(lv.skip(i as int)[0] == lv[i as int]);
            assert(lv.skip(i as int).drop_first() =~~= lv.skip(i + 1));
        }
        let ghost acc0 = acc@;
        let l = script_lines[i].as_str();
        if starts_with_str(l, script_type_label_str()) {
            let v = after_prefix(l, script_type_label_str());
            acc.set_scripttype(v.as_str());
        } else if starts_with_str(l, playresx_label_str()) {
            let v = after_prefix(l, playresx_label_str());
            acc.set_playresx(v.as_str());
        } else if starts_with_str(l, playresy_label_str()) {
            let v = after_prefix(l, playresy_label_str());
            acc.set_playresy(v.as_str());
        } else if starts_with_str(l, scaledborder_label_str()) {
            let v = after_prefix(l, scaledborder_label_str());
            acc.set_scaledborderandshadow(v.as_str());
        } else if starts_with_str(l, ycbcr_label_str()) {
            let v = after_prefix(l, ycbcr_label_str());
            acc.set_ycbcr_matrix(v.as_str());
        }
        proof {
            assert(acc@ =~= script_scan_step(lv[i as int], acc0));
        }
        i += 1;
    }
    proof {
        assert(lv.skip(n as int) =~~= Seq::<Seq<char>>::empty());
    }
    let complete = acc.scripttype.is_some() && acc.playresx.is_some() && acc.playresy.is_some()
        && acc.scaledborderandshadow.is_some() && acc.ycbcr_matrix.is_some();
    if complete {
        Ok(acc)
    } else {
        Err(AssError::MalformedFixedArity)
    }
}

// ---------- styles ----------

/// The remainder of the first `Style: ` line of a group, if any.
pub open spec fn spec_find_style(lines: Seq<Seq<char>>) -> Option<Seq<char>>
    decreases lines.len(),
{
    if lines.len() == 0 {
        None
    } else if style_label().is_prefix_of(lines[0]) {
        Some(lines[0].skip(style_label().len() as int))
    } else {
        spec_find_style(lines.drop_first())
    }
}

/// The style record of an extracted line group: the single `Style: ` line
/// split on commas, positions 0 through 22 mapping to the 23 canonical
/// fields.  Fewer than 23 values miss the record's fixed arity.
pub open spec fn spec_parse_v4(lines: Seq<Seq<char>>) -> Result<V4FormatView, AssError> {
    if lines.len() == 0 {
        Err(AssError::MissingSection)
    } else {
        match spec_find_style(lines) {
            None => Err(AssError::MalformedFixedArity),
            Some(rem) => {
                let vals = spec_split(rem, ',');
                if vals.len() < 23 {
                    Err(AssError::MalformedFixedArity)
                } else {
                    Ok(V4FormatView {
                        name: Some(vals[0]),
                        fontname: Some(vals[1]),
                        fontsize: Some(vals[2]),
                        primarycolour: Some(vals[3]),
                        secondarycolour: Some(vals[4]),
                        outlinecolour: Some(vals[5]),
                        backcolour: Some(vals[6]),
                        bold: Some(vals[7]),
                        italic: Some(vals[8]),
                        underline: Some(vals[9]),
                        strikeout: Some(vals[10]),
                        scalex: Some(vals[11]),
                        scaley: Some(vals[12]),
                        spacing: Some(vals[13]),
                        angle: Some(vals[14]),
                        borderstyle: Some(vals[15]),
                        outline: Some(vals[16]),
                        shadow: Some(vals[17]),
                        alignment: Some(vals[18]),
                        marginl: Some(vals[19]),
                        marginr: Some(vals[20]),
                        marginv: Some(vals[21]),
                        encoding: Some(vals[22]),
                    })
                }
            },
        }
    }
}

/// Decode the style record from its extracted line group.
pub fn parse_v4(v4_lines: &Vec<String>) -> (r: Result<V4Format, AssError>)
    ensures
        (match r {
            Ok(v) => spec_parse_v4(v4_lines.deep_view()) == Ok::<_, AssError>(v@),
            Err(e) => spec_parse_v4(v4_lines.deep_view()) == Err::<V4FormatView, _>(e),
        }),
{
    let ghost lv = v4_lines.deep_view();
    let n = v4_lines.len();
    if n == 0 {
        return Err(AssError::MissingSection);
    }
    let mut style_rest: Option<String> = None;
    let mut i: usize = 0;
    proof {
        assert(lv.skip(0int) =~~= lv);
    }
    while i < n
        invariant
            0 <= i <= n,
            n == lv.len(),
            lv == v4_lines.deep_view(),
            style_rest is None ==> spec_find_style(lv) == spec_find_style(lv.skip(i as int)),
            (match style_rest {
                Some(s) => spec_find_style(lv) == Some(s@),
                None => true,
            }),
        decreases n - i,
    {
        proof {
            assert(lv.skip(i as int)[0] == lv[i as int]);
            assert(lv.skip(i as int).drop_first() =~~= lv.skip(i + 1));
        }
        if style_rest.is_none() {
            let l = v4_lines[i].as_str();
            if starts_with_str(l, style_label_str()) {
                style_rest = Some(after_prefix(l, style_label_str()));
            }
        }
        i += 1;
    }
    proof {
        assert(lv.skip(n as int) =~~= Seq::<Seq<char>>::empty());
    }
    match style_rest {
        None => Err(AssError::MalformedFixedArity),
        Some(rem) => {
            let parts = split_char(rem.as_str(), ',');
            if parts.len() < 23 {
                return Err(AssError::MalformedFixedArity);
            }
            let v = V4Format {
                name: Some(parts[0].clone()),
                fontname: Some(parts[1].clone()),
                fontsize: Some(parts[2].clone()),
                primarycolour: Some(parts[3].clone()),
                secondarycolour: Some(parts[4].clone()),
                outlinecolour: Some(parts[5].clone()),
                backcolour: Some(parts[6].clone()),
                bold: Some(parts[7].clone()),
                italic: Some(parts[8].clone()),
                underline: Some(parts[9].clone()),
                strikeout: Some(parts[10].clone()),
                scalex: Some(parts[11].clone()),
                scaley: Some(parts[12].clone()),
                spacing: Some(parts[13].clone()),
                angle: Some(parts[14].clone()),
                borderstyle: Some(parts[15].clone()),
                outline: Some(parts[16].clone()),
                shadow: Some(parts[17].clone()),
                alignment: Some(parts[18].clone()),
                marginl: Some(parts[19].clone()),
                marginr: Some(parts[20].clone()),
                marginv: Some(parts[21].clone()),
                encoding: Some(parts[22].clone()),
            };
            proof {
                let vals = spec_split(rem@, ',');
                assert(forall|k: int|
                    0 <= k < parts.deep_view().len() ==> parts@[k]@ == #[trigger] parts.deep_view()[k]);
                assert(spec_parse_v4(lv) == Ok::<_, AssError>(v@));
            }
            Ok(v)
        },
    }
}

// ---------- events ----------

/// One dialogue line's body decoded: split at the first nine commas, the
/// remainder binding to the text field so embedded commas survive.  Fewer
/// than ten fields miss the record's fixed arity.
pub open spec fn spec_parse_dialogue_body(b: Seq<char>) -> Option<DialogueView> {
    let parts = spec_splitn(b, ',', 10);
    if parts.len() == 10 {
        Some(DialogueView {
            layer: Some(parts[0]),
            start: Some(parts[1]),
            end: Some(parts[2]),
            style: Some(parts[3]),
            name: Some(parts[4]),
            marginl: Some(parts[5]),
            marginr: Some(parts[6]),
            marginv: Some(parts[7]),
            effect: Some(parts[8]),
            text: Some(parts[9]),
            color: None,
        })
    } else {
        None
    }
}

/// The dialogues of a line group, in order: every `Dialogue: ` line
/// decoded, any other line ignored.
pub open spec fn spec_scan_dialogues(lines: Seq<Seq<char>>) -> Result<Seq<DialogueView>, AssError>
    decreases lines.len(),
{
    if lines.len() == 0 {
        Ok(Seq::<DialogueView>::empty())
    } else if dialogue_label().is_prefix_of(lines[0]) {
        match spec_parse_dialogue_body(lines[0].skip(dialogue_label().len() as int)) {
            None => Err(AssError::MalformedFixedArity),
            Some(d) => match spec_scan_dialogues(lines.drop_first()) {
                Ok(ds) => Ok(seq![d] + ds),
                Err(e) => Err(e),
            },
        }
    } else {
        spec_scan_dialogues(lines.drop_first())
    }
}

/// The dialogue table of an extracted line group.  A group with a header
/// but no dialogue lines is a valid empty table; only an empty group (the
/// header was never found) is a missing section.
pub open spec fn spec_parse_event(lines: Seq<Seq<char>>) -> Result<Seq<DialogueView>, AssError> {
    if lines.len() == 0 {
        Err(AssError::MissingSection)
    } else {
        spec_scan_dialogues(lines)
    }
}

/// Decode the dialogue table from its extracted line group.
pub fn parse_event(event_lines: &Vec<String>) -> (r: Result<Events, AssError>)
    ensures
        (match r {
            Ok(e) => spec_parse_event(event_lines.deep_view()) == Ok::<_, AssError>(e@),
            Err(e) => spec_parse_event(event_lines.deep_view()) == Err::<Seq<DialogueView>, _>(e),
        }),
{
    let ghost lv = event_lines.deep_view();
    let n = event_lines.len();
    if n == 0 {
        return Err(AssError::MissingSection);
    }
    let mut out: Vec<Dialogue> = Vec::new();
    let mut i: usize = 0;
    proof {
        assert(lv.skip(0int) =~~= lv);
        match spec_scan_dialogues(lv) {
            Ok(ds) => {
                assert(out.deep_view() + ds =~~= ds);
            },
            Err(_) => {},
        }
    }
    while i < n
        invariant
            0 <= i <= n,
            n == lv.len(),
            lv == event_lines.deep_view(),
            spec_scan_dialogues(lv) == (match spec_scan_dialogues(lv.skip(i as int)) {
                Ok(ds) => Ok::<_, AssError>(out.deep_view() + ds),
                Err(e) => Err::<Seq<DialogueView>, _>(e),
            }),
        decreases n - i,
    {
        proof {
            assert(lv.skip(i as int)[0] == lv[i as int]);
            assert(lv.skip(i as int).drop_first() =~~= lv.skip(i + 1));
        }
        let l = event_lines[i].as_str();
        if starts_with_str(l, dialogue_label_str()) {
            let body = after_prefix(l, dialogue_label_str());
            let parts = splitn_str(body.as_str(), comma_str(), 10);
            if parts.len() < 10 {
                proof {
                    assert(parts.deep_view().len() < 10);
                    assert(spec_parse_dialogue_body(body@) is None);
                }
                return Err(AssError::MalformedFixedArity);
            }
            let d = Dialogue {
                event: EventFormat {
                    layer: Some(parts[0].clone()),
                    start: Some(parts[1].clone()),
                    end: Some(parts[2].clone()),
                    style: Some(parts[3].clone()),
                    name: Some(parts[4].clone()),
                    marginl: Some(parts[5].clone()),
                    marginr: Some(parts[6].clone()),
                    marginv: Some(parts[7].clone()),
                    effect: Some(parts[8].clone()),
                    text: Some(parts[9].clone()),
                    color: None,
                },
            };
            let ghost pre = out.deep_view();
            out.push(d);
            proof {
                assert(forall|k: int|
                    0 <= k < parts.deep_view().len() ==> parts@[k]@ == #[trigger] parts.deep_view()[k]);
                assert(spec_parse_dialogue_body(body@) == Some(d@)) by {
                    assert(d@ =~= spec_parse_dialogue_body(body@)->0);
                };
                assert(out.deep_view() =~~= pre.push(d@));
                assert(forall|ds: Seq<DialogueView>|
                    pre + (#[trigger] (seq![d@] + ds)) =~~= pre.push(d@) + ds);
            }
        } else {
            proof {
                assert(!dialogue_label().is_prefix_of(lv[i as int]));
            }
        }
        i += 1;
    }
    proof {
        assert(lv.skip(n as int) =~~= Seq::<Seq<char>>::empty());
        assert(out.deep_view() + Seq::<DialogueView>::empty() =~~= out.deep_view());
    }
    Ok(Events { dialogues: Dialogues { dialogues: out } })
}

// ---------- the whole document ----------

/// The document decoded from raw text: lines split on newlines, the three
/// sections extracted and decoded in order, the first failure propagated.
pub open spec fn spec_parse_components(text: Seq<char>) -> Result<ComponentsView, AssError> {
    let lines = spec_split(text, '\n');
    match spec_parse_script(spec_get_info(lines, script_header())) {
        Err(e) => Err(e),
        Ok(s) => match spec_parse_v4(spec_get_info(lines, v4_header())) {
            Err(e) => Err(e),
            Ok(v) => match spec_parse_event(spec_get_info(lines, events_header())) {
                Err(e) => Err(e),
                Ok(ds) => Ok(ComponentsView { script: s, v4: v, events: ds }),
            },
        },
    }
}

/// Decode a whole document from its text.
pub fn get_each_components(file_contents: &str) -> (r: Result<Components, AssError>)
    ensures
        (match r {
            Ok(c) => spec_parse_components(file_contents@) == Ok::<_, AssError>(c@),
            Err(e) => spec_parse_components(file_contents@) == Err::<ComponentsView, _>(e),
        }),
{
    let lines = split_char(file_contents, '\n');
    let script_lines = get_info(&lines, script_header_str());
    let v4_lines = get_info(&lines, v4_header_str());
    let events_lines = get_info(&lines, events_header_str());
    let script = match parse_script(&script_lines) {
        Ok(s) => s,
        Err(e) => {
            return Err(e);
        },
    };
    let v4 = match parse_v4(&v4_lines) {
        Ok(v) => v,
        Err(e) => {
            return Err(e);
        },
    };
    let events = match parse_event(&events_lines) {
        Ok(ev) => ev,
        Err(e) => {
            return Err(e);
        },
    };
    let c = Components { script, v4, events };
    proof {
        assert(spec_parse_components(file_contents@) == Ok::<_, AssError>(c@)) by {
            assert(c@ =~= spec_parse_components(file_contents@)->Ok_0);
        };
    }
    Ok(c)
}

} // verus!
