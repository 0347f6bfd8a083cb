//! The section encoders: typed records rendered back into document text.
//!
//! The serialized form is fixed by the spec functions here: each section is
//! a list of lines, every line is newline-terminated, and the three section
//! blocks stand in order with one blank line between them (two newline
//! characters, since each block already ends with one).

use vstd::prelude::*;
use crate::consts::{
    dialogue_label, dialogue_label_str, events_format_line, events_format_line_str,
    events_header, events_header_str, newline_str, comma_str, playresx_label,
    playresx_label_str, playresy_label, playresy_label_str, scaledborder_label,
    scaledborder_label_str, script_header, script_header_str, script_type_label,
    script_type_label_str, style_label, style_label_str, v4_format_line, v4_format_line_str,
    v4_header, v4_header_str, ycbcr_label, ycbcr_label_str,
};
use crate::doc::{Components, ComponentsView};
use crate::error::AssError;
use crate::events::{Dialogue, DialogueView, Events};
use crate::script_info::{ScriptInfo, ScriptInfoView};
use crate::text::{join_from, spec_join};
use crate::v4::{spec_style_fields, v4_complete, V4Format, V4FormatView};

verus! {

/// The text of an optional field: its value, or empty when absent.
pub open spec fn opt_text(o: Option<Seq<char>>) -> Seq<char> {
    match o {
        Some(s) => s,
        None => Seq::<char>::empty(),
    }
}

/// A list of lines as text: each line followed by one newline.
pub open spec fn spec_lines_text(lines: Seq<Seq<char>>) -> Seq<char>
    decreases lines.len(),
{
    if lines.len() == 0 {
        Seq::<char>::empty()
    } else {
        spec_lines_text(lines.drop_last()) + lines.last() + seq!['\n']
    }
}

pub proof fn lemma_lines_text_push(lines: Seq<Seq<char>>, l: Seq<char>)
    ensures
        spec_lines_text(lines.push(l)) == spec_lines_text(lines) + l + seq!['\n'],
{
    assert(lines.push(l).drop_last() =~~= lines);
    assert(lines.push(l).last() == l);
}

pub proof fn lemma_lines_text_concat(a: Seq<Seq<char>>, b: Seq<Seq<char>>)
    ensures
        spec_lines_text(a + b) == spec_lines_text(a) + spec_lines_text(b),
    decreases b.len(),
{
    if b.len() == 0 {
        assert(a + b =~~= a);
        assert(spec_lines_text(a) + spec_lines_text(b) =~= spec_lines_text(a));
    } else {
        lemma_lines_text_concat(a, b.drop_last());
        assert((a + b).drop_last() =~~= a + b.drop_last());
        assert((a + b).last() == b.last());
        assert(spec_lines_text(a) + spec_lines_text(b) =~= spec_lines_text(a) + (spec_lines_text(
            b.drop_last(),
        ) + b.last() + seq!['\n']));
        assert(spec_lines_text(a + b) =~= spec_lines_text(a) + spec_lines_text(b));
    }
}

// ---------- script info ----------

/// The one line a present field contributes, or nothing for an absent one.
pub open spec fn opt_line(label: Seq<char>, v: Option<Seq<char>>) -> Seq<Seq<char>> {
    match v {
        Some(t) => seq![label + t],
        None => Seq::<Seq<char>>::empty(),
    }
}

/// The lines of the `[Script Info]` section: the header, then one
/// `Label: value` line per present field, in field order.
pub open spec fn spec_script_lines(s: ScriptInfoView) -> Seq<Seq<char>> {
    seq![script_header()] + opt_line(script_type_label(), s.scripttype) + opt_line(
        playresx_label(),
        s.playresx,
    ) + opt_line(playresy_label(), s.playresy) + opt_line(
        scaledborder_label(),
        s.scaledborderandshadow,
    ) + opt_line(ycbcr_label(), s.ycbcr_matrix)
}

pub open spec fn spec_script_block(s: ScriptInfoView) -> Seq<char> {
    spec_lines_text(spec_script_lines(s))
}

/// Append `Label: value` and a newline when the field is present; append
/// nothing when it is absent.
fn push_opt_line(out: &mut String, label: &str, v: &Option<String>)
    ensures
        final(out)@ == old(out)@ + spec_lines_text(opt_line(label@, v.deep_view())),
{
    match v {
        Some(t) => {
            out.append(label);
            out.append(t.as_str());
            out.append(newline_str());
            proof {
                assert(opt_line(label@, v.deep_view()) =~~= Seq::<Seq<char>>::empty().push(
                    label@ + t@,
                ));
                lemma_lines_text_push(Seq::<Seq<char>>::empty(), label@ + t@);
                assert(out@ =~= old(out)@ + spec_lines_text(opt_line(label@, v.deep_view())));
            }
        },
        None => {
            proof {
                assert(out@ =~= old(out)@ + spec_lines_text(opt_line(label@, v.deep_view())));
            }
        },
    }
}

/// The `[Script Info]` section of a record: the header line, then only the
/// present fields, each as `Label: value`.
pub fn stringify_script(script: &ScriptInfo) -> (r: String)
    ensures
        r@ == spec_script_block(script@),
{
    let mut out = String::from_str(script_header_str());
    out.append(newline_str());
    let ghost l0 = seq![script_header()];
    proof {
        lemma_lines_text_push(Seq::<Seq<char>>::empty(), script_header());
        assert(l0 =~~= Seq::<Seq<char>>::empty().push(script_header()));
        assert(out@ =~= spec_lines_text(l0));
    }
    let ghost l1 = l0 + opt_line(script_type_label(), script@.scripttype);
    push_opt_line(&mut out, script_type_label_str(), &script.scripttype);
    proof {
        lemma_lines_text_concat(l0, opt_line(script_type_label(), script@.scripttype));
        assert(out@ =~= spec_lines_text(l1));
    }
    let ghost l2 = l1 + opt_line(playresx_label(), script@.playresx);
    push_opt_line(&mut out, playresx_label_str(), &script.playresx);
    proof {
        lemma_lines_text_concat(l1, opt_line(playresx_label(), script@.playresx));
        assert(out@ =~= spec_lines_text(l2));
    }
    let ghost l3 = l2 + opt_line(playresy_label(), script@.playresy);
    push_opt_line(&mut out, playresy_label_str(), &script.playresy);
    proof {
        lemma_lines_text_concat(l2, opt_line(playresy_label(), script@.playresy));
        assert(out@ =~= spec_lines_text(l3));
    }
    let ghost l4 = l3 + opt_line(scaledborder_label(), script@.scaledborderandshadow);
    push_opt_line(&mut out, scaledborder_label_str(), &script.scaledborderandshadow);
    proof {
        lemma_lines_text_concat(l3, opt_line(scaledborder_label(), script@.scaledborderandshadow));
        assert(out@ =~= spec_lines_text(l4));
    }
    let ghost l5 = l4 + opt_line(ycbcr_label(), script@.ycbcr_matrix);
    push_opt_line(&mut out, ycbcr_label_str(), &script.ycbcr_matrix);
    proof {
        lemma_lines_text_concat(l4, opt_line(ycbcr_label(), script@.ycbcr_matrix));
        assert(out@ =~= spec_lines_text(l5));
        assert(l5 =~~= spec_script_lines(script@));
    }
    out
}

// ---------- styles ----------

/// The 23 style values in canonical order, an absent field reading as
/// empty; encoding is only defined on complete records, where this is the
/// value list itself.
pub open spec fn spec_style_values(v: V4FormatView) -> Seq<Seq<char>> {
    spec_style_fields(v).map_values(|o: Option<Seq<char>>| opt_text(o))
}

/// The `Style: ` line: the 23 values comma-joined after the label.
pub open spec fn spec_style_line(v: V4FormatView) -> Seq<char> {
    style_label() + spec_join(spec_style_values(v), ',')
}

/// The lines of the `[V4+ Styles]` section.
pub open spec fn spec_v4_lines(v: V4FormatView) -> Seq<Seq<char>> {
    seq![v4_header(), v4_format_line(), spec_style_line(v)]
}

pub open spec fn spec_v4_block(v: V4FormatView) -> Seq<char> {
    spec_lines_text(spec_v4_lines(v))
}

/// The `[V4+ Styles]` section of a record.  Every one of the 23 fields must
/// be present; otherwise the record cannot meet its fixed arity and the
/// encoder refuses it.
pub fn plug_v4(v4: &V4Format) -> (r: Result<String, AssError>)
    ensures
        v4_complete(v4@) ==> (match r {
            Ok(s) => s@ == spec_v4_block(v4@),
            Err(_) => false,
        }),
        !v4_complete(v4@) ==> (match r {
            Ok(_) => false,
            Err(e) => e == AssError::MalformedFixedArity,
        }),
{
    let arr = v4.get_array();
    proof {
        assert(arr.deep_view().len() == 23);
        assert(arr@.len() == arr.deep_view().len());
    }
    let mut values: Vec<String> = Vec::new();
    let mut i: usize = 0;
    while i < arr.len()
        invariant
            0 <= i <= arr.len(),
            arr@.len() == 23,
            arr.deep_view() == spec_style_fields(v4@),
            forall|k: int| 0 <= k < i ==> spec_style_fields(v4@)[k] is Some,
            values.deep_view() =~~= spec_style_values(v4@).take(i as int),
        decreases arr.len() - i,
    {
        match &arr[i] {
            Some(s) => {
                let ghost pre = values.deep_view();
                values.push(s.clone());
                proof {
                    assert(arr@[i as int].deep_view() == spec_style_fields(v4@)[i as int]);
                    assert(s@ == opt_text(spec_style_fields(v4@)[i as int]));
                    assert(values.deep_view() =~~= pre.push(s@));
                    assert(values.deep_view() =~~= spec_style_values(v4@).take(i + 1));
                }
            },
            None => {
                proof {
                    assert(arr@[i as int].deep_view() == spec_style_fields(v4@)[i as int]);
                    assert(spec_style_fields(v4@)[i as int] is None);
                    assert(!v4_complete(v4@));
                }
                return Err(AssError::MalformedFixedArity);
            },
        }
        i += 1;
    }
    proof {
        assert(v4_complete(v4@));
        assert(values.deep_view() =~~= spec_style_values(v4@));
    }
    let joined = join_from(&values, 0, comma_str());
    proof {
        assert(values.deep_view().skip(0int) =~~= spec_style_values(v4@));
    }
    let mut out = String::from_str(v4_header_str());
    out.append(newline_str());
    out.append(v4_format_line_str());
    out.append(newline_str());
    out.append(style_label_str());
    out.append(joined.as_str());
    out.append(newline_str());
    proof {
        lemma_lines_text_push(Seq::<Seq<char>>::empty(), v4_header());
        assert(seq![v4_header()] =~~= Seq::<Seq<char>>::empty().push(v4_header()));
        lemma_lines_text_push(seq![v4_header()], v4_format_line());
        assert(seq![v4_header(), v4_format_line()] =~~= seq![v4_header()].push(v4_format_line()));
        lemma_lines_text_push(seq![v4_header(), v4_format_line()], spec_style_line(v4@));
        assert(spec_v4_lines(v4@) =~~= seq![v4_header(), v4_format_line()].push(
            spec_style_line(v4@),
        ));
        assert(out@ =~= spec_v4_block(v4@));
    }
    Ok(out)
}

// ---------- events ----------

/// One dialogue's ten serialized fields in line order; an absent field
/// reads as empty.
pub open spec fn spec_dialogue_fields(d: DialogueView) -> Seq<Seq<char>> {
    seq![
        opt_text(d.layer),
        opt_text(d.start),
        opt_text(d.end),
        opt_text(d.style),
        opt_text(d.name),
        opt_text(d.marginl),
        opt_text(d.marginr),
        opt_text(d.marginv),
        opt_text(d.effect),
        opt_text(d.text),
    ]
}

/// The ten fields comma-joined.  Only the text field, standing last, may
/// itself contain commas.
pub open spec fn spec_dialogue_body(d: DialogueView) -> Seq<char> {
    spec_join(spec_dialogue_fields(d), ',')
}

/// The full `Dialogue: ` line of one record, without its newline.
pub open spec fn spec_dialogue_line(d: DialogueView) -> Seq<char> {
    dialogue_label() + spec_dialogue_body(d)
}

/// The lines of the `[Events]` section: the header, the format declaration,
/// then one line per dialogue in table order.
pub open spec fn spec_events_lines(ds: Seq<DialogueView>) -> Seq<Seq<char>> {
    seq![events_header(), events_format_line()] + ds.map_values(|d: DialogueView| spec_dialogue_line(d))
}

pub open spec fn spec_events_block(ds: Seq<DialogueView>) -> Seq<char> {
    spec_lines_text(spec_events_lines(ds))
}

/// An optional field's text as a fresh string: its value, or empty when
/// absent.
fn opt_value(o: &Option<String>) -> (r: String)
    ensures
        r@ == opt_text(o.deep_view()),
{
    match o {
        Some(s) => s.clone(),
        None => String::new(),
    }
}

impl Dialogue {
    /// The serialized `Dialogue: ` line of this record, newline-terminated.
    /// An absent field serializes as the empty string.
    pub fn to_string(&self) -> (r: String)
        ensures
            r@ == spec_dialogue_line(self@) + seq!['\n'],
    {
        let mut fields: Vec<String> = Vec::new();
        fields.push(opt_value(&self.event.layer));
        fields.push(opt_value(&self.event.start));
        fields.push(opt_value(&self.event.end));
        fields.push(opt_value(&self.event.style));
        fields.push(opt_value(&self.event.name));
        fields.push(opt_value(&self.event.marginl));
        fields.push(opt_value(&self.event.marginr));
        fields.push(opt_value(&self.event.marginv));
        fields.push(opt_value(&self.event.effect));
        fields.push(opt_value(&self.event.text));
        proof {
            assert(fields.deep_view() =~~= spec_dialogue_fields(self@));
        }
        let joined = join_from(&fields, 0, comma_str());
        proof {
            assert(fields.deep_view().skip(0int) =~~= spec_dialogue_fields(self@));
        }
        let mut out = String::from_str(dialogue_label_str());
        out.append(joined.as_str());
        out.append(newline_str());
        proof {
            assert(out@ =~= spec_dialogue_line(self@) + seq!['\n']);
        }
        out
    }
}

/// The `[Events]` section of a table: header, format declaration, one line
/// per dialogue.
pub fn plug_events(events: &Events) -> (r: String)
    ensures
        r@ == spec_events_block(events@),
{
    let mut out = String::from_str(events_header_str());
    out.append(newline_str());
    out.append(events_format_line_str());
    out.append(newline_str());
    let ghost head = seq![events_header(), events_format_line()];
    proof {
        lemma_lines_text_push(Seq::<Seq<char>>::empty(), events_header());
        assert(seq![events_header()] =~~= Seq::<Seq<char>>::empty().push(events_header()));
        lemma_lines_text_push(seq![events_header()], events_format_line());
        assert(head =~~= seq![events_header()].push(events_format_line()));
        assert(head + events@.take(0int).map_values(|d: DialogueView| spec_dialogue_line(d))
            =~~= head);
        assert(out@ =~= spec_lines_text(head + events@.take(0int).map_values(
            |d: DialogueView| spec_dialogue_line(d),
        )));
    }
    let n = events.dialogues.dialogues.len();
    let mut i: usize = 0;
    while i < n
        invariant
            0 <= i <= n,
            n == events@.len(),
            out@ == spec_lines_text(
                seq![events_header(), events_format_line()] + events@.take(i as int).map_values(
                    |d: DialogueView| spec_dialogue_line(d),
                ),
            ),
        decreases n - i,
    {
        let ghost pre = seq![events_header(), events_format_line()] + events@.take(
            i as int,
        ).map_values(|d: DialogueView| spec_dialogue_line(d));
        let line = events.dialogues.dialogues[i].to_string();
        out.append(line.as_str());
        proof {
            let next = seq![events_header(), events_format_line()] + events@.take(i + 1).map_values(
                |d: DialogueView| spec_dialogue_line(d),
            );
            assert(events.dialogues.dialogues@[i as int]@ == events@[i as int]);
            assert(next =~~= pre.push(spec_dialogue_line(events@[i as int])));
            lemma_lines_text_push(pre, spec_dialogue_line(events@[i as int]));
            assert(out@ =~= spec_lines_text(next));
        }
        i += 1;
    }
    proof {
        assert(events@.take(n as int) =~~= events@);
        assert(seq![events_header(), events_format_line()] + events@.map_values(
            |d: DialogueView| spec_dialogue_line(d),
        ) =~~= spec_events_lines(events@));
    }
    out
}

// ---------- the whole document ----------

/// The serialized document: the three section blocks in order, one blank
/// line between them (each block already ends with a newline of its own).
pub open spec fn spec_components_text(c: ComponentsView) -> Seq<char> {
    spec_script_block(c.script) + seq!['\n', '\n'] + spec_v4_block(c.v4) + seq!['\n', '\n']
        + spec_events_block(c.events)
}

/// The document text of the three records.  The style record must be
/// complete; otherwise the encoder refuses the document.
pub fn combine_components(components: &Components) -> (r: Result<String, AssError>)
    ensures
        v4_complete(components@.v4) ==> (match r {
            Ok(s) => s@ == spec_components_text(components@),
            Err(_) => false,
        }),
        !v4_complete(components@.v4) ==> (match r {
            Ok(_) => false,
            Err(e) => e == AssError::MalformedFixedArity,
        }),
{
    let mut out = stringify_script(&components.script);
    let v4_data = match plug_v4(&components.v4) {
        Ok(s) => s,
        Err(e) => {
            return Err(e);
        },
    };
    let event_data = plug_events(&components.events);
    let blank = "\n\n";
    proof {
        reveal_strlit("\n\n");
        assert(blank@ =~= seq!['\n', '\n']);
    }
    out.append(blank);
    out.append(v4_data.as_str());
    out.append(blank);
    out.append(event_data.as_str());
    proof {
        assert(out@ =~= spec_components_text(components@));
    }
    Ok(out)
}

} // verus!
