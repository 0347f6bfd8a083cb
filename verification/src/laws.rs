//! The laws of the codec, stated and proved once over the spec functions
//! that every executable contract uses: decoding undoes encoding, the two
//! fixed-arity records keep their arity, and an extracted section with no
//! body decodes to an error rather than a crash.

use vstd::prelude::*;
use crate::consts::{
    dialogue_label, events_format_line, events_header, playresx_label, playresy_label,
    scaledborder_label, script_header, script_type_label, style_label, v4_format_line,
    v4_header, ycbcr_label,
};
use crate::decode::{
    script_scan_step, spec_collect, spec_find_style, spec_get_info, spec_parse_components,
    spec_parse_dialogue_body, spec_parse_event, spec_parse_script, spec_parse_v4,
    spec_scan_dialogues, spec_scan_script, spec_strip,
};
use crate::doc::ComponentsView;
use crate::encode::{
    opt_text, spec_components_text, spec_dialogue_body, spec_dialogue_fields,
    spec_dialogue_line, spec_events_lines, spec_lines_text, spec_script_lines, spec_style_line,
    spec_style_values, spec_v4_lines,
};
use crate::error::AssError;
use crate::events::DialogueView;
use crate::script_info::{empty_script_view, ScriptInfoView};
use crate::text::{
    lemma_join_concat, lemma_split_join, lemma_splitn_join, no_char, spec_join, spec_split,
    spec_splitn,
};
use crate::v4::{spec_style_fields, V4FormatView};

verus! {

// ---------- well-formedness: the values a record may hold so that its
// ---------- serialized text decodes back to it ----------

/// A field value that survives the line discipline: no newline (it would
/// split the line) and no carriage return (it would be stripped).
pub open spec fn value_clean(s: Seq<char>) -> bool {
    no_char(s, '\n') && no_char(s, '\r')
}

/// A present, clean field.
pub open spec fn opt_set_clean(o: Option<Seq<char>>) -> bool {
    o is Some && value_clean(o->0)
}

/// A script-info record whose serialized text decodes back to it: all five
/// fields present (decode is strict) and clean.
pub open spec fn script_wf(s: ScriptInfoView) -> bool {
    opt_set_clean(s.scripttype) && opt_set_clean(s.playresx) && opt_set_clean(s.playresy)
        && opt_set_clean(s.scaledborderandshadow) && opt_set_clean(s.ycbcr_matrix)
}

/// A style record whose serialized line decodes back to it: all 23 fields
/// present, clean, and free of the comma that separates them.
pub open spec fn v4_wf(v: V4FormatView) -> bool {
    forall|i: int|
        0 <= i < 23 ==> (#[trigger] spec_style_fields(v)[i]) is Some && value_clean(
            spec_style_fields(v)[i]->0,
        ) && no_char(spec_style_fields(v)[i]->0, ',')
}

/// A dialogue whose serialized line decodes back to it: the ten serialized
/// fields present and clean, the nine before the text free of commas (the
/// text itself may hold them, standing last), and no colour attached (the
/// colour field is never serialized as a column, so decoding always leaves
/// it absent).
pub open spec fn dialogue_wf(d: DialogueView) -> bool {
    &&& opt_set_clean(d.layer) && no_char(d.layer->0, ',')
    &&& opt_set_clean(d.start) && no_char(d.start->0, ',')
    &&& opt_set_clean(d.end) && no_char(d.end->0, ',')
    &&& opt_set_clean(d.style) && no_char(d.style->0, ',')
    &&& opt_set_clean(d.name) && no_char(d.name->0, ',')
    &&& opt_set_clean(d.marginl) && no_char(d.marginl->0, ',')
    &&& opt_set_clean(d.marginr) && no_char(d.marginr->0, ',')
    &&& opt_set_clean(d.marginv) && no_char(d.marginv->0, ',')
    &&& opt_set_clean(d.effect) && no_char(d.effect->0, ',')
    &&& opt_set_clean(d.text)
    &&& d.color is None
}

/// A document whose serialized text decodes back to it.
pub open spec fn components_wf(c: ComponentsView) -> bool {
    script_wf(c.script) && v4_wf(c.v4) && (forall|i: int|
        0 <= i < c.events.len() ==> dialogue_wf(#[trigger] c.events[i]))
}

// ---------- dialogue arity and round trip ----------

/// When the text holds no comma either, the serialized dialogue body splits
/// into exactly its ten fields: arity is preserved.
pub proof fn lemma_dialogue_arity(d: DialogueView)
    requires
        dialogue_wf(d),
        no_char(d.text->0, ','),
    ensures
        spec_split(spec_dialogue_body(d), ',') == spec_dialogue_fields(d),
        spec_split(spec_dialogue_body(d), ',').len() == 10,
{
    lemma_split_join(spec_dialogue_fields(d), ',');
}

/// Decoding a serialized dialogue line's body gives back the dialogue:
/// the first nine fields are uncorrupted, and embedded commas in the text
/// survive because the text binds to everything after the ninth comma.
pub proof fn lemma_dialogue_round_trip(d: DialogueView)
    requires
        dialogue_wf(d),
    ensures
        spec_parse_dialogue_body(spec_dialogue_body(d)) == Some(d),
{
    lemma_splitn_join(spec_dialogue_fields(d), ',', 10);
    let parts = spec_splitn(spec_dialogue_body(d), ',', 10);
    assert(parts == spec_dialogue_fields(d));
    assert(spec_parse_dialogue_body(spec_dialogue_body(d))->0 =~= d);
}

// ---------- style arity and round trip ----------

/// The serialized style line holds exactly 23 comma-separated values, and
/// splitting gives back the same 23 values in the same positions.
pub proof fn lemma_style_arity(v: V4FormatView)
    requires
        v4_wf(v),
    ensures
        spec_split(spec_join(spec_style_values(v), ','), ',') == spec_style_values(v),
        spec_split(spec_join(spec_style_values(v), ','), ',').len() == 23,
{
    assert(forall|i: int|
        0 <= i < 23 ==> no_char(#[trigger] spec_style_values(v)[i], ','));
    lemma_split_join(spec_style_values(v), ',');
}

/// Decoding the three encoded style-section lines gives back the record.
pub proof fn lemma_style_round_trip(v: V4FormatView)
    requires
        v4_wf(v),
    ensures
        spec_parse_v4(spec_v4_lines(v)) == Ok::<_, AssError>(v),
{
    let lines = spec_v4_lines(v);
    lemma_format_prefix_facts();
    assert(lines[0] == v4_header());
    assert(!style_label().is_prefix_of(v4_header())) by {
        lemma_not_prefix_at(style_label(), v4_header(), 0);
    }
    assert(!style_label().is_prefix_of(v4_format_line())) by {
        lemma_not_prefix_at(style_label(), v4_format_line(), 0);
    }
    assert(style_label().is_prefix_of(spec_style_line(v))) by {
        assert(spec_style_line(v).subrange(0, style_label().len() as int) =~= style_label());
    }
    assert(lines.drop_first() =~~= seq![v4_format_line(), spec_style_line(v)]);
    assert(seq![v4_format_line(), spec_style_line(v)].drop_first() =~~= seq![spec_style_line(v)]);
    assert(spec_find_style(seq![spec_style_line(v)]) == Some(
        spec_style_line(v).skip(style_label().len() as int),
    ));
    assert(spec_find_style(seq![v4_format_line(), spec_style_line(v)]) == Some(
        spec_style_line(v).skip(style_label().len() as int),
    ));
    assert(spec_find_style(lines) == Some(
        spec_style_line(v).skip(style_label().len() as int),
    ));
    assert(spec_style_line(v).skip(style_label().len() as int) =~= spec_join(
        spec_style_values(v),
        ',',
    ));
    lemma_style_arity(v);
    let vals = spec_split(spec_join(spec_style_values(v), ','), ',');
    assert(forall|i: int| 0 <= i < 23 ==> vals[i] == opt_text(#[trigger] spec_style_fields(v)[i]));
    assert(spec_parse_v4(lines)->Ok_0 =~= v);
}

// ---------- small helpers about prefixes and format lines ----------

/// A sequence too short at position `k`, or differing there, does not have
/// `p` as a prefix.
proof fn lemma_not_prefix_at(p: Seq<char>, l: Seq<char>, k: int)
    requires
        0 <= k < p.len(),
        k >= l.len() || l[k] != p[k],
    ensures
        !p.is_prefix_of(l),
{
    if p.is_prefix_of(l) {
        assert(l.subrange(0, p.len() as int)[k] == l[k]);
    }
}

/// No character of a joined sequence is `x`, when no piece holds `x` and
/// the separator is not `x` either.
proof fn lemma_join_keeps_no_char(parts: Seq<Seq<char>>, c: char, x: char)
    requires
        x != c,
        forall|i: int| 0 <= i < parts.len() ==> no_char(#[trigger] parts[i], x),
    ensures
        no_char(spec_join(parts, c), x),
    decreases parts.len(),
{
    if parts.len() <= 1 {
    } else {
        lemma_join_keeps_no_char(parts.drop_last(), c, x);
        assert forall|i: int| 0 <= i < spec_join(parts, c).len() implies spec_join(parts, c)[i]
            != x by {
            let a = spec_join(parts.drop_last(), c);
            assert(spec_join(parts, c) == a + seq![c] + parts.last());
            if i < a.len() {
            } else if i == a.len() {
            } else {
                assert(spec_join(parts, c)[i] == parts.last()[i - a.len() - 1]);
            }
        }
    }
}

/// No character of two concatenated sequences is `x` when neither holds it.
proof fn lemma_concat_no_char(a: Seq<char>, b: Seq<char>, x: char)
    requires
        no_char(a, x),
        no_char(b, x),
    ensures
        no_char(a + b, x),
{
    assert forall|i: int| 0 <= i < (a + b).len() implies (a + b)[i] != x by {
        if i < a.len() {
        } else {
            assert((a + b)[i] == b[i - a.len()]);
        }
    }
}

/// A line whose last character is no line ending is left alone by
/// normalization.
proof fn lemma_strip_id(l: Seq<char>)
    requires
        l.len() == 0 || (l.last() != '\n' && l.last() != '\r'),
    ensures
        spec_strip(l) == l,
{
}

/// A line the body collector keeps: normalization leaves it alone, and it
/// starts neither a new section nor a comment.
spec fn line_kept(l: Seq<char>) -> bool {
    spec_strip(l) == l && (l.len() == 0 || (l[0] != '[' && l[0] != ';'))
}

/// A label line with a clean value is kept by the collector.
proof fn lemma_label_line_kept(lab: Seq<char>, v: Seq<char>)
    requires
        lab.len() > 0,
        lab.last() != '\n',
        lab.last() != '\r',
        lab[0] != '[',
        lab[0] != ';',
        value_clean(v),
    ensures
        line_kept(lab + v),
{
    let l = lab + v;
    if v.len() == 0 {
        assert(l.last() == lab.last());
    } else {
        assert(l.last() == v[v.len() - 1]);
    }
    lemma_strip_id(l);
    assert(l[0] == lab[0]);
}

/// Collection walks over kept lines unchanged.
proof fn lemma_collect_kept(a: Seq<Seq<char>>, b: Seq<Seq<char>>)
    requires
        forall|i: int| 0 <= i < a.len() ==> line_kept(#[trigger] a[i]),
    ensures
        spec_collect(a + b) == a + spec_collect(b),
    decreases a.len(),
{
    if a.len() == 0 {
        assert(a + b =~~= b);
        assert(a + spec_collect(b) =~~= spec_collect(b));
    } else {
        assert((a + b)[0] == a[0]);
        assert((a + b).drop_first() =~~= a.drop_first() + b);
        assert(line_kept(a[0]));
        assert(forall|i: int| 0 <= i < a.drop_first().len() ==> line_kept(
            #[trigger] a.drop_first()[i],
        ));
        lemma_collect_kept(a.drop_first(), b);
        assert(spec_collect(a + b) == seq![a[0]] + spec_collect(a.drop_first() + b));
        assert(seq![a[0]] + (a.drop_first() + spec_collect(b)) =~~= a + spec_collect(b));
    }
}

/// Collection stops for good at a bracketed line.
proof fn lemma_collect_stops(b: Seq<Seq<char>>)
    requires
        b.len() > 0,
        spec_strip(b[0]).len() > 0,
        spec_strip(b[0])[0] == '[',
    ensures
        spec_collect(b) == Seq::<Seq<char>>::empty(),
{
}

/// The extractor passes over lines that do not match the header.
proof fn lemma_get_info_skip(a: Seq<Seq<char>>, b: Seq<Seq<char>>, h: Seq<char>)
    requires
        forall|i: int| 0 <= i < a.len() ==> spec_strip(#[trigger] a[i]) != h,
    ensures
        spec_get_info(a + b, h) == spec_get_info(b, h),
    decreases a.len(),
{
    if a.len() == 0 {
        assert(a + b =~~= b);
    } else {
        assert((a + b)[0] == a[0]);
        assert((a + b).drop_first() =~~= a.drop_first() + b);
        assert(forall|i: int| 0 <= i < a.drop_first().len() ==> spec_strip(
            #[trigger] a.drop_first()[i],
        ) != h);
        lemma_get_info_skip(a.drop_first(), b, h);
    }
}

/// The extractor's result at the header line itself.
proof fn lemma_get_info_hit(b: Seq<Seq<char>>, h: Seq<char>)
    requires
        b.len() > 0,
        spec_strip(b[0]) == h,
    ensures
        spec_get_info(b, h) == seq![h, seq!['\n']] + spec_collect(b.drop_first()),
{
}

/// A block of lines as text is the lines newline-joined, with one more
/// newline at the end.
proof fn lemma_lines_text_as_join(lines: Seq<Seq<char>>)
    requires
        lines.len() >= 1,
    ensures
        spec_lines_text(lines) == spec_join(lines, '\n') + seq!['\n'],
    decreases lines.len(),
{
    if lines.len() == 1 {
        assert(lines.drop_last() =~~= Seq::<Seq<char>>::empty());
        assert(spec_lines_text(Seq::<Seq<char>>::empty()) =~= Seq::<char>::empty());
        assert(lines.last() == lines[0]);
        assert(spec_lines_text(lines) =~= lines[0] + seq!['\n']);
        assert(spec_join(lines, '\n') + seq!['\n'] =~= lines[0] + seq!['\n']);
    } else {
        lemma_lines_text_as_join(lines.drop_last());
        assert(spec_lines_text(lines) =~= spec_join(lines, '\n') + seq!['\n']);
    }
}

/// The serialized document, line by line: the three sections' lines with
/// two blank lines between sections and one final blank piece from the
/// text's trailing newline.
pub open spec fn spec_document_lines(c: ComponentsView) -> Seq<Seq<char>> {
    spec_script_lines(c.script) + seq![Seq::<char>::empty(), Seq::<char>::empty()]
        + spec_v4_lines(c.v4) + seq![Seq::<char>::empty(), Seq::<char>::empty()]
        + spec_events_lines(c.events) + seq![Seq::<char>::empty()]
}

/// What decoding needs of the script section's lines.
proof fn lemma_script_lines_facts(s: ScriptInfoView)
    requires
        script_wf(s),
    ensures
        spec_script_lines(s) =~~= seq![
            script_header(),
            script_type_label() + s.scripttype->0,
            playresx_label() + s.playresx->0,
            playresy_label() + s.playresy->0,
            scaledborder_label() + s.scaledborderandshadow->0,
            ycbcr_label() + s.ycbcr_matrix->0,
        ],
        forall|i: int|
            0 <= i < spec_script_lines(s).len() ==> no_char(
                #[trigger] spec_script_lines(s)[i],
                '\n',
            ),
        forall|i: int| 1 <= i < spec_script_lines(s).len() ==> line_kept(spec_script_lines(s)[i]),
        forall|i: int|
            0 <= i < spec_script_lines(s).len() ==> spec_strip(#[trigger] spec_script_lines(s)[i])
                != v4_header() && spec_strip(spec_script_lines(s)[i]) != events_header(),
        spec_strip(spec_script_lines(s)[0]) == script_header(),
{
    let ss = spec_script_lines(s);
    assert(ss =~~= seq![
        script_header(),
        script_type_label() + s.scripttype->0,
        playresx_label() + s.playresx->0,
        playresy_label() + s.playresy->0,
        scaledborder_label() + s.scaledborderandshadow->0,
        ycbcr_label() + s.ycbcr_matrix->0,
    ]);
    lemma_strip_id(script_header());
    lemma_label_line_kept(script_type_label(), s.scripttype->0);
    lemma_label_line_kept(playresx_label(), s.playresx->0);
    lemma_label_line_kept(playresy_label(), s.playresy->0);
    lemma_label_line_kept(scaledborder_label(), s.scaledborderandshadow->0);
    lemma_label_line_kept(ycbcr_label(), s.ycbcr_matrix->0);
    lemma_concat_no_char(script_type_label(), s.scripttype->0, '\n');
    lemma_concat_no_char(playresx_label(), s.playresx->0, '\n');
    lemma_concat_no_char(playresy_label(), s.playresy->0, '\n');
    lemma_concat_no_char(scaledborder_label(), s.scaledborderandshadow->0, '\n');
    lemma_concat_no_char(ycbcr_label(), s.ycbcr_matrix->0, '\n');
    assert forall|i: int| 0 <= i < ss.len() implies spec_strip(#[trigger] ss[i]) != v4_header()
        && spec_strip(ss[i]) != events_header() by {
        if i == 0 {
            assert(spec_strip(ss[0]) == script_header());
        } else {
            assert(line_kept(ss[i]));
            assert(ss[i][0] != '[');
            assert(spec_strip(ss[i]) == ss[i]);
            if ss[i] == v4_header() {
                assert(ss[i][0] == '[');
            }
            if ss[i] == events_header() {
                assert(ss[i][0] == '[');
            }
        }
    }
}

/// What decoding needs of the style section's lines.
proof fn lemma_v4_lines_facts(v: V4FormatView)
    requires
        v4_wf(v),
    ensures
        spec_v4_lines(v).len() == 3,
        spec_v4_lines(v)[0] == v4_header(),
        forall|i: int|
            0 <= i < spec_v4_lines(v).len() ==> no_char(#[trigger] spec_v4_lines(v)[i], '\n'),
        forall|i: int| 1 <= i < spec_v4_lines(v).len() ==> line_kept(spec_v4_lines(v)[i]),
        forall|i: int|
            0 <= i < spec_v4_lines(v).len() ==> spec_strip(#[trigger] spec_v4_lines(v)[i])
                != events_header() && spec_strip(spec_v4_lines(v)[i]) != script_header(),
        spec_strip(spec_v4_lines(v)[0]) == v4_header(),
{
    let vl = spec_v4_lines(v);
    lemma_format_prefix_facts();
    lemma_strip_id(v4_header());
    lemma_strip_id(v4_format_line());
    assert(forall|i: int|
        0 <= i < 23 ==> no_char(#[trigger] spec_style_values(v)[i], '\n') && no_char(
            spec_style_values(v)[i],
            '\r',
        ) && no_char(spec_style_values(v)[i], ','));
    lemma_join_keeps_no_char(spec_style_values(v), ',', '\n');
    lemma_join_keeps_no_char(spec_style_values(v), ',', '\r');
    lemma_label_line_kept(style_label(), spec_join(spec_style_values(v), ','));
    lemma_concat_no_char(style_label(), spec_join(spec_style_values(v), ','), '\n');
    assert forall|i: int| 0 <= i < vl.len() implies spec_strip(#[trigger] vl[i])
        != events_header() && spec_strip(vl[i]) != script_header() by {
        if i == 0 {
            assert(spec_strip(vl[0]) == v4_header());
            assert(v4_header().len() != events_header().len());
            assert(v4_header().len() != script_header().len());
        } else if i == 1 {
            assert(spec_strip(vl[1]) == v4_format_line());
            if vl[1] == events_header() {
                assert(vl[1][0] == '[');
            }
            if vl[1] == script_header() {
                assert(vl[1][0] == '[');
            }
        } else {
            assert(spec_strip(vl[2]) == vl[2]);
            assert(vl[2][0] == style_label()[0]);
            if vl[2] == events_header() {
                assert(vl[2][0] == '[');
            }
            if vl[2] == script_header() {
                assert(vl[2][0] == '[');
            }
        }
    }
}

/// What decoding needs of the events section's lines.
proof fn lemma_events_lines_facts(ds: Seq<DialogueView>)
    requires
        forall|i: int| 0 <= i < ds.len() ==> dialogue_wf(#[trigger] ds[i]),
    ensures
        spec_events_lines(ds).len() == 2 + ds.len(),
        spec_events_lines(ds)[0] == events_header(),
        forall|i: int|
            0 <= i < spec_events_lines(ds).len() ==> no_char(
                #[trigger] spec_events_lines(ds)[i],
                '\n',
            ),
        forall|i: int|
            1 <= i < spec_events_lines(ds).len() ==> line_kept(spec_events_lines(ds)[i]),
        spec_strip(spec_events_lines(ds)[0]) == events_header(),
{
    let el = spec_events_lines(ds);
    lemma_format_prefix_facts();
    lemma_strip_id(events_header());
    lemma_strip_id(events_format_line());
    assert forall|i: int| 2 <= i < el.len() implies line_kept(#[trigger] el[i]) && no_char(
        el[i],
        '\n',
    ) by {
        let d = ds[i - 2];
        assert(el[i] == spec_dialogue_line(d));
        assert(dialogue_wf(d));
        assert(forall|k: int|
            0 <= k < 10 ==> no_char(#[trigger] spec_dialogue_fields(d)[k], '\n') && no_char(
                spec_dialogue_fields(d)[k],
                '\r',
            ));
        lemma_join_keeps_no_char(spec_dialogue_fields(d), ',', '\n');
        lemma_join_keeps_no_char(spec_dialogue_fields(d), ',', '\r');
        lemma_label_line_kept(dialogue_label(), spec_join(spec_dialogue_fields(d), ','));
        lemma_concat_no_char(dialogue_label(), spec_join(spec_dialogue_fields(d), ','), '\n');
    }
    assert(no_char(el[0], '\n'));
    assert(no_char(el[1], '\n'));
    assert(line_kept(el[1]));
}

/// Splitting the serialized document on newlines gives exactly its line
/// list.
proof fn lemma_document_split(c: ComponentsView)
    requires
        components_wf(c),
    ensures
        spec_split(spec_components_text(c), '\n') == spec_document_lines(c),
{
    let e = Seq::<char>::empty();
    let ss = spec_script_lines(c.script);
    let vl = spec_v4_lines(c.v4);
    let el = spec_events_lines(c.events);
    let all = spec_document_lines(c);
    lemma_script_lines_facts(c.script);
    lemma_v4_lines_facts(c.v4);
    lemma_events_lines_facts(c.events);
    // the text is the newline-join of the full line list
    lemma_lines_text_as_join(ss);
    lemma_lines_text_as_join(vl);
    lemma_lines_text_as_join(el);
    let r3 = el + seq![e];
    lemma_join_concat(el, seq![e], '\n');
    assert(spec_join(seq![e], '\n') == e);
    let r2 = seq![e, e] + r3;
    lemma_join_concat(seq![e, e], r3, '\n');
    assert(spec_join(seq![e, e], '\n') =~= seq!['\n']) by {
        assert(seq![e, e].drop_last() =~~= seq![e]);
        assert(spec_join(seq![e], '\n') == e);
    }
    let r1 = vl + r2;
    lemma_join_concat(vl, r2, '\n');
    let r0 = seq![e, e] + r1;
    lemma_join_concat(seq![e, e], r1, '\n');
    lemma_join_concat(ss, r0, '\n');
    assert(all =~~= ss + r0);
    assert(spec_components_text(c) =~= spec_join(all, '\n'));
    // and every line of the list is free of newlines, so the split undoes it
    assert forall|i: int| 0 <= i < all.len() implies no_char(#[trigger] all[i], '\n') by {
        if i < ss.len() {
            assert(all[i] == ss[i]);
        } else if i < ss.len() + 2 {
            assert(all[i] == e);
        } else if i < ss.len() + 2 + vl.len() {
            assert(all[i] == vl[i - ss.len() - 2]);
        } else if i < ss.len() + 2 + vl.len() + 2 {
            assert(all[i] == e);
        } else if i < ss.len() + 2 + vl.len() + 2 + el.len() {
            assert(all[i] == el[i - ss.len() - 2 - vl.len() - 2]);
        } else {
            assert(all[i] == e);
        }
    }
    lemma_split_join(all, '\n');
}

// ---------- the three section groups of an encoded document ----------

/// The extractor on an encoded document finds the script section: its
/// header, the marker, the five key lines, and the blank separator lines.
proof fn lemma_script_group(c: ComponentsView)
    requires
        components_wf(c),
    ensures
        spec_get_info(spec_document_lines(c), script_header()) == seq![script_header(), seq!['\n']]
            + spec_script_lines(c.script).drop_first() + seq![
            Seq::<char>::empty(),
            Seq::<char>::empty(),
        ],
{
    let e = Seq::<char>::empty();
    let ss = spec_script_lines(c.script);
    let vl = spec_v4_lines(c.v4);
    let el = spec_events_lines(c.events);
    let all = spec_document_lines(c);
    lemma_script_lines_facts(c.script);
    lemma_v4_lines_facts(c.v4);
    assert(all[0] == ss[0]);
    lemma_get_info_hit(all, script_header());
    let a = ss.drop_first() + seq![e, e];
    let b = vl + seq![e, e] + el + seq![e];
    assert(all.drop_first() =~~= a + b);
    assert(line_kept(e));
    assert forall|i: int| 0 <= i < a.len() implies line_kept(#[trigger] a[i]) by {
        if i < ss.len() - 1 {
            assert(a[i] == ss[i + 1]);
        } else {
            assert(a[i] == e);
        }
    }
    lemma_collect_kept(a, b);
    assert(b[0] == vl[0]);
    lemma_collect_stops(b);
    assert(seq![script_header(), seq!['\n']] + (a + Seq::<Seq<char>>::empty())
        =~~= seq![script_header(), seq!['\n']] + ss.drop_first() + seq![e, e]);
}

/// A line that carries none of the five key labels changes nothing in the
/// scan.
proof fn lemma_scan_step_id(l: Seq<char>, acc: ScriptInfoView)
    requires
        l.len() == 0 || (l[0] != 'S' && l[0] != 'P' && l[0] != 'Y'),
    ensures
        script_scan_step(l, acc) == acc,
{
    if l.len() > 0 {
        lemma_not_prefix_at(script_type_label(), l, 0);
        lemma_not_prefix_at(playresx_label(), l, 0);
        lemma_not_prefix_at(playresy_label(), l, 0);
        lemma_not_prefix_at(scaledborder_label(), l, 0);
        lemma_not_prefix_at(ycbcr_label(), l, 0);
    }
}

/// Scanning lines in two runs is scanning them in one.
proof fn lemma_scan_script_concat(a: Seq<Seq<char>>, b: Seq<Seq<char>>, acc: ScriptInfoView)
    ensures
        spec_scan_script(a + b, acc) == spec_scan_script(b, spec_scan_script(a, acc)),
    decreases a.len(),
{
    if a.len() == 0 {
        assert(a + b =~~= b);
    } else {
        assert((a + b)[0] == a[0]);
        assert((a + b).drop_first() =~~= a.drop_first() + b);
        lemma_scan_script_concat(a.drop_first(), b, script_scan_step(a[0], acc));
    }
}

/// Scanning the five key lines of a well-formed record sets all five
/// fields to the record's values, whatever the accumulator held.
proof fn lemma_scan_label_lines(s: ScriptInfoView, acc: ScriptInfoView)
    requires
        script_wf(s),
    ensures
        spec_scan_script(spec_script_lines(s).drop_first(), acc) == s,
{
    lemma_script_lines_facts(s);
    let l1 = script_type_label() + s.scripttype->0;
    let l2 = playresx_label() + s.playresx->0;
    let l3 = playresy_label() + s.playresy->0;
    let l4 = scaledborder_label() + s.scaledborderandshadow->0;
    let l5 = ycbcr_label() + s.ycbcr_matrix->0;
    let lines = spec_script_lines(s).drop_first();
    assert(lines =~~= seq![l1, l2, l3, l4, l5]);
    // each line is matched by its own label and by no earlier one
    assert(script_type_label().is_prefix_of(l1)) by {
        assert(l1.subrange(0, script_type_label().len() as int) =~= script_type_label());
    }
    assert(l1.skip(script_type_label().len() as int) =~= s.scripttype->0);
    let a1 = script_scan_step(l1, acc);
    assert(a1 == (ScriptInfoView { scripttype: s.scripttype, ..acc }));
    assert(l2[0] == playresx_label()[0]);
    lemma_not_prefix_at(script_type_label(), l2, 0);
    assert(playresx_label().is_prefix_of(l2)) by {
        assert(l2.subrange(0, playresx_label().len() as int) =~= playresx_label());
    }
    assert(l2.skip(playresx_label().len() as int) =~= s.playresx->0);
    let a2 = script_scan_step(l2, a1);
    assert(a2 == (ScriptInfoView { playresx: s.playresx, ..a1 }));
    assert(l3[0] == playresy_label()[0]);
    lemma_not_prefix_at(script_type_label(), l3, 0);
    assert(l3[7] == playresy_label()[7]);
    lemma_not_prefix_at(playresx_label(), l3, 7);
    assert(playresy_label().is_prefix_of(l3)) by {
        assert(l3.subrange(0, playresy_label().len() as int) =~= playresy_label());
    }
    assert(l3.skip(playresy_label().len() as int) =~= s.playresy->0);
    let a3 = script_scan_step(l3, a2);
    assert(a3 == (ScriptInfoView { playresy: s.playresy, ..a2 }));
    assert(l4[0] == scaledborder_label()[0]);
    assert(l4[2] == scaledborder_label()[2]);
    lemma_not_prefix_at(script_type_label(), l4, 2);
    lemma_not_prefix_at(playresx_label(), l4, 0);
    lemma_not_prefix_at(playresy_label(), l4, 0);
    assert(scaledborder_label().is_prefix_of(l4)) by {
        assert(l4.subrange(0, scaledborder_label().len() as int) =~= scaledborder_label());
    }
    assert(l4.skip(scaledborder_label().len() as int) =~= s.scaledborderandshadow->0);
    let a4 = script_scan_step(l4, a3);
    assert(a4 == (ScriptInfoView { scaledborderandshadow: s.scaledborderandshadow, ..a3 }));
    assert(l5[0] == ycbcr_label()[0]);
    lemma_not_prefix_at(script_type_label(), l5, 0);
    lemma_not_prefix_at(playresx_label(), l5, 0);
    lemma_not_prefix_at(playresy_label(), l5, 0);
    lemma_not_prefix_at(scaledborder_label(), l5, 0);
    assert(ycbcr_label().is_prefix_of(l5)) by {
        assert(l5.subrange(0, ycbcr_label().len() as int) =~= ycbcr_label());
    }
    assert(l5.skip(ycbcr_label().len() as int) =~= s.ycbcr_matrix->0);
    let a5 = script_scan_step(l5, a4);
    assert(a5 == (ScriptInfoView { ycbcr_matrix: s.ycbcr_matrix, ..a4 }));
    // unfold the scan over the five lines
    assert(seq![l1, l2, l3, l4, l5].drop_first() =~~= seq![l2, l3, l4, l5]);
    assert(seq![l2, l3, l4, l5].drop_first() =~~= seq![l3, l4, l5]);
    assert(seq![l3, l4, l5].drop_first() =~~= seq![l4, l5]);
    assert(seq![l4, l5].drop_first() =~~= seq![l5]);
    assert(seq![l5].drop_first() =~~= Seq::<Seq<char>>::empty());
    assert(spec_scan_script(Seq::<Seq<char>>::empty(), a5) == a5);
    assert(spec_scan_script(seq![l5], a4) == a5);
    assert(spec_scan_script(seq![l4, l5], a3) == a5);
    assert(spec_scan_script(seq![l3, l4, l5], a2) == a5);
    assert(spec_scan_script(seq![l2, l3, l4, l5], a1) == a5);
    assert(spec_scan_script(seq![l1, l2, l3, l4, l5], acc) == a5);
    assert(a5 =~= s);
}

/// Decoding the extracted script section of an encoded document gives
/// back the script record.
proof fn lemma_parse_script_group(c: ComponentsView)
    requires
        components_wf(c),
    ensures
        spec_parse_script(spec_get_info(spec_document_lines(c), script_header()))
            == Ok::<_, AssError>(c.script),
{
    let e = Seq::<char>::empty();
    let h = script_header();
    let m = seq!['\n'];
    let ss = spec_script_lines(c.script);
    lemma_script_group(c);
    lemma_script_lines_facts(c.script);
    let g = seq![h, m] + ss.drop_first() + seq![e, e];
    assert(spec_get_info(spec_document_lines(c), h) == g);
    assert(g =~~= seq![h, m] + (ss.drop_first() + seq![e, e]));
    lemma_scan_script_concat(seq![h, m], ss.drop_first() + seq![e, e], empty_script_view());
    // the header and marker lines change nothing
    lemma_scan_step_id(h, empty_script_view());
    lemma_scan_step_id(m, script_scan_step(h, empty_script_view()));
    assert(seq![h, m].drop_first() =~~= seq![m]);
    assert(seq![m].drop_first() =~~= Seq::<Seq<char>>::empty());
    assert(spec_scan_script(Seq::<Seq<char>>::empty(), empty_script_view())
        == empty_script_view());
    assert(spec_scan_script(seq![m], empty_script_view()) == empty_script_view());
    assert(spec_scan_script(seq![h, m], empty_script_view()) == empty_script_view());
    lemma_scan_script_concat(ss.drop_first(), seq![e, e], empty_script_view());
    lemma_scan_label_lines(c.script, empty_script_view());
    // the two blank lines change nothing either
    lemma_scan_step_id(e, c.script);
    assert(seq![e, e].drop_first() =~~= seq![e]);
    assert(seq![e].drop_first() =~~= Seq::<Seq<char>>::empty());
    assert(spec_scan_script(Seq::<Seq<char>>::empty(), c.script) == c.script);
    assert(spec_scan_script(seq![e], c.script) == c.script);
    assert(spec_scan_script(seq![e, e], c.script) == c.script);
    assert(spec_scan_script(g, empty_script_view()) == c.script);
    assert(g.len() > 0);
}

/// The extractor on an encoded document finds the style section.
proof fn lemma_v4_group(c: ComponentsView)
    requires
        components_wf(c),
    ensures
        spec_get_info(spec_document_lines(c), v4_header()) == seq![
            v4_header(),
            seq!['\n'],
            v4_format_line(),
            spec_style_line(c.v4),
            Seq::<char>::empty(),
            Seq::<char>::empty(),
        ],
{
    let e = Seq::<char>::empty();
    let ss = spec_script_lines(c.script);
    let vl = spec_v4_lines(c.v4);
    let el = spec_events_lines(c.events);
    let all = spec_document_lines(c);
    lemma_script_lines_facts(c.script);
    lemma_v4_lines_facts(c.v4);
    lemma_events_lines_facts(c.events);
    let a = ss + seq![e, e];
    let b = vl + seq![e, e] + el + seq![e];
    assert(all =~~= a + b);
    assert forall|i: int| 0 <= i < a.len() implies spec_strip(#[trigger] a[i]) != v4_header() by {
        if i < ss.len() {
            assert(a[i] == ss[i]);
        } else {
            assert(a[i] == e);
            assert(spec_strip(e) == e);
        }
    }
    lemma_get_info_skip(a, b, v4_header());
    assert(b[0] == vl[0]);
    lemma_get_info_hit(b, v4_header());
    let a2 = seq![v4_format_line(), spec_style_line(c.v4), e, e];
    let b2 = el + seq![e];
    assert(b.drop_first() =~~= a2 + b2);
    assert(line_kept(e));
    assert forall|i: int| 0 <= i < a2.len() implies line_kept(#[trigger] a2[i]) by {
        if i == 0 {
            assert(a2[0] == vl[1]);
        } else if i == 1 {
            assert(a2[1] == vl[2]);
        }
    }
    lemma_collect_kept(a2, b2);
    assert(b2[0] == el[0]);
    lemma_collect_stops(b2);
    assert(seq![v4_header(), seq!['\n']] + (a2 + Seq::<Seq<char>>::empty()) =~~= seq![
        v4_header(),
        seq!['\n'],
        v4_format_line(),
        spec_style_line(c.v4),
        e,
        e,
    ]);
}

/// Decoding the extracted style section of an encoded document gives back
/// the style record.
proof fn lemma_parse_v4_group(c: ComponentsView)
    requires
        components_wf(c),
    ensures
        spec_parse_v4(spec_get_info(spec_document_lines(c), v4_header())) == Ok::<_, AssError>(
            c.v4,
        ),
{
    let v = c.v4;
    let e = Seq::<char>::empty();
    let m = seq!['\n'];
    lemma_v4_group(c);
    lemma_format_prefix_facts();
    let g = seq![v4_header(), m, v4_format_line(), spec_style_line(v), e, e];
    assert(spec_get_info(spec_document_lines(c), v4_header()) == g);
    lemma_not_prefix_at(style_label(), v4_header(), 0);
    lemma_not_prefix_at(style_label(), v4_format_line(), 0);
    assert(style_label().is_prefix_of(spec_style_line(v))) by {
        assert(spec_style_line(v).subrange(0, style_label().len() as int) =~= style_label());
    }
    let rem = spec_style_line(v).skip(style_label().len() as int);
    assert(g.drop_first() =~~= seq![m, v4_format_line(), spec_style_line(v), e, e]);
    assert(seq![m, v4_format_line(), spec_style_line(v), e, e].drop_first() =~~= seq![
        v4_format_line(),
        spec_style_line(v),
        e,
        e,
    ]);
    assert(seq![v4_format_line(), spec_style_line(v), e, e].drop_first() =~~= seq![
        spec_style_line(v),
        e,
        e,
    ]);
    assert(spec_find_style(seq![spec_style_line(v), e, e]) == Some(rem));
    assert(spec_find_style(seq![v4_format_line(), spec_style_line(v), e, e]) == Some(rem));
    assert(spec_find_style(seq![m, v4_format_line(), spec_style_line(v), e, e]) == Some(rem));
    assert(spec_find_style(g) == Some(rem));
    assert(rem =~= spec_join(spec_style_values(v), ','));
    lemma_style_arity(v);
    let vals = spec_split(rem, ',');
    assert(vals == spec_style_values(v));
    assert(forall|i: int| 0 <= i < 23 ==> vals[i] == opt_text(#[trigger] spec_style_fields(v)[i]));
    assert(spec_parse_v4(g)->Ok_0 =~= v);
}

/// The extractor on an encoded document finds the events section: header,
/// marker, format line, one line per dialogue, and the final blank piece.
proof fn lemma_events_group(c: ComponentsView)
    requires
        components_wf(c),
    ensures
        spec_get_info(spec_document_lines(c), events_header()) == seq![
            events_header(),
            seq!['\n'],
            events_format_line(),
        ] + c.events.map_values(|d: DialogueView| spec_dialogue_line(d)) + seq![
            Seq::<char>::empty(),
        ],
{
    let e = Seq::<char>::empty();
    let ss = spec_script_lines(c.script);
    let vl = spec_v4_lines(c.v4);
    let el = spec_events_lines(c.events);
    let all = spec_document_lines(c);
    lemma_script_lines_facts(c.script);
    lemma_v4_lines_facts(c.v4);
    lemma_events_lines_facts(c.events);
    let a = ss + seq![e, e] + vl + seq![e, e];
    let b = el + seq![e];
    assert(all =~~= a + b);
    assert forall|i: int| 0 <= i < a.len() implies spec_strip(#[trigger] a[i])
        != events_header() by {
        if i < ss.len() {
            assert(a[i] == ss[i]);
        } else if i < ss.len() + 2 {
            assert(a[i] == e);
            assert(spec_strip(e) == e);
        } else if i < ss.len() + 2 + vl.len() {
            assert(a[i] == vl[i - ss.len() - 2]);
        } else {
            assert(a[i] == e);
            assert(spec_strip(e) == e);
        }
    }
    lemma_get_info_skip(a, b, events_header());
    assert(b[0] == el[0]);
    lemma_get_info_hit(b, events_header());
    let a3 = el.drop_first() + seq![e];
    assert(b.drop_first() =~~= a3);
    assert(line_kept(e));
    assert forall|i: int| 0 <= i < a3.len() implies line_kept(#[trigger] a3[i]) by {
        if i < el.len() - 1 {
            assert(a3[i] == el[i + 1]);
        } else {
            assert(a3[i] == e);
        }
    }
    lemma_collect_kept(a3, Seq::<Seq<char>>::empty());
    assert(a3 + Seq::<Seq<char>>::empty() =~~= a3);
    assert(spec_collect(Seq::<Seq<char>>::empty()) =~~= Seq::<Seq<char>>::empty());
    assert(a3 + spec_collect(Seq::<Seq<char>>::empty()) =~~= a3);
    assert(seq![events_header(), seq!['\n']] + a3 =~~= seq![
        events_header(),
        seq!['\n'],
        events_format_line(),
    ] + c.events.map_values(|d: DialogueView| spec_dialogue_line(d)) + seq![e]);
}

/// Scanning the encoded dialogue lines, with the final blank piece after
/// them, decodes every dialogue in order.
proof fn lemma_scan_dialogue_lines(ds: Seq<DialogueView>)
    requires
        forall|i: int| 0 <= i < ds.len() ==> dialogue_wf(#[trigger] ds[i]),
    ensures
        spec_scan_dialogues(
            ds.map_values(|d: DialogueView| spec_dialogue_line(d)) + seq![Seq::<char>::empty()],
        ) == Ok::<_, AssError>(ds),
    decreases ds.len(),
{
    let e = Seq::<char>::empty();
    let lines = ds.map_values(|d: DialogueView| spec_dialogue_line(d)) + seq![e];
    if ds.len() == 0 {
        assert(lines =~~= seq![e]);
        assert(seq![e].drop_first() =~~= Seq::<Seq<char>>::empty());
        assert(spec_scan_dialogues(Seq::<Seq<char>>::empty()) == Ok::<_, AssError>(
            Seq::<DialogueView>::empty(),
        ));
        assert(spec_scan_dialogues(seq![e]) == Ok::<_, AssError>(Seq::<DialogueView>::empty()));
        assert(ds =~~= Seq::<DialogueView>::empty());
    } else {
        let d0 = ds[0];
        assert(lines[0] == spec_dialogue_line(d0));
        assert(dialogue_label().is_prefix_of(lines[0])) by {
            assert(spec_dialogue_line(d0).subrange(0, dialogue_label().len() as int)
                =~= dialogue_label());
        }
        assert(lines[0].skip(dialogue_label().len() as int) =~= spec_dialogue_body(d0));
        assert(dialogue_wf(d0));
        lemma_dialogue_round_trip(d0);
        assert(lines.drop_first() =~~= ds.drop_first().map_values(
            |d: DialogueView| spec_dialogue_line(d),
        ) + seq![e]);
        assert(forall|i: int| 0 <= i < ds.drop_first().len() ==> dialogue_wf(
            #[trigger] ds.drop_first()[i],
        ));
        lemma_scan_dialogue_lines(ds.drop_first());
        assert(spec_scan_dialogues(lines) == Ok::<_, AssError>(seq![d0] + ds.drop_first()));
        assert(seq![d0] + ds.drop_first() =~~= ds);
    }
}

/// Decoding the extracted events section of an encoded document gives back
/// the dialogue table.
proof fn lemma_parse_event_group(c: ComponentsView)
    requires
        components_wf(c),
    ensures
        spec_parse_event(spec_get_info(spec_document_lines(c), events_header()))
            == Ok::<_, AssError>(c.events),
{
    let e = Seq::<char>::empty();
    let m = seq!['\n'];
    lemma_events_group(c);
    lemma_format_prefix_facts();
    let tail = c.events.map_values(|d: DialogueView| spec_dialogue_line(d)) + seq![e];
    let g = seq![events_header(), m, events_format_line()] + tail;
    assert(spec_get_info(spec_document_lines(c), events_header()) =~~= g);
    lemma_not_prefix_at(dialogue_label(), events_header(), 0);
    lemma_not_prefix_at(dialogue_label(), events_format_line(), 0);
    assert(g[0] == events_header());
    assert(g.drop_first() =~~= seq![m, events_format_line()] + tail);
    assert((seq![m, events_format_line()] + tail).drop_first() =~~= seq![events_format_line()]
        + tail);
    assert((seq![events_format_line()] + tail).drop_first() =~~= tail);
    lemma_scan_dialogue_lines(c.events);
    assert(spec_scan_dialogues(seq![events_format_line()] + tail) == Ok::<_, AssError>(c.events));
    assert(spec_scan_dialogues(seq![m, events_format_line()] + tail) == Ok::<_, AssError>(
        c.events,
    ));
    assert(spec_scan_dialogues(g) == Ok::<_, AssError>(c.events));
    assert(g.len() > 0);
}

// ---------- the document round trip ----------

/// Decoding an encoded document gives back the document: for any document
/// whose records are well formed (every serialized field present and
/// clean, style values and the nine leading dialogue fields comma-free,
/// no colour attached), parsing the serialized text yields exactly the
/// same three records.
pub proof fn lemma_document_round_trip(c: ComponentsView)
    requires
        components_wf(c),
    ensures
        spec_parse_components(spec_components_text(c)) == Ok::<_, AssError>(c),
{
    lemma_document_split(c);
    lemma_parse_script_group(c);
    lemma_parse_v4_group(c);
    lemma_parse_event_group(c);
    assert(spec_parse_components(spec_components_text(c))->Ok_0 =~= c);
}

// ---------- header-only sections ----------

/// A header with zero body lines extracts to just the header and the
/// marker, and the decoders answer that group with an error rather than a
/// crash: strict script decoding misses its five keys and strict style
/// decoding misses its record line, so both refuse the group; the events
/// decoder, whose section may validly be empty, answers the empty table.
pub proof fn lemma_empty_section_decodes_to_error()
    ensures
        spec_get_info(seq![script_header()], script_header()) == seq![
            script_header(),
            seq!['\n'],
        ],
        spec_get_info(seq![v4_header()], v4_header()) == seq![v4_header(), seq!['\n']],
        spec_get_info(seq![events_header()], events_header()) == seq![
            events_header(),
            seq!['\n'],
        ],
        spec_parse_script(seq![script_header(), seq!['\n']]) == Err::<ScriptInfoView, _>(
            AssError::MalformedFixedArity,
        ),
        spec_parse_v4(seq![v4_header(), seq!['\n']]) == Err::<V4FormatView, _>(
            AssError::MalformedFixedArity,
        ),
        spec_parse_event(seq![events_header(), seq!['\n']]) == Ok::<_, AssError>(
            Seq::<DialogueView>::empty(),
        ),
{
    let m = seq!['\n'];
    lemma_strip_id(script_header());
    lemma_strip_id(v4_header());
    lemma_strip_id(events_header());
    lemma_get_info_hit(seq![script_header()], script_header());
    lemma_get_info_hit(seq![v4_header()], v4_header());
    lemma_get_info_hit(seq![events_header()], events_header());
    assert(seq![script_header()].drop_first() =~~= Seq::<Seq<char>>::empty());
    assert(seq![v4_header()].drop_first() =~~= Seq::<Seq<char>>::empty());
    assert(seq![events_header()].drop_first() =~~= Seq::<Seq<char>>::empty());
    assert(spec_collect(Seq::<Seq<char>>::empty()) =~~= Seq::<Seq<char>>::empty());
    assert(seq![script_header(), m] + Seq::<Seq<char>>::empty() =~~= seq![script_header(), m]);
    assert(seq![v4_header(), m] + Seq::<Seq<char>>::empty() =~~= seq![v4_header(), m]);
    assert(seq![events_header(), m] + Seq::<Seq<char>>::empty() =~~= seq![events_header(), m]);
    // the script scan finds none of the five keys
    lemma_scan_step_id(script_header(), empty_script_view());
    lemma_scan_step_id(m, empty_script_view());
    assert(seq![script_header(), m].drop_first() =~~= seq![m]);
    assert(seq![m].drop_first() =~~= Seq::<Seq<char>>::empty());
    assert(spec_scan_script(Seq::<Seq<char>>::empty(), empty_script_view())
        == empty_script_view());
    assert(spec_scan_script(seq![m], empty_script_view()) == empty_script_view());
    assert(spec_scan_script(seq![script_header(), m], empty_script_view())
        == empty_script_view());
    // the style search finds no record line
    lemma_not_prefix_at(style_label(), v4_header(), 0);
    assert(seq![v4_header(), m].drop_first() =~~= seq![m]);
    assert(spec_find_style(Seq::<Seq<char>>::empty()) is None);
    assert(spec_find_style(seq![m]) is None);
    assert(spec_find_style(seq![v4_header(), m]) is None);
    // the dialogue scan finds no dialogue lines
    lemma_not_prefix_at(dialogue_label(), events_header(), 0);
    assert(seq![events_header(), m].drop_first() =~~= seq![m]);
    assert(spec_scan_dialogues(Seq::<Seq<char>>::empty()) == Ok::<_, AssError>(
        Seq::<DialogueView>::empty(),
    ));
    assert(spec_scan_dialogues(seq![m]) == Ok::<_, AssError>(Seq::<DialogueView>::empty()));
    assert(spec_scan_dialogues(seq![events_header(), m]) == Ok::<_, AssError>(
        Seq::<DialogueView>::empty(),
    ));
}

/// The first characters of the two format-declaration lines, for the
/// prefix checks of the decoders.
proof fn lemma_format_prefix_facts()
    ensures
        v4_format_line().len() > 0,
        v4_format_line()[0] == 'F',
        events_format_line().len() > 0,
        events_format_line()[0] == 'F',
        no_char(v4_format_line(), '\n'),
        v4_format_line().last() != '\r',
        no_char(events_format_line(), '\n'),
        events_format_line().last() != '\r',
{
    crate::consts::lemma_format_line_facts();
}

} // verus!

