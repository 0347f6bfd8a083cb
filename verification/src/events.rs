//! The `[Events]` section: the dialogue records and the ordered,
//! index-addressable dialogue table.
//!
//! A `Dialogue` holds ten optional serialized fields plus a derived colour
//! field that is never written as a column of its own: attaching a colour
//! prepends an inline override tag to the text.  The table keeps insertion
//! order, permits duplicates, and addresses entries by position only.

use vstd::prelude::*;
use crate::color::{spec_override_tag, AssFileOptions, Rgb};
use crate::error::IndexNotFound;
use crate::text::clone_opt;

verus! {

/// The ten serialized fields of one dialogue line, plus the derived colour.
#[derive(Debug, PartialEq)]
pub struct EventFormat {
    pub layer: Option<String>,
    pub start: Option<String>,
    pub end: Option<String>,
    pub style: Option<String>,
    pub name: Option<String>,
    pub marginl: Option<String>,
    pub marginr: Option<String>,
    pub marginv: Option<String>,
    pub effect: Option<String>,
    pub text: Option<String>,
    pub color: Option<String>,
}

/// One subtitle cue: timing range, style reference and display text.
#[derive(Debug, PartialEq)]
pub struct Dialogue {
    pub event: EventFormat,
}

/// The mathematical value of a `Dialogue`: each field as an optional
/// character sequence.
#[verifier::ext_equal]
pub struct DialogueView {
    pub layer: Option<Seq<char>>,
    pub start: Option<Seq<char>>,
    pub end: Option<Seq<char>>,
    pub style: Option<Seq<char>>,
    pub name: Option<Seq<char>>,
    pub marginl: Option<Seq<char>>,
    pub marginr: Option<Seq<char>>,
    pub marginv: Option<Seq<char>>,
    pub effect: Option<Seq<char>>,
    pub text: Option<Seq<char>>,
    pub color: Option<Seq<char>>,
}

impl View for Dialogue {
    type V = DialogueView;

    open spec fn view(&self) -> DialogueView {
        DialogueView {
            layer: self.event.layer.deep_view(),
            start: self.event.start.deep_view(),
            end: self.event.end.deep_view(),
            style: self.event.style.deep_view(),
            name: self.event.name.deep_view(),
            marginl: self.event.marginl.deep_view(),
            marginr: self.event.marginr.deep_view(),
            marginv: self.event.marginv.deep_view(),
            effect: self.event.effect.deep_view(),
            text: self.event.text.deep_view(),
            color: self.event.color.deep_view(),
        }
    }
}

impl DeepView for Dialogue {
    type V = DialogueView;

    open spec fn deep_view(&self) -> DialogueView {
        self.view()
    }
}

/// The dialogue with every field absent.
pub open spec fn empty_dialogue_view() -> DialogueView {
    DialogueView {
        layer: None,
        start: None,
        end: None,
        style: None,
        name: None,
        marginl: None,
        marginr: None,
        marginv: None,
        effect: None,
        text: None,
        color: None,
    }
}

/// The default dialogue: layer zero, a zero-length time range, the
/// `Default` style, empty name and effect, no text and no colour.
pub open spec fn default_dialogue_view() -> DialogueView {
    DialogueView {
        layer: Some("0"@),
        start: Some("0:00:00.00"@),
        end: Some("0:00:00.00"@),
        style: Some("Default"@),
        name: Some(""@),
        marginl: Some("0"@),
        marginr: Some("0"@),
        marginv: Some("0"@),
        effect: Some(""@),
        text: None,
        color: None,
    }
}

impl Clone for EventFormat {
    fn clone(&self) -> (r: Self)
        ensures
            r == *self,
    {
        EventFormat {
            layer: clone_opt(&self.layer),
            start: clone_opt(&self.start),
            end: clone_opt(&self.end),
            style: clone_opt(&self.style),
            name: clone_opt(&self.name),
            marginl: clone_opt(&self.marginl),
            marginr: clone_opt(&self.marginr),
            marginv: clone_opt(&self.marginv),
            effect: clone_opt(&self.effect),
            text: clone_opt(&self.text),
            color: clone_opt(&self.color),
        }
    }
}

impl Clone for Dialogue {
    fn clone(&self) -> (r: Self)
        ensures
            r == *self,
    {
        Dialogue { event: self.event.clone() }
    }
}

impl Default for EventFormat {
    /// The default field values; text and colour stay absent.
    fn default() -> (r: Self)
        ensures
            r.layer.deep_view() == Some("0"@),
            r.start.deep_view() == Some("0:00:00.00"@),
            r.end.deep_view() == Some("0:00:00.00"@),
            r.style.deep_view() == Some("Default"@),
            r.name.deep_view() == Some(""@),
            r.marginl.deep_view() == Some("0"@),
            r.marginr.deep_view() == Some("0"@),
            r.marginv.deep_view() == Some("0"@),
            r.effect.deep_view() == Some(""@),
            r.text is None,
            r.color is None,
    {
        EventFormat {
            layer: Some(String::from_str("0")),
            start: Some(String::from_str("0:00:00.00")),
            end: Some(String::from_str("0:00:00.00")),
            style: Some(String::from_str("Default")),
            name: Some(String::from_str("")),
            marginl: Some(String::from_str("0")),
            marginr: Some(String::from_str("0")),
            marginv: Some(String::from_str("0")),
            effect: Some(String::from_str("")),
            text: None,
            color: None,
        }
    }
}

impl Default for Dialogue {
    /// The dialogue with the default field values.
    fn default() -> (r: Self)
        ensures
            r@ == default_dialogue_view(),
    {
        let r = Dialogue { event: EventFormat::default() };
        proof {
            assert(r@ =~= default_dialogue_view());
        }
        r
    }
}

impl Dialogue {
    /// A dialogue with every field absent.
    pub fn new() -> (r: Self)
        ensures
            r@ == empty_dialogue_view(),
    {
        Dialogue {
            event: EventFormat {
                layer: None,
                start: None,
                end: None,
                style: None,
                name: None,
                marginl: None,
                marginr: None,
                marginv: None,
                effect: None,
                text: None,
                color: None,
            },
        }
    }
}

impl Dialogue {
    /// Set the layer; dialogues on different layers do not collide, and higher layers draw over lower ones.
    pub fn set_layer(self, value: &str) -> (r: Self)
        ensures
            r@ == (DialogueView { layer: Some(value@), ..self@ }),
    {
        let mut event = self.event;
        event.layer = Some(String::from_str(value));
        Dialogue { event }
    }

    /// Set the start time, `h:mm:ss.cc`, at which the text appears.
    pub fn set_start(self, value: &str) -> (r: Self)
        ensures
            r@ == (DialogueView { start: Some(value@), ..self@ }),
    {
        let mut event = self.event;
        event.start = Some(String::from_str(value));
        Dialogue { event }
    }

    /// Set the end time, `h:mm:ss.cc`, at which the text disappears.
    pub fn set_end(self, value: &str) -> (r: Self)
        ensures
            r@ == (DialogueView { end: Some(value@), ..self@ }),
    {
        let mut event = self.event;
        event.end = Some(String::from_str(value));
        Dialogue { event }
    }

    /// Set the name of the style that renders this dialogue.
    pub fn set_style(self, value: &str) -> (r: Self)
        ensures
            r@ == (DialogueView { style: Some(value@), ..self@ }),
    {
        let mut event = self.event;
        event.style = Some(String::from_str(value));
        Dialogue { event }
    }

    /// Set the name of the character who speaks; informational only.
    pub fn set_name(self, value: &str) -> (r: Self)
        ensures
            r@ == (DialogueView { name: Some(value@), ..self@ }),
    {
        let mut event = self.event;
        event.name = Some(String::from_str(value));
        Dialogue { event }
    }

    /// Set the left margin override, in pixels; zero keeps the style's margin.
    pub fn set_marginl(self, value: &str) -> (r: Self)
        ensures
            r@ == (DialogueView { marginl: Some(value@), ..self@ }),
    {
        let mut event = self.event;
        event.marginl = Some(String::from_str(value));
        Dialogue { event }
    }

    /// Set the right margin override, in pixels; zero keeps the style's margin.
    pub fn set_marginr(self, value: &str) -> (r: Self)
        ensures
            r@ == (DialogueView { marginr: Some(value@), ..self@ }),
    {
        let mut event = self.event;
        event.marginr = Some(String::from_str(value));
        Dialogue { event }
    }

    /// Set the vertical margin override, in pixels; zero keeps the style's margin.
    pub fn set_marginv(self, value: &str) -> (r: Self)
        ensures
            r@ == (DialogueView { marginv: Some(value@), ..self@ }),
    {
        let mut event = self.event;
        event.marginv = Some(String::from_str(value));
        Dialogue { event }
    }

    /// Set the transition effect, or empty for none.
    pub fn set_effect(self, value: &str) -> (r: Self)
        ensures
            r@ == (DialogueView { effect: Some(value@), ..self@ }),
    {
        let mut event = self.event;
        event.effect = Some(String::from_str(value));
        Dialogue { event }
    }

    /// Set the subtitle text; it is the final field of the line, so it may itself contain commas.
    pub fn set_text(self, value: &str) -> (r: Self)
        ensures
            r@ == (DialogueView { text: Some(value@), ..self@ }),
    {
        let mut event = self.event;
        event.text = Some(String::from_str(value));
        Dialogue { event }
    }

    /// Attach a colour: the inline override tag is prepended to the text
    /// (or becomes the whole text when none was set), and is also stored in
    /// the colour field for later retrieval.  Repeated calls prepend
    /// repeatedly rather than replacing an earlier tag.
    pub fn set_colour(self, color: Rgb) -> (r: Self)
        ensures
            r@ == (DialogueView {
                text: Some(
                    match self@.text {
                        Some(t) => spec_override_tag(color) + t,
                        None => spec_override_tag(color),
                    },
                ),
                color: Some(spec_override_tag(color)),
                ..self@
            }),
    {
        let colour = AssFileOptions::get_ass_color_text(color);
        let mut event = self.event;
        let new_text = match event.text {
            Some(text) => {
                let mut t = colour.clone();
                t.append(text.as_str());
                t
            },
            None => colour.clone(),
        };
        event.text = Some(new_text);
        event.color = Some(colour);
        let r = Dialogue { event };
        proof {
            assert(r@ =~= (DialogueView {
                text: Some(
                    match self@.text {
                        Some(t) => spec_override_tag(color) + t,
                        None => spec_override_tag(color),
                    },
                ),
                color: Some(spec_override_tag(color)),
                ..self@
            }));
        }
        r
    }
}

impl Dialogue {
    /// The stored layer field.
    pub fn get_layer(&self) -> (r: Option<String>)
        ensures
            r.deep_view() == self@.layer,
    {
        clone_opt(&self.event.layer)
    }

    /// The stored start field.
    pub fn get_start(&self) -> (r: Option<String>)
        ensures
            r.deep_view() == self@.start,
    {
        clone_opt(&self.event.start)
    }

    /// The stored end field.
    pub fn get_end(&self) -> (r: Option<String>)
        ensures
            r.deep_view() == self@.end,
    {
        clone_opt(&self.event.end)
    }

    /// The stored style field.
    pub fn get_style(&self) -> (r: Option<String>)
        ensures
            r.deep_view() == self@.style,
    {
        clone_opt(&self.event.style)
    }

    /// The stored name field.
    pub fn get_name(&self) -> (r: Option<String>)
        ensures
            r.deep_view() == self@.name,
    {
        clone_opt(&self.event.name)
    }

    /// The stored marginl field.
    pub fn get_marginl(&self) -> (r: Option<String>)
        ensures
            r.deep_view() == self@.marginl,
    {
        clone_opt(&self.event.marginl)
    }

    /// The stored marginr field.
    pub fn get_marginr(&self) -> (r: Option<String>)
        ensures
            r.deep_view() == self@.marginr,
    {
        clone_opt(&self.event.marginr)
    }

    /// The stored marginv field.
    pub fn get_marginv(&self) -> (r: Option<String>)
        ensures
            r.deep_view() == self@.marginv,
    {
        clone_opt(&self.event.marginv)
    }

    /// The stored effect field.
    pub fn get_effect(&self) -> (r: Option<String>)
        ensures
            r.deep_view() == self@.effect,
    {
        clone_opt(&self.event.effect)
    }

    /// The stored text field.
    pub fn get_text(&self) -> (r: Option<String>)
        ensures
            r.deep_view() == self@.text,
    {
        clone_opt(&self.event.text)
    }

    /// The stored colour tag, set by `set_colour`.
    pub fn get_colour(&self) -> (r: Option<String>)
        ensures
            r.deep_view() == self@.color,
    {
        clone_opt(&self.event.color)
    }
}

/// The ordered dialogue table of a document.
#[derive(Debug, PartialEq)]
pub struct Dialogues {
    pub dialogues: Vec<Dialogue>,
}

impl View for Dialogues {
    type V = Seq<DialogueView>;

    open spec fn view(&self) -> Seq<DialogueView> {
        self.dialogues.deep_view()
    }
}

impl Clone for Dialogues {
    fn clone(&self) -> (r: Self)
        ensures
            r@ == self@,
    {
        let mut out: Vec<Dialogue> = Vec::new();
        let mut i: usize = 0;
        while i < self.dialogues.len()
            invariant
                0 <= i <= self.dialogues.len(),
                out.deep_view() =~~= self.dialogues.deep_view().take(i as int),
            decreases self.dialogues.len() - i,
        {
            let ghost pre = out.deep_view();
            out.push(self.dialogues[i].clone());
            proof {
                assert(out.deep_view() =~~= pre.push(self.dialogues.deep_view()[i as int]));
                assert(out.deep_view() =~~= self.dialogues.deep_view().take(i + 1));
            }
            i += 1;
        }
        proof {
            assert(self.dialogues.deep_view().take(self.dialogues.len() as int)
                =~~= self.dialogues.deep_view());
        }
        Dialogues { dialogues: out }
    }
}

/// The core of the document: the dialogue table.
#[derive(Debug, PartialEq)]
pub struct Events {
    pub dialogues: Dialogues,
}

impl View for Events {
    type V = Seq<DialogueView>;

    open spec fn view(&self) -> Seq<DialogueView> {
        self.dialogues@
    }
}

impl Clone for Events {
    fn clone(&self) -> (r: Self)
        ensures
            r@ == self@,
    {
        Events { dialogues: self.dialogues.clone() }
    }
}

impl Events {
    /// A table seeded with one all-absent placeholder dialogue, a slot for
    /// a first `add_first_dialogue`.
    pub fn new() -> (r: Events)
        ensures
            r@ == seq![empty_dialogue_view()],
    {
        let dialogue = Dialogue::new();
        let mut dialogues: Vec<Dialogue> = Vec::new();
        dialogues.push(dialogue);
        let r = Events { dialogues: Dialogues { dialogues } };
        proof {
            assert(r@ =~~= seq![empty_dialogue_view()]);
        }
        r
    }

    /// A copy of the dialogue table's entries.
    pub fn get_dialogues(&self) -> (r: Vec<Dialogue>)
        ensures
            r.deep_view() == self@,
    {
        let copy = self.dialogues.clone();
        copy.dialogues
    }

    /// Finish fluent construction: a snapshot of the table as built so far.
    pub fn create(&mut self) -> (r: Self)
        ensures
            final(self)@ == old(self)@,
            r@ == old(self)@,
    {
        let snapshot = Events { dialogues: self.dialogues.clone() };
        snapshot
    }

    /// Replace the first entry of the table.  On an empty table the
    /// operation fails and the table stays as it was.
    pub fn add_first_dialogue(&mut self, dialogue: Dialogue) -> (r: Result<(), IndexNotFound>)
        ensures
            old(self)@.len() > 0 ==> r is Ok && final(self)@ == old(self)@.update(0, dialogue@),
            old(self)@.len() == 0 ==> r is Err && final(self)@ == old(self)@,
    {
        if self.dialogues.dialogues.len() > 0 {
            let ghost pre = self.dialogues.dialogues.deep_view();
            self.dialogues.dialogues[0] = dialogue;
            proof {
                assert(self.dialogues.dialogues.deep_view() =~~= pre.update(0, dialogue@));
            }
            Ok(())
        } else {
            Err(IndexNotFound)
        }
    }

    /// Replace the last entry of the table.  On an empty table the
    /// operation fails and the table stays as it was.
    pub fn add_last_dialogue(&mut self, dialogue: Dialogue) -> (r: Result<(), IndexNotFound>)
        ensures
            old(self)@.len() > 0 ==> r is Ok && final(self)@ == old(self)@.update(
                old(self)@.len() - 1,
                dialogue@,
            ),
            old(self)@.len() == 0 ==> r is Err && final(self)@ == old(self)@,
    {
        let n = self.dialogues.dialogues.len();
        if n > 0 {
            let ghost pre = self.dialogues.dialogues.deep_view();
            self.dialogues.dialogues[n - 1] = dialogue;
            proof {
                assert(self.dialogues.dialogues.deep_view() =~~= pre.update(
                    pre.len() - 1,
                    dialogue@,
                ));
            }
            Ok(())
        } else {
            Err(IndexNotFound)
        }
    }

    /// Replace the entry at position `n`.  Past the end the operation fails
    /// and the table stays as it was.
    pub fn add_n_dialogue(&mut self, n: usize, dialogue: Dialogue) -> (r: Result<
        (),
        IndexNotFound,
    >)
        ensures
            n < old(self)@.len() ==> r is Ok && final(self)@ == old(self)@.update(
                n as int,
                dialogue@,
            ),
            n >= old(self)@.len() ==> r is Err && final(self)@ == old(self)@,
    {
        if n < self.dialogues.dialogues.len() {
            let ghost pre = self.dialogues.dialogues.deep_view();
            self.dialogues.dialogues[n] = dialogue;
            proof {
                assert(self.dialogues.dialogues.deep_view() =~~= pre.update(n as int, dialogue@));
            }
            Ok(())
        } else {
            Err(IndexNotFound)
        }
    }

    /// Append a dialogue at the end of the table.  This always succeeds and
    /// grows the table by one.
    pub fn add_dialogue(&mut self, dialogue: Dialogue)
        ensures
            final(self)@ == old(self)@.push(dialogue@),
    {
        let ghost pre = self.dialogues.dialogues.deep_view();
        self.dialogues.dialogues.push(dialogue);
        proof {
            assert(self.dialogues.dialogues.deep_view() =~~= pre.push(dialogue@));
        }
    }

    /// Replace the whole table with another.
    pub fn set_events(&mut self, events: Events)
        ensures
            final(self)@ == events@,
    {
        *self = events;
    }
}

impl Default for Events {
    /// A table seeded with one default dialogue.
    fn default() -> (r: Events)
        ensures
            r@ == seq![default_dialogue_view()],
    {
        let mut dialogues: Vec<Dialogue> = Vec::new();
        dialogues.push(Dialogue::default());
        let r = Events { dialogues: Dialogues { dialogues } };
        proof {
            assert(r@ =~~= seq![default_dialogue_view()]);
        }
        r
    }
}

} // verus!

