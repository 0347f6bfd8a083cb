//! The document model: the three typed records aggregated into one
//! document.

use vstd::prelude::*;
use crate::decode::{get_each_components, spec_parse_components};
use crate::error::AssError;
use crate::events::{empty_dialogue_view, DialogueView, Events};
use crate::script_info::{empty_script_view, ScriptInfo, ScriptInfoView};
use crate::v4::{empty_v4_view, V4Format, V4FormatView};

verus! {

/// The three sections of one document: script info, the style record, and
/// the dialogue table.
#[derive(Debug, PartialEq)]
pub struct Components {
    /// The `[Script Info]` record.
    pub script: ScriptInfo,
    /// The `[V4+ Styles]` record.
    pub v4: V4Format,
    /// The `[Events]` dialogue table.
    pub events: Events,
}

/// The mathematical value of a document's three sections.
#[verifier::ext_equal]
pub struct ComponentsView {
    pub script: ScriptInfoView,
    pub v4: V4FormatView,
    pub events: Seq<DialogueView>,
}

impl View for Components {
    type V = ComponentsView;

    open spec fn view(&self) -> ComponentsView {
        ComponentsView { script: self.script@, v4: self.v4@, events: self.events@ }
    }
}

impl Clone for Components {
    fn clone(&self) -> (r: Self)
        ensures
            r@ == self@,
    {
        Components {
            script: self.script.clone(),
            v4: self.v4.clone(),
            events: self.events.clone(),
        }
    }
}

/// One in-memory document.
#[derive(Debug, PartialEq)]
pub struct AssFile {
    /// The document's three sections.
    pub components: Components,
}

impl View for AssFile {
    type V = ComponentsView;

    open spec fn view(&self) -> ComponentsView {
        self.components@
    }
}

impl Clone for AssFile {
    fn clone(&self) -> (r: Self)
        ensures
            r@ == self@,
    {
        AssFile { components: self.components.clone() }
    }
}

impl AssFile {
    /// An empty document: no script info or style fields set, and the
    /// dialogue table seeded with its one placeholder slot.
    pub fn new() -> (r: AssFile)
        ensures
            r@.script == empty_script_view(),
            r@.v4 == empty_v4_view(),
            r@.events == seq![empty_dialogue_view()],
    {
        AssFile {
            components: Components {
                script: ScriptInfo::new(),
                v4: V4Format::new(),
                events: Events::new(),
            },
        }
    }

    /// A document decoded from the full text of an `.ass` file.  Reading
    /// the text from disk is the caller's business; this is the whole
    /// decode.
    pub fn from_contents(contents: &str) -> (r: Result<AssFile, AssError>)
        ensures
            (match r {
                Ok(f) => spec_parse_components(contents@) == Ok::<_, AssError>(f@),
                Err(e) => spec_parse_components(contents@) == Err::<ComponentsView, _>(e),
            }),
    {
        match get_each_components(contents) {
            Ok(c) => Ok(AssFile { components: c }),
            Err(e) => Err(e),
        }
    }
}

} // verus!
