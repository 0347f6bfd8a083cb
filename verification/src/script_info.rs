//! The `[Script Info]` record: five optional string-valued fields.
//!
//! An absent field is omitted entirely from serialized output; setting a
//! whole new record replaces all five fields at once.

use vstd::prelude::*;
use crate::text::clone_opt;

verus! {

/// The first section of a document: script type, play resolution, the
/// scaled-border flag and the colour-matrix name, each optional.
#[derive(Debug, PartialEq)]
pub struct ScriptInfo {
    pub scripttype: Option<String>,
    pub playresx: Option<String>,
    pub playresy: Option<String>,
    pub scaledborderandshadow: Option<String>,
    pub ycbcr_matrix: Option<String>,
}

/// The mathematical value of a `ScriptInfo`: each field as an optional
/// character sequence.
#[verifier::ext_equal]
pub struct ScriptInfoView {
    pub scripttype: Option<Seq<char>>,
    pub playresx: Option<Seq<char>>,
    pub playresy: Option<Seq<char>>,
    pub scaledborderandshadow: Option<Seq<char>>,
    pub ycbcr_matrix: Option<Seq<char>>,
}

impl View for ScriptInfo {
    type V = ScriptInfoView;

    open spec fn view(&self) -> ScriptInfoView {
        ScriptInfoView {
            scripttype: self.scripttype.deep_view(),
            playresx: self.playresx.deep_view(),
            playresy: self.playresy.deep_view(),
            scaledborderandshadow: self.scaledborderandshadow.deep_view(),
            ycbcr_matrix: self.ycbcr_matrix.deep_view(),
        }
    }
}

/// The record with every field absent.
pub open spec fn empty_script_view() -> ScriptInfoView {
    ScriptInfoView {
        scripttype: None,
        playresx: None,
        playresy: None,
        scaledborderandshadow: None,
        ycbcr_matrix: None,
    }
}

impl Clone for ScriptInfo {
    fn clone(&self) -> (r: Self)
        ensures
            r@ == self@,
    {
        ScriptInfo {
            scripttype: clone_opt(&self.scripttype),
            playresx: clone_opt(&self.playresx),
            playresy: clone_opt(&self.playresy),
            scaledborderandshadow: clone_opt(&self.scaledborderandshadow),
            ycbcr_matrix: clone_opt(&self.ycbcr_matrix),
        }
    }
}

impl ScriptInfo {
    /// A record with every field absent.
    pub fn new() -> (r: Self)
        ensures
            r@ == empty_script_view(),
    {
        ScriptInfo {
            scripttype: None,
            playresx: None,
            playresy: None,
            scaledborderandshadow: None,
            ycbcr_matrix: None,
        }
    }

    /// Replace the whole record: all five fields take the new record's
    /// values, with no partial merge.
    pub fn set_script(&mut self, script: ScriptInfo)
        ensures
            final(self)@ == script@,
    {
        *self = script;
    }

    /// Set the script-format version field.
    pub fn set_scripttype(&mut self, value: &str)
        ensures
            final(self)@ == (ScriptInfoView { scripttype: Some(value@), ..old(self)@ }),
    {
        self.scripttype = Some(String::from_str(value));
    }

    /// Set the horizontal play resolution field.
    pub fn set_playresx(&mut self, value: &str)
        ensures
            final(self)@ == (ScriptInfoView { playresx: Some(value@), ..old(self)@ }),
    {
        self.playresx = Some(String::from_str(value));
    }

    /// Set the vertical play resolution field.
    pub fn set_playresy(&mut self, value: &str)
        ensures
            final(self)@ == (ScriptInfoView { playresy: Some(value@), ..old(self)@ }),
    {
        self.playresy = Some(String::from_str(value));
    }

    /// Set the scaled-border-and-shadow flag field.
    pub fn set_scaledborderandshadow(&mut self, value: &str)
        ensures
            final(self)@ == (ScriptInfoView {
                scaledborderandshadow: Some(value@),
                ..old(self)@
            }),
    {
        self.scaledborderandshadow = Some(String::from_str(value));
    }

    /// Set the colour-matrix name field.
    pub fn set_ycbcr_matrix(&mut self, value: &str)
        ensures
            final(self)@ == (ScriptInfoView { ycbcr_matrix: Some(value@), ..old(self)@ }),
    {
        self.ycbcr_matrix = Some(String::from_str(value));
    }
}

impl Default for ScriptInfo {
    /// The common default script info values.
    fn default() -> (r: Self)
        ensures
            r@.scripttype == Some("v4.00+"@),
            r@.playresx == Some("384"@),
            r@.playresy == Some("288"@),
            r@.scaledborderandshadow == Some("yes"@),
            r@.ycbcr_matrix == Some("None"@),
    {
        ScriptInfo {
            scripttype: Some(String::from_str("v4.00+")),
            playresx: Some(String::from_str("384")),
            playresy: Some(String::from_str("288")),
            scaledborderandshadow: Some(String::from_str("yes")),
            ycbcr_matrix: Some(String::from_str("None")),
        }
    }
}

} // verus!
