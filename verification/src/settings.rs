//! The saved display preference.
use vstd::prelude::*;
use crate::text::{is_white_space_spec, lemma_trimmed_surrounded, same_text, trim, trimmed};

verus! {

/// How the tray icon shows the battery.
#[derive(Debug, Clone, Copy, PartialEq, Eq, Structural)]
pub enum DisplayMode {
    /// Large digits.
    Percentage,
    /// An upright, colour-coded battery.
    Battery,
}

/// The name under which a mode is saved.
pub open spec fn mode_name(mode: DisplayMode) -> Seq<char> {
    match mode {
        DisplayMode::Percentage => "percentage"@,
        DisplayMode::Battery => "battery"@,
    }
}

/// The mode that saved text names, ignoring surrounding white space.
pub open spec fn mode_named(value: Seq<char>) -> Option<DisplayMode> {
    if trimmed(value) == "percentage"@ {
        Some(DisplayMode::Percentage)
    } else if trimmed(value) == "battery"@ {
        Some(DisplayMode::Battery)
    } else {
        None
    }
}

/// The mode used when nothing valid was saved.
pub open spec fn default_mode() -> DisplayMode {
    DisplayMode::Percentage
}

/// The mode read back from the saved file's contents, if it could be read.
pub open spec fn saved_mode(contents: Option<Seq<char>>) -> DisplayMode {
    match contents {
        Some(text) => match mode_named(text) {
            Some(mode) => mode,
            None => default_mode(),
        },
        None => default_mode(),
    }
}

impl Default for DisplayMode {
    fn default() -> (mode: Self)
        ensures
            mode == default_mode(),
    {
        DisplayMode::Percentage
    }
}

impl DisplayMode {
    /// Reads a saved mode name; surrounding white space is ignored.
    pub fn parse(value: &str) -> (mode: Option<Self>)
        ensures
            mode == mode_named(value@),
    {
        let name = trim(value);
        if same_text(name, "percentage") {
            Some(DisplayMode::Percentage)
        } else if same_text(name, "battery") {
            Some(DisplayMode::Battery)
        } else {
            None
        }
    }

    /// The name under which this mode is saved.
    pub fn as_str(self) -> (name: &'static str)
        ensures
            name@ == mode_name(self),
    {
        match self {
            DisplayMode::Percentage => "percentage",
            DisplayMode::Battery => "battery",
        }
    }

    /// The mode to use given the saved file's contents (`None` when it
    /// could not be read): the named mode, or the default.
    pub fn from_saved(contents: Option<&str>) -> (mode: Self)
        ensures
            mode == saved_mode(
                match contents {
                    Some(text) => Some(text@),
                    None => None,
                },
            ),
    {
        match contents {
            Some(text) => match DisplayMode::parse(text) {
                Some(mode) => mode,
                None => DisplayMode::Percentage,
            },
            None => DisplayMode::Percentage,
        }
    }
}

/// A saved mode reads back as itself, also with white space (such as a
/// line break) around its name.
pub proof fn lemma_mode_round_trip(pre: Seq<char>, mode: DisplayMode, post: Seq<char>)
    requires
        forall|i: int| 0 <= i < pre.len() ==> is_white_space_spec(#[trigger] pre[i]),
        forall|i: int| 0 <= i < post.len() ==> is_white_space_spec(#[trigger] post[i]),
    ensures
        mode_named(pre + mode_name(mode) + post) == Some(mode),
        mode_named(mode_name(mode)) == Some(mode),
{
    reveal_strlit("percentage");
    reveal_strlit("battery");
    let name = mode_name(mode);
    lemma_trimmed_surrounded(pre, name, post);
    let empty = Seq::<char>::empty();
    lemma_trimmed_surrounded(empty, name, empty);
    assert(empty + name + empty =~= name);
    assert("percentage"@ != "battery"@) by {
        assert("percentage"@.len() != "battery"@.len());
    }
}

} // verus!
