//! The one persisted setting: how the shelf opens. It is kept as one word in a
//! plain-text file; reading and writing that file is the caller's business.
use vstd::prelude::*;
use crate::text::{same_text, trimmed, trim, trim_start, trim_end};

verus! {

/// How the shelf opens.
#[derive(Clone, Copy, Debug, PartialEq, Eq, Structural)]
pub enum OpenMode {
    /// Dwelling with the cursor on the right screen edge opens the shelf (the default).
    Hover,
    /// A thin sliver of the shelf stays on screen; the cursor entering it opens the shelf.
    Tab,
    /// Only the tray menu opens the shelf.
    Tray,
}

impl OpenMode {
    /// The number that stands for this mode.
    pub open spec fn spec_code(self) -> u8 {
        match self {
            OpenMode::Hover => 0,
            OpenMode::Tab => 1,
            OpenMode::Tray => 2,
        }
    }

    pub fn code(self) -> (r: u8)
        ensures
            r == self.spec_code(),
    {
        match self {
            OpenMode::Hover => 0,
            OpenMode::Tab => 1,
            OpenMode::Tray => 2,
        }
    }

    /// The mode a number stands for; numbers other than 1 and 2 stand for `Hover`.
    pub open spec fn spec_from_code(code: u8) -> OpenMode {
        if code == 1 {
            OpenMode::Tab
        } else if code == 2 {
            OpenMode::Tray
        } else {
            OpenMode::Hover
        }
    }

    pub fn from_code(code: u8) -> (r: OpenMode)
        ensures
            r == Self::spec_from_code(code),
    {
        if code == 1 {
            OpenMode::Tab
        } else if code == 2 {
            OpenMode::Tray
        } else {
            OpenMode::Hover
        }
    }
}

/// The number that stands for an open-mode name: `tab` is 1, `tray` is 2,
/// and every other name (the default, `hover`) is 0.
pub open spec fn mode_number(mode: Seq<char>) -> u8 {
    if mode == "tab"@ {
        1
    } else if mode == "tray"@ {
        2
    } else {
        0
    }
}

pub fn mode_to_u8(mode: &str) -> (r: u8)
    ensures
        r == mode_number(mode@),
{
    if same_text(mode, "tab") {
        1
    } else if same_text(mode, "tray") {
        2
    } else {
        0
    }
}

/// The mode that a name selects (unknown names select `Hover`).
pub fn open_mode_of(mode: &str) -> (r: OpenMode)
    ensures
        r == OpenMode::spec_from_code(mode_number(mode@)),
{
    OpenMode::from_code(mode_to_u8(mode))
}

/// The names that are stored and accepted: `hover`, `tab` and `tray`.
pub open spec fn is_mode_name(m: Seq<char>) -> bool {
    m == "hover"@ || m == "tab"@ || m == "tray"@
}

/// The open mode that the settings file's text gives: the text without white
/// space at its ends, when that is one of the three names, else `hover`.
/// `None` stands for a file that could not be read.
pub open spec fn mode_from_file(contents: Option<Seq<char>>) -> Seq<char> {
    match contents {
        Some(c) => if is_mode_name(trim(c)) {
            trim(c)
        } else {
            "hover"@
        },
        None => "hover"@,
    }
}

/// Reads the open mode out of the settings file's text (`None` when the file could
/// not be read), falling back to `hover`.
pub fn parse_open_mode(contents: Option<&str>) -> (r: String)
    ensures
        r@ == mode_from_file(
            match contents {
                Some(c) => Some(c@),
                None => None,
            },
        ),
{
    match contents {
        Some(c) => {
            let t = trimmed(c);
            let ts = t.as_str();
            if same_text(ts, "hover") || same_text(ts, "tab") || same_text(ts, "tray") {
                t
            } else {
                "hover".to_owned()
            }
        },
        None => "hover".to_owned(),
    }
}

/// Saving a mode writes the mode's name as the file's whole text; reading that
/// file back gives the same mode, for each of the three names.
pub proof fn lemma_saved_mode_reads_back(m: Seq<char>)
    requires
        is_mode_name(m),
    ensures
        mode_from_file(Some(m)) == m,
{
    reveal_strlit("hover");
    reveal_strlit("tab");
    reveal_strlit("tray");
    assert(trim_start(m) == m);
    assert(trim_end(m) == m);
}

/// Whatever the file holds, or if it cannot be read, the mode read is one of
/// the three names.
pub proof fn lemma_read_mode_is_a_name(contents: Option<Seq<char>>)
    ensures
        is_mode_name(mode_from_file(contents)),
{
}

/// Only `tab` and `tray` select their modes; every other name, `hover` included,
/// selects hover mode, and the number a name gets is the number of its mode.
pub proof fn lemma_mode_numbers(m: Seq<char>)
    ensures
        mode_number(m) == 1 <==> m == "tab"@,
        mode_number(m) == 2 <==> m == "tray"@,
        mode_number(m) == 0 <==> (m != "tab"@ && m != "tray"@),
        OpenMode::spec_from_code(mode_number(m)).spec_code() == mode_number(m),
        mode_number("hover"@) == 0,
{
    reveal_strlit("hover");
    reveal_strlit("tab");
    reveal_strlit("tray");
    assert("hover"@.len() != "tab"@.len());
    assert("hover"@.len() != "tray"@.len());
}

} // verus!
