//! What the glyph tables are grouped by, and what can go wrong with a font.

use vstd::prelude::*;
use vstd::string::StringExecFns;

verus! {

/// The group that a font's glyphs belong to.
#[derive(Debug, Clone, Copy, Hash, PartialEq, Eq, Structural)]
pub enum FontGroupType {
    /// Glyphs of the Latin alphabet and other western signs.
    Occidental,
    /// Glyphs of eastern scripts.
    Oriental,
}

/// A failure in loading or using a font.
#[derive(Debug, Clone, PartialEq, Eq)]
pub enum FontError {
    /// A glyph could not be read.
    GlyphParsingError { glyph: String, message: String },
    /// A font could not be made from a table of offsets; `source` is what
    /// the failure underneath reported.
    FontCreationError { file: String, source: String },
    /// Any other failure.
    GenericError(String),
}

/// The mathematical content of a [`FontError`].
pub enum FontFault {
    Glyph { glyph: Seq<char>, message: Seq<char> },
    Creation { file: Seq<char>, source: Seq<char> },
    Generic(Seq<char>),
}

impl View for FontError {
    type V = FontFault;

    open spec fn view(&self) -> FontFault {
        match self {
            FontError::GlyphParsingError { glyph, message } => FontFault::Glyph {
                glyph: glyph@,
                message: message@,
            },
            FontError::FontCreationError { file, source } => FontFault::Creation {
                file: file@,
                source: source@,
            },
            FontError::GenericError(m) => FontFault::Generic(m@),
        }
    }
}

impl FontFault {
    /// The sentence that reports the fault to a person.
    pub open spec fn sentence(self) -> Seq<char> {
        match self {
            FontFault::Glyph { glyph, message } => "cannot read the glyph "@ + glyph + ": "@
                + message,
            FontFault::Creation { file, source } => "cannot make a font from "@ + file + ": "@
                + source,
            FontFault::Generic(m) => "font error: "@ + m,
        }
    }
}

impl FontError {
    /// The sentence that reports the error to a person.
    pub fn describe(&self) -> (s: String)
        ensures
            s@ == self@.sentence(),
    {
        match self {
            FontError::GlyphParsingError { glyph, message } => {
                let mut s = String::from_str("cannot read the glyph ");
                s.append(glyph.as_str());
                s.append(": ");
                s.append(message.as_str());
                s
            },
            FontError::FontCreationError { file, source } => {
                let mut s = String::from_str("cannot make a font from ");
                s.append(file.as_str());
                s.append(": ");
                s.append(source.as_str());
                s
            },
            FontError::GenericError(m) => {
                let mut s = String::from_str("font error: ");
                s.append(m.as_str());
                s
            },
        }
    }
}

} // verus!
