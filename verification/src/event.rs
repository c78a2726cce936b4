//! The events of an XML walk, and the element names that the dictionary gives a
//! meaning to.

use vstd::prelude::*;
use vstd::string::*;

use crate::text::chars_of;

verus! {

/// One event of the walk through a document.
#[derive(Debug, Clone, PartialEq, Eq)]
pub enum Event {
    /// A start tag, with the element's local name.
    Start(String),
    /// An end tag, with the element's local name.
    End(String),
    /// A run of character data.
    Characters(String),
    /// The end of the document.
    EndDocument,
    /// Anything else: the document's start, white space between elements, comments,
    /// CDATA sections, processing instructions.
    Other,
    /// The source is not well-formed XML from here on; a stream cut off in the middle
    /// of an element shows up so.
    Malformed,
}

/// An event with its texts as sequences of characters.
pub enum EventView {
    Start(Seq<char>),
    End(Seq<char>),
    Characters(Seq<char>),
    EndDocument,
    Other,
    Malformed,
}

impl View for Event {
    type V = EventView;

    open spec fn view(&self) -> EventView {
        match self {
            Event::Start(name) => EventView::Start(name@),
            Event::End(name) => EventView::End(name@),
            Event::Characters(text) => EventView::Characters(text@),
            Event::EndDocument => EventView::EndDocument,
            Event::Other => EventView::Other,
            Event::Malformed => EventView::Malformed,
        }
    }
}

impl DeepView for Event {
    type V = EventView;

    open spec fn deep_view(&self) -> EventView {
        self@
    }
}

/// The elements that the walk knows.
#[derive(Debug, Clone, Copy, PartialEq, Eq, Structural)]
pub enum Tag {
    Entry,
    Sense,
    EntSeq,
    Keb,
    Reb,
    Gloss,
    Pos,
    Field,
    /// Any other element.
    Other,
}

impl Tag {
    /// The elements whose content is one value: the sequence number, a word, a
    /// reading, a gloss, a part of speech, a field of use.
    pub open spec fn is_leaf(self) -> bool {
        self == Tag::EntSeq || self == Tag::Keb || self == Tag::Reb || self == Tag::Gloss || self
            == Tag::Pos || self == Tag::Field
    }

    /// Whether the element holds one value.
    pub fn leaf(self) -> (b: bool)
        ensures
            b == self.is_leaf(),
    {
        match self {
            Tag::EntSeq | Tag::Keb | Tag::Reb | Tag::Gloss | Tag::Pos | Tag::Field => true,
            _ => false,
        }
    }
}

/// The element that a local name stands for.
pub open spec fn tag_of(name: Seq<char>) -> Tag {
    if name == "entry"@ {
        Tag::Entry
    } else if name == "sense"@ {
        Tag::Sense
    } else if name == "ent_seq"@ {
        Tag::EntSeq
    } else if name == "keb"@ {
        Tag::Keb
    } else if name == "reb"@ {
        Tag::Reb
    } else if name == "gloss"@ {
        Tag::Gloss
    } else if name == "pos"@ {
        Tag::Pos
    } else if name == "field"@ {
        Tag::Field
    } else {
        Tag::Other
    }
}

/// Tells which element a local name stands for.
pub fn classify(name: &str) -> (tag: Tag)
    ensures
        tag == tag_of(name@),
{
    let c = chars_of(name);
    let n = c.len();
    proof {
        reveal_strlit("entry");
        reveal_strlit("sense");
        reveal_strlit("ent_seq");
        reveal_strlit("keb");
        reveal_strlit("reb");
        reveal_strlit("gloss");
        reveal_strlit("pos");
        reveal_strlit("field");
    }
    if n == 3 {
        if c[0] == 'k' && c[1] == 'e' && c[2] == 'b' {
            assert(name@ =~= "keb"@);
            Tag::Keb
        } else if c[0] == 'r' && c[1] == 'e' && c[2] == 'b' {
            assert(name@ =~= "reb"@);
            Tag::Reb
        } else if c[0] == 'p' && c[1] == 'o' && c[2] == 's' {
            assert(name@ =~= "pos"@);
            Tag::Pos
        } else {
            Tag::Other
        }
    } else if n == 5 {
        if c[0] == 'e' && c[1] == 'n' && c[2] == 't' && c[3] == 'r' && c[4] == 'y' {
            assert(name@ =~= "entry"@);
            Tag::Entry
        } else if c[0] == 's' && c[1] == 'e' && c[2] == 'n' && c[3] == 's' && c[4] == 'e' {
            assert(name@ =~= "sense"@);
            Tag::Sense
        } else if c[0] == 'g' && c[1] == 'l' && c[2] == 'o' && c[3] == 's' && c[4] == 's' {
            assert(name@ =~= "gloss"@);
            Tag::Gloss
        } else if c[0] == 'f' && c[1] == 'i' && c[2] == 'e' && c[3] == 'l' && c[4] == 'd' {
            assert(name@ =~= "field"@);
            Tag::Field
        } else {
            Tag::Other
        }
    } else if n == 7 {
        if c[0] == 'e' && c[1] == 'n' && c[2] == 't' && c[3] == '_' && c[4] == 's' && c[5] == 'e'
            && c[6] == 'q' {
            assert(name@ =~= "ent_seq"@);
            Tag::EntSeq
        } else {
            Tag::Other
        }
    } else {
        Tag::Other
    }
}

} // verus!
