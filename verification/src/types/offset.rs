//! Positions in a stream.
use crate::error::Error;
use crate::text::same_text;
use vstd::prelude::*;
use vstd::string::*;

verus! {

/// A position in a stream: its start, its end at the time of asking, or an opaque value that the
/// server handed out.
#[derive(Debug, PartialEq, Eq, Hash)]
pub enum Offset {
    Start,
    Now,
    Value(String),
}

/// What an [`Offset`] stands for.
pub ghost enum OffsetView {
    Start,
    Now,
    Value(Seq<char>),
}

impl OffsetView {
    /// The text of the position in the protocol.
    pub open spec fn text(self) -> Seq<char> {
        match self {
            OffsetView::Start => "-1"@,
            OffsetView::Now => "now"@,
            OffsetView::Value(value) => value,
        }
    }

    /// The position that a text of the protocol denotes.
    pub open spec fn of_text(text: Seq<char>) -> OffsetView {
        if text == "-1"@ {
            OffsetView::Start
        } else if text == "now"@ {
            OffsetView::Now
        } else {
            OffsetView::Value(text)
        }
    }
}

impl View for Offset {
    type V = OffsetView;

    open spec fn view(&self) -> OffsetView {
        match self {
            Offset::Start => OffsetView::Start,
            Offset::Now => OffsetView::Now,
            Offset::Value(value) => OffsetView::Value(value@),
        }
    }
}

impl Clone for Offset {
    fn clone(&self) -> (r: Offset)
        ensures
            r == *self,
    {
        match self {
            Offset::Start => Offset::Start,
            Offset::Now => Offset::Now,
            Offset::Value(value) => Offset::Value(value.clone()),
        }
    }
}

impl Default for Offset {
    fn default() -> (r: Offset)
        ensures
            r@ == OffsetView::Start,
    {
        Offset::Start
    }
}

impl Offset {
    pub const START: &'static str = "-1";

    pub const NOW: &'static str = "now";

    /// The start of the stream.
    #[must_use]
    pub fn start() -> (r: Offset)
        ensures
            r@ == OffsetView::Start,
    {
        Offset::Start
    }

    /// The end of the stream at the time of asking.
    #[must_use]
    pub fn now() -> (r: Offset)
        ensures
            r@ == OffsetView::Now,
    {
        Offset::Now
    }

    /// The text of the position in the protocol.
    #[must_use]
    pub fn as_str(&self) -> (r: &str)
        ensures
            r@ == self@.text(),
    {
        match self {
            Offset::Start => Self::START,
            Offset::Now => Self::NOW,
            Offset::Value(value) => value.as_str(),
        }
    }

    /// The position that a non-empty text denotes.
    pub fn parse(text: &str) -> (r: Result<Offset, Error>)
        ensures
            text@.len() == 0 ==> r is Err && r->Err_0@ == crate::error::empty_offset(),
            text@.len() > 0 ==> r is Ok && r->Ok_0@ == OffsetView::of_text(text@),
    {
        if text.is_empty() {
            return Err(
                Error::InvalidHeader {
                    operation: "parse",
                    path: "<offset>".to_owned(),
                    name: "Stream-Next-Offset",
                    reason: "offset cannot be empty".to_owned(),
                },
            );
        }
        Ok(Offset::from(text))
    }
}

impl From<&str> for Offset {
    fn from(value: &str) -> (r: Offset)
        ensures
            r@ == OffsetView::of_text(value@),
    {
        if same_text(value, Self::START) {
            Offset::Start
        } else if same_text(value, Self::NOW) {
            Offset::Now
        } else {
            Offset::Value(value.to_owned())
        }
    }
}

impl vstd::std_specs::convert::FromSpecImpl<&str> for Offset {
    open spec fn obeys_from_spec() -> bool {
        false
    }

    open spec fn from_spec(value: &str) -> Offset {
        arbitrary()
    }
}

impl From<String> for Offset {
    fn from(value: String) -> (r: Offset)
        ensures
            r@ == OffsetView::of_text(value@),
    {
        if same_text(value.as_str(), Self::START) {
            Offset::Start
        } else if same_text(value.as_str(), Self::NOW) {
            Offset::Now
        } else {
            Offset::Value(value)
        }
    }
}

impl vstd::std_specs::convert::FromSpecImpl<String> for Offset {
    open spec fn obeys_from_spec() -> bool {
        true
    }

    open spec fn from_spec(value: String) -> Offset {
        if value@ == Offset::START@ {
            Offset::Start
        } else if value@ == Offset::NOW@ {
            Offset::Now
        } else {
            Offset::Value(value)
        }
    }
}

impl std::str::FromStr for Offset {
    type Err = Error;

    fn from_str(s: &str) -> (r: Result<Offset, Error>)
        ensures
            s@.len() == 0 ==> r is Err && r->Err_0@ == crate::error::empty_offset(),
            s@.len() > 0 ==> r is Ok && r->Ok_0@ == OffsetView::of_text(s@),
    {
        Offset::parse(s)
    }
}

/// The text of the position that a text denotes is that text: offsets are opaque.
pub proof fn law_offset_preserves_text(text: Seq<char>)
    ensures
        OffsetView::of_text(text).text() == text,
{
}

/// A position is denoted by its text, unless it is a value that reads like a reserved one.
pub proof fn law_offset_denoted_by_its_text(offset: OffsetView)
    requires
        offset != OffsetView::Value("-1"@),
        offset != OffsetView::Value("now"@),
    ensures
        OffsetView::of_text(offset.text()) == offset,
{
    reveal_strlit("-1");
    reveal_strlit("now");
    assert("-1"@.len() == 2 && "now"@.len() == 3);
}

} // verus!
