//! Requests that redeploy a website container from a new image.

use vstd::prelude::*;

use crate::text::str_eq;

verus! {

/// The type-safe possible destinations of a website deployment.
#[derive(Debug, Clone, Copy, Hash, PartialEq, Eq, Structural)]
pub enum PostPayloadDestination {
    /// The website.
    Website,
    /// The calendar.
    Calendar,
}

/// The name that a destination is written as in a request.
pub open spec fn spec_name(d: PostPayloadDestination) -> Seq<char> {
    match d {
        PostPayloadDestination::Website => "www"@,
        PostPayloadDestination::Calendar => "calendar"@,
    }
}

/// The destination that a name in a request stands for, or the error that an unknown
/// name is refused with.
pub open spec fn spec_from_name(name: Seq<char>) -> Result<PostPayloadDestination, Seq<char>> {
    if name == "www"@ {
        Ok(PostPayloadDestination::Website)
    } else if name == "calendar"@ {
        Ok(PostPayloadDestination::Calendar)
    } else {
        Err("unknown destination: "@ + name)
    }
}

impl PostPayloadDestination {
    /// Reads a destination from its name in a request: `www` or `calendar`; any other
    /// name is refused.
    pub fn from_name(name: &str) -> (r: Result<PostPayloadDestination, String>)
        ensures
            match (r, spec_from_name(name@)) {
                (Ok(d), Ok(e)) => d == e,
                (Err(m), Err(n)) => m@ == n,
                _ => false,
            },
            r matches Ok(d) ==> (d == PostPayloadDestination::Website <==> name@ == "www"@),
            r matches Ok(d) ==> (d == PostPayloadDestination::Calendar <==> name@ == "calendar"@),
            r is Ok <==> (name@ == "www"@ || name@ == "calendar"@),
            r matches Err(m) ==> m@ == "unknown destination: "@ + name@,
    {
        proof {
            lemma_from_name_accepts_only_known(name@);
        }
        if str_eq(name, "www") {
            Ok(PostPayloadDestination::Website)
        } else if str_eq(name, "calendar") {
            Ok(PostPayloadDestination::Calendar)
        } else {
            let mut message = String::from_str("unknown destination: ");
            message.append(name);
            Err(message)
        }
    }

    /// The name that the destination is written as in a request.
    pub fn name(&self) -> (s: &'static str)
        ensures
            s@ == spec_name(*self),
    {
        match self {
            PostPayloadDestination::Website => "www",
            PostPayloadDestination::Calendar => "calendar",
        }
    }

    /// The text that describes the destination in messages, which is also the name of
    /// the container that serves it.
    pub fn describe(&self) -> (s: String)
        ensures
            *self == PostPayloadDestination::Website ==> s@ == "website (www)"@,
            *self == PostPayloadDestination::Calendar ==> s@ == "calendar (calendar)"@,
    {
        match self {
            PostPayloadDestination::Website => String::from_str("website (www)"),
            PostPayloadDestination::Calendar => String::from_str("calendar (calendar)"),
        }
    }
}

/// Only the two known names are accepted: a name reads as the website exactly when it
/// is `www`, as the calendar exactly when it is `calendar`, and every other name is
/// refused with `unknown destination: ` followed by the name.
pub proof fn lemma_from_name_accepts_only_known(name: Seq<char>)
    ensures
        spec_from_name(name) == Ok::<PostPayloadDestination, Seq<char>>(PostPayloadDestination::Website)
            <==> name == "www"@,
        spec_from_name(name) == Ok::<PostPayloadDestination, Seq<char>>(PostPayloadDestination::Calendar)
            <==> name == "calendar"@,
        spec_from_name(name) is Err <==> name != "www"@ && name != "calendar"@,
        spec_from_name(name) matches Err(m) ==> m == "unknown destination: "@ + name,
{
    reveal_strlit("www");
    reveal_strlit("calendar");
    assert("calendar"@ != "www"@) by {
        assert("calendar"@.len() != "www"@.len());
    }
}

/// Reading a destination back from its name gives the destination: writing and
/// reading destinations is a round trip.
pub proof fn lemma_name_round_trip(d: PostPayloadDestination)
    ensures
        spec_from_name(spec_name(d)) == Ok::<PostPayloadDestination, Seq<char>>(d),
{
    reveal_strlit("www");
    reveal_strlit("calendar");
    if d == PostPayloadDestination::Calendar {
        assert("calendar"@ != "www"@) by {
            assert("calendar"@.len() != "www"@.len());
        }
    }
}

/// The payload of a website deployment request: the image to pull and the
/// destination whose container is recreated from it.
#[derive(Debug, Clone)]
pub struct PostPayload {
    pub image: String,
    pub target: PostPayloadDestination,
}

} // verus!
