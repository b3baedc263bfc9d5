use vstd::prelude::*;

use crate::event::{Event, EventKind, EventModel};

verus! {

/// The JSON string literal that encodes `s`, quotes and escapes included.
pub uninterp spec fn json_quoted(s: Seq<char>) -> Seq<char>;

/// Relies on `serde_json::to_string` applied to a `str`: the JSON string
/// literal for `s`. Serializing a `str` goes through `serialize_str` into a
/// `Vec<u8>`, whose writes cannot fail, so the call always succeeds.
#[verifier::external_body]
fn quote_json(s: &str) -> (r: String)
    ensures
        r@ == json_quoted(s@),
{
    serde_json::to_string(s).unwrap_or_default()
}

pub open spec fn kind_name(kind: EventKind) -> Seq<char> {
    match kind {
        EventKind::Warn => "Warn"@,
        EventKind::Reminder => "Reminder"@,
    }
}

/// The wire form of an event: `{"type":"<kind>","title":<quoted title>}`.
pub open spec fn event_json(e: EventModel) -> Seq<char> {
    match e.0 {
        EventKind::Warn => "{\"type\":\"Warn\",\"title\":"@ + json_quoted(e.1) + "}"@,
        EventKind::Reminder => "{\"type\":\"Reminder\",\"title\":"@ + json_quoted(e.1) + "}"@,
    }
}

/// The quoted titles separated by commas.
pub open spec fn joined_quoted(titles: Seq<Seq<char>>) -> Seq<char>
    decreases titles.len(),
{
    if titles.len() == 0 {
        Seq::empty()
    } else if titles.len() == 1 {
        json_quoted(titles[0])
    } else {
        joined_quoted(titles.drop_last()) + ","@ + json_quoted(titles.last())
    }
}

/// A JSON array of the titles, in order.
pub open spec fn titles_json(titles: Seq<Seq<char>>) -> Seq<char> {
    "["@ + joined_quoted(titles) + "]"@
}

impl Event {
    /// Serializes the event into its tagged JSON wire form.
    pub fn to_json(&self) -> (r: String)
        ensures
            r@ == event_json(self@),
    {
        let quoted = quote_json(self.title().as_str());
        let mut out = match self {
            Event::Warn { .. } => String::from_str("{\"type\":\"Warn\",\"title\":"),
            Event::Reminder { .. } => String::from_str("{\"type\":\"Reminder\",\"title\":"),
        };
        out.append(quoted.as_str());
        out.append("}");
        out
    }
}

/// The snapshot a stream client receives first: the JSON array of the
/// monitored titles.
pub fn snapshot_json(titles: &Vec<String>) -> (r: String)
    ensures
        r@ == titles_json(titles@.map_values(|t: String| t@)),
{
    let ghost views = titles@.map_values(|t: String| t@);
    let mut out = String::from_str("[");
    let mut i: usize = 0;
    while i < titles.len()
        invariant
            i <= titles@.len(),
            views == titles@.map_values(|t: String| t@),
            out@ == "["@ + joined_quoted(views.subrange(0, i as int)),
        decreases titles@.len() - i,
    {
        let quoted = quote_json(titles[i].as_str());
        let ghost before = out@;
        if i > 0 {
            out.append(",");
        }
        out.append(quoted.as_str());
        proof {
            let pre = views.subrange(0, i as int);
            let post = views.subrange(0, i + 1);
            assert(post.drop_last() =~= pre);
            assert(post.last() == titles@[i as int]@);
            if i == 0 {
                assert(pre =~= Seq::<Seq<char>>::empty());
                assert(before =~= "["@);
                assert(out@ =~= "["@ + joined_quoted(post));
            } else {
                assert(out@ =~= "["@ + joined_quoted(post));
            }
        }
        i += 1;
    }
    out.append("]");
    proof {
        assert(views.subrange(0, i as int) =~= views);
    }
    out
}

} // verus!
