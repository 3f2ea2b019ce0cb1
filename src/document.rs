//! Picking the path data out of a document's events.
use vstd::prelude::*;
use svg::node::element::tag::Type;
use svg::parser::Event;

verus! {

/// One construct that the document reader reports.
#[derive(Debug, PartialEq, Eq)]
pub enum DocEvent {
    /// A tag: its name, whether it is a closing tag, and its path data
    /// attribute, if it has one.
    Tag(String, bool, Option<String>),
    /// Text, a comment, a declaration or a processing instruction.
    Other,
    /// Content that the reader could not parse.
    Malformed,
}

/// Why the path data of a document cannot be had.
#[derive(Clone, Copy, Debug, PartialEq, Eq, Structural)]
pub enum DocumentError {
    /// The document itself is malformed.
    Malformed,
    /// A path element has no path data.
    MissingPathData,
}

/// The events that the reader reports for a document, in order.
pub uninterp spec fn events_of(content: Seq<char>) -> Seq<DocEvent>;

/// Relies on `svg::read` and the parser it returns: the document's events in
/// order, each tag with its name, whether it closes, and its `d` attribute.
/// The parser reads the text alone.
#[verifier::external_body]
fn read_events(content: &str) -> (r: Vec<DocEvent>)
    ensures
        r@ == events_of(content@),
{
    svg::read(content).into_iter().flatten().map(|e| match e {
        Event::Error(_) => DocEvent::Malformed,
        Event::Tag(name, kind, a) => DocEvent::Tag(
            name.to_string(), matches!(kind, Type::End), a.get("d").map(|v| v.to_string()),
        ),
        Event::Text(_) | Event::Comment(_) | Event::Declaration(_) | Event::Instruction(_) => DocEvent::Other,
    }).collect()
}

/// The event opens a path element (a start tag or an empty tag named `path`).
pub open spec fn is_path_element(ev: DocEvent) -> bool {
    match ev {
        DocEvent::Tag(name, closing, _) => name@ == "path"@ && !closing,
        _ => false,
    }
}

/// The error that the event raises, if it raises one.
pub open spec fn fault_of(ev: DocEvent) -> Option<DocumentError> {
    match ev {
        DocEvent::Malformed => Some(DocumentError::Malformed),
        DocEvent::Tag(_, _, None) => if is_path_element(ev) {
            Some(DocumentError::MissingPathData)
        } else {
            None
        },
        _ => None,
    }
}

/// The first event that raises an error stands at `i`.
pub open spec fn first_fault_at(evs: Seq<DocEvent>, i: int) -> bool {
    &&& 0 <= i < evs.len()
    &&& fault_of(evs[i]) is Some
    &&& forall|k: int| 0 <= k < i ==> fault_of(#[trigger] evs[k]) is None
}

/// The path data of each path element, in document order.
pub open spec fn path_data_of(evs: Seq<DocEvent>) -> Seq<Seq<char>>
    decreases evs.len(),
{
    if evs.len() == 0 {
        seq![]
    } else {
        let init = path_data_of(evs.drop_last());
        match evs.last() {
            DocEvent::Tag(_, _, Some(d)) => if is_path_element(evs.last()) {
                init.push(d@)
            } else {
                init
            },
            _ => init,
        }
    }
}

/// The path data of every path element, in order. Fails at the first
/// malformed event or path element without path data; every other construct
/// is skipped.
pub fn path_data(events: &Vec<DocEvent>) -> (r: Result<Vec<String>, DocumentError>)
    ensures
        r is Ok <==> forall|i: int| 0 <= i < events@.len() ==> fault_of(#[trigger] events@[i]) is None,
        r matches Ok(v) ==> v@.map_values(|s: String| s@) == path_data_of(events@),
        r matches Err(e) ==> exists|i: int| first_fault_at(events@, i) && fault_of(events@[i]) == Some(e),
{
    let path_tag: String = "path".to_owned();
    proof {
        reveal_strlit("path");
    }
    let mut out: Vec<String> = Vec::new();
    let mut i: usize = 0;
    while i < events.len()
        invariant
            0 <= i <= events@.len(),
            path_tag@ == "path"@,
            forall|k: int| 0 <= k < i ==> fault_of(#[trigger] events@[k]) is None,
            out@.map_values(|s: String| s@) == path_data_of(events@.take(i as int)),
        decreases events@.len() - i,
    {
        let ghost before = out@;
        match &events[i] {
            DocEvent::Tag(name, closing, data) => {
                if *name == path_tag && !*closing {
                    match data {
                        Some(d) => {
                            out.push(d.clone());
                        },
                        None => {
                            proof {
                                assert(first_fault_at(events@, i as int));
                            }
                            return Err(DocumentError::MissingPathData);
                        },
                    }
                }
            },
            DocEvent::Other => {},
            DocEvent::Malformed => {
                proof {
                    assert(first_fault_at(events@, i as int));
                }
                return Err(DocumentError::Malformed);
            },
        }
        proof {
            let t = events@.take(i + 1);
            assert(t.drop_last() == events@.take(i as int));
            assert(t.last() == events@[i as int]);
            assert(out@.map_values(|s: String| s@) =~= path_data_of(t));
        }
        i += 1;
    }
    proof {
        assert(events@.take(i as int) == events@);
    }
    Ok(out)
}

/// Reads a document and returns the path data of every path element, in order.
pub fn read_paths(content: &str) -> (r: Result<Vec<String>, DocumentError>)
    ensures
        r is Ok <==> forall|i: int| 0 <= i < events_of(content@).len()
            ==> fault_of(#[trigger] events_of(content@)[i]) is None,
        r matches Ok(v) ==> v@.map_values(|s: String| s@) == path_data_of(events_of(content@)),
        r matches Err(e) ==> exists|i: int|
            first_fault_at(events_of(content@), i) && fault_of(events_of(content@)[i]) == Some(e),
{
    let events = read_events(content);
    path_data(&events)
}

} // verus!
