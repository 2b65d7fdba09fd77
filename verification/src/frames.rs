//! The HTTP/3 frames that go through a tunnel, as plain values.

use vstd::prelude::*;
use vstd::utf8;

use crate::prios::Priority;
use crate::text::bytes_eq;

verus! {

/// One HTTP field line.
#[derive(Debug, Clone, PartialEq, Eq)]
pub struct Header {
    pub name: Vec<u8>,
    pub value: Vec<u8>,
}

/// What a field line says.
pub struct HeaderView {
    pub name: Seq<u8>,
    pub value: Seq<u8>,
}

impl View for Header {
    type V = HeaderView;

    open spec fn view(&self) -> HeaderView {
        HeaderView { name: self.name@, value: self.value@ }
    }
}

impl Header {
    /// A field line.
    pub fn new(name: &[u8], value: &[u8]) -> (header: Self)
        ensures
            header@ == (HeaderView { name: name@, value: value@ }),
    {
        Header { name: vstd::slice::slice_to_vec(name), value: vstd::slice::slice_to_vec(value) }
    }

    /// A field line made of two texts.
    pub fn from_text(name: &str, value: &str) -> (header: Self)
        ensures
            header@ == text_header(name@, value@),
    {
        Header::new(name.as_bytes(), value.as_bytes())
    }
}

/// The field line that two texts make.
pub open spec fn text_header(name: Seq<char>, value: Seq<char>) -> HeaderView {
    HeaderView { name: utf8::encode_utf8(name), value: utf8::encode_utf8(value) }
}

/// The field lines of a list, by their views.
pub open spec fn header_views(headers: Seq<Header>) -> Seq<HeaderView> {
    headers.map_values(|h: Header| h@)
}

/// The value of the last field line that has this name.
pub open spec fn last_value(headers: Seq<HeaderView>, name: Seq<u8>) -> Option<Seq<u8>>
    decreases headers.len(),
{
    if headers.len() == 0 {
        None
    } else if headers.last().name == name {
        Some(headers.last().value)
    } else {
        last_value(headers.drop_last(), name)
    }
}

/// Looks a field line up by its name. The last one counts where there are several.
pub fn find_header(headers: &[Header], name: &str) -> (value: Option<Vec<u8>>)
    ensures
        opt_bytes(value) == last_value(header_views(headers@), utf8::encode_utf8(name@)),
{
    let ghost views = header_views(headers@);
    let mut value: Option<Vec<u8>> = None;
    let mut i: usize = 0;
    while i < headers.len()
        invariant
            i <= headers@.len(),
            views == header_views(headers@),
            opt_bytes(value) == last_value(views.take(i as int), utf8::encode_utf8(name@)),
        decreases headers@.len() - i,
    {
        let header = &headers[i];
        assert(views.take(i + 1).drop_last() =~= views.take(i as int));
        if bytes_eq(header.name.as_slice(), name.as_bytes()) {
            value = Some(vstd::slice::slice_to_vec(header.value.as_slice()));
        }
        i = i + 1;
    }
    assert(views.take(i as int) =~= views);
    value
}

/// Optional bytes, by their view.
pub open spec fn opt_bytes(bytes: Option<Vec<u8>>) -> Option<Seq<u8>> {
    match bytes {
        Some(bytes) => Some(bytes@),
        None => None,
    }
}

/// A frame to be sent.
#[derive(Debug, Clone, PartialEq, Eq)]
pub enum OutboundFrame {
    /// Field lines, and the priority of the stream that carries them.
    Headers(Vec<Header>, Option<Priority>),
    /// Body bytes, and whether they end the stream.
    Body(Vec<u8>, bool),
    /// A datagram of the flow that the number names.
    Datagram(Vec<u8>, u64),
}

/// What a frame to be sent carries.
pub enum OutboundFrameView {
    Headers(Seq<HeaderView>, Option<Priority>),
    Body(Seq<u8>, bool),
    Datagram(Seq<u8>, u64),
}

impl View for OutboundFrame {
    type V = OutboundFrameView;

    open spec fn view(&self) -> OutboundFrameView {
        match self {
            OutboundFrame::Headers(headers, priority) => OutboundFrameView::Headers(
                header_views(headers@),
                *priority,
            ),
            OutboundFrame::Body(bytes, fin) => OutboundFrameView::Body(bytes@, *fin),
            OutboundFrame::Datagram(bytes, flow_id) => OutboundFrameView::Datagram(
                bytes@,
                *flow_id,
            ),
        }
    }
}

impl OutboundFrame {
    /// A frame of body bytes.
    pub fn body(bytes: Vec<u8>, fin: bool) -> (frame: OutboundFrame)
        ensures
            frame@ == OutboundFrameView::Body(bytes@, fin),
    {
        OutboundFrame::Body(bytes, fin)
    }
}

/// A frame that came in.
#[derive(Debug, Clone, PartialEq, Eq)]
pub enum InboundFrame {
    /// Body bytes, and whether they end the stream.
    Body(Vec<u8>, bool),
    /// A datagram.
    Datagram(Vec<u8>),
}

/// What a frame that came in carries.
pub enum InboundFrameView {
    Body(Seq<u8>, bool),
    Datagram(Seq<u8>),
}

impl View for InboundFrame {
    type V = InboundFrameView;

    open spec fn view(&self) -> InboundFrameView {
        match self {
            InboundFrame::Body(bytes, fin) => InboundFrameView::Body(bytes@, *fin),
            InboundFrame::Datagram(bytes) => InboundFrameView::Datagram(bytes@),
        }
    }
}

/// A field line that is put behind others decides what its name stands for and leaves the other
/// names alone.
pub proof fn law_last_header_wins(headers: Seq<HeaderView>, header: HeaderView, name: Seq<u8>)
    ensures
        last_value(headers.push(header), name) == if header.name == name {
            Some(header.value)
        } else {
            last_value(headers, name)
        },
{
    assert(headers.push(header).drop_last() =~= headers);
}

/// The value of a name is that of the last field line with this name; there is none where no field
/// line has it.
pub proof fn law_last_value_is_of_last_header(headers: Seq<HeaderView>, name: Seq<u8>)
    ensures
        last_value(headers, name) is None <==> forall|i: int|
            0 <= i < headers.len() ==> #[trigger] headers[i].name != name,
        forall|i: int|
            0 <= i < headers.len() && #[trigger] headers[i].name == name && (forall|j: int|
                i < j < headers.len() ==> #[trigger] headers[j].name != name) ==> last_value(
                headers,
                name,
            ) == Some(headers[i].value),
    decreases headers.len(),
{
    if headers.len() > 0 && headers.last().name != name {
        let shorter = headers.drop_last();
        law_last_value_is_of_last_header(shorter, name);
        assert(forall|i: int| 0 <= i < shorter.len() ==> #[trigger] shorter[i] == headers[i]);
        if last_value(headers, name) is None {
            assert forall|i: int| 0 <= i < headers.len() implies #[trigger] headers[i].name
                != name by {
                if i < shorter.len() {
                    assert(shorter[i].name != name);
                }
            }
        }
        assert forall|i: int|
            0 <= i < headers.len() && #[trigger] headers[i].name == name && (forall|j: int|
                i < j < headers.len() ==> #[trigger] headers[j].name != name) implies last_value(
            headers,
            name,
        ) == Some(headers[i].value) by {
            assert(shorter[i].name == name);
            assert forall|j: int| i < j < shorter.len() implies #[trigger] shorter[j].name
                != name by {
                assert(headers[j].name != name);
            }
        }
    } else if headers.len() > 0 {
        assert(headers[headers.len() - 1].name == name);
    }
}

} // verus!
