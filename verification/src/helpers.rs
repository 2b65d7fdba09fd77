//! MASQUE URIs, Structured Field booleans and flow IDs.

use vstd::prelude::*;
use vstd::utf8;

use crate::text::{bytes_eq, str_from_utf8};

verus! {

/// The byte between the segments of a path.
pub const SLASH: u8 = 0x2f;

/// The pieces of `bytes` between the bytes `sep`.
pub open spec fn split_on(bytes: Seq<u8>, sep: u8) -> Seq<Seq<u8>>
    decreases bytes.len(),
{
    if bytes.len() == 0 {
        seq![Seq::empty()]
    } else {
        let before = split_on(bytes.drop_last(), sep);
        if bytes.last() == sep {
            before.push(Seq::empty())
        } else {
            before.drop_last().push(before.last().push(bytes.last()))
        }
    }
}

/// The IP address and the port in a MASQUE URI, as bytes.
pub open spec fn masque_target(target_path: Seq<u8>) -> Option<(Seq<u8>, Seq<u8>)> {
    let parts = split_on(target_path, SLASH);
    if utf8::valid_utf8(target_path) && parts.len() >= 6 && parts[0].len() == 0 && parts[1]
        == utf8::encode_utf8(".well-known"@) && parts[2] == utf8::encode_utf8("masque"@) && parts[3]
        == utf8::encode_utf8("udp"@) {
        Some((parts[4], parts[5]))
    } else {
        None
    }
}

/// Extracts the destination address from a MASQUE URI
/// Expected format: /.well-known/masque/udp/{ip}/{port}
pub fn dest_addr_from_masque_uri(target_path: &[u8]) -> (r: Option<(String, String)>)
    ensures
        r is Some <==> masque_target(target_path@) is Some,
        r matches Some((ip, port)) ==> masque_target(target_path@) == Some(
            (utf8::encode_utf8(ip@), utf8::encode_utf8(port@)),
        ),
{
    if str_from_utf8(target_path).is_none() {
        return None;
    }
    let parts: Vec<Vec<u8>> = split_path(target_path);
    let ghost views = split_on(target_path@, SLASH);
    if parts.len() < 6 {
        return None;
    }
    assert(forall|i: int| 0 <= i < views.len() ==> #[trigger] views[i] == parts@[i]@);
    if parts[0].len() == 0 && bytes_eq(parts[1].as_slice(), ".well-known".as_bytes()) && bytes_eq(
        parts[2].as_slice(),
        "masque".as_bytes(),
    ) && bytes_eq(parts[3].as_slice(), "udp".as_bytes()) {
        proof {
            lemma_split_valid_utf8(target_path@, 4);
            lemma_split_valid_utf8(target_path@, 5);
            utf8::decode_utf8_encode_utf8(views[4]);
            utf8::decode_utf8_encode_utf8(views[5]);
        }
        match (str_from_utf8(parts[4].as_slice()), str_from_utf8(parts[5].as_slice())) {
            (Some(ip), Some(port)) => Some((ip.to_owned(), port.to_owned())),
            _ => None,
        }
    } else {
        None
    }
}

/// Splits a path at its slashes.
fn split_path(path: &[u8]) -> (parts: Vec<Vec<u8>>)
    ensures
        parts@.map_values(|part: Vec<u8>| part@) == split_on(path@, SLASH),
{
    let ghost view = |part: Vec<u8>| part@;
    let mut parts: Vec<Vec<u8>> = Vec::new();
    let mut part: Vec<u8> = Vec::new();
    let mut i: usize = 0;
    assert(path@.take(0) =~= Seq::<u8>::empty());
    assert(parts@.map_values(view).push(part@) =~= split_on(path@.take(0), SLASH));
    while i < path.len()
        invariant
            i <= path@.len(),
            view == (|part: Vec<u8>| part@),
            parts@.map_values(view).push(part@) == split_on(path@.take(i as int), SLASH),
        decreases path@.len() - i,
    {
        let ghost before = parts@.map_values(view);
        let ghost taken = path@.take(i + 1);
        assert(taken.drop_last() =~= path@.take(i as int));
        let byte: u8 = path[i];
        if byte == SLASH {
            parts.push(part);
            part = Vec::new();
            assert(parts@.map_values(view).push(part@) =~= split_on(taken, SLASH));
        } else {
            part.push(byte);
            assert(parts@.map_values(view).push(part@) =~= split_on(taken, SLASH));
        }
        i = i + 1;
    }
    assert(path@.take(i as int) =~= path@);
    parts.push(part);
    assert(parts@.map_values(view) =~= split_on(path@, SLASH));
    parts
}

proof fn lemma_split_bounds(bytes: Seq<u8>, sep: u8, k: int) -> (bounds: (int, int))
    requires
        0 <= k < split_on(bytes, sep).len(),
    ensures
        0 <= bounds.0 <= bounds.1 <= bytes.len(),
        split_on(bytes, sep)[k] == bytes.subrange(bounds.0, bounds.1),
        bounds.0 == 0 || bytes[bounds.0 - 1] == sep,
        bounds.1 == bytes.len() || bytes[bounds.1] == sep,
        k == split_on(bytes, sep).len() - 1 <==> bounds.1 == bytes.len(),
    decreases bytes.len(),
{
    if bytes.len() == 0 {
        assert(bytes.subrange(0, 0) =~= Seq::<u8>::empty());
        (0, 0)
    } else {
        let shorter = bytes.drop_last();
        let before = split_on(shorter, sep);
        lemma_split_nonempty(shorter, sep);
        let len = bytes.len() as int;
        if bytes.last() == sep {
            if k == before.len() {
                assert(bytes.subrange(len, len) =~= Seq::<u8>::empty());
                (len, len)
            } else {
                let (a, b) = lemma_split_bounds(shorter, sep, k);
                assert(bytes.subrange(a, b) =~= shorter.subrange(a, b));
                (a, b)
            }
        } else {
            let (a, b) = lemma_split_bounds(shorter, sep, k);
            if k == before.len() - 1 {
                assert(bytes.subrange(a, len) =~= shorter.subrange(a, b).push(bytes.last()));
                (a, len)
            } else {
                assert(bytes.subrange(a, b) =~= shorter.subrange(a, b));
                (a, b)
            }
        }
    }
}

proof fn lemma_split_nonempty(bytes: Seq<u8>, sep: u8)
    ensures
        split_on(bytes, sep).len() > 0,
    decreases bytes.len(),
{
    if bytes.len() > 0 {
        lemma_split_nonempty(bytes.drop_last(), sep);
    }
}

proof fn lemma_split_valid_utf8(bytes: Seq<u8>, k: int)
    requires
        utf8::valid_utf8(bytes),
        0 <= k < split_on(bytes, SLASH).len(),
    ensures
        utf8::valid_utf8(split_on(bytes, SLASH)[k]),
{
    let (a, b) = lemma_split_bounds(bytes, SLASH, k);
    assert(!utf8::is_continuation_byte(0x2f));
    let head = bytes.subrange(0, b);
    if b < bytes.len() {
        utf8::is_char_boundary_iff_not_is_continuation_byte(bytes, b);
        utf8::valid_utf8_split(bytes, b);
    } else {
        assert(head =~= bytes);
    }
    if a == 0 {
        assert(bytes.subrange(a, b) =~= head);
    } else {
        let tail = head.subrange(a - 1, head.len() as int);
        utf8::is_char_boundary_iff_not_is_continuation_byte(head, a - 1);
        utf8::valid_utf8_split(head, a - 1);
        assert(tail[0] == 0x2f);
        assert(utf8::is_leading_byte_width_1(0x2f));
        assert(utf8::length_of_first_scalar(tail) == 1);
        assert(utf8::pop_first_scalar(tail) =~= bytes.subrange(a, b));
    }
}

/// The text of a MASQUE URI.
pub open spec fn masque_path_text(ip: Seq<char>, port: Seq<char>) -> Seq<char> {
    "/.well-known/masque/udp/"@ + ip + "/"@ + port
}

/// The MASQUE URI of a destination address.
pub fn masque_path(ip: &str, port: &str) -> (path: String)
    ensures
        path@ == masque_path_text(ip@, port@),
{
    let mut path = "/.well-known/masque/udp/".to_owned();
    path.append(ip);
    path.append("/");
    path.append(port);
    path
}

/// The text of a socket address: the IP address in brackets, then the port.
pub open spec fn target_addr_text(ip: Seq<char>, port: Seq<char>) -> Seq<char> {
    "["@ + ip + "]:"@ + port
}

/// The socket address of a destination.
pub fn target_addr(ip: &str, port: &str) -> (addr: String)
    ensures
        addr@ == target_addr_text(ip@, port@),
{
    let mut addr = "[".to_owned();
    addr.append(ip);
    addr.append("]:");
    addr.append(port);
    addr
}

/// The MASQUE URI of a destination address leads back to that address, as long as neither the IP
/// address nor the port has a slash in it.
pub proof fn law_masque_path_roundtrip(ip: Seq<char>, port: Seq<char>)
    requires
        !ip.contains('/'),
        !port.contains('/'),
    ensures
        masque_target(utf8::encode_utf8(masque_path_text(ip, port))) == Some(
            (utf8::encode_utf8(ip), utf8::encode_utf8(port)),
        ),
{
    reveal_strlit("/.well-known/masque/udp/");
    reveal_strlit(".well-known");
    reveal_strlit("masque");
    reveal_strlit("udp");
    reveal_strlit("/");
    let none = Seq::<char>::empty();
    let path = masque_path_text(ip, port);
    assert(path =~= joined(
        joined(joined(joined(joined(none, ".well-known"@), "masque"@), "udp"@), ip),
        port,
    ));
    lemma_split_joined(none, ".well-known"@);
    let first = joined(none, ".well-known"@);
    lemma_split_joined(first, "masque"@);
    let second = joined(first, "masque"@);
    lemma_split_joined(second, "udp"@);
    let third = joined(second, "udp"@);
    lemma_split_joined(third, ip);
    lemma_split_joined(joined(third, ip), port);
    utf8::encode_utf8_valid_utf8(path);
}

spec fn joined(before: Seq<char>, segment: Seq<char>) -> Seq<char> {
    before + seq!['/'] + segment
}

proof fn lemma_split_joined(before: Seq<char>, segment: Seq<char>)
    requires
        !segment.contains('/'),
    ensures
        split_on(utf8::encode_utf8(joined(before, segment)), SLASH) == split_on(
            utf8::encode_utf8(before),
            SLASH,
        ).push(utf8::encode_utf8(segment)),
{
    let slash = seq!['/'];
    lemma_encode_concat(before + slash, segment);
    lemma_encode_concat(before, slash);
    utf8::is_ascii_chars_encode_utf8(slash);
    assert(utf8::encode_utf8(slash) =~= seq![SLASH]);
    lemma_no_slash(segment);
    lemma_split_push(utf8::encode_utf8(before), SLASH, utf8::encode_utf8(segment));
}

proof fn lemma_split_push(before: Seq<u8>, sep: u8, piece: Seq<u8>)
    requires
        !piece.contains(sep),
    ensures
        split_on(before + seq![sep] + piece, sep) == split_on(before, sep).push(piece),
    decreases piece.len(),
{
    let bytes = before + seq![sep] + piece;
    if piece.len() == 0 {
        assert(bytes.drop_last() =~= before);
        assert(piece =~= Seq::<u8>::empty());
    } else {
        let shorter = piece.drop_last();
        assert(forall|i: int| 0 <= i < shorter.len() ==> shorter[i] == piece[i]);
        assert(bytes.drop_last() =~= before + seq![sep] + shorter);
        assert(piece.contains(piece.last()));
        lemma_split_push(before, sep, shorter);
        let pieces = split_on(bytes.drop_last(), sep);
        assert(pieces.drop_last() =~= split_on(before, sep));
        assert(shorter.push(piece.last()) =~= piece);
    }
}

proof fn lemma_encode_concat(a: Seq<char>, b: Seq<char>)
    ensures
        utf8::encode_utf8(a + b) == utf8::encode_utf8(a) + utf8::encode_utf8(b),
    decreases a.len(),
{
    if a.len() == 0 {
        assert(a + b =~= b);
        assert(utf8::encode_utf8(a) + utf8::encode_utf8(b) =~= utf8::encode_utf8(b));
    } else {
        lemma_encode_concat(a.drop_first(), b);
        assert((a + b).drop_first() =~= a.drop_first() + b);
        assert(utf8::encode_utf8(a + b) =~= utf8::encode_utf8(a) + utf8::encode_utf8(b));
    }
}

proof fn lemma_no_slash(text: Seq<char>)
    requires
        !text.contains('/'),
    ensures
        !utf8::encode_utf8(text).contains(SLASH),
    decreases text.len(),
{
    if text.len() > 0 {
        let rest = text.drop_first();
        assert(forall|i: int| 0 <= i < rest.len() ==> rest[i] == text[i + 1]);
        lemma_no_slash(rest);
        assert(text.contains(text[0]));
        utf8::char_is_scalar(text[0]);
        utf8::char_u32_cast(text[0], text[0] as u32);
        assert(0x2fu32 as char == '/');
        lemma_scalar_no_slash(text[0] as u32);
        let first = utf8::encode_scalar(text[0] as u32);
        assert(!first.contains(SLASH));
        assert forall|i: int| 0 <= i < utf8::encode_utf8(text).len() implies utf8::encode_utf8(
            text,
        )[i] != SLASH by {
            if i < first.len() {
                assert(first.contains(first[i]));
            } else {
                let others = utf8::encode_utf8(rest);
                assert(others.contains(others[i - first.len()]));
            }
        }
    }
}

proof fn lemma_scalar_no_slash(scalar: u32)
    by (bit_vector)
    requires
        scalar != 0x2f,
    ensures
        utf8::has_width_1_encoding(scalar) ==> utf8::leading_byte_width_1(scalar) != 0x2f,
        utf8::leading_byte_width_2(scalar) != 0x2f,
        utf8::leading_byte_width_3(scalar) != 0x2f,
        utf8::leading_byte_width_4(scalar) != 0x2f,
        utf8::last_continuation_byte(scalar) != 0x2f,
        utf8::second_last_continuation_byte(scalar) != 0x2f,
        utf8::third_last_continuation_byte(scalar) != 0x2f,
{
}

/// The text of a Structured Field boolean.
pub open spec fn sfv_bool_text(enabled: bool) -> Seq<char> {
    if enabled {
        seq!['?', '1']
    } else {
        seq!['?', '0']
    }
}

/// The bytes of a Structured Field boolean.
pub open spec fn sfv_bool_bytes(enabled: bool) -> Seq<u8> {
    if enabled {
        seq![0x3f, 0x31]
    } else {
        seq![0x3f, 0x30]
    }
}

/// `sfv::Item::serialize` on a boolean without parameters: `?1` for true and `?0` for false.
#[verifier::external_body]
fn serialize_boolean(enabled: bool) -> (s: String)
    ensures
        s@ == sfv_bool_text(enabled),
{
    let item = sfv::Item { bare_item: sfv::BareItem::Boolean(enabled), params: Default::default() };
    sfv::FieldType::serialize(&item)
}

/// Serializes a boolean into a Structured Field Value Item
pub fn sfv_bool(enabled: bool) -> (s: String)
    ensures
        s@ == sfv_bool_text(enabled),
        utf8::encode_utf8(s@) == sfv_bool_bytes(enabled),
{
    let s = serialize_boolean(enabled);
    proof {
        utf8::is_ascii_chars_encode_utf8(s@);
        assert(utf8::encode_utf8(s@) =~= sfv_bool_bytes(enabled));
    }
    s
}

/// Returns the quarter stream id for a given request stream id.
pub fn flow_id_from_stream_id(stream_id: u64) -> (flow_id: u64)
    ensures
        flow_id == stream_id / 4,
{
    stream_id / 4
}

/// The bytes of a path to a destination, up to its port.
pub open spec fn path_bytes(ip: Seq<u8>, port: Seq<u8>) -> Seq<u8> {
    utf8::encode_utf8("/.well-known/masque/udp/"@) + ip + seq![SLASH] + port
}

/// A path of text names a destination exactly where it starts with `/.well-known/masque/udp/`, an
/// IP address, a slash and a port, and ends there or goes on with a slash. Neither of the two has a
/// slash in it, and it is these two that are found.
pub proof fn law_masque_target_is_what_path_says(path: Seq<u8>, ip: Seq<u8>, port: Seq<u8>)
    ensures
        masque_target(path) == Some((ip, port)) <==> {
            &&& utf8::valid_utf8(path)
            &&& !ip.contains(SLASH) && !port.contains(SLASH)
            &&& path_bytes(ip, port).is_prefix_of(path)
            &&& path.len() == path_bytes(ip, port).len() || path[path_bytes(ip, port).len() as int]
                == SLASH
        },
{
    let core = path_bytes(ip, port);
    if !ip.contains(SLASH) && !port.contains(SLASH) && utf8::valid_utf8(path) && core.is_prefix_of(
        path,
    ) && (path.len() == core.len() || path[core.len() as int] == SLASH) {
        lemma_split_path_bytes(ip, port);
        if path.len() == core.len() {
            assert(path =~= core);
        } else {
            let rest = path.skip(core.len() as int + 1);
            assert(path =~= core + seq![SLASH] + rest);
            lemma_split_concat(core, SLASH, rest);
        }
    }
    if masque_target(path) == Some((ip, port)) {
        let parts = split_on(path, SLASH);
        lemma_split_no_sep(path, SLASH, 4);
        lemma_split_no_sep(path, SLASH, 5);
        lemma_split_path_bytes(ip, port);
        let cut = lemma_split_cut(path, SLASH, 5);
        let head = path.take(cut);
        assert(parts[0] =~= Seq::<u8>::empty());
        assert(parts.take(6) =~= split_on(core, SLASH));
        lemma_split_joins(head, SLASH);
        lemma_split_joins(core, SLASH);
        assert(head == core);
        assert(core.is_prefix_of(path));
    }
}

proof fn lemma_split_path_bytes(ip: Seq<u8>, port: Seq<u8>)
    requires
        !ip.contains(SLASH),
        !port.contains(SLASH),
    ensures
        split_on(path_bytes(ip, port), SLASH) == seq![
            Seq::<u8>::empty(),
            utf8::encode_utf8(".well-known"@),
            utf8::encode_utf8("masque"@),
            utf8::encode_utf8("udp"@),
            ip,
            port,
        ],
{
    reveal_strlit("/.well-known/masque/udp/");
    reveal_strlit(".well-known");
    reveal_strlit("masque");
    reveal_strlit("udp");
    let none = Seq::<char>::empty();
    let first = joined(none, ".well-known"@);
    let second = joined(first, "masque"@);
    let third = joined(second, "udp"@);
    lemma_split_joined(none, ".well-known"@);
    lemma_split_joined(first, "masque"@);
    lemma_split_joined(second, "udp"@);
    assert("/.well-known/masque/udp/"@ =~= third + seq!['/']);
    lemma_encode_concat(third, seq!['/']);
    utf8::is_ascii_chars_encode_utf8(seq!['/']);
    assert(utf8::encode_utf8(seq!['/']) =~= seq![SLASH]);
    let base = utf8::encode_utf8(third);
    assert(path_bytes(ip, port) =~= base + seq![SLASH] + ip + seq![SLASH] + port);
    lemma_split_push(base, SLASH, ip);
    lemma_split_push(base + seq![SLASH] + ip, SLASH, port);
    assert(split_on(utf8::encode_utf8(none), SLASH) =~= seq![Seq::<u8>::empty()]);
    assert(split_on(path_bytes(ip, port), SLASH) =~= seq![
        Seq::<u8>::empty(),
        utf8::encode_utf8(".well-known"@),
        utf8::encode_utf8("masque"@),
        utf8::encode_utf8("udp"@),
        ip,
        port,
    ]);
}

proof fn lemma_split_concat(a: Seq<u8>, sep: u8, b: Seq<u8>)
    ensures
        split_on(a + seq![sep] + b, sep) == split_on(a, sep) + split_on(b, sep),
    decreases b.len(),
{
    let bytes = a + seq![sep] + b;
    if b.len() == 0 {
        assert(bytes.drop_last() =~= a);
        assert(split_on(a, sep).push(Seq::empty()) =~= split_on(a, sep) + split_on(b, sep));
    } else {
        let shorter = b.drop_last();
        lemma_split_concat(a, sep, shorter);
        lemma_split_nonempty(shorter, sep);
        assert(bytes.drop_last() =~= a + seq![sep] + shorter);
        assert(bytes.last() == b.last());
        assert(split_on(bytes, sep) =~= split_on(a, sep) + split_on(b, sep));
    }
}

proof fn lemma_split_no_sep(bytes: Seq<u8>, sep: u8, k: int)
    requires
        0 <= k < split_on(bytes, sep).len(),
    ensures
        !split_on(bytes, sep)[k].contains(sep),
    decreases bytes.len(),
{
    if bytes.len() > 0 {
        let before = split_on(bytes.drop_last(), sep);
        lemma_split_nonempty(bytes.drop_last(), sep);
        if k < before.len() {
            lemma_split_no_sep(bytes.drop_last(), sep, k);
            if bytes.last() != sep && k == before.len() - 1 {
                let piece = before.last().push(bytes.last());
                assert forall|i: int| 0 <= i < piece.len() implies piece[i] != sep by {
                    if i < before.last().len() {
                        assert(before.last().contains(before.last()[i]));
                    }
                }
            }
        }
    }
}

proof fn lemma_split_cut(bytes: Seq<u8>, sep: u8, k: int) -> (cut: int)
    requires
        0 <= k < split_on(bytes, sep).len(),
    ensures
        0 <= cut <= bytes.len(),
        split_on(bytes.take(cut), sep) == split_on(bytes, sep).take(k + 1),
        cut == bytes.len() || bytes[cut] == sep,
    decreases bytes.len(),
{
    let parts = split_on(bytes, sep);
    if k == parts.len() - 1 {
        assert(bytes.take(bytes.len() as int) =~= bytes);
        assert(parts.take(k + 1) =~= parts);
        bytes.len() as int
    } else {
        let shorter = bytes.drop_last();
        let before = split_on(shorter, sep);
        lemma_split_nonempty(shorter, sep);
        let cut = lemma_split_cut(shorter, sep, k);
        assert(bytes.take(cut) =~= shorter.take(cut));
        assert(before.take(k + 1) =~= parts.take(k + 1)) by {
            if bytes.last() != sep && k == before.len() - 1 {
                assert(parts.len() == before.len());
            }
        }
        cut
    }
}

spec fn rejoined(parts: Seq<Seq<u8>>, sep: u8) -> Seq<u8>
    decreases parts.len(),
{
    if parts.len() <= 1 {
        parts.last()
    } else {
        rejoined(parts.drop_last(), sep) + seq![sep] + parts.last()
    }
}

proof fn lemma_split_joins(bytes: Seq<u8>, sep: u8)
    ensures
        rejoined(split_on(bytes, sep), sep) == bytes,
    decreases bytes.len(),
{
    if bytes.len() == 0 {
        assert(bytes =~= Seq::<u8>::empty());
    } else {
        let shorter = bytes.drop_last();
        let before = split_on(shorter, sep);
        lemma_split_joins(shorter, sep);
        lemma_split_nonempty(shorter, sep);
        let parts = split_on(bytes, sep);
        assert(bytes =~= shorter.push(bytes.last()));
        if bytes.last() == sep {
            assert(parts.drop_last() =~= before);
            assert(rejoined(parts, sep) =~= bytes);
        } else {
            assert(parts.drop_last() =~= before.drop_last());
            assert(rejoined(parts, sep) =~= bytes);
        }
    }
}

/// A socket address is an IP address in brackets, a colon and a port, and nothing else.
pub proof fn law_target_addr_text(ip: Seq<char>, port: Seq<char>)
    ensures
        ({
            let addr = target_addr_text(ip, port);
            let n = ip.len() as int;
            &&& addr.len() == ip.len() + port.len() + 3
            &&& addr[0] == '[' && addr[n + 1] == ']' && addr[n + 2] == ':'
            &&& addr.subrange(1, n + 1) == ip
            &&& addr.skip(n + 3) == port
        }),
{
    reveal_strlit("[");
    reveal_strlit("]:");
    let addr = target_addr_text(ip, port);
    assert(addr.subrange(1, ip.len() as int + 1) =~= ip);
    assert(addr.skip(ip.len() as int + 3) =~= port);
}

/// A Structured Field boolean is a question mark and a digit, 1 for true and 0 for false, in text
/// as in bytes.
pub proof fn law_boolean_layout(enabled: bool)
    ensures
        sfv_bool_text(enabled).len() == 2,
        sfv_bool_text(enabled)[0] == '?',
        sfv_bool_text(enabled)[1] == '1' <==> enabled,
        sfv_bool_text(enabled)[1] == '0' <==> !enabled,
        sfv_bool_bytes(enabled) == utf8::encode_utf8(sfv_bool_text(enabled)),
{
    utf8::is_ascii_chars_encode_utf8(sfv_bool_text(enabled));
    assert(sfv_bool_bytes(enabled) =~= utf8::encode_utf8(sfv_bool_text(enabled)));
}

} // verus!
