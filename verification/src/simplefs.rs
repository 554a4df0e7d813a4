//! The on-disk file container format: each entry is a nul-terminated name,
//! a 4-byte little-endian content length, and that many content bytes. The
//! list ends at the end of the buffer or at a zero-length name.

use vstd::prelude::*;
use vstd::bytes::{spec_u32_from_le_bytes, spec_u32_to_le_bytes, u32_from_le_bytes, u32_to_le_bytes, lemma_auto_spec_u32_to_from_le_bytes};
use vstd::utf8::{decode_utf8, encode_utf8, valid_utf8};
use crate::text::string_push_char;

verus! {

/// The bytes of one packed entry: the UTF-8 name, a nul, the 4-byte
/// little-endian content length, then the content itself.
pub open spec fn entry_bytes(name: Seq<char>, content: Seq<u8>) -> Seq<u8> {
    encode_utf8(name) + seq![0u8] + spec_u32_to_le_bytes(content.len() as u32) + content
}

/// The bytes of a whole packed file list.
pub open spec fn pack_bytes(entries: Seq<(Seq<char>, Seq<u8>)>) -> Seq<u8>
    decreases entries.len(),
{
    if entries.len() == 0 {
        Seq::<u8>::empty()
    } else {
        entry_bytes(entries[0].0, entries[0].1) + pack_bytes(entries.drop_first())
    }
}

/// The fallback reading of name bytes that are not well-formed UTF-8: one
/// character per byte.
pub open spec fn latin1(bytes: Seq<u8>) -> Seq<char> {
    bytes.map_values(|b: u8| b as char)
}

/// How stored name bytes are read back: as UTF-8 where they form a valid
/// encoding (the inverse of how `pack` writes them), otherwise one
/// character per byte.
pub open spec fn name_chars(bytes: Seq<u8>) -> Seq<char> {
    if valid_utf8(bytes) {
        decode_utf8(bytes)
    } else {
        latin1(bytes)
    }
}

/// Relies on `str::from_utf8`, which succeeds exactly on well-formed UTF-8;
/// the returned slice views the same bytes, so its characters are their
/// UTF-8 decoding.
#[verifier::external_body]
fn utf8_string(bytes: &[u8]) -> (r: Option<String>)
    ensures
        r is Some <==> valid_utf8(bytes@),
        (r matches Some(decoded) ==> decoded@ == decode_utf8(bytes@)),
{
    match core::str::from_utf8(bytes) {
        Ok(s) => Some(s.to_string()),
        Err(_) => None,
    }
}

/// The position of the first nul byte at or after `i`, or the end of the
/// buffer if there is none.
pub open spec fn scan_name_end(bytes: Seq<u8>, i: int) -> int
    decreases bytes.len() - i when 0 <= i <= bytes.len()
{
    if i >= bytes.len() {
        bytes.len() as int
    } else if bytes[i] == 0 {
        i
    } else {
        scan_name_end(bytes, i + 1)
    }
}

/// The first nul position lies between the start of the scan and the end of
/// the buffer.
proof fn lemma_scan_name_end_bounds(bytes: Seq<u8>, i: int)
    requires
        0 <= i <= bytes.len(),
    ensures
        i <= scan_name_end(bytes, i) <= bytes.len(),
    decreases bytes.len() - i,
{
    if i < bytes.len() && bytes[i] != 0 {
        lemma_scan_name_end_bounds(bytes, i + 1);
    }
}

/// What `unpack` recovers from a buffer: entries are read in order until the
/// buffer ends, a zero-length name is met, or an entry is truncated.
pub open spec fn parse_entries(bytes: Seq<u8>) -> Seq<(Seq<char>, Seq<u8>)>
    decreases bytes.len() via parse_entries_decreases
{
    let j = scan_name_end(bytes, 0);
    if j == 0 {
        Seq::<(Seq<char>, Seq<u8>)>::empty()
    } else if j + 5 > bytes.len() {
        Seq::<(Seq<char>, Seq<u8>)>::empty()
    } else {
        let flen = spec_u32_from_le_bytes(bytes.subrange(j + 1, j + 5)) as int;
        if j + 5 + flen > bytes.len() {
            Seq::<(Seq<char>, Seq<u8>)>::empty()
        } else {
            seq![(name_chars(bytes.subrange(0, j)), bytes.subrange(j + 5, j + 5 + flen))]
                + parse_entries(bytes.subrange(j + 5 + flen, bytes.len() as int))
        }
    }
}

#[via_fn]
proof fn parse_entries_decreases(bytes: Seq<u8>) {
    lemma_scan_name_end_bounds(bytes, 0);
}

/// A file list as the mathematical sequence of its (name, content) pairs.
pub open spec fn entries_view(files: Seq<(String, Vec<u8>)>) -> Seq<(Seq<char>, Seq<u8>)> {
    files.map_values(|f: (String, Vec<u8>)| (f.0@, f.1@))
}

proof fn lemma_pack_bytes_push(entries: Seq<(Seq<char>, Seq<u8>)>, e: (Seq<char>, Seq<u8>))
    ensures
        pack_bytes(entries.push(e)) == pack_bytes(entries) + entry_bytes(e.0, e.1),
    decreases entries.len(),
{
    if entries.len() == 0 {
        assert(entries.push(e).drop_first() =~= Seq::<(Seq<char>, Seq<u8>)>::empty());
        assert(entries.push(e)[0] == e);
        assert(pack_bytes(entries.push(e))
            == entry_bytes(e.0, e.1) + pack_bytes(Seq::<(Seq<char>, Seq<u8>)>::empty()));
        assert(entry_bytes(e.0, e.1) + Seq::<u8>::empty() =~= entry_bytes(e.0, e.1));
        assert(pack_bytes(entries) + entry_bytes(e.0, e.1) =~= entry_bytes(e.0, e.1));
    } else {
        assert(entries.push(e).drop_first() =~= entries.drop_first().push(e));
        lemma_pack_bytes_push(entries.drop_first(), e);
        assert(pack_bytes(entries.push(e))
            == entry_bytes(entries[0].0, entries[0].1)
                + (pack_bytes(entries.drop_first()) + entry_bytes(e.0, e.1)));
        assert(entry_bytes(entries[0].0, entries[0].1)
                + (pack_bytes(entries.drop_first()) + entry_bytes(e.0, e.1))
            =~= (entry_bytes(entries[0].0, entries[0].1) + pack_bytes(entries.drop_first()))
                + entry_bytes(e.0, e.1));
    }
}

/// Packs a file list into one buffer, entry after entry.
pub fn pack(files: Vec<(String, Vec<u8>)>) -> (r: Vec<u8>)
    requires
        forall|i: int| 0 <= i < files@.len() ==> (#[trigger] files@[i]).1@.len() <= u32::MAX,
    ensures
        r@ == pack_bytes(entries_view(files@)),
{
    let mut fs: Vec<u8> = Vec::new();
    let mut idx: usize = 0;
    while idx < files.len()
        invariant
            idx <= files@.len(),
            forall|i: int| 0 <= i < files@.len() ==> (#[trigger] files@[i]).1@.len() <= u32::MAX,
            fs@ == pack_bytes(entries_view(files@.take(idx as int))),
        decreases files@.len() - idx,
    {
        let name_bytes: &[u8] = files[idx].0.as_str().as_bytes();
        fs.extend_from_slice(name_bytes);
        fs.push(0);
        let len32: u32 = files[idx].1.len() as u32;
        let len_bytes: Vec<u8> = u32_to_le_bytes(len32);
        fs.extend_from_slice(len_bytes.as_slice());
        fs.extend_from_slice(files[idx].1.as_slice());
        proof {
            let prev = entries_view(files@.take(idx as int));
            let e = (files@[idx as int].0@, files@[idx as int].1@);
            lemma_pack_bytes_push(prev, e);
            assert(entries_view(files@.take(idx as int + 1)) =~= prev.push(e));
            assert(fs@ =~= pack_bytes(prev) + entry_bytes(e.0, e.1));
        }
        idx += 1;
    }
    proof {
        assert(files@.take(files@.len() as int) =~= files@);
    }
    fs
}

/// The first nul at or after `n` is at `n` itself when every byte before it
/// in the scanned region is nonzero and `n` holds a nul or ends the buffer.
proof fn lemma_scan_name_end_at(bytes: Seq<u8>, i: int, n: int)
    requires
        0 <= i <= n <= bytes.len(),
        forall|k: int| i <= k < n ==> bytes[k] != 0,
        n == bytes.len() || bytes[n] == 0,
    ensures
        scan_name_end(bytes, i) == n,
    decreases n - i,
{
    if i < n {
        lemma_scan_name_end_at(bytes, i + 1, n);
    }
}

/// Unpacks a buffer into its file list, reading entries until the buffer
/// ends, a zero-length name is met, or an entry is truncated.
pub fn unpack(fs: Vec<u8>) -> (files: Vec<(String, Vec<u8>)>)
    ensures
        entries_view(files@) == parse_entries(fs@),
{
    let mut files: Vec<(String, Vec<u8>)> = Vec::new();
    let mut cursor: usize = 0;
    proof {
        assert(fs@.subrange(0, fs@.len() as int) =~= fs@);
        assert(entries_view(files@) =~= Seq::<(Seq<char>, Seq<u8>)>::empty());
        assert(entries_view(files@) + parse_entries(fs@) =~= parse_entries(fs@));
    }
    loop
        invariant
            cursor <= fs@.len(),
            parse_entries(fs@) == entries_view(files@)
                + parse_entries(fs@.subrange(cursor as int, fs@.len() as int)),
        ensures
            parse_entries(fs@) == entries_view(files@),
        decreases fs@.len() - cursor,
    {
        let ghost rest = fs@.subrange(cursor as int, fs@.len() as int);
        let mut name_end: usize = cursor;
        while name_end < fs.len() && fs[name_end] != 0
            invariant
                cursor <= name_end <= fs@.len(),
                forall|k: int| cursor <= k < name_end ==> fs@[k] != 0,
            decreases fs@.len() - name_end,
        {
            name_end += 1;
        }
        proof {
            assert(forall|k: int| 0 <= k < name_end - cursor ==> rest[k] == fs@[cursor + k]);
            lemma_scan_name_end_at(rest, 0, name_end - cursor);
            assert(scan_name_end(rest, 0) == name_end - cursor);
        }
        if name_end == cursor {
            // a zero-length name (or the end of the buffer) ends the list
            proof {
                assert(parse_entries(rest) =~= Seq::<(Seq<char>, Seq<u8>)>::empty());
                assert(entries_view(files@) + parse_entries(rest) =~= entries_view(files@));
            }
            break;
        }
        if fs.len() - name_end < 5 {
            // no room for the nul and the length field: a truncated entry
            proof {
                assert(parse_entries(rest) =~= Seq::<(Seq<char>, Seq<u8>)>::empty());
                assert(entries_view(files@) + parse_entries(rest) =~= entries_view(files@));
            }
            break;
        }
        let name_slice: &[u8] = vstd::slice::slice_subrange(fs.as_slice(), cursor, name_end);
        let name: String = match utf8_string(name_slice) {
            Some(decoded) => decoded,
            None => {
                let mut raw = String::new();
                let mut k: usize = cursor;
                while k < name_end
                    invariant
                        cursor <= k <= name_end <= fs@.len(),
                        raw@ == latin1(fs@.subrange(cursor as int, k as int)),
                    decreases name_end - k,
                {
                    let b: u8 = fs[k];
                    string_push_char(&mut raw, b as char);
                    proof {
                        assert(fs@.subrange(cursor as int, k as int + 1)
                            =~= fs@.subrange(cursor as int, k as int).push(b));
                        assert(latin1(fs@.subrange(cursor as int, k as int + 1))
                            =~= latin1(fs@.subrange(cursor as int, k as int)).push(b as char));
                    }
                    k += 1;
                }
                raw
            },
        };
        proof {
            assert(name@ == name_chars(fs@.subrange(cursor as int, name_end as int)));
        }
        let len_slice: &[u8] = vstd::slice::slice_subrange(fs.as_slice(), name_end + 1, name_end + 5);
        let flen32: u32 = u32_from_le_bytes(len_slice);
        proof {
            assert(rest.subrange(
                name_end - cursor + 1,
                name_end - cursor + 5,
            ) =~= fs@.subrange(name_end as int + 1, name_end as int + 5));
        }
        if fs.len() - (name_end + 5) < flen32 as usize {
            // the content runs past the end of the buffer: a truncated entry
            proof {
                assert(parse_entries(rest) =~= Seq::<(Seq<char>, Seq<u8>)>::empty());
                assert(entries_view(files@) + parse_entries(rest) =~= entries_view(files@));
            }
            break;
        }
        let flen: usize = flen32 as usize;
        let content_slice: &[u8] =
            vstd::slice::slice_subrange(fs.as_slice(), name_end + 5, name_end + 5 + flen);
        let content: Vec<u8> = vstd::slice::slice_to_vec(content_slice);
        proof {
            let j = name_end - cursor;
            let fl = flen as int;
            assert(fs@.subrange(cursor as int, name_end as int) =~= rest.subrange(0, j));
            assert(name@ =~= name_chars(rest.subrange(0, j)));
            assert(content@ =~= rest.subrange(j + 5, j + 5 + fl));
            assert(rest.subrange(j + 5 + fl, rest.len() as int)
                =~= fs@.subrange(name_end + 5 + fl, fs@.len() as int));
            assert(parse_entries(rest) == seq![(name@, content@)]
                + parse_entries(fs@.subrange(name_end + 5 + fl, fs@.len() as int)));
        }
        cursor = name_end + 5 + flen;
        files.push((name, content));
        proof {
            assert(entries_view(files@)
                =~= entries_view(files@.drop_last()).push((files@.last().0@, files@.last().1@)));
            assert(entries_view(files@) + parse_entries(fs@.subrange(cursor as int, fs@.len() as int))
                =~= entries_view(files@.drop_last())
                    + (seq![(files@.last().0@, files@.last().1@)]
                        + parse_entries(fs@.subrange(cursor as int, fs@.len() as int))));
        }
    }
    proof {
        assert(entries_view(files@) =~= parse_entries(fs@));
    }
    files
}

/// A character other than nul encodes to UTF-8 bytes that are all
/// nonzero: a one-byte encoding is the (nonzero) scalar itself, and every
/// leading or continuation byte of a longer encoding has a high bit set.
proof fn lemma_encode_scalar_nonzero(c: char)
    requires
        c != '\0',
    ensures
        1 <= vstd::utf8::encode_scalar(c as u32).len(),
        forall|k: int|
            0 <= k < vstd::utf8::encode_scalar(c as u32).len()
                ==> #[trigger] vstd::utf8::encode_scalar(c as u32)[k] != 0,
{
    vstd::utf8::char_is_scalar(c);
    let s = c as u32;
    vstd::utf8::char_u32_cast(c, (c as u32));
    if s == 0 {
        assert(('\0' as u32) == 0);
        vstd::utf8::char_u32_cast('\0', 0u32);
        assert(c == '\0');
    }
    let bytes = vstd::utf8::encode_scalar(s);
    if vstd::utf8::has_width_1_encoding(s) {
        assert(((s & 0x7F) as u8) != 0) by (bit_vector)
            requires
                s <= 0x7F,
                s != 0,
        ;
        assert(bytes[0] != 0);
    } else if vstd::utf8::has_width_2_encoding(s) {
        assert((0xC0u8 | (((s >> 6) & 0x1F) as u8)) != 0) by (bit_vector);
        assert((0x80u8 | ((s & 0x3F) as u8)) != 0) by (bit_vector);
        assert(bytes[0] != 0);
        assert(bytes[1] != 0);
    } else if vstd::utf8::has_width_3_encoding(s) {
        assert((0xE0u8 | (((s >> 12) & 0x0F) as u8)) != 0) by (bit_vector);
        assert((0x80u8 | (((s >> 6) & 0x3F) as u8)) != 0) by (bit_vector);
        assert((0x80u8 | ((s & 0x3F) as u8)) != 0) by (bit_vector);
        assert(bytes[0] != 0);
        assert(bytes[1] != 0);
        assert(bytes[2] != 0);
    } else {
        assert((0xF0u8 | (((s >> 18) & 0x7) as u8)) != 0) by (bit_vector);
        assert((0x80u8 | (((s >> 12) & 0x3F) as u8)) != 0) by (bit_vector);
        assert((0x80u8 | (((s >> 6) & 0x3F) as u8)) != 0) by (bit_vector);
        assert((0x80u8 | ((s & 0x3F) as u8)) != 0) by (bit_vector);
        assert(bytes[0] != 0);
        assert(bytes[1] != 0);
        assert(bytes[2] != 0);
        assert(bytes[3] != 0);
    }
}

/// A nul-free name encodes to nonzero bytes, at least one per character.
proof fn lemma_encode_utf8_nonzero(name: Seq<char>)
    requires
        forall|i: int| 0 <= i < name.len() ==> #[trigger] name[i] != '\0',
    ensures
        encode_utf8(name).len() >= name.len(),
        forall|k: int|
            0 <= k < encode_utf8(name).len() ==> #[trigger] encode_utf8(name)[k] != 0,
    decreases name.len(),
{
    if name.len() > 0 {
        lemma_encode_scalar_nonzero(name[0]);
        assert(forall|i: int|
            0 <= i < name.drop_first().len() ==> #[trigger] name.drop_first()[i] != '\0');
        lemma_encode_utf8_nonzero(name.drop_first());
        let head = vstd::utf8::encode_scalar(name[0] as u32);
        let tail = encode_utf8(name.drop_first());
        assert(encode_utf8(name) == head + tail);
        assert forall|k: int| 0 <= k < encode_utf8(name).len() implies #[trigger] encode_utf8(
            name,
        )[k] != 0 by {
            if k < head.len() {
                assert((head + tail)[k] == head[k]);
            } else {
                assert((head + tail)[k] == tail[k - head.len()]);
            }
        }
    }
}

/// Round trip: a packed file list parses back to exactly the entries that
/// were packed, provided each name is non-empty and free of nul characters
/// and each content fits the 4-byte length field.
pub proof fn lemma_pack_parse_round_trip(entries: Seq<(Seq<char>, Seq<u8>)>)
    requires
        forall|i: int| 0 <= i < entries.len() ==> (#[trigger] entries[i]).0.len() > 0,
        forall|i: int, k: int|
            0 <= i < entries.len() && 0 <= k < entries[i].0.len()
                ==> (#[trigger] entries[i].0[k]) != '\0',
        forall|i: int| 0 <= i < entries.len() ==> (#[trigger] entries[i]).1.len() <= u32::MAX,
    ensures
        parse_entries(pack_bytes(entries)) == entries,
    decreases entries.len(),
{
    lemma_auto_spec_u32_to_from_le_bytes();
    if entries.len() == 0 {
        assert(scan_name_end(pack_bytes(entries), 0) == 0);
        assert(parse_entries(pack_bytes(entries)) =~= entries);
    } else {
        let name = entries[0].0;
        let content = entries[0].1;
        let nb = encode_utf8(name);
        let whole = pack_bytes(entries);
        let rest = pack_bytes(entries.drop_first());
        let lb = spec_u32_to_le_bytes(content.len() as u32);
        assert(forall|k: int| 0 <= k < name.len() ==> #[trigger] name[k] != '\0') by {
            assert(forall|k: int|
                0 <= k < entries[0].0.len() ==> (#[trigger] entries[0].0[k]) != '\0');
        }
        lemma_encode_utf8_nonzero(name);
        assert(whole == entry_bytes(name, content) + rest);
        assert(whole =~= nb + seq![0u8] + lb + content + rest);
        let j = nb.len() as int;
        assert(j >= 1);
        assert forall|k: int| 0 <= k < j implies whole[k] != 0 by {
            assert(whole[k] == nb[k]);
        }
        assert(whole[j] == 0);
        lemma_scan_name_end_at(whole, 0, j);
        assert(scan_name_end(whole, 0) == j);
        assert(j + 5 <= whole.len());
        assert(whole.subrange(j + 1, j + 5) =~= lb);
        let flen = spec_u32_from_le_bytes(whole.subrange(j + 1, j + 5)) as int;
        assert(flen == content.len());
        assert(j + 5 + flen <= whole.len());
        assert(whole.subrange(j + 5, j + 5 + flen) =~= content);
        assert(whole.subrange(j + 5 + flen, whole.len() as int) =~= rest);
        assert(name_chars(whole.subrange(0, j)) == name) by {
            assert(whole.subrange(0, j) =~= nb);
            vstd::utf8::encode_utf8_valid_utf8(name);
            vstd::utf8::encode_utf8_decode_utf8(name);
        }
        lemma_pack_parse_round_trip(entries.drop_first());
        assert(parse_entries(whole)
            == seq![(name, content)] + parse_entries(whole.subrange(j + 5 + flen, whole.len() as int)));
        assert(seq![(name, content)] + entries.drop_first() =~= entries);
    }
}

} // verus!
