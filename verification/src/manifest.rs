//! The manifest of a large file: a magic line, the name of the file, and one chunk per line.

use vstd::prelude::*;
use vstd::utf8::*;

use crate::outside;
use crate::text;

verus! {

/// The first line of a manifest.
pub open spec fn magic() -> Seq<char> {
    "tgstate-blob"@
}

/// The bytes that a manifest begins with.
pub open spec fn magic_bytes() -> Seq<u8> {
    encode_utf8("tgstate-blob\n"@)
}

/// These bytes begin as a manifest does.
pub open spec fn has_magic(bytes: Seq<u8>) -> bool {
    magic_bytes().is_prefix_of(bytes)
}

/// The lines one after the other, each with a line feed behind it.
pub open spec fn joined_lines(lines: Seq<Seq<char>>) -> Seq<char>
    decreases lines.len(),
{
    if lines.len() == 0 {
        Seq::empty()
    } else {
        joined_lines(lines.drop_last()) + lines.last() + seq!['\n']
    }
}

/// The text of a manifest.
pub open spec fn manifest_text(filename: Seq<char>, chunk_ids: Seq<Seq<char>>) -> Seq<char> {
    "tgstate-blob\n"@ + filename + seq!['\n'] + joined_lines(chunk_ids)
}

/// The lines of the bytes of a manifest.
pub open spec fn manifest_lines(bytes: Seq<u8>) -> Seq<Seq<char>> {
    text::lines_of(outside::lossy_text(bytes))
}

/// A text that is one line: it holds no line feed, and no carriage return ends it.
pub open spec fn is_one_line(s: Seq<char>) -> bool {
    !s.contains('\n') && (s.len() > 0 ==> s.last() != '\r')
}

/// Tells whether the bytes begin as a manifest does.
pub fn is_manifest(bytes: &[u8]) -> (r: bool)
    ensures
        r == has_magic(bytes@),
{
    let m = "tgstate-blob\n".as_bytes();
    if bytes.len() < m.len() {
        return false;
    }
    let mut i: usize = 0;
    while i < m.len()
        invariant
            m@ == magic_bytes(),
            m@.len() <= bytes@.len(),
            i <= m@.len(),
            forall|j: int| 0 <= j < i ==> m@[j] == bytes@[j],
        decreases m@.len() - i,
    {
        if m[i] != bytes[i] {
            assert(bytes@.subrange(0, m@.len() as int)[i as int] != m@[i as int]);
            return false;
        }
        i = i + 1;
    }
    assert(m@ =~= bytes@.subrange(0, m@.len() as int));
    true
}

/// The lines of the bytes of a manifest.
pub fn read_lines(bytes: &[u8]) -> (r: Vec<String>)
    ensures
        text::strings_view(r@) == manifest_lines(bytes@),
{
    let s = outside::from_utf8_lossy(bytes);
    text::lines(s.as_str())
}

/// The lines of a list from `from` on.
pub fn lines_from(lines: &Vec<String>, from: usize) -> (r: Vec<String>)
    requires
        from <= lines@.len(),
    ensures
        text::strings_view(r@) == text::strings_view(lines@).skip(from as int),
{
    let mut r: Vec<String> = Vec::new();
    let mut i: usize = from;
    let ghost all = text::strings_view(lines@);
    while i < lines.len()
        invariant
            from <= i <= lines@.len(),
            all == text::strings_view(lines@),
            text::strings_view(r@) == all.subrange(from as int, i as int),
        decreases lines@.len() - i,
    {
        let ghost before = text::strings_view(r@);
        r.push(lines[i].clone());
        assert(text::strings_view(r@) =~= before.push(all[i as int]));
        assert(all.subrange(from as int, i + 1) =~= all.subrange(from as int, i as int).push(all[i as int]));
        i = i + 1;
    }
    assert(all.subrange(from as int, all.len() as int) =~= all.skip(from as int));
    r
}

proof fn lemma_joined_lines_first(lines: Seq<Seq<char>>)
    requires
        lines.len() > 0,
    ensures
        joined_lines(lines) == lines[0] + seq!['\n'] + joined_lines(lines.drop_first()),
    decreases lines.len(),
{
    if lines.len() == 1 {
        assert(joined_lines(lines.drop_last()) =~= Seq::<char>::empty());
        assert(joined_lines(lines.drop_first()) =~= Seq::<char>::empty());
        assert(joined_lines(lines) =~= lines[0] + seq!['\n'] + Seq::<char>::empty());
    } else {
        lemma_joined_lines_first(lines.drop_last());
        assert(lines.drop_last().drop_first() =~= lines.drop_first().drop_last());
        assert(lines.drop_last()[0] == lines[0]);
        assert(lines.drop_first().last() == lines.last());
        assert(joined_lines(lines) =~= lines[0] + seq!['\n'] + joined_lines(lines.drop_first()));
    }
}

proof fn lemma_lines_of_joined(lines: Seq<Seq<char>>)
    requires
        forall|i: int| 0 <= i < lines.len() ==> is_one_line(#[trigger] lines[i]),
    ensures
        text::lines_of(joined_lines(lines)) == lines,
    decreases lines.len(),
{
    if lines.len() == 0 {
        assert(lines =~= Seq::<Seq<char>>::empty());
    } else {
        lemma_joined_lines_first(lines);
        let rest = lines.drop_first();
        assert forall|i: int| 0 <= i < rest.len() implies is_one_line(#[trigger] rest[i]) by {
            assert(rest[i] == lines[i + 1]);
        }
        lemma_lines_of_joined(rest);
        text::lemma_lines_first(lines[0], joined_lines(rest));
        assert(seq![lines[0]] + rest =~= lines);
    }
}

/// What the reader makes of a manifest that the writer made: the bytes are taken for a manifest, the
/// second line is the name of the file, and the lines from the third on are the chunks in order.
pub proof fn law_manifest_round_trip(filename: Seq<char>, chunk_ids: Seq<Seq<char>>)
    requires
        is_one_line(filename),
        forall|i: int| 0 <= i < chunk_ids.len() ==> is_one_line(#[trigger] chunk_ids[i]),
    ensures
        ({
            let bytes = encode_utf8(manifest_text(filename, chunk_ids));
            &&& has_magic(bytes)
            &&& manifest_lines(bytes).len() == chunk_ids.len() + 2
            &&& manifest_lines(bytes)[0] == magic()
            &&& manifest_lines(bytes)[1] == filename
            &&& manifest_lines(bytes).skip(2) == chunk_ids
        }),
{
    let s = manifest_text(filename, chunk_ids);
    let bytes = encode_utf8(s);
    encode_utf8_valid_utf8(s);
    encode_utf8_decode_utf8(s);
    reveal_strlit("tgstate-blob");
    reveal_strlit("tgstate-blob\n");
    let tail = filename + seq!['\n'] + joined_lines(chunk_ids);
    assert(s =~= "tgstate-blob\n"@ + tail);
    text::lemma_encode_concat("tgstate-blob\n"@, tail);
    assert(magic_bytes() =~= bytes.subrange(0, magic_bytes().len() as int));
    assert(s =~= magic() + seq!['\n'] + tail);
    assert(is_one_line(magic()));
    text::lemma_lines_first(magic(), tail);
    text::lemma_lines_first(filename, joined_lines(chunk_ids));
    lemma_lines_of_joined(chunk_ids);
    let lines = seq![magic()] + (seq![filename] + chunk_ids);
    assert(manifest_lines(bytes) == lines);
    assert(lines.skip(2) =~= chunk_ids);
}

/// The first bytes of a manifest are enough to tell that it is one.
pub proof fn lemma_beginning_has_magic(bytes: Seq<u8>, n: int)
    requires
        has_magic(bytes),
        13 <= n,
    ensures
        has_magic(bytes.take(if bytes.len() <= n {
            bytes.len() as int
        } else {
            n
        })),
{
    reveal_strlit("tgstate-blob\n");
    text::lemma_byte_len("tgstate-blob\n"@);
    reveal_with_fuel(text::byte_len, 14);
    let m = magic_bytes();
    assert(m.len() == 13);
    let t = bytes.take(if bytes.len() <= n {
        bytes.len() as int
    } else {
        n
    });
    assert(t.subrange(0, 13) =~= bytes.subrange(0, 13));
}

/// Bytes are taken for a manifest exactly where they begin with its first line, whatever follows.
pub proof fn law_manifests_begin_with_the_magic_line(bytes: Seq<u8>, rest: Seq<u8>)
    ensures
        has_magic(encode_utf8("tgstate-blob\n"@) + rest),
        has_magic(bytes) ==> bytes == encode_utf8("tgstate-blob\n"@) + bytes.skip(13),
        encode_utf8("tgstate-blob\n"@).len() == 13,
{
    reveal_strlit("tgstate-blob\n");
    text::lemma_byte_len("tgstate-blob\n"@);
    reveal_with_fuel(text::byte_len, 14);
    let m = encode_utf8("tgstate-blob\n"@);
    let all = m + rest;
    assert(all.subrange(0, m.len() as int) =~= m);
    if has_magic(bytes) {
        assert(bytes =~= m + bytes.skip(13));
    }
}

/// The text of a manifest is the magic line, the name of the file, and a line for each chunk; one chunk
/// more is one line more at the end.
pub proof fn law_manifest_grows_by_lines(filename: Seq<char>, chunk_ids: Seq<Seq<char>>, id: Seq<char>)
    ensures
        manifest_text(filename, Seq::empty()) == "tgstate-blob\n"@ + filename + seq!['\n'],
        manifest_text(filename, chunk_ids.push(id)) == manifest_text(filename, chunk_ids) + id
            + seq!['\n'],
{
    assert(chunk_ids.push(id).drop_last() =~= chunk_ids);
    assert(joined_lines(Seq::<Seq<char>>::empty()) =~= Seq::<char>::empty());
    assert(manifest_text(filename, Seq::empty()) =~= "tgstate-blob\n"@ + filename + seq!['\n']);
    assert(manifest_text(filename, chunk_ids.push(id)) =~= manifest_text(filename, chunk_ids) + id
        + seq!['\n']);
}

} // verus!
