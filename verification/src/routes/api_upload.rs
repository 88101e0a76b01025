//! Uploads: names, chunks, the manifest, and what is undone when something fails.

use bytes::BytesMut;
use vstd::prelude::*;
use vstd::utf8::*;

use crate::config;
use crate::config::{AppSettingsMap, AppSettingsView};
use crate::database::{FileMetadata, FileView};
use crate::events;
use crate::json;
use crate::json::{Json, JsonView};
use crate::manifest;
use crate::outside;
use crate::reply;
use crate::reply::{Reply, ReplyView};
use crate::routes::api_files;
use crate::telegram::service;
use crate::telegram::service::TelegramService;
use crate::telegram::types::Message;
use crate::text;

verus! {

// ---------------------------------------------------------------------------------------------
// File names
// ---------------------------------------------------------------------------------------------

/// The last part of a path that names something: empty parts and `.` are passed over, and `..`
/// names nothing.
pub open spec fn last_component(parts: Seq<Seq<char>>) -> Option<Seq<char>>
    decreases parts.len(),
{
    if parts.len() == 0 {
        None
    } else {
        let p = parts.last();
        if p.len() == 0 || p == "."@ {
            last_component(parts.drop_last())
        } else if p == ".."@ {
            None
        } else {
            Some(p)
        }
    }
}

/// The characters that are not control characters.
pub open spec fn plain_chars(s: Seq<char>) -> Seq<char>
    decreases s.len(),
{
    if s.len() == 0 {
        Seq::empty()
    } else if text::is_control(s.last()) {
        plain_chars(s.drop_last())
    } else {
        plain_chars(s.drop_last()).push(s.last())
    }
}

/// The longest prefix that takes at most 255 bytes in UTF-8.
pub open spec fn capped(s: Seq<char>) -> Seq<char>
    decreases s.len(),
{
    if text::byte_len(s) <= 255 {
        s
    } else {
        capped(s.drop_last())
    }
}

/// The name under which a file with this name is stored.
pub open spec fn sanitized(raw: Seq<char>) -> Seq<char> {
    let name = match last_component(text::split_on(raw, '/')) {
        Some(n) => n,
        None => "upload"@,
    };
    let clean = plain_chars(name);
    if clean.len() == 0 {
        "upload"@
    } else {
        capped(clean)
    }
}

proof fn lemma_byte_len_prefix(s: Seq<char>, n: int)
    requires
        0 <= n <= s.len(),
    ensures
        text::byte_len(s.take(n)) <= text::byte_len(s),
    decreases s.len(),
{
    if n < s.len() {
        lemma_byte_len_prefix(s.drop_last(), n);
        assert(s.drop_last().take(n) =~= s.take(n));
    } else {
        assert(s.take(n) =~= s);
    }
}

proof fn lemma_capped(s: Seq<char>, n: int)
    requires
        0 <= n <= s.len(),
        text::byte_len(s.take(n)) <= 255,
        n < s.len() ==> text::byte_len(s.take(n + 1)) > 255,
    ensures
        capped(s) == s.take(n),
    decreases s.len(),
{
    if n < s.len() {
        lemma_byte_len_prefix(s, n + 1);
        let t = s.drop_last();
        assert(t.take(n) =~= s.take(n));
        if n < t.len() {
            assert(t.take(n + 1) =~= s.take(n + 1));
        }
        lemma_capped(t, n);
    } else {
        assert(s.take(n) =~= s);
    }
}

/// The last part of a path that names something.
fn base_name(raw: &str) -> (r: Option<String>)
    ensures
        text::opt_view(r) == last_component(text::split_on(raw@, '/')),
{
    let x = text::to_chars(raw);
    let mut end: usize = x.len();
    assert(x@.take(end as int) =~= raw@);
    loop
        invariant
            x@ == raw@,
            end <= x@.len(),
            last_component(text::split_on(raw@, '/')) == last_component(
                text::split_on(x@.take(end as int), '/'),
            ),
        decreases end,
    {
        let mut start: usize = end;
        while start > 0 && x[start - 1] != '/'
            invariant
                start <= end <= x@.len(),
                forall|j: int| start <= j < end ==> x@[j] != '/',
            decreases start,
        {
            start = start - 1;
        }
        let part = text::from_chars(&x, start, end);
        proof {
            let whole = x@.take(end as int);
            let p = part@;
            assert(!p.contains('/')) by {
                assert forall|j: int| 0 <= j < p.len() implies p[j] != '/' by {
                    assert(p[j] == x@[start + j]);
                }
            }
            text::lemma_position_found(p, '/');
            assert(text::split_on(p, '/') =~= seq![p]);
            if start > 0 {
                let head = x@.take(start - 1);
                assert(whole =~= head + seq!['/'] + p);
                text::lemma_split_on_join(head, '/', p);
                assert(text::split_on(whole, '/').last() == p);
                assert(text::split_on(whole, '/').drop_last() =~= text::split_on(head, '/'));
            } else {
                assert(whole =~= p);
                assert(text::split_on(whole, '/').drop_last() =~= Seq::<Seq<char>>::empty());
                assert(last_component(Seq::<Seq<char>>::empty()) is None);
            }
        }
        if start == end || text::str_eq(part.as_str(), ".") {
            if start == 0 {
                return None;
            }
            end = start - 1;
        } else if text::str_eq(part.as_str(), "..") {
            return None;
        } else {
            return Some(part);
        }
    }
}

/// The characters that are not control characters.
fn without_controls(s: &str) -> (r: Vec<char>)
    ensures
        r@ == plain_chars(s@),
{
    let x = text::to_chars(s);
    let mut r: Vec<char> = Vec::new();
    let mut i: usize = 0;
    assert(x@.take(0) =~= Seq::<char>::empty());
    while i < x.len()
        invariant
            x@ == s@,
            i <= x@.len(),
            r@ == plain_chars(x@.take(i as int)),
        decreases x@.len() - i,
    {
        proof {
            let t = x@.take(i + 1);
            assert(t.drop_last() =~= x@.take(i as int));
            assert(t.last() == x@[i as int]);
        }
        if !text::char_is_control(x[i]) {
            r.push(x[i]);
        }
        i = i + 1;
    }
    assert(x@.take(x@.len() as int) =~= s@);
    r
}

/// The name under which a file is stored: the last part of the path, without control characters and
/// no longer than 255 bytes; `upload` where nothing is left.
pub fn sanitize_filename(raw: &str) -> (r: String)
    ensures
        r@ == sanitized(raw@),
{
    let name = match base_name(raw) {
        Some(n) => n,
        None => String::from_str("upload"),
    };
    let clean = without_controls(name.as_str());
    if clean.len() == 0 {
        return String::from_str("upload");
    }
    let mut total: usize = 0;
    let mut n: usize = 0;
    assert(clean@.take(0) =~= Seq::<char>::empty());
    while n < clean.len()
        invariant_except_break
            n <= clean@.len(),
            total == text::byte_len(clean@.take(n as int)),
            total <= 255,
        ensures
            n <= clean@.len(),
            text::byte_len(clean@.take(n as int)) <= 255,
            n < clean@.len() ==> text::byte_len(clean@.take(n + 1)) > 255,
        decreases clean@.len() - n,
    {
        let w: usize = text::width_of(clean[n]);
        proof {
            let t = clean@.take(n + 1);
            assert(t.drop_last() =~= clean@.take(n as int));
            assert(t.last() == clean@[n as int]);
        }
        if total + w > 255 {
            break;
        }
        total = total + w;
        n = n + 1;
    }
    proof {
        lemma_capped(clean@, n as int);
        assert(clean@.subrange(0, n as int) =~= clean@.take(n as int));
    }
    text::from_chars(&clean, 0, n)
}

proof fn lemma_plain_chars(s: Seq<char>)
    ensures
        forall|i: int| 0 <= i < plain_chars(s).len() ==> !text::is_control(#[trigger] plain_chars(s)[i]),
        forall|i: int| 0 <= i < plain_chars(s).len() ==> s.contains(#[trigger] plain_chars(s)[i]),
    decreases s.len(),
{
    if s.len() > 0 {
        let t = s.drop_last();
        lemma_plain_chars(t);
        assert forall|i: int| 0 <= i < plain_chars(s).len() implies !text::is_control(
            #[trigger] plain_chars(s)[i],
        ) && s.contains(plain_chars(s)[i]) by {
            if i < plain_chars(t).len() {
                assert(plain_chars(s)[i] == plain_chars(t)[i]);
                let j = choose|j: int| 0 <= j < t.len() && t[j] == plain_chars(t)[i];
                assert(s[j] == t[j]);
            } else {
                assert(plain_chars(s)[i] == s[s.len() - 1]);
            }
        }
    }
}

proof fn lemma_plain_chars_same(s: Seq<char>)
    requires
        forall|i: int| 0 <= i < s.len() ==> !text::is_control(#[trigger] s[i]),
    ensures
        plain_chars(s) == s,
    decreases s.len(),
{
    if s.len() > 0 {
        assert(!text::is_control(s[s.len() - 1]));
        let t = s.drop_last();
        assert forall|i: int| 0 <= i < t.len() implies !text::is_control(#[trigger] t[i]) by {
            assert(t[i] == s[i]);
        }
        lemma_plain_chars_same(t);
        assert(t.push(s.last()) =~= s);
    }
}

proof fn lemma_capped_prefix(s: Seq<char>)
    ensures
        capped(s).len() <= s.len(),
        capped(s) == s.take(capped(s).len() as int),
        text::byte_len(capped(s)) <= 255,
        s.len() > 0 ==> capped(s).len() > 0,
    decreases s.len(),
{
    if text::byte_len(s) <= 255 {
        assert(s.take(s.len() as int) =~= s);
    } else {
        let t = s.drop_last();
        lemma_capped_prefix(t);
        if t.len() == 0 {
            assert(text::byte_len(t) == 0);
        }
        assert(t.take(capped(t).len() as int) =~= s.take(capped(t).len() as int));
    }
}

proof fn lemma_no_separator_in_parts(s: Seq<char>, c: char)
    ensures
        forall|i: int| 0 <= i < text::split_on(s, c).len() ==> !(#[trigger] text::split_on(s, c)[i]).contains(c),
    decreases s.len(),
{
    text::lemma_position_found(s, c);
    let p = text::position(s, c);
    if p < s.len() {
        let rest = s.skip(p as int + 1);
        lemma_no_separator_in_parts(rest, c);
        assert forall|i: int| 0 <= i < text::split_on(s, c).len() implies !(#[trigger] text::split_on(s, c)[i]).contains(c) by {
            if i == 0 {
                let head = s.take(p as int);
                assert forall|j: int| 0 <= j < head.len() implies head[j] != c by {
                    assert(head[j] == s[j]);
                }
            } else {
                assert(text::split_on(s, c)[i] == text::split_on(rest, c)[i - 1]);
            }
        }
    }
}

proof fn lemma_last_component(parts: Seq<Seq<char>>)
    ensures
        last_component(parts) matches Some(p) ==> parts.contains(p) && p.len() > 0,
    decreases parts.len(),
{
    if parts.len() > 0 {
        let p = parts.last();
        assert(parts.contains(p));
        lemma_last_component(parts.drop_last());
        match last_component(parts.drop_last()) {
            Some(q) => {
                let j = choose|j: int| 0 <= j < parts.drop_last().len() && parts.drop_last()[j] == q;
                assert(parts[j] == q);
            },
            None => {},
        }
    }
}

/// A stored name is never empty, holds no control character and no slash, takes at most 255 bytes,
/// and is one line, so it can stand in a manifest.
pub proof fn law_sanitized_name(raw: Seq<char>)
    ensures
        sanitized(raw).len() > 0,
        forall|i: int| 0 <= i < sanitized(raw).len() ==> !text::is_control(#[trigger] sanitized(raw)[i]),
        !sanitized(raw).contains('/'),
        text::byte_len(sanitized(raw)) <= 255,
        manifest::is_one_line(sanitized(raw)),
{
    reveal_strlit("upload");
    let parts = text::split_on(raw, '/');
    lemma_last_component(parts);
    lemma_no_separator_in_parts(raw, '/');
    let name = match last_component(parts) {
        Some(n) => n,
        None => "upload"@,
    };
    let clean = plain_chars(name);
    let r = sanitized(raw);
    lemma_plain_chars(name);
    lemma_capped_prefix(clean);
    assert forall|i: int| 0 <= i < name.len() implies name[i] != '/' by {
        assert(name.contains(name[i]));
    }
    if clean.len() == 0 {
        reveal_with_fuel(text::byte_len, 7);
    }
    assert forall|i: int| 0 <= i < r.len() implies !text::is_control(#[trigger] r[i]) && r[i] != '/' by {
        if clean.len() > 0 {
            assert(r[i] == clean[i]);
            assert(name.contains(clean[i]));
        }
    }
    assert(!r.contains('\n'));
}

/// Storing a stored name again changes nothing, unless removing control characters had left `.` or
/// `..` of the name.
pub proof fn law_sanitized_twice(raw: Seq<char>)
    requires
        sanitized(raw) != "."@,
        sanitized(raw) != ".."@,
    ensures
        sanitized(sanitized(raw)) == sanitized(raw),
{
    law_sanitized_name(raw);
    let r = sanitized(raw);
    text::lemma_position_found(r, '/');
    assert(text::split_on(r, '/') =~= seq![r]);
    assert(seq![r].last() == r);
    assert(last_component(text::split_on(r, '/')) == Some(r));
    lemma_plain_chars_same(r);
}

// ---------------------------------------------------------------------------------------------
// Concurrency
// ---------------------------------------------------------------------------------------------

/// The number of chunks to upload at a time that a setting asks for: a number from 1 to 16, with
/// white space round it; the default where the setting is anything else.
pub open spec fn concurrency(raw: Option<Seq<char>>, default: int) -> int {
    match raw {
        Some(v) => match text::unsigned_value(text::trimmed(v)) {
            Some(n) => if 1 <= n <= 16 {
                n as int
            } else {
                default
            },
            None => default,
        },
        None => default,
    }
}

/// The number of chunks to upload at a time, from the value of `UPLOAD_CONCURRENCY`.
pub fn parse_upload_concurrency(raw: Option<String>, default: usize) -> (r: usize)
    ensures
        r == concurrency(text::opt_view(raw), default as int),
{
    match raw {
        Some(v) => match text::parse_unsigned(text::trim(v.as_str()), 16) {
            Some(n) => if n >= 1 {
                n as usize
            } else {
                default
            },
            None => default,
        },
        None => default,
    }
}

// ---------------------------------------------------------------------------------------------
// Cutting an upload into chunks
// ---------------------------------------------------------------------------------------------

/// The bytes of the chunk at `index` of an upload cut into chunks of `size` bytes; the last may be
/// shorter.
pub open spec fn chunk_data(received: Seq<u8>, size: int, index: int) -> Seq<u8> {
    let from = index * size;
    let to = (index + 1) * size;
    received.subrange(from, if to <= received.len() {
        to
    } else {
        received.len() as int
    })
}

/// The name under which the chunk at `index` of a file is sent.
pub open spec fn part_name(filename: Seq<char>, index: int) -> Seq<char> {
    filename + ".part"@ + text::decimal((index + 1) as nat)
}

/// A chunk of an upload.
#[derive(Debug, PartialEq)]
pub struct Chunk {
    pub index: usize,
    pub name: String,
    pub data: Vec<u8>,
}

/// A chunk is the one at `index` of what was received.
pub open spec fn is_chunk(c: Chunk, filename: Seq<char>, received: Seq<u8>, size: int, index: int) -> bool {
    &&& c.index == index
    &&& c.name@ == part_name(filename, index)
    &&& c.data@ == chunk_data(received, size, index)
}

/// An upload that is being received.
pub struct Upload {
    pub filename: String,
    pub chunk_size: usize,
    pub total_size: usize,
    pub chunk_index: usize,
    pub buffer: BytesMut,
    pub received: Ghost<Seq<u8>>,
}

/// What is left to send once everything was received.
#[derive(Debug, PartialEq)]
pub enum UploadEnd {
    /// Nothing was received: the upload fails with this error.
    Refused(String),
    /// Less than a chunk was received: this is the whole file.
    Single(Vec<u8>),
    /// Chunks were handed out before; this is the rest behind them.
    Chunked(Option<Chunk>),
}

fn part_name_of(filename: &str, index: usize) -> (r: String)
    requires
        index < usize::MAX,
    ensures
        r@ == part_name(filename@, index as int),
{
    let mut r = String::from_str(filename);
    r.append(".part");
    text::push_decimal(&mut r, (index + 1) as u64);
    r
}

impl Upload {
    /// The chunks that were handed out are all the whole ones of what was received; the buffer holds
    /// what is behind them.
    pub open spec fn wf(&self) -> bool {
        let n = self.received@.len();
        &&& 0 < self.chunk_size
        &&& outside::buffer_len_ok(self.chunk_size as nat)
        &&& self.total_size == n
        &&& self.chunk_index * self.chunk_size <= n < (self.chunk_index + 1) * self.chunk_size
        &&& outside::buffered(self.buffer) == self.received@.skip(self.chunk_index * self.chunk_size)
    }

    /// Begins an upload.
    pub fn new(filename: &str, chunk_size: usize) -> (r: Self)
        requires
            0 < chunk_size,
            outside::buffer_len_ok(chunk_size as nat),
        ensures
            r.wf(),
            r.filename@ == filename@,
            r.chunk_size == chunk_size,
            r.received@ == Seq::<u8>::empty(),
    {
        let r = Upload {
            filename: String::from_str(filename),
            chunk_size,
            total_size: 0,
            chunk_index: 0,
            buffer: outside::buffer_with_capacity(chunk_size),
            received: Ghost(Seq::empty()),
        };
        proof {
            assert(r.received@.skip(0) =~= Seq::<u8>::empty());
            assert(0 * chunk_size == 0 && (0 + 1) * chunk_size == chunk_size) by (nonlinear_arith);
        }
        r
    }

    /// Takes in bytes, and hands out the chunks that they complete.
    pub fn receive(&mut self, bytes: &[u8]) -> (r: Vec<Chunk>)
        requires
            old(self).wf(),
            old(self).total_size + bytes@.len() <= usize::MAX,
            outside::buffer_len_ok((old(self).chunk_size + bytes@.len()) as nat),
        ensures
            final(self).wf(),
            final(self).filename@ == old(self).filename@,
            final(self).chunk_size == old(self).chunk_size,
            final(self).received@ == old(self).received@ + bytes@,
            r@.len() == final(self).chunk_index - old(self).chunk_index,
            forall|i: int|
                0 <= i < r@.len() ==> is_chunk(
                    #[trigger] r@[i],
                    old(self).filename@,
                    old(self).received@ + bytes@,
                    old(self).chunk_size as int,
                    old(self).chunk_index + i,
                ),
    {
        let mut r: Vec<Chunk> = Vec::new();
        let ghost all = self.received@ + bytes@;
        let size: usize = self.chunk_size;
        let ghost first: int = self.chunk_index as int;
        let name = self.filename.clone();
        proof {
            let k = self.chunk_index * self.chunk_size;
            assert((self.chunk_index + 1) * self.chunk_size == k + self.chunk_size) by (nonlinear_arith)
                requires
                    k == self.chunk_index * self.chunk_size,
            ;
            assert(self.received@.skip(k) + bytes@ =~= all.skip(k));
        }
        outside::buffer_extend(&mut self.buffer, bytes);
        self.total_size = self.total_size + bytes.len();
        self.received = Ghost(all);
        let mut held: usize = outside::buffer_len(&self.buffer);
        while held >= size
            invariant
                0 < size,
                outside::buffer_len_ok(size as nat),
                self.chunk_size == size,
                self.filename@ == old(self).filename@,
                name@ == self.filename@,
                self.received@ == all,
                self.total_size == all.len(),
                0 <= first <= self.chunk_index,
                r@.len() == self.chunk_index - first,
                self.chunk_index * size <= all.len(),
                outside::buffered(self.buffer) == all.skip(self.chunk_index * size),
                held == outside::buffered(self.buffer).len(),
                forall|i: int|
                    0 <= i < r@.len() ==> is_chunk(
                        #[trigger] r@[i],
                        old(self).filename@,
                        all,
                        size as int,
                        first + i,
                    ),
            decreases held,
        {
            let index: usize = self.chunk_index;
            proof {
                let k = index * size;
                assert((index + 1) * size == k + size) by (nonlinear_arith)
                    requires
                        k == index * size,
                ;
                assert(index <= k) by (nonlinear_arith)
                    requires
                        k == index * size,
                        size > 0,
                ;
                assert(all.skip(k).take(size as int) =~= chunk_data(all, size as int, index as int));
                assert(all.skip(k).skip(size as int) =~= all.skip(k + size));
            }
            let data = outside::buffer_split_to(&mut self.buffer, size);
            self.chunk_index = index + 1;
            r.push(Chunk { index, name: part_name_of(name.as_str(), index), data });
            held = outside::buffer_len(&self.buffer);
        }
        proof {
            let k = self.chunk_index * self.chunk_size;
            assert((self.chunk_index + 1) * self.chunk_size == k + self.chunk_size) by (nonlinear_arith)
                requires
                    k == self.chunk_index * self.chunk_size,
            ;
        }
        r
    }

    /// Ends an upload: what is left to send.
    pub fn finish(self) -> (r: UploadEnd)
        requires
            self.wf(),
        ensures
            is_rest(self, r),
    {
        let index: usize = self.chunk_index;
        let ghost size = self.chunk_size as int;
        let ghost k = index * size;
        let held: usize = outside::buffer_len(&self.buffer);
        proof {
            assert((index + 1) * size == k + size) by (nonlinear_arith)
                requires
                    k == index * size,
            ;
            assert(index <= k) by (nonlinear_arith)
                requires
                    k == index * size,
                    size > 0,
            ;
            if index == 0 {
                assert(k == 0) by (nonlinear_arith)
                    requires
                        k == index * size,
                        index == 0,
                ;
                assert(self.received@.skip(0) =~= self.received@);
            }
            assert(self.received@.skip(k) =~= chunk_data(self.received@, size, index as int));
        }
        if index == 0 {
            if held == 0 {
                return UploadEnd::Refused(String::from_str("文件为空"));
            }
            return UploadEnd::Single(outside::buffer_into_vec(self.buffer));
        }
        if held == 0 {
            return UploadEnd::Chunked(None);
        }
        let name = part_name_of(self.filename.as_str(), index);
        let data = outside::buffer_into_vec(self.buffer);
        UploadEnd::Chunked(Some(Chunk { index, name, data }))
    }
}

/// What is left to send of an upload once everything was received.
pub open spec fn is_rest(upload: Upload, end: UploadEnd) -> bool {
    match end {
        UploadEnd::Refused(e) => upload.received@.len() == 0 && e@ == "文件为空"@,
        UploadEnd::Single(data) => 0 < upload.received@.len() < upload.chunk_size && data@
            == upload.received@,
        UploadEnd::Chunked(Some(c)) => {
            &&& upload.chunk_index > 0
            &&& upload.received@.len() > upload.chunk_index * upload.chunk_size
            &&& is_chunk(
                c,
                upload.filename@,
                upload.received@,
                upload.chunk_size as int,
                upload.chunk_index as int,
            )
        },
        UploadEnd::Chunked(None) => {
            &&& upload.chunk_index > 0
            &&& upload.received@.len() == upload.chunk_index * upload.chunk_size
        },
    }
}

/// Byte texts one after the other.
pub open spec fn concatenated(parts: Seq<Seq<u8>>) -> Seq<u8>
    decreases parts.len(),
{
    if parts.len() == 0 {
        Seq::empty()
    } else {
        concatenated(parts.drop_last()) + parts.last()
    }
}

/// The chunks of `received`, of which there are `count`.
pub open spec fn chunks_of(received: Seq<u8>, size: int, count: nat) -> Seq<Seq<u8>> {
    Seq::new(count, |k: int| chunk_data(received, size, k))
}

proof fn lemma_whole_chunks(received: Seq<u8>, size: int, count: nat)
    requires
        size > 0,
        count * size <= received.len(),
    ensures
        concatenated(chunks_of(received, size, count)) == received.take(count * size),
    decreases count,
{
    let parts = chunks_of(received, size, count);
    if count == 0 {
        assert(0 * size == 0) by (nonlinear_arith);
        assert(received.take(0) =~= Seq::<u8>::empty());
    } else {
        let less = (count - 1) as nat;
        assert(count * size == less * size + size && 0 <= less * size) by (nonlinear_arith)
            requires
                count == less + 1,
                size > 0,
        ;
        assert((less + 1) * size == count * size);
        lemma_whole_chunks(received, size, less);
        assert(parts.drop_last() =~= chunks_of(received, size, less));
        assert(received.take(less * size) + chunk_data(received, size, less as int) =~= received.take(
            count * size,
        ));
    }
}

/// The chunks of an upload, put together in order, are the upload. There are as many as it takes,
/// and none is empty or longer than a chunk may be.
pub proof fn law_chunks_make_up_the_upload(received: Seq<u8>, size: int, count: nat)
    requires
        size > 0,
        (count - 1) * size < received.len() <= count * size,
    ensures
        concatenated(chunks_of(received, size, count)) == received,
        forall|k: int|
            0 <= k < count ==> 0 < (#[trigger] chunks_of(received, size, count)[k]).len() <= size,
{
    if count > 0 {
        let less = (count - 1) as nat;
        let parts = chunks_of(received, size, count);
        assert(count * size == less * size + size && 0 <= less * size) by (nonlinear_arith)
            requires
                count == less + 1,
                size > 0,
        ;
        lemma_whole_chunks(received, size, less);
        assert(parts.drop_last() =~= chunks_of(received, size, less));
        assert((less + 1) * size == count * size);
        assert(received.take(less * size) + chunk_data(received, size, less as int) =~= received);
        assert forall|k: int| 0 <= k < count implies 0 < (#[trigger] parts[k]).len() <= size by {
            assert(k * size <= less * size && (k + 1) * size == k * size + size && 0 <= k * size)
                by (nonlinear_arith)
                requires
                    0 <= k <= less,
                    size > 0,
            ;
        }
    } else {
        assert((count - 1) * size == -size) by (nonlinear_arith)
            requires
                count == 0,
        ;
        assert(0 * size == 0) by (nonlinear_arith);
        assert(received =~= Seq::<u8>::empty());
    }
}

// ---------------------------------------------------------------------------------------------
// Identifiers of chunks
// ---------------------------------------------------------------------------------------------

/// The identifier `message:file` of a document.
pub open spec fn composite(message_id: i64, file_id: Seq<char>) -> Seq<char> {
    text::decimal_signed(message_id as int) + seq![':'] + file_id
}

fn composite_id(message_id: i64, file_id: &str) -> (r: String)
    ensures
        r@ == composite(message_id, file_id@),
{
    let mut r = String::new();
    text::push_decimal_signed(&mut r, message_id);
    r.push(':');
    r.append(file_id);
    assert(r@ =~= composite(message_id, file_id@));
    r
}

/// The message of a chunk, from its identifier `message:file`.
pub fn chunk_message_id(composite: &str) -> (r: Option<i64>)
    ensures
        r == service::chunk_message(composite@),
{
    match text::str_split_once(composite, ':') {
        Some((m, _)) => text::parse_i64(m),
        None => None,
    }
}

/// Taking apart the identifier of a document gives back its message and its file.
pub proof fn law_composite_round_trip(message_id: i64, file_id: Seq<char>)
    ensures
        service::composite_parts(composite(message_id, file_id)) == Ok::<_, Seq<char>>(
            (message_id, file_id),
        ),
        service::chunk_message(composite(message_id, file_id)) == Some(message_id),
{
    text::lemma_decimal_round_trip(message_id as int);
    text::lemma_split_once_join(text::decimal_signed(message_id as int), ':', file_id);
}

/// The messages that a list of identifiers names, in order.
pub open spec fn messages_of(composites: Seq<Seq<char>>) -> Seq<i64>
    decreases composites.len(),
{
    if composites.len() == 0 {
        Seq::empty()
    } else {
        match service::chunk_message(composites.last()) {
            Some(m) => messages_of(composites.drop_last()).push(m),
            None => messages_of(composites.drop_last()),
        }
    }
}

/// What is undone of an upload that failed, and why it failed.
#[derive(Debug, PartialEq)]
pub struct Abandoned {
    /// The messages to delete, in order.
    pub delete_messages: Vec<i64>,
    pub error: String,
}

/// An upload is given up: the message of the manifest goes, where it was sent, and those of all the
/// chunks.
pub open spec fn is_abandoned(
    a: Abandoned,
    manifest_message: Option<i64>,
    composites: Seq<Seq<char>>,
    error: Seq<char>,
) -> bool {
    &&& a.error@ == error
    &&& a.delete_messages@ == match manifest_message {
        Some(m) => seq![m] + messages_of(composites),
        None => messages_of(composites),
    }
}

fn abandon(manifest_message: Option<i64>, composites: &Vec<String>, error: String) -> (r: Abandoned)
    ensures
        is_abandoned(r, manifest_message, text::strings_view(composites@), error@),
{
    let ghost ids = text::strings_view(composites@);
    let mut delete_messages: Vec<i64> = Vec::new();
    if let Some(m) = manifest_message {
        delete_messages.push(m);
    }
    let ghost head = delete_messages@;
    let mut i: usize = 0;
    proof {
        assert(ids.take(0) =~= Seq::<Seq<char>>::empty());
        assert(messages_of(ids.take(0)) =~= Seq::<i64>::empty());
        assert(head + Seq::<i64>::empty() =~= head);
    }
    while i < composites.len()
        invariant
            ids == text::strings_view(composites@),
            i <= composites@.len(),
            delete_messages@ == head + messages_of(ids.take(i as int)),
        decreases composites@.len() - i,
    {
        proof {
            let t = ids.take(i + 1);
            assert(t.drop_last() =~= ids.take(i as int));
            assert(t.last() == composites@[i as int]@);
        }
        if let Some(m) = chunk_message_id(composites[i].as_str()) {
            delete_messages.push(m);
        }
        assert(delete_messages@ =~= head + messages_of(ids.take(i + 1)));
        i = i + 1;
    }
    proof {
        assert(ids.take(ids.len() as int) =~= ids);
        match manifest_message {
            Some(m) => assert(head =~= seq![m]),
            None => assert(head + messages_of(ids) =~= messages_of(ids)),
        }
    }
    Abandoned { delete_messages, error }
}

/// When an upload is given up, the message of every chunk that was sent is among those deleted.
pub proof fn law_every_sent_chunk_is_deleted(sent: Seq<(i64, Seq<char>)>)
    ensures
        messages_of(sent.map_values(|p: (i64, Seq<char>)| composite(p.0, p.1))) == sent.map_values(
            |p: (i64, Seq<char>)| p.0,
        ),
    decreases sent.len(),
{
    let ids = sent.map_values(|p: (i64, Seq<char>)| composite(p.0, p.1));
    let messages = sent.map_values(|p: (i64, Seq<char>)| p.0);
    if sent.len() > 0 {
        let less = sent.drop_last();
        law_every_sent_chunk_is_deleted(less);
        assert(ids.drop_last() =~= less.map_values(|p: (i64, Seq<char>)| composite(p.0, p.1)));
        law_composite_round_trip(sent.last().0, sent.last().1);
        assert(messages =~= less.map_values(|p: (i64, Seq<char>)| p.0).push(sent.last().0));
    } else {
        assert(messages =~= Seq::<i64>::empty());
    }
}

// ---------------------------------------------------------------------------------------------
// The order of chunks
// ---------------------------------------------------------------------------------------------

/// Chunks that were uploaded: the index of each, and its identifier.
pub open spec fn pairs_view(s: Seq<(usize, String)>) -> Seq<(usize, Seq<char>)> {
    s.map_values(|p: (usize, String)| (p.0, p.1@))
}

/// The identifiers of chunks.
pub open spec fn ids_of(s: Seq<(usize, Seq<char>)>) -> Seq<Seq<char>> {
    s.map_values(|p: (usize, Seq<char>)| p.1)
}

/// The identifiers that came with an index, in the order in which they came.
pub open spec fn ids_at(s: Seq<(usize, Seq<char>)>, index: usize) -> Seq<Seq<char>>
    decreases s.len(),
{
    if s.len() == 0 {
        Seq::empty()
    } else if s.last().0 == index {
        ids_at(s.drop_last(), index).push(s.last().1)
    } else {
        ids_at(s.drop_last(), index)
    }
}

/// No index comes before a lower one.
pub open spec fn indexes_ascend(s: Seq<(usize, Seq<char>)>) -> bool {
    forall|i: int, j: int| 0 <= i < j < s.len() ==> (#[trigger] s[i]).0 <= (#[trigger] s[j]).0
}

/// `sorted` is `s` in ascending order of the indexes; those with one index stay in their order.
pub open spec fn is_sorted_of(sorted: Seq<(usize, Seq<char>)>, s: Seq<(usize, Seq<char>)>) -> bool {
    &&& indexes_ascend(sorted)
    &&& sorted.len() == s.len()
    &&& forall|k: usize| #[trigger] ids_at(sorted, k) == ids_at(s, k)
}

proof fn lemma_ids_at_concat(a: Seq<(usize, Seq<char>)>, b: Seq<(usize, Seq<char>)>, k: usize)
    ensures
        ids_at(a + b, k) == ids_at(a, k) + ids_at(b, k),
    decreases b.len(),
{
    if b.len() == 0 {
        assert(a + b =~= a);
        assert(ids_at(a, k) + ids_at(b, k) =~= ids_at(a, k));
    } else {
        lemma_ids_at_concat(a, b.drop_last(), k);
        assert((a + b).drop_last() =~= a + b.drop_last());
        assert((a + b).last() == b.last());
        assert(ids_at(a + b, k) =~= ids_at(a, k) + ids_at(b, k));
    }
}

proof fn lemma_ids_at_none(s: Seq<(usize, Seq<char>)>, k: usize)
    requires
        forall|i: int| 0 <= i < s.len() ==> (#[trigger] s[i]).0 != k,
    ensures
        ids_at(s, k) == Seq::<Seq<char>>::empty(),
    decreases s.len(),
{
    if s.len() > 0 {
        assert(s[s.len() - 1].0 != k);
        let t = s.drop_last();
        assert forall|i: int| 0 <= i < t.len() implies (#[trigger] t[i]).0 != k by {
            assert(t[i] == s[i]);
        }
        lemma_ids_at_none(t, k);
    }
}

proof fn lemma_insert_keeps_order(
    sorted: Seq<(usize, Seq<char>)>,
    s: Seq<(usize, Seq<char>)>,
    at: int,
    x: (usize, Seq<char>),
)
    requires
        is_sorted_of(sorted, s),
        0 <= at <= sorted.len(),
        forall|i: int| 0 <= i < at ==> (#[trigger] sorted[i]).0 < x.0,
        at < sorted.len() ==> sorted[at].0 >= x.0,
    ensures
        is_sorted_of(sorted.insert(at, x), seq![x] + s),
{
    let r = sorted.insert(at, x);
    let a = sorted.take(at);
    let b = sorted.skip(at);
    assert(r =~= a + (seq![x] + b));
    assert(sorted =~= a + b);
    assert forall|i: int, j: int| 0 <= i < j < r.len() implies (#[trigger] r[i]).0 <= (#[trigger] r[j]).0 by {
        let p = if i < at { i } else { i - 1 };
        let q = if j < at { j } else { j - 1 };
        if i != at {
            assert(r[i] == sorted[p]);
        }
        if j != at {
            assert(r[j] == sorted[q]);
        }
        if i == at && q > at {
            assert(sorted[at].0 <= sorted[q].0);
        }
    }
    assert forall|k: usize| #[trigger] ids_at(r, k) == ids_at(seq![x] + s, k) by {
        lemma_ids_at_concat(a, seq![x] + b, k);
        lemma_ids_at_concat(seq![x], b, k);
        lemma_ids_at_concat(a, b, k);
        lemma_ids_at_concat(seq![x], s, k);
        assert(ids_at(sorted, k) == ids_at(s, k));
        assert(seq![x].drop_last() =~= Seq::<(usize, Seq<char>)>::empty());
        assert(ids_at(Seq::<(usize, Seq<char>)>::empty(), k) =~= Seq::<Seq<char>>::empty());
        if k == x.0 {
            assert forall|i: int| 0 <= i < a.len() implies (#[trigger] a[i]).0 != k by {
                assert(a[i] == sorted[i]);
            }
            lemma_ids_at_none(a, k);
            assert(ids_at(r, k) =~= ids_at(seq![x] + s, k));
        } else {
            assert(ids_at(seq![x], k) =~= Seq::<Seq<char>>::empty());
            assert(ids_at(r, k) =~= ids_at(seq![x] + s, k));
        }
    }
}

proof fn lemma_ids_at_last(p: Seq<(usize, Seq<char>)>, q: Seq<(usize, Seq<char>)>)
    requires
        p.len() > 0,
        indexes_ascend(q),
        forall|k: usize| #[trigger] ids_at(p, k) == ids_at(q, k),
    ensures
        q.len() > 0,
        p.last().0 <= q.last().0,
{
    let k = p.last().0;
    assert(ids_at(p, k).len() > 0);
    assert(ids_at(p, k) == ids_at(q, k));
    lemma_index_is_found(q, k);
    let i = choose|i: int| 0 <= i < q.len() && (#[trigger] q[i]).0 == k;
    if i < q.len() - 1 {
        assert(q[i].0 <= q[q.len() - 1].0);
    }
}

proof fn lemma_same_order(p: Seq<(usize, Seq<char>)>, q: Seq<(usize, Seq<char>)>)
    requires
        indexes_ascend(p),
        indexes_ascend(q),
        p.len() == q.len(),
        forall|k: usize| #[trigger] ids_at(p, k) == ids_at(q, k),
    ensures
        p == q,
    decreases p.len(),
{
    if p.len() > 0 {
        lemma_ids_at_last(p, q);
        lemma_ids_at_last(q, p);
        let m = p.last().0;
        let p1 = p.drop_last();
        let q1 = q.drop_last();
        assert(ids_at(p, m) == ids_at(q, m));
        assert(ids_at(p, m).last() == p.last().1 && ids_at(q, m).last() == q.last().1);
        assert forall|k: usize| #[trigger] ids_at(p1, k) == ids_at(q1, k) by {
            assert(ids_at(p, k) == ids_at(q, k));
            if k == m {
                assert(ids_at(p1, k) =~= ids_at(p, k).drop_last());
                assert(ids_at(q1, k) =~= ids_at(q, k).drop_last());
            }
        }
        assert(indexes_ascend(p1)) by {
            assert forall|i: int, j: int| 0 <= i < j < p1.len() implies (#[trigger] p1[i]).0 <= (#[trigger] p1[j]).0 by {
                assert(p1[i] == p[i] && p1[j] == p[j]);
            }
        }
        assert(indexes_ascend(q1)) by {
            assert forall|i: int, j: int| 0 <= i < j < q1.len() implies (#[trigger] q1[i]).0 <= (#[trigger] q1[j]).0 by {
                assert(q1[i] == q[i] && q1[j] == q[j]);
            }
        }
        lemma_same_order(p1, q1);
        assert(p1.push(p.last()) =~= p);
        assert(q1.push(q.last()) =~= q);
    } else {
        assert(p =~= q);
    }
}

/// Chunks have one order: there is no choice in it.
pub proof fn law_one_order(
    s: Seq<(usize, Seq<char>)>,
    sorted: Seq<(usize, Seq<char>)>,
    other: Seq<(usize, Seq<char>)>,
)
    requires
        is_sorted_of(sorted, s),
        is_sorted_of(other, s),
    ensures
        sorted == other,
{
    assert forall|k: usize| #[trigger] ids_at(sorted, k) == ids_at(other, k) by {
        assert(ids_at(sorted, k) == ids_at(s, k));
    }
    lemma_same_order(sorted, other);
}

/// The identifiers of uploaded chunks in the order of their indexes, whichever order they were
/// uploaded in.
pub fn assemble_ordered_chunk_ids(results: Vec<(usize, String)>) -> (r: Vec<String>)
    ensures
        exists|sorted: Seq<(usize, Seq<char>)>| #[trigger] is_sorted_of(sorted, pairs_view(results@)),
        forall|sorted: Seq<(usize, Seq<char>)>| #[trigger]
            is_sorted_of(sorted, pairs_view(results@)) ==> text::strings_view(r@) == ids_of(sorted),
{
    let mut rest = results;
    let ghost all = pairs_view(results@);
    let mut sorted: Vec<(usize, String)> = Vec::new();
    let ghost mut taken = Seq::<(usize, Seq<char>)>::empty();
    proof {
        assert(pairs_view(sorted@) =~= Seq::<(usize, Seq<char>)>::empty());
        assert(all =~= pairs_view(rest@) + taken);
    }
    while rest.len() > 0
        invariant
            all == pairs_view(rest@) + taken,
            is_sorted_of(pairs_view(sorted@), taken),
        decreases rest@.len(),
    {
        let ghost before = pairs_view(rest@);
        let ghost before_sorted = pairs_view(sorted@);
        if let Some(pair) = rest.pop() {
            let ghost x = (pair.0, pair.1@);
            let n: usize = sorted.len();
            let mut at: usize = 0;
            while at < n && sorted[at].0 < pair.0
                invariant
                    n == sorted@.len(),
                    at <= n,
                    forall|i: int| 0 <= i < at ==> (#[trigger] pairs_view(sorted@)[i]).0 < pair.0,
                decreases n - at,
            {
                at = at + 1;
            }
            proof {
                if at < n {
                    assert(before_sorted[at as int].0 == sorted@[at as int].0);
                }
                lemma_insert_keeps_order(before_sorted, taken, at as int, x);
            }
            sorted.insert(at, pair);
            proof {
                assert(pairs_view(sorted@) =~= before_sorted.insert(at as int, x));
                assert(before =~= pairs_view(rest@).push(x));
                assert(all =~= pairs_view(rest@) + (seq![x] + taken));
                taken = seq![x] + taken;
            }
        }
    }
    let ghost last = pairs_view(sorted@);
    proof {
        assert(pairs_view(rest@) + taken =~= taken);
    }
    let mut r: Vec<String> = Vec::new();
    let mut i: usize = 0;
    while i < sorted.len()
        invariant
            last == pairs_view(sorted@),
            i <= sorted@.len(),
            r@.len() == i,
            forall|j: int| 0 <= j < i ==> (#[trigger] r@[j])@ == last[j].1,
        decreases sorted@.len() - i,
    {
        r.push(sorted[i].1.clone());
        i = i + 1;
    }
    proof {
        assert(text::strings_view(r@) =~= ids_of(last));
        assert(is_sorted_of(last, all));
        assert forall|other: Seq<(usize, Seq<char>)>| #[trigger]
            is_sorted_of(other, all) implies text::strings_view(r@) == ids_of(other) by {
            law_one_order(all, last, other);
        }
    }
    r
}

proof fn lemma_two_at_one_index(s: Seq<(usize, Seq<char>)>, i: int, j: int)
    requires
        0 <= i < j < s.len(),
        s[i].0 == s[j].0,
    ensures
        ids_at(s, s[i].0).len() >= 2,
{
    let k = s[i].0;
    let a = s.take(i);
    let b = s.subrange(i + 1, j);
    let c = s.skip(j + 1);
    let x = seq![s[i]];
    let y = seq![s[j]];
    assert(s =~= a + (x + (b + (y + c))));
    lemma_ids_at_concat(a, x + (b + (y + c)), k);
    lemma_ids_at_concat(x, b + (y + c), k);
    lemma_ids_at_concat(b, y + c, k);
    lemma_ids_at_concat(y, c, k);
    assert(x.last() == s[i] && y.last() == s[j]);
    assert(ids_at(x, k).len() >= 1);
    assert(ids_at(y, k).len() >= 1);
}

proof fn lemma_one_at_index(s: Seq<(usize, Seq<char>)>, i: int)
    requires
        0 <= i < s.len(),
        forall|j: int| 0 <= j < s.len() && j != i ==> (#[trigger] s[j]).0 != s[i].0,
    ensures
        ids_at(s, s[i].0) == seq![s[i].1],
{
    let k = s[i].0;
    let a = s.take(i);
    let c = s.skip(i + 1);
    let x = seq![s[i]];
    assert(s =~= a + (x + c));
    assert forall|j: int| 0 <= j < a.len() implies (#[trigger] a[j]).0 != k by {
        assert(a[j] == s[j]);
    }
    assert forall|j: int| 0 <= j < c.len() implies (#[trigger] c[j]).0 != k by {
        assert(c[j] == s[i + 1 + j]);
    }
    lemma_ids_at_none(a, k);
    lemma_ids_at_none(c, k);
    lemma_ids_at_concat(a, x + c, k);
    lemma_ids_at_concat(x, c, k);
    assert(x.drop_last() =~= Seq::<(usize, Seq<char>)>::empty());
    assert(ids_at(x.drop_last(), k) =~= Seq::<Seq<char>>::empty());
    assert(x.last() == s[i]);
    assert(ids_at(x, k) =~= seq![s[i].1]);
    assert(ids_at(s, k) =~= seq![s[i].1]);
}

proof fn lemma_index_is_found(s: Seq<(usize, Seq<char>)>, k: usize)
    requires
        ids_at(s, k).len() > 0,
    ensures
        exists|i: int| 0 <= i < s.len() && (#[trigger] s[i]).0 == k,
{
    if forall|i: int| 0 <= i < s.len() ==> (#[trigger] s[i]).0 != k {
        lemma_ids_at_none(s, k);
    }
}

proof fn lemma_indexes_fill(s: Seq<(usize, Seq<char>)>, sorted: Seq<(usize, Seq<char>)>)
    requires
        is_sorted_of(sorted, s),
        forall|a: int| 0 <= a < s.len() ==> (#[trigger] s[a]).0 < s.len(),
        forall|a: int, b: int| 0 <= a < b < s.len() ==> (#[trigger] s[a]).0 != (#[trigger] s[b]).0,
    ensures
        forall|a: int| 0 <= a < s.len() ==> (#[trigger] sorted[a]).0 == a,
{
    let n = s.len() as int;
    assert forall|a: int, b: int| 0 <= a < b < n implies (#[trigger] sorted[a]).0 < (#[trigger] sorted[b]).0 by {
        if sorted[a].0 == sorted[b].0 {
            let k = sorted[a].0;
            lemma_two_at_one_index(sorted, a, b);
            assert(ids_at(sorted, k) == ids_at(s, k));
            lemma_index_is_found(s, k);
            let c = choose|c: int| 0 <= c < s.len() && (#[trigger] s[c]).0 == k;
            lemma_one_at_index(s, c);
        }
    }
    assert forall|a: int| 0 <= a < n implies (#[trigger] sorted[a]).0 < n by {
        let k = sorted[a].0;
        let x = sorted.take(a);
        let y = sorted.skip(a + 1);
        assert(sorted =~= x + (seq![sorted[a]] + y));
        lemma_ids_at_concat(x, seq![sorted[a]] + y, k);
        lemma_ids_at_concat(seq![sorted[a]], y, k);
        assert(seq![sorted[a]].last() == sorted[a]);
        assert(ids_at(seq![sorted[a]], k).len() >= 1);
        assert(ids_at(sorted, k) == ids_at(s, k));
        lemma_index_is_found(s, k);
    }
    assert forall|a: int| 0 <= a < n implies (#[trigger] sorted[a]).0 == a by {
        lemma_at_least(sorted, n, a);
        lemma_at_most(sorted, n, a);
    }
}

/// Where every index below the number of chunks came with one chunk, the identifier that stands at
/// an index in the order is the one that came with it.
pub proof fn law_order_restores_index(s: Seq<(usize, Seq<char>)>, sorted: Seq<(usize, Seq<char>)>, i: int)
    requires
        is_sorted_of(sorted, s),
        forall|a: int| 0 <= a < s.len() ==> (#[trigger] s[a]).0 < s.len(),
        forall|a: int, b: int| 0 <= a < b < s.len() ==> (#[trigger] s[a]).0 != (#[trigger] s[b]).0,
        0 <= i < s.len(),
    ensures
        ids_of(sorted)[s[i].0 as int] == s[i].1,
{
    lemma_indexes_fill(s, sorted);
    let k = s[i].0;
    lemma_one_at_index(s, i);
    assert(ids_at(sorted, k) == ids_at(s, k));
    lemma_one_at_index(sorted, k as int);
    assert(seq![sorted[k as int].1][0] == seq![s[i].1][0]);
}

/// Where every index below the number of chunks came with one chunk, the identifier at a place of
/// the order came with the index of that place.
pub proof fn law_order_fills_the_places(
    s: Seq<(usize, Seq<char>)>,
    sorted: Seq<(usize, Seq<char>)>,
    place: int,
) -> (i: int)
    requires
        is_sorted_of(sorted, s),
        forall|a: int| 0 <= a < s.len() ==> (#[trigger] s[a]).0 < s.len(),
        forall|a: int, b: int| 0 <= a < b < s.len() ==> (#[trigger] s[a]).0 != (#[trigger] s[b]).0,
        0 <= place < s.len(),
    ensures
        0 <= i < s.len(),
        s[i].0 == place,
        ids_of(sorted)[place] == s[i].1,
{
    lemma_indexes_fill(s, sorted);
    let k = sorted[place].0;
    let x = sorted.take(place);
    let y = sorted.skip(place + 1);
    assert(sorted =~= x + (seq![sorted[place]] + y));
    lemma_ids_at_concat(x, seq![sorted[place]] + y, k);
    lemma_ids_at_concat(seq![sorted[place]], y, k);
    assert(seq![sorted[place]].last() == sorted[place]);
    assert(ids_at(seq![sorted[place]], k).len() >= 1);
    assert(ids_at(sorted, k) == ids_at(s, k));
    lemma_index_is_found(s, k);
    let i = choose|i: int| 0 <= i < s.len() && (#[trigger] s[i]).0 == k;
    law_order_restores_index(s, sorted, i);
    i
}

proof fn lemma_at_least(sorted: Seq<(usize, Seq<char>)>, n: int, a: int)
    requires
        sorted.len() == n,
        forall|a: int, b: int| 0 <= a < b < n ==> (#[trigger] sorted[a]).0 < (#[trigger] sorted[b]).0,
        0 <= a < n,
    ensures
        sorted[a].0 >= a,
    decreases a,
{
    if a > 0 {
        lemma_at_least(sorted, n, a - 1);
        assert(sorted[a - 1].0 < sorted[a].0);
    }
}

proof fn lemma_at_most(sorted: Seq<(usize, Seq<char>)>, n: int, a: int)
    requires
        sorted.len() == n,
        forall|a: int, b: int| 0 <= a < b < n ==> (#[trigger] sorted[a]).0 < (#[trigger] sorted[b]).0,
        forall|a: int| 0 <= a < n ==> (#[trigger] sorted[a]).0 < n,
        0 <= a < n,
    ensures
        sorted[a].0 <= a,
    decreases n - a,
{
    if a < n - 1 {
        lemma_at_most(sorted, n, a + 1);
        assert(sorted[a].0 < sorted[a + 1].0);
    }
}

// ---------------------------------------------------------------------------------------------
// The manifest
// ---------------------------------------------------------------------------------------------

/// The text of a manifest: the magic line, the name of the file, and one line for each chunk.
pub fn build_blob_manifest(filename: &str, chunk_ids: &Vec<String>) -> (r: String)
    ensures
        r@ == manifest::manifest_text(filename@, text::strings_view(chunk_ids@)),
{
    let ghost ids = text::strings_view(chunk_ids@);
    let mut r = String::from_str("tgstate-blob\n");
    r.append(filename);
    r.push('\n');
    let ghost head = r@;
    let mut i: usize = 0;
    proof {
        assert(head =~= "tgstate-blob\n"@ + filename@ + seq!['\n']);
        assert(ids.take(0) =~= Seq::<Seq<char>>::empty());
        assert(manifest::joined_lines(ids.take(0)) =~= Seq::<char>::empty());
        assert(head + Seq::<char>::empty() =~= head);
    }
    while i < chunk_ids.len()
        invariant
            ids == text::strings_view(chunk_ids@),
            i <= chunk_ids@.len(),
            r@ == head + manifest::joined_lines(ids.take(i as int)),
        decreases chunk_ids@.len() - i,
    {
        r.append(chunk_ids[i].as_str());
        r.push('\n');
        proof {
            let t = ids.take(i + 1);
            assert(t.drop_last() =~= ids.take(i as int));
            assert(t.last() == chunk_ids@[i as int]@);
            assert(r@ =~= head + manifest::joined_lines(t));
        }
        i = i + 1;
    }
    assert(ids.take(ids.len() as int) =~= ids);
    r
}

// ---------------------------------------------------------------------------------------------
// From chunks to a stored file
// ---------------------------------------------------------------------------------------------

/// What became of sending a document.
pub open spec fn sent_document(sent: Result<Message, Seq<char>>, missing: Seq<char>) -> Result<
    Seq<char>,
    Seq<char>,
> {
    match sent {
        Ok(m) => match m.document {
            Some(d) => Ok(composite(m.message_id, d.file_id@)),
            None => Err(missing),
        },
        Err(e) => Err(e),
    }
}

/// A result with the text of its error.
pub open spec fn sent_view(sent: Result<Message, String>) -> Result<Message, Seq<char>> {
    match sent {
        Ok(m) => Ok(m),
        Err(e) => Err(e@),
    }
}

fn document_id(sent: Result<Message, String>, missing: &str) -> (r: Result<String, String>)
    ensures
        service::result_view(r) == sent_document(sent_view(sent), missing@),
{
    match sent {
        Ok(m) => match m.document {
            Some(d) => Ok(composite_id(m.message_id, d.file_id.as_str())),
            None => Err(String::from_str(missing)),
        },
        Err(e) => Err(e),
    }
}

/// The identifier of a file that was sent whole.
pub fn single_sent(sent: Result<Message, String>) -> (r: Result<String, String>)
    ensures
        service::result_view(r) == sent_document(sent_view(sent), "No document in response"@),
{
    document_id(sent, "No document in response")
}

/// What became of the task that uploads a chunk.
#[derive(Debug, PartialEq)]
pub enum TaskOutcome {
    /// The chunk at this index has this identifier.
    Uploaded(usize, String),
    /// The chunk could not be uploaded.
    Failed(String),
    /// The task itself failed.
    Broken(String),
}

/// What became of a chunk whose document was sent.
pub open spec fn is_sent_chunk(index: usize, sent: Result<Message, String>, r: TaskOutcome) -> bool {
    match sent_document(sent_view(sent), "No document in chunk response"@) {
        Ok(id) => r matches TaskOutcome::Uploaded(i, c) && i == index && c@ == id,
        Err(e) => r matches TaskOutcome::Failed(f) && f@ == e,
    }
}

/// What became of a chunk whose document was sent.
pub fn chunk_sent(index: usize, sent: Result<Message, String>) -> (r: TaskOutcome)
    ensures
        is_sent_chunk(index, sent, r),
{
    match document_id(sent, "No document in chunk response") {
        Ok(id) => TaskOutcome::Uploaded(index, id),
        Err(e) => TaskOutcome::Failed(e),
    }
}

/// The chunks that were uploaded, in the order of the tasks.
pub open spec fn uploaded(outcomes: Seq<TaskOutcome>) -> Seq<(usize, Seq<char>)>
    decreases outcomes.len(),
{
    if outcomes.len() == 0 {
        Seq::empty()
    } else {
        let less = uploaded(outcomes.drop_last());
        match outcomes.last() {
            TaskOutcome::Uploaded(i, c) => less.push((i, c@)),
            _ => less,
        }
    }
}

/// The error of the first task that failed.
pub open spec fn first_error(outcomes: Seq<TaskOutcome>) -> Option<Seq<char>>
    decreases outcomes.len(),
{
    if outcomes.len() == 0 {
        None
    } else {
        match first_error(outcomes.drop_last()) {
            Some(e) => Some(e),
            None => match outcomes.last() {
                TaskOutcome::Uploaded(_, _) => None,
                TaskOutcome::Failed(e) => Some(e@),
                TaskOutcome::Broken(e) => Some("上传任务异常: "@ + e@),
            },
        }
    }
}

fn gather(outcomes: &Vec<TaskOutcome>) -> (r: (Vec<(usize, String)>, Option<String>))
    ensures
        pairs_view(r.0@) == uploaded(outcomes@),
        text::opt_view(r.1) == first_error(outcomes@),
{
    let mut done: Vec<(usize, String)> = Vec::new();
    let mut error: Option<String> = None;
    let mut i: usize = 0;
    proof {
        assert(outcomes@.take(0) =~= Seq::<TaskOutcome>::empty());
        assert(pairs_view(done@) =~= uploaded(outcomes@.take(0)));
    }
    while i < outcomes.len()
        invariant
            i <= outcomes@.len(),
            pairs_view(done@) == uploaded(outcomes@.take(i as int)),
            text::opt_view(error) == first_error(outcomes@.take(i as int)),
        decreases outcomes@.len() - i,
    {
        let ghost before = pairs_view(done@);
        proof {
            let t = outcomes@.take(i + 1);
            assert(t.drop_last() =~= outcomes@.take(i as int));
            assert(t.last() == outcomes@[i as int]);
        }
        match &outcomes[i] {
            TaskOutcome::Uploaded(index, id) => {
                done.push((*index, id.clone()));
                assert(pairs_view(done@) =~= before.push((*index, id@)));
            },
            TaskOutcome::Failed(e) => {
                if error.is_none() {
                    error = Some(e.clone());
                }
            },
            TaskOutcome::Broken(e) => {
                if error.is_none() {
                    error = Some(service::joined("上传任务异常: ", e.as_str()));
                }
            },
        }
        i = i + 1;
    }
    assert(outcomes@.take(outcomes@.len() as int) =~= outcomes@);
    (done, error)
}

fn only_ids(pairs: &Vec<(usize, String)>) -> (r: Vec<String>)
    ensures
        text::strings_view(r@) == ids_of(pairs_view(pairs@)),
{
    let mut r: Vec<String> = Vec::new();
    let mut i: usize = 0;
    while i < pairs.len()
        invariant
            i <= pairs@.len(),
            r@.len() == i,
            forall|j: int| 0 <= j < i ==> (#[trigger] r@[j])@ == pairs@[j].1@,
        decreases pairs@.len() - i,
    {
        r.push(pairs[i].1.clone());
        i = i + 1;
    }
    assert(text::strings_view(r@) =~= ids_of(pairs_view(pairs@)));
    r
}

/// The upload cannot be read to its end: what was cut off is never stored, and every chunk that was
/// uploaded goes.
pub fn read_failed(outcomes: &Vec<TaskOutcome>, error: &str) -> (r: Abandoned)
    ensures
        is_abandoned(r, None, ids_of(uploaded(outcomes@)), "读取上传数据失败: "@ + error@),
{
    let (done, _) = gather(outcomes);
    abandon(None, &only_ids(&done), service::joined("读取上传数据失败: ", error))
}

/// A manifest that is to be sent: the name and the text of its document, and the chunks that it
/// names.
#[derive(Debug, PartialEq)]
pub struct PendingManifest {
    pub name: String,
    pub text: String,
    pub chunk_ids: Vec<String>,
}

/// What all tasks come to. Where none failed, a manifest is to be sent that names the chunks in order.
/// Where one did, every chunk that was uploaded goes.
pub open spec fn tasks_over(
    filename: Seq<char>,
    outcomes: Seq<TaskOutcome>,
    r: Result<PendingManifest, Abandoned>,
) -> bool {
    match first_error(outcomes) {
        None => {
            &&& r is Ok
            &&& r->Ok_0.name@ == filename + ".manifest"@
            &&& r->Ok_0.text@ == manifest::manifest_text(
                filename,
                text::strings_view(r->Ok_0.chunk_ids@),
            )
            &&& exists|sorted: Seq<(usize, Seq<char>)>| #[trigger] is_sorted_of(sorted, uploaded(outcomes))
            &&& forall|sorted: Seq<(usize, Seq<char>)>| #[trigger]
                is_sorted_of(sorted, uploaded(outcomes)) ==> text::strings_view(r->Ok_0.chunk_ids@)
                    == ids_of(sorted)
        },
        Some(e) => r matches Err(a) && is_abandoned(a, None, ids_of(uploaded(outcomes)), e),
    }
}

/// All tasks have ended. Where none failed, a manifest is to be sent that names the chunks in order.
/// Where one did, every chunk that was uploaded goes.
pub fn chunks_uploaded(filename: &str, outcomes: &Vec<TaskOutcome>) -> (r: Result<
    PendingManifest,
    Abandoned,
>)
    ensures
        tasks_over(filename@, outcomes@, r),
{
    let (done, error) = gather(outcomes);
    match error {
        Some(e) => Err(abandon(None, &only_ids(&done), e)),
        None => {
            let chunk_ids = assemble_ordered_chunk_ids(done);
            Ok(
                PendingManifest {
                    name: service::joined(filename, ".manifest"),
                    text: build_blob_manifest(filename, &chunk_ids),
                    chunk_ids,
                },
            )
        },
    }
}

/// A manifest that was sent.
#[derive(Debug, PartialEq)]
pub struct SentManifest {
    pub message_id: i64,
    pub composite: String,
}

/// The manifest was sent, or could not be: then every chunk goes, and the message of the manifest
/// where there is one.
pub fn manifest_sent(sent: Result<Message, String>, chunk_ids: &Vec<String>) -> (r: Result<
    SentManifest,
    Abandoned,
>)
    ensures
        match sent {
            Ok(m) => match m.document {
                Some(d) => r matches Ok(s) && s.message_id == m.message_id && s.composite@ == composite(
                    m.message_id,
                    d.file_id@,
                ),
                None => r matches Err(a) && is_abandoned(
                    a,
                    Some(m.message_id),
                    text::strings_view(chunk_ids@),
                    "No document in manifest response"@,
                ),
            },
            Err(e) => r matches Err(a) && is_abandoned(a, None, text::strings_view(chunk_ids@), e@),
        },
{
    match sent {
        Ok(m) => match m.document {
            Some(d) => Ok(
                SentManifest {
                    message_id: m.message_id,
                    composite: composite_id(m.message_id, d.file_id.as_str()),
                },
            ),
            None => Err(
                abandon(
                    Some(m.message_id),
                    chunk_ids,
                    String::from_str("No document in manifest response"),
                ),
            ),
        },
        Err(e) => Err(abandon(None, chunk_ids, e)),
    }
}

/// The file was recorded, or could not be: then the manifest and every chunk go.
pub fn manifest_recorded(
    recorded: Result<String, String>,
    manifest_message: i64,
    chunk_ids: &Vec<String>,
) -> (r: Result<String, Abandoned>)
    ensures
        match recorded {
            Ok(id) => r matches Ok(s) && s@ == id@,
            Err(e) => r matches Err(a) && is_abandoned(
                a,
                Some(manifest_message),
                text::strings_view(chunk_ids@),
                e@,
            ),
        },
{
    match recorded {
        Ok(id) => Ok(id),
        Err(e) => Err(abandon(Some(manifest_message), chunk_ids, e)),
    }
}

// ---------------------------------------------------------------------------------------------
// The course of an upload
// ---------------------------------------------------------------------------------------------

/// How far an upload has come.
#[derive(Debug, PartialEq)]
pub enum UploadStage {
    /// Its bytes come in.
    Receiving,
    /// The whole file is being sent.
    SendingWhole,
    /// Its chunks are being sent.
    SendingChunks,
    /// Its manifest is being sent, which names these chunks.
    SendingManifest(Vec<String>),
    /// It is being recorded; with the message of its manifest and its chunks, where it has them.
    Recording(Option<(i64, Vec<String>)>),
    /// It has ended.
    Over,
}

/// What happened in the course of an upload.
#[derive(Debug, PartialEq)]
pub enum UploadEvent {
    /// The bytes broke off with this error, and the tasks came to this.
    BrokeOff { error: String, outcomes: Vec<TaskOutcome> },
    /// All bytes are in, so many of them, and this is left to send.
    Received { end: UploadEnd, total_size: usize },
    /// A document was sent, or could not be.
    Sent(Result<Message, String>),
    /// All tasks have ended.
    TasksEnded(Vec<TaskOutcome>),
    /// The file was recorded under a short identifier, or could not be.
    Recorded(Result<String, String>),
}

/// A file that is to be recorded.
#[derive(Debug, PartialEq)]
pub struct NewFile {
    pub filename: String,
    pub file_id: String,
    pub filesize: i64,
}

/// What is done next in the course of an upload.
#[derive(Debug, PartialEq)]
pub enum UploadStep {
    /// Send this as the file.
    SendWhole(Vec<u8>),
    /// Upload this chunk, where there is one, and wait for all tasks.
    AwaitTasks(Option<Chunk>),
    /// Send a document with this name and this text.
    SendManifest { name: String, text: String },
    /// Record this file.
    Record(NewFile),
    /// The file is stored under this short identifier.
    Stored(String),
    /// The upload has failed.
    Failed(Abandoned),
}

/// An upload in its course.
#[derive(Debug, PartialEq)]
pub struct UploadCourse {
    pub filename: String,
    /// How many bytes came in, once all are in.
    pub filesize: i64,
    pub stage: UploadStage,
}

/// A file is recorded under its name and its size, with this identifier.
pub open spec fn records(step: UploadStep, upload: UploadCourse, file_id: Seq<char>) -> bool {
    step matches UploadStep::Record(n) && n.filename@ == upload.filename@ && n.file_id@ == file_id
        && n.filesize == upload.filesize
}

/// An event is one that a stage waits for.
pub open spec fn is_awaited(stage: UploadStage, event: UploadEvent) -> bool {
    match stage {
        UploadStage::Receiving => event is BrokeOff || event is Received,
        UploadStage::SendingWhole => event is Sent,
        UploadStage::SendingChunks => event is TasksEnded,
        UploadStage::SendingManifest(_) => event is Sent,
        UploadStage::Recording(_) => event is Recorded,
        UploadStage::Over => false,
    }
}

/// The upload has failed: it is over, and this is taken back.
pub open spec fn gives_up(
    after: UploadCourse,
    step: UploadStep,
    manifest_message: Option<i64>,
    composites: Seq<Seq<char>>,
    error: Seq<char>,
) -> bool {
    &&& after.stage is Over
    &&& step matches UploadStep::Failed(a) && is_abandoned(a, manifest_message, composites, error)
}

/// What an event does to an upload.
pub open spec fn course(before: UploadCourse, event: UploadEvent, after: UploadCourse, step: UploadStep) -> bool {
    match (before.stage, event) {
        (UploadStage::Receiving, UploadEvent::BrokeOff { error, outcomes }) => gives_up(
            after,
            step,
            None,
            ids_of(uploaded(outcomes@)),
            "读取上传数据失败: "@ + error@,
        ),
        (UploadStage::Receiving, UploadEvent::Received { end, total_size: _ }) => match end {
            UploadEnd::Refused(e) => gives_up(after, step, None, Seq::empty(), e@),
            UploadEnd::Single(data) => {
                &&& after.stage is SendingWhole
                &&& step matches UploadStep::SendWhole(d) && d@ == data@
            },
            UploadEnd::Chunked(last) => {
                &&& after.stage is SendingChunks
                &&& step == UploadStep::AwaitTasks(last)
            },
        },
        (UploadStage::SendingWhole, UploadEvent::Sent(sent)) => match sent_document(
            sent_view(sent),
            "No document in response"@,
        ) {
            Ok(id) => {
                &&& after.stage == UploadStage::Recording(None)
                &&& records(step, before, id)
            },
            Err(e) => gives_up(after, step, None, Seq::empty(), e),
        },
        (UploadStage::SendingChunks, UploadEvent::TasksEnded(outcomes)) => match first_error(outcomes@) {
            None => {
                &&& after.stage is SendingManifest
                &&& sends_manifest(
                    step,
                    before.filename@,
                    text::strings_view(after.stage->SendingManifest_0@),
                )
                &&& exists|sorted: Seq<(usize, Seq<char>)>| #[trigger]
                    is_sorted_of(sorted, uploaded(outcomes@)) && text::strings_view(
                        after.stage->SendingManifest_0@,
                    ) == ids_of(sorted)
            },
            Some(e) => gives_up(after, step, None, ids_of(uploaded(outcomes@)), e),
        },
        (UploadStage::SendingManifest(ids), UploadEvent::Sent(sent)) => match sent {
            Ok(m) => match m.document {
                Some(d) => {
                    &&& after.stage == UploadStage::Recording(Some((m.message_id, ids)))
                    &&& records(step, before, composite(m.message_id, d.file_id@))
                },
                None => gives_up(
                    after,
                    step,
                    Some(m.message_id),
                    text::strings_view(ids@),
                    "No document in manifest response"@,
                ),
            },
            Err(e) => gives_up(after, step, None, text::strings_view(ids@), e@),
        },
        (UploadStage::Recording(parts), UploadEvent::Recorded(recorded)) => match recorded {
            Ok(id) => {
                &&& after.stage is Over
                &&& step matches UploadStep::Stored(i) && i@ == id@
            },
            Err(e) => match parts {
                Some((m, ids)) => gives_up(after, step, Some(m), text::strings_view(ids@), e@),
                None => gives_up(after, step, None, Seq::empty(), e@),
            },
        },
        _ => true,
    }
}

/// The size of an upload after an event: what came in, once all is in.
pub open spec fn size_after(before: UploadCourse, event: UploadEvent) -> i64 {
    match event {
        UploadEvent::Received { end: _, total_size } => total_size as i64,
        _ => before.filesize,
    }
}

/// A manifest is sent that names these chunks.
pub open spec fn sends_manifest(step: UploadStep, filename: Seq<char>, chunk_ids: Seq<Seq<char>>) -> bool {
    step matches UploadStep::SendManifest { name, text } && name@ == filename + ".manifest"@ && text@
        == manifest::manifest_text(filename, chunk_ids)
}

fn fail(error: String) -> (r: UploadStep)
    ensures
        r matches UploadStep::Failed(a) && is_abandoned(a, None, Seq::empty(), error@),
{
    let none: Vec<String> = Vec::new();
    assert(text::strings_view(none@) =~= Seq::<Seq<char>>::empty());
    UploadStep::Failed(abandon(None, &none, error))
}

impl UploadCourse {
    /// An upload begins.
    pub fn begin(filename: &str) -> (r: Self)
        ensures
            r.filename@ == filename@,
            r.filesize == 0,
            r.stage is Receiving,
    {
        UploadCourse {
            filename: String::from_str(filename),
            filesize: 0,
            stage: UploadStage::Receiving,
        }
    }

    fn new_file(&self, file_id: String) -> (r: NewFile)
        ensures
            r.filename@ == self.filename@,
            r.file_id@ == file_id@,
            r.filesize == self.filesize,
    {
        NewFile { filename: self.filename.clone(), file_id, filesize: self.filesize }
    }

    /// What is done next in the course of an upload. A small file is sent whole and recorded. Of a
    /// large one the chunks are sent, then a manifest that names them in order, and the manifest is
    /// recorded. Whatever fails, the chunks that have an identifier are taken back, and the manifest
    /// with them. A document that was sent whole stays.
    pub fn stream_upload_to_telegram(&mut self, event: UploadEvent) -> (r: UploadStep)
        requires
            is_awaited(old(self).stage, event),
        ensures
            course(*old(self), event, *final(self), r),
            final(self).filename@ == old(self).filename@,
            final(self).filesize == size_after(*old(self), event),
    {
        let mut stage = UploadStage::Over;
        core::mem::swap(&mut stage, &mut self.stage);
        match event {
            UploadEvent::BrokeOff { error, outcomes } => {
                UploadStep::Failed(read_failed(&outcomes, error.as_str()))
            },
            UploadEvent::Received { end, total_size } => {
                self.filesize = total_size as i64;
                match end {
                    UploadEnd::Refused(e) => fail(e),
                    UploadEnd::Single(data) => {
                        self.stage = UploadStage::SendingWhole;
                        UploadStep::SendWhole(data)
                    },
                    UploadEnd::Chunked(last) => {
                        self.stage = UploadStage::SendingChunks;
                        UploadStep::AwaitTasks(last)
                    },
                }
            },
            UploadEvent::Sent(sent) => match stage {
                UploadStage::SendingManifest(chunk_ids) => match manifest_sent(sent, &chunk_ids) {
                    Ok(m) => {
                        self.stage = UploadStage::Recording(Some((m.message_id, chunk_ids)));
                        UploadStep::Record(self.new_file(m.composite))
                    },
                    Err(a) => UploadStep::Failed(a),
                },
                _ => match single_sent(sent) {
                    Ok(id) => {
                        self.stage = UploadStage::Recording(None);
                        UploadStep::Record(self.new_file(id))
                    },
                    Err(e) => fail(e),
                },
            },
            UploadEvent::TasksEnded(outcomes) => match chunks_uploaded(self.filename.as_str(), &outcomes) {
                Ok(pending) => {
                    proof {
                        let sorted = choose|sorted: Seq<(usize, Seq<char>)>| #[trigger]
                            is_sorted_of(sorted, uploaded(outcomes@));
                        assert(is_sorted_of(sorted, uploaded(outcomes@)));
                    }
                    self.stage = UploadStage::SendingManifest(pending.chunk_ids);
                    UploadStep::SendManifest { name: pending.name, text: pending.text }
                },
                Err(a) => UploadStep::Failed(a),
            },
            UploadEvent::Recorded(recorded) => match stage {
                UploadStage::Recording(Some((message_id, chunk_ids))) => {
                    match manifest_recorded(recorded, message_id, &chunk_ids) {
                        Ok(id) => UploadStep::Stored(id),
                        Err(a) => UploadStep::Failed(a),
                    }
                },
                _ => match recorded {
                    Ok(id) => UploadStep::Stored(id),
                    Err(e) => fail(e),
                },
            },
        }
    }
}

/// What is done next always leads to an event that the upload then waits for, until it is over.
pub proof fn law_steps_lead_to_awaited_events(
    before: UploadCourse,
    event: UploadEvent,
    after: UploadCourse,
    step: UploadStep,
    next: UploadEvent,
)
    requires
        is_awaited(before.stage, event),
        course(before, event, after, step),
    ensures
        match step {
            UploadStep::SendWhole(_) => next is Sent ==> is_awaited(after.stage, next),
            UploadStep::AwaitTasks(_) => next is TasksEnded ==> is_awaited(after.stage, next),
            UploadStep::SendManifest { name: _, text: _ } => next is Sent ==> is_awaited(
                after.stage,
                next,
            ),
            UploadStep::Record(_) => next is Recorded ==> is_awaited(after.stage, next),
            UploadStep::Stored(_) => after.stage is Over,
            UploadStep::Failed(_) => after.stage is Over,
        },
{
}

/// The messages that an upload in chunks has in the channel once its tasks have ended: those of its
/// chunks, and that of its manifest.
pub open spec fn in_channel(stage: UploadStage) -> Seq<i64> {
    match stage {
        UploadStage::SendingManifest(ids) => messages_of(text::strings_view(ids@)),
        UploadStage::Recording(Some((m, ids))) => seq![m] + messages_of(text::strings_view(ids@)),
        _ => Seq::empty(),
    }
}

/// An upload in chunks that fails once its tasks have ended takes back its chunks and its manifest:
/// the message of each is among those that are deleted.
pub proof fn law_failed_uploads_take_everything_back(
    before: UploadCourse,
    event: UploadEvent,
    after: UploadCourse,
    step: UploadStep,
    message: i64,
)
    requires
        is_awaited(before.stage, event),
        course(before, event, after, step),
        step is Failed,
        in_channel(before.stage).contains(message),
    ensures
        step->Failed_0.delete_messages@.contains(message),
{
    let all = in_channel(before.stage);
    let deleted = step->Failed_0.delete_messages@;
    let i = choose|i: int| 0 <= i < all.len() && all[i] == message;
    match (before.stage, event) {
        (UploadStage::SendingManifest(ids), UploadEvent::Sent(sent)) => {
            match sent {
                Ok(m) => assert(deleted[i + 1] == message),
                Err(_) => assert(deleted[i] == message),
            }
        },
        _ => assert(deleted[i] == message),
    }
}

/// Where a task fails, what the others uploaded is taken back: the messages that are deleted are those
/// of the chunks that have an identifier.
pub proof fn law_failed_tasks_take_everything_back(
    before: UploadCourse,
    outcomes: Vec<TaskOutcome>,
    after: UploadCourse,
    step: UploadStep,
)
    requires
        before.stage is SendingChunks,
        course(before, UploadEvent::TasksEnded(outcomes), after, step),
        first_error(outcomes@) is Some,
    ensures
        step matches UploadStep::Failed(a) && a.delete_messages@ == messages_of(
            ids_of(uploaded(outcomes@)),
        ),
{
}

// ---------------------------------------------------------------------------------------------
// The route
// ---------------------------------------------------------------------------------------------

/// Access to the channel for an upload, where a bot is configured.
pub open spec fn upload_begins(settings: AppSettingsView, r: Result<TelegramService, Reply>) -> bool {
    api_files::is_access(
        settings,
        "缺少 BOT_TOKEN 或 CHANNEL_NAME，无法上传"@,
        "cfg_missing"@,
        r,
    )
}

/// Access to the channel for an upload, where a bot is configured.
pub fn begin_upload(settings: &AppSettingsMap) -> (r: Result<TelegramService, Reply>)
    ensures
        upload_begins(settings@, r),
{
    api_files::service_or_refusal(settings, "缺少 BOT_TOKEN 或 CHANNEL_NAME，无法上传", "cfg_missing")
}

/// Where a field of an upload is the file, the name under which it is stored.
pub open spec fn stored_name(field_name: Option<Seq<char>>, file_name: Option<Seq<char>>) -> Option<
    Seq<char>,
> {
    if field_name == Some("file"@) {
        Some(
            sanitized(
                match file_name {
                    Some(n) => n,
                    None => "upload"@,
                },
            ),
        )
    } else {
        None
    }
}

/// Where a field of an upload is the file, the name under which it is stored.
pub fn file_field(field_name: Option<&str>, file_name: Option<&str>) -> (r: Option<String>)
    ensures
        text::opt_view(r) == stored_name(
            text::opt_str_view(field_name),
            text::opt_str_view(file_name),
        ),
{
    let is_file = match field_name {
        Some(n) => text::str_eq(n, "file"),
        None => false,
    };
    if !is_file {
        return None;
    }
    let raw = match file_name {
        Some(n) => n,
        None => "upload",
    };
    Some(sanitize_filename(raw))
}

/// What an upload came to.
#[derive(Debug, PartialEq)]
pub enum UploadOutcome {
    /// The request could not be read.
    Unreadable,
    /// No field was the file.
    NoFile,
    /// The file could not be stored.
    Failed(String),
    /// The file has this short identifier.
    Stored(String),
}

/// What an upload comes to after one more field: a field that is no file changes nothing, and one that
/// is decides, whatever came before.
pub open spec fn follows_field(
    before: UploadOutcome,
    field: Option<Result<String, String>>,
    after: UploadOutcome,
) -> bool {
    match field {
        None => after == before,
        Some(Ok(id)) => after matches UploadOutcome::Stored(s) && s@ == id@,
        Some(Err(e)) => after matches UploadOutcome::Failed(f) && f@ == e@,
    }
}

/// What an upload comes to after one more field, by what storing it came to where it is a file.
pub fn after_field(before: UploadOutcome, field: Option<Result<String, String>>) -> (r: UploadOutcome)
    ensures
        follows_field(before, field, r),
{
    match field {
        None => before,
        Some(Ok(id)) => UploadOutcome::Stored(id),
        Some(Err(e)) => UploadOutcome::Failed(e),
    }
}

/// Of several files in one upload the last decides: `outcomes` holds what the upload came to before
/// the first field and after each.
pub proof fn law_last_file_decides(
    fields: Seq<Option<Result<String, String>>>,
    outcomes: Seq<UploadOutcome>,
    last: int,
    upto: int,
)
    requires
        outcomes.len() == fields.len() + 1,
        forall|i: int, j: int|
            0 <= i < fields.len() && j == i + 1 ==> #[trigger] follows_field(
                outcomes[i],
                fields[i],
                outcomes[j],
            ),
        0 <= last < upto <= fields.len(),
        fields[last] is Some,
        forall|i: int| last < i < fields.len() ==> (#[trigger] fields[i]) is None,
    ensures
        follows_field(UploadOutcome::NoFile, fields[last], outcomes[upto]),
    decreases upto,
{
    assert(follows_field(outcomes[upto - 1], fields[upto - 1], outcomes[upto]));
    if upto - 1 > last {
        law_last_file_decides(fields, outcomes, last, upto - 1);
    }
}

/// The answer where a file was stored.
pub open spec fn stored_body(short_id: Seq<char>) -> JsonView {
    let path = JsonView::Str("/d/"@ + short_id);
    JsonView::Obj(
        json::empty_fields().push(("file_id"@, JsonView::Str(short_id))).push(
            ("short_id"@, JsonView::Str(short_id)),
        ).push(("download_path"@, path)).push(("path"@, path)).push(("url"@, path)),
    )
}

/// The answer to an upload.
pub open spec fn upload_answer(outcome: UploadOutcome) -> ReplyView {
    match outcome {
        UploadOutcome::Unreadable => reply::error_reply(400, "上传数据读取失败"@, "multipart_error"@),
        UploadOutcome::NoFile => reply::error_reply(400, "未提供文件"@, "no_file"@),
        UploadOutcome::Failed(_) => reply::error_reply(500, "文件上传失败"@, "upload_failed"@),
        UploadOutcome::Stored(id) => reply::json_reply(200, stored_body(id@)),
    }
}

/// The answer to an upload.
pub fn upload_file(outcome: UploadOutcome) -> (r: Reply)
    ensures
        r@ == upload_answer(outcome),
{
    match outcome {
        UploadOutcome::Unreadable => reply::reply_error(400, "上传数据读取失败", "multipart_error"),
        UploadOutcome::NoFile => reply::reply_error(400, "未提供文件", "no_file"),
        UploadOutcome::Failed(_) => reply::reply_error(500, "文件上传失败", "upload_failed"),
        UploadOutcome::Stored(id) => {
            let path = service::joined("/d/", id.as_str());
            let mut fields = json::no_fields();
            json::put(&mut fields, "file_id", json::text_value(id.as_str()));
            json::put(&mut fields, "short_id", json::text_value(id.as_str()));
            json::put(&mut fields, "download_path", json::text_value(path.as_str()));
            json::put(&mut fields, "path", json::text_value(path.as_str()));
            json::put(&mut fields, "url", json::text_value(path.as_str()));
            reply::reply_json(200, Json::Obj(fields))
        },
    }
}

/// What subscribers are told about a file that was added.
pub open spec fn added(file: FileView) -> JsonView {
    events::file_event(
        "add"@,
        file.file_id,
        Some(file.filename),
        Some(file.filesize),
        Some(file.upload_date),
        file.short_id,
    )
}

/// What subscribers are told about a file that was added.
pub fn added_event(file: &FileMetadata) -> (r: Json)
    ensures
        r@ == added(file@),
{
    events::build_file_event(
        "add",
        file.file_id.as_str(),
        Some(file.filename.as_str()),
        Some(file.filesize),
        Some(file.upload_date.as_str()),
        config::borrow_text(&file.short_id),
    )
}

// ---------------------------------------------------------------------------------------------
// Laws
// ---------------------------------------------------------------------------------------------

/// A name that can be stored as it is: it is not empty, holds no slash and no control character, takes
/// at most 255 bytes, and does not stand for a directory.
pub open spec fn is_plain_name(name: Seq<char>) -> bool {
    &&& 0 < encode_utf8(name).len() <= 255
    &&& !name.contains('/')
    &&& forall|i: int| 0 <= i < name.len() ==> !text::is_control(#[trigger] name[i])
    &&& name != "."@
    &&& name != ".."@
}

/// A plain name is stored as it is, and of a path to it the name alone is stored.
pub proof fn law_plain_names_are_kept(directory: Seq<char>, name: Seq<char>)
    requires
        is_plain_name(name),
    ensures
        sanitized(name) == name,
        sanitized(directory + seq!['/'] + name) == name,
{
    text::lemma_byte_len(name);
    text::lemma_split_on_join(directory, '/', name);
    text::law_split_where_the_separator_is(name, '/');
    lemma_plain_chars_same(name);
    if name.len() == 0 {
        assert(encode_utf8(name).len() == 0);
    }
    let parts = text::split_on(directory + seq!['/'] + name, '/');
    assert(parts.last() == name);
    assert(seq![name].last() == name);
}

/// A path that ends with the parent directory names nothing, and neither does an empty one: what comes
/// with it is stored as `upload`.
pub proof fn law_names_of_nothing(directory: Seq<char>)
    ensures
        sanitized(Seq::empty()) == "upload"@,
        sanitized(directory + seq!['/'] + ".."@) == "upload"@,
{
    reveal_strlit("upload");
    reveal_strlit("..");
    reveal_strlit(".");
    let e = Seq::<char>::empty();
    text::law_split_where_the_separator_is(e, '/');
    assert(seq![e].drop_last() =~= Seq::<Seq<char>>::empty());
    assert(seq![e].last() == e);
    assert(last_component(Seq::<Seq<char>>::empty()) is None);
    text::lemma_split_on_join(directory, '/', ".."@);
    text::law_split_where_the_separator_is(".."@, '/');
    let parts = text::split_on(directory + seq!['/'] + ".."@, '/');
    assert(parts.last() == ".."@);
    assert("."@.len() != ".."@.len());
    assert forall|i: int| 0 <= i < 6 implies !text::is_control(#[trigger] "upload"@[i]) by {}
    lemma_plain_chars_same("upload"@);
    reveal_with_fuel(text::byte_len, 7);
    assert(capped("upload"@) == "upload"@);
}

/// The number of uploads at a time is the one that was set, where it is between 1 and 16, and the
/// default elsewhere.
pub proof fn law_concurrency_is_between_one_and_sixteen(n: nat, default: int, v: Seq<char>)
    ensures
        1 <= n <= 16 ==> concurrency(Some(text::decimal(n)), default) == n,
        n == 0 || n > 16 ==> concurrency(Some(text::decimal(n)), default) == default,
        concurrency(None, default) == default,
        text::unsigned_value(text::trimmed(v)) is None ==> concurrency(Some(v), default) == default,
        concurrency(Some(v), default) == default || 1 <= concurrency(Some(v), default) <= 16,
{
    text::law_numbers_are_written_plainly(n as int);
    let s = text::decimal(n);
    text::lemma_decimal_round_trip(n as int);
    lemma_decimal_is_trimmed(n);
}

proof fn lemma_decimal_is_trimmed(n: nat)
    ensures
        text::trimmed(text::decimal(n)) == text::decimal(n),
{
    let s = text::decimal(n);
    text::law_numbers_are_written_plainly(n as int);
    assert(text::decimal_signed(n as int) == s);
    lemma_decimal_ends(n);
    text::lemma_trimmed_same(s);
}

proof fn lemma_decimal_ends(n: nat)
    ensures
        text::decimal(n).len() > 0,
        !text::is_whitespace(text::decimal(n)[0]),
        !text::is_whitespace(text::decimal(n).last()),
    decreases n,
{
    if n >= 10 {
        lemma_decimal_ends(n / 10);
    }
}

/// The chunks of a file are sent under names of their own: each begins with the name of the file, and
/// ends with the number of the chunk, counted from one.
pub proof fn law_part_names_count_from_one(filename: Seq<char>, index: int, other: int)
    requires
        0 <= index,
        0 <= other,
    ensures
        part_name(filename, index) == filename + ".part"@ + text::decimal_signed(index + 1),
        part_name(filename, index) == part_name(filename, other) ==> index == other,
{
    text::lemma_decimal_round_trip(index + 1);
    text::lemma_decimal_round_trip(other + 1);
    let head = filename + ".part"@;
    if part_name(filename, index) == part_name(filename, other) {
        assert(part_name(filename, index).skip(head.len() as int) =~= text::decimal_signed(index + 1));
        assert(part_name(filename, other).skip(head.len() as int) =~= text::decimal_signed(other + 1));
    }
}

/// Nothing is refused but the empty file. Less than a chunk is sent whole, as it came. Of everything
/// else the chunks that were not handed out before are at most one, and it holds all that is behind
/// those.
pub proof fn law_uploads_are_cut_where_they_must_be(upload: Upload, end: UploadEnd)
    requires
        upload.wf(),
        is_rest(upload, end),
    ensures
        end is Refused <==> upload.received@.len() == 0,
        end is Single <==> 0 < upload.received@.len() < upload.chunk_size,
        end matches UploadEnd::Single(data) ==> data@ == upload.received@,
        end matches UploadEnd::Chunked(Some(c)) ==> c.index == upload.chunk_index && c.data@.len() > 0
            && upload.received@ == upload.received@.take(upload.chunk_index * upload.chunk_size) + c.data@,
        end matches UploadEnd::Chunked(None) ==> upload.received@.len() == upload.chunk_index
            * upload.chunk_size,
{
    let size = upload.chunk_size as int;
    let k = upload.chunk_index * size;
    assert((upload.chunk_index + 1) * size == k + size) by (nonlinear_arith)
        requires
            k == upload.chunk_index * size,
    ;
    assert(upload.chunk_index >= 1 ==> k >= size) by (nonlinear_arith)
        requires
            k == upload.chunk_index * size,
            size > 0,
    ;
    if let UploadEnd::Chunked(Some(c)) = end {
        assert(upload.received@ =~= upload.received@.take(k) + c.data@);
    }
}

/// A document that was sent is known by its message and its file; an answer without a document, and no
/// answer, is an error.
pub proof fn law_sent_documents_are_named(sent: Result<Message, Seq<char>>, missing: Seq<char>)
    ensures
        match sent {
            Ok(m) => match m.document {
                Some(d) => sent_document(sent, missing) matches Ok(id) && service::composite_parts(id)
                    == Ok::<_, Seq<char>>((m.message_id, d.file_id@)),
                None => sent_document(sent, missing) == Err::<Seq<char>, _>(missing),
            },
            Err(e) => sent_document(sent, missing) == Err::<Seq<char>, _>(e),
        },
{
    if let Ok(m) = sent {
        if let Some(d) = m.document {
            law_composite_round_trip(m.message_id, d.file_id@);
        }
    }
}

/// There is an error exactly where some task did not upload its chunk.
pub proof fn law_one_failed_task_is_an_error(outcomes: Seq<TaskOutcome>)
    ensures
        first_error(outcomes) is None <==> forall|i: int|
            0 <= i < outcomes.len() ==> (#[trigger] outcomes[i]) is Uploaded,
    decreases outcomes.len(),
{
    if outcomes.len() > 0 {
        let less = outcomes.drop_last();
        let n = outcomes.len() - 1;
        law_one_failed_task_is_an_error(less);
        if first_error(outcomes) is None {
            assert forall|i: int| 0 <= i < outcomes.len() implies (#[trigger] outcomes[i]) is Uploaded by {
                if i < n {
                    assert(less[i] == outcomes[i]);
                }
            }
        }
        if forall|i: int| 0 <= i < outcomes.len() ==> (#[trigger] outcomes[i]) is Uploaded {
            assert forall|i: int| 0 <= i < less.len() implies (#[trigger] less[i]) is Uploaded by {
                assert(less[i] == outcomes[i]);
            }
            assert(outcomes[n] is Uploaded);
        }
    }
}

/// The error is that of the first task that failed, whatever became of those after it.
pub proof fn law_first_error_counts(outcomes: Seq<TaskOutcome>, k: int)
    requires
        0 <= k < outcomes.len(),
        !(outcomes[k] is Uploaded),
        forall|i: int| 0 <= i < k ==> (#[trigger] outcomes[i]) is Uploaded,
    ensures
        match outcomes[k] {
            TaskOutcome::Failed(e) => first_error(outcomes) == Some(e@),
            TaskOutcome::Broken(e) => first_error(outcomes) == Some("上传任务异常: "@ + e@),
            TaskOutcome::Uploaded(_, _) => true,
        },
    decreases outcomes.len(),
{
    let less = outcomes.drop_last();
    if k < outcomes.len() - 1 {
        assert(less[k] == outcomes[k]);
        assert forall|i: int| 0 <= i < k implies (#[trigger] less[i]) is Uploaded by {
            assert(less[i] == outcomes[i]);
        }
        law_first_error_counts(less, k);
    } else {
        law_one_failed_task_is_an_error(less);
        assert forall|i: int| 0 <= i < less.len() implies (#[trigger] less[i]) is Uploaded by {
            assert(less[i] == outcomes[i]);
        }
    }
}

/// Where every task uploaded its chunk, the chunks are those of the tasks, each with its index and its
/// identifier.
pub proof fn law_uploaded_chunks_are_those_of_the_tasks(outcomes: Seq<TaskOutcome>)
    requires
        forall|i: int| 0 <= i < outcomes.len() ==> (#[trigger] outcomes[i]) is Uploaded,
    ensures
        uploaded(outcomes).len() == outcomes.len(),
        forall|i: int|
            0 <= i < outcomes.len() ==> (#[trigger] uploaded(outcomes)[i]).0 == outcomes[i]->Uploaded_0
                && uploaded(outcomes)[i].1 == outcomes[i]->Uploaded_1@,
    decreases outcomes.len(),
{
    if outcomes.len() > 0 {
        let less = outcomes.drop_last();
        let n = outcomes.len() - 1;
        assert forall|i: int| 0 <= i < less.len() implies (#[trigger] less[i]) is Uploaded by {
            assert(less[i] == outcomes[i]);
        }
        law_uploaded_chunks_are_those_of_the_tasks(less);
        assert(outcomes[n] is Uploaded);
        assert forall|i: int| 0 <= i < outcomes.len() implies (#[trigger] uploaded(outcomes)[i]).0
            == outcomes[i]->Uploaded_0 && uploaded(outcomes)[i].1 == outcomes[i]->Uploaded_1@ by {
            if i < n {
                assert(uploaded(outcomes)[i] == uploaded(less)[i]);
                assert(less[i] == outcomes[i]);
            }
        }
    }
}

/// The chunks that are known to be uploaded are those of the tasks that say so, whatever became of the
/// others.
pub proof fn law_every_uploaded_chunk_is_known(outcomes: Seq<TaskOutcome>, index: usize, id: Seq<char>)
    ensures
        uploaded(outcomes).contains((index, id)) <==> exists|i: int|
            0 <= i < outcomes.len() && (#[trigger] outcomes[i] matches TaskOutcome::Uploaded(k, c) && k == index
                && c@ == id),
    decreases outcomes.len(),
{
    let all = uploaded(outcomes);
    let p = (index, id);
    if outcomes.len() > 0 {
        let less = outcomes.drop_last();
        let n = outcomes.len() - 1;
        let before = uploaded(less);
        law_every_uploaded_chunk_is_known(less, index, id);
        if all.contains(p) {
            let k = choose|k: int| 0 <= k < all.len() && all[k] == p;
            if k < before.len() {
                assert(before[k] == p);
                let i = choose|i: int|
                    0 <= i < less.len() && (#[trigger] less[i] matches TaskOutcome::Uploaded(k, c) && k == index
                        && c@ == id);
                assert(outcomes[i] == less[i]);
            } else {
                assert(outcomes[n] is Uploaded);
            }
        }
        if exists|i: int|
            0 <= i < outcomes.len() && (#[trigger] outcomes[i] matches TaskOutcome::Uploaded(k, c) && k == index
                && c@ == id) {
            let i = choose|i: int|
                0 <= i < outcomes.len() && (#[trigger] outcomes[i] matches TaskOutcome::Uploaded(k, c) && k
                    == index && c@ == id);
            if i < n {
                assert(less[i] == outcomes[i]);
                let k = choose|k: int| 0 <= k < before.len() && before[k] == p;
                assert(all[k] == p);
            } else {
                assert(all.last() == p);
            }
        }
    }
}

/// A manifest is sent only where every task uploaded its chunk, and it names as many chunks as there
/// are tasks. Where one task failed, the upload fails.
pub proof fn law_manifests_name_every_chunk(
    filename: Seq<char>,
    outcomes: Seq<TaskOutcome>,
    r: Result<PendingManifest, Abandoned>,
)
    requires
        tasks_over(filename, outcomes, r),
    ensures
        r is Ok <==> forall|i: int| 0 <= i < outcomes.len() ==> (#[trigger] outcomes[i]) is Uploaded,
        r matches Ok(m) ==> m.chunk_ids@.len() == outcomes.len() && m.name@ == filename + ".manifest"@
            && m.text@ == manifest::manifest_text(filename, text::strings_view(m.chunk_ids@)),
        r matches Err(a) ==> first_error(outcomes) == Some(a.error@) && a.delete_messages@ == messages_of(
            ids_of(uploaded(outcomes)),
        ),
{
    law_one_failed_task_is_an_error(outcomes);
    if first_error(outcomes) is None {
        law_uploaded_chunks_are_those_of_the_tasks(outcomes);
        let sorted = choose|sorted: Seq<(usize, Seq<char>)>| #[trigger]
            is_sorted_of(sorted, uploaded(outcomes));
        assert(is_sorted_of(sorted, uploaded(outcomes)));
        assert(text::strings_view(r->Ok_0.chunk_ids@) == ids_of(sorted));
        assert(text::strings_view(r->Ok_0.chunk_ids@).len() == r->Ok_0.chunk_ids@.len());
    }
}

/// Where the tasks uploaded the chunks of all indexes, the manifest names at each place the chunk of that
/// index, in whatever order the tasks ended.
pub proof fn law_manifests_name_the_chunks_in_order(
    filename: Seq<char>,
    outcomes: Seq<TaskOutcome>,
    r: Result<PendingManifest, Abandoned>,
    i: int,
)
    requires
        tasks_over(filename, outcomes, r),
        forall|a: int|
            0 <= a < outcomes.len() ==> (#[trigger] outcomes[a]) is Uploaded && outcomes[a]->Uploaded_0
                < outcomes.len(),
        forall|a: int, b: int|
            0 <= a < b < outcomes.len() ==> (#[trigger] outcomes[a])->Uploaded_0 != (
            #[trigger] outcomes[b])->Uploaded_0,
        0 <= i < outcomes.len(),
    ensures
        r matches Ok(m) && m.chunk_ids@[outcomes[i]->Uploaded_0 as int]@ == outcomes[i]->Uploaded_1@,
{
    law_manifests_name_every_chunk(filename, outcomes, r);
    law_uploaded_chunks_are_those_of_the_tasks(outcomes);
    let s = uploaded(outcomes);
    let sorted = choose|sorted: Seq<(usize, Seq<char>)>| #[trigger]
        is_sorted_of(sorted, uploaded(outcomes));
    assert(is_sorted_of(sorted, s));
    assert forall|a: int| 0 <= a < s.len() implies (#[trigger] s[a]).0 < s.len() by {
        assert(outcomes[a] is Uploaded);
    }
    assert forall|a: int, b: int| 0 <= a < b < s.len() implies (#[trigger] s[a]).0 != (#[trigger] s[b]).0 by {
        assert(outcomes[a]->Uploaded_0 != outcomes[b]->Uploaded_0);
    }
    law_order_restores_index(s, sorted, i);
    assert(outcomes[i] is Uploaded);
    let m = r->Ok_0;
    assert(text::strings_view(m.chunk_ids@)[outcomes[i]->Uploaded_0 as int]
        == m.chunk_ids@[outcomes[i]->Uploaded_0 as int]@);
}

/// In the course of an upload a manifest is sent only once every task has uploaded its chunk, and it
/// names as many chunks as there are tasks; where one task failed, the upload fails.
pub proof fn law_course_waits_for_every_chunk(
    before: UploadCourse,
    outcomes: Vec<TaskOutcome>,
    after: UploadCourse,
    step: UploadStep,
)
    requires
        before.stage is SendingChunks,
        course(before, UploadEvent::TasksEnded(outcomes), after, step),
    ensures
        step is SendManifest || step is Failed,
        step is SendManifest <==> forall|i: int|
            0 <= i < outcomes@.len() ==> (#[trigger] outcomes@[i]) is Uploaded,
        step matches UploadStep::SendManifest { name, text } ==> after.stage is SendingManifest
            && after.stage->SendingManifest_0@.len() == outcomes@.len() && name@ == before.filename@
            + ".manifest"@ && text@ == manifest::manifest_text(
            before.filename@,
            text::strings_view(after.stage->SendingManifest_0@),
        ),
        step matches UploadStep::Failed(a) ==> after.stage is Over && first_error(outcomes@) == Some(
            a.error@,
        ),
{
    law_one_failed_task_is_an_error(outcomes@);
    if first_error(outcomes@) is None {
        law_uploaded_chunks_are_those_of_the_tasks(outcomes@);
        assert(text::strings_view(after.stage->SendingManifest_0@).len()
            == after.stage->SendingManifest_0@.len());
    }
}

/// What came in is what is sent: a small file whole, and of a large one the rest behind the chunks that
/// were handed out. An empty upload fails, and so does one that breaks off.
pub proof fn law_course_sends_what_came_in(
    before: UploadCourse,
    event: UploadEvent,
    after: UploadCourse,
    step: UploadStep,
)
    requires
        before.stage is Receiving,
        is_awaited(before.stage, event),
        course(before, event, after, step),
    ensures
        match event {
            UploadEvent::Received { end, total_size } => match end {
                UploadEnd::Single(data) => step matches UploadStep::SendWhole(d) && d@ == data@
                    && after.stage is SendingWhole,
                UploadEnd::Chunked(last) => step == UploadStep::AwaitTasks(last) && after.stage
                    is SendingChunks,
                UploadEnd::Refused(e) => step matches UploadStep::Failed(a) && a.error@ == e@
                    && a.delete_messages@.len() == 0 && after.stage is Over,
            },
            UploadEvent::BrokeOff { error, outcomes } => step matches UploadStep::Failed(a)
                && a.error@ == "读取上传数据失败: "@ + error@ && a.delete_messages@ == messages_of(
                ids_of(uploaded(outcomes@)),
            ) && after.stage is Over,
            _ => true,
        },
{
}

/// A file is recorded once its document was sent, or its manifest: under its name, with its size, and
/// with the message and the file of that document. Where there is none, the upload fails.
pub proof fn law_course_records_what_was_sent(
    before: UploadCourse,
    sent: Result<Message, String>,
    after: UploadCourse,
    step: UploadStep,
)
    requires
        before.stage is SendingWhole || before.stage is SendingManifest,
        course(before, UploadEvent::Sent(sent), after, step),
    ensures
        match sent {
            Ok(m) => match m.document {
                Some(d) => step matches UploadStep::Record(n) && n.filename@ == before.filename@ && n.filesize
                    == before.filesize && service::composite_parts(n.file_id@) == Ok::<_, Seq<char>>(
                    (m.message_id, d.file_id@),
                ) && after.stage is Recording,
                None => step is Failed,
            },
            Err(e) => step matches UploadStep::Failed(a) && a.error@ == e@,
        },
        before.stage is SendingManifest && step is Record ==> (after.stage matches UploadStage::Recording(
            Some((m, kept)),
        ) && kept@ == before.stage->SendingManifest_0@ && sent is Ok && m == sent->Ok_0.message_id),
{
    if let Ok(m) = sent {
        if let Some(d) = m.document {
            law_composite_round_trip(m.message_id, d.file_id@);
        }
    }
}

/// An upload is stored under the short identifier that it was recorded under, and fails where it could
/// not be recorded.
pub proof fn law_course_ends_with_the_record(
    before: UploadCourse,
    recorded: Result<String, String>,
    after: UploadCourse,
    step: UploadStep,
)
    requires
        before.stage is Recording,
        course(before, UploadEvent::Recorded(recorded), after, step),
    ensures
        after.stage is Over,
        match recorded {
            Ok(id) => step matches UploadStep::Stored(s) && s@ == id@,
            Err(e) => step matches UploadStep::Failed(a) && a.error@ == e@,
        },
{
}

/// The size of a file is the number of its bytes, from the moment all are in until the end.
pub proof fn law_sizes_are_counted(before: UploadCourse, event: UploadEvent)
    ensures
        event matches UploadEvent::Received { end, total_size } ==> (total_size <= i64::MAX ==> size_after(
            before,
            event,
        ) == total_size),
        !(event is Received) ==> size_after(before, event) == before.filesize,
{
}

/// What is given up takes back the message of its manifest, where it was sent, and then those of its
/// chunks, in order, and says why.
pub proof fn law_given_up_uploads(
    a: Abandoned,
    manifest_message: Option<i64>,
    sent: Seq<(i64, Seq<char>)>,
    error: Seq<char>,
)
    requires
        is_abandoned(
            a,
            manifest_message,
            sent.map_values(|p: (i64, Seq<char>)| composite(p.0, p.1)),
            error,
        ),
    ensures
        a.error@ == error,
        manifest_message matches Some(m) ==> a.delete_messages@[0] == m,
        forall|i: int| 0 <= i < sent.len() ==> a.delete_messages@.contains((#[trigger] sent[i]).0),
        a.delete_messages@.len() == sent.len() + if manifest_message is Some {
            1int
        } else {
            0
        },
{
    law_every_sent_chunk_is_deleted(sent);
    let shift = if manifest_message is Some {
        1int
    } else {
        0
    };
    assert forall|i: int| 0 <= i < sent.len() implies a.delete_messages@.contains((#[trigger] sent[i]).0) by {
        assert(a.delete_messages@[i + shift] == sent[i].0);
    }
}

/// The field of an upload that is called `file` is the file, and no other; it is stored under the name
/// that it came with, made plain.
pub proof fn law_the_file_field_is_the_file(field_name: Option<Seq<char>>, file_name: Seq<char>)
    ensures
        stored_name(field_name, Some(file_name)) is Some <==> field_name == Some("file"@),
        is_plain_name(file_name) ==> stored_name(Some("file"@), Some(file_name)) == Some(file_name),
        stored_name(Some("file"@), Some(file_name)) == Some(sanitized(file_name)),
        stored_name(Some("file"@), None) == Some(sanitized("upload"@)),
{
    if is_plain_name(file_name) {
        law_plain_names_are_kept(Seq::empty(), file_name);
    }
}

/// The answer to an upload: a stored file with its short identifier and the link to it, and an error for
/// everything else.
pub proof fn law_uploads_are_answered(outcome: UploadOutcome)
    ensures
        match outcome {
            UploadOutcome::Stored(id) => {
                let r = upload_answer(outcome);
                let link = JsonView::Str("/d/"@ + id@);
                &&& r.status == 200
                &&& reply::tells(r, "file_id"@, JsonView::Str(id@))
                &&& reply::tells(r, "short_id"@, JsonView::Str(id@))
                &&& reply::tells(r, "download_path"@, link)
                &&& reply::tells(r, "path"@, link)
                &&& reply::tells(r, "url"@, link)
            },
            UploadOutcome::Failed(_) => reply::refuses(
                upload_answer(outcome),
                500,
                "upload_failed"@,
                "文件上传失败"@,
            ),
            UploadOutcome::NoFile => reply::refuses(upload_answer(outcome), 400, "no_file"@, "未提供文件"@),
            UploadOutcome::Unreadable => reply::refuses(
                upload_answer(outcome),
                400,
                "multipart_error"@,
                "上传数据读取失败"@,
            ),
        },
{
    broadcast use json::lemma_lookup_push;

    reveal_strlit("file_id");
    reveal_strlit("short_id");
    reveal_strlit("download_path");
    reveal_strlit("path");
    reveal_strlit("url");
    assert("file_id"@.len() == 7);
    assert("short_id"@.len() == 8);
    assert("download_path"@.len() == 13);
    assert("path"@.len() == 4);
    assert("url"@.len() == 3);
    reply::law_errors_tell_code_and_message(400, "上传数据读取失败"@, "multipart_error"@);
    reply::law_errors_tell_code_and_message(400, "未提供文件"@, "no_file"@);
    reply::law_errors_tell_code_and_message(500, "文件上传失败"@, "upload_failed"@);
}

/// Subscribers are told of a file that was added what is stored of it, but for its share password.
pub proof fn law_added_files_are_told(file: FileView)
    ensures
        json::field(added(file), "action"@) == Some(JsonView::Str("add"@)),
        json::field(added(file), "file_id"@) == Some(JsonView::Str(file.file_id)),
        json::field(added(file), "filename"@) == Some(JsonView::Str(file.filename)),
        json::i64_of(json::field(added(file), "filesize"@)) == Some(file.filesize),
        json::field(added(file), "upload_date"@) == Some(JsonView::Str(file.upload_date)),
        json::text_of(json::field(added(file), "short_id"@)) == file.short_id,
        json::field(added(file), "share_password"@) is None,
{
    broadcast use json::lemma_lookup_push;

    reveal_strlit("action");
    reveal_strlit("file_id");
    reveal_strlit("filename");
    reveal_strlit("filesize");
    reveal_strlit("upload_date");
    reveal_strlit("short_id");
    reveal_strlit("share_password");
    assert("action"@.len() == 6);
    assert("file_id"@.len() == 7);
    assert("filename"@.len() == 8);
    assert("filesize"@.len() == 8);
    assert("upload_date"@.len() == 11);
    assert("short_id"@.len() == 8);
    assert("share_password"@.len() == 14);
    assert("filename"@[4] != "filesize"@[4]);
    assert("filename"@[0] != "short_id"@[0]);
    assert("filesize"@[0] != "short_id"@[0]);
}

/// A chunk carries its index, a name of its own, and the bytes that stand at its place in the upload.
pub proof fn law_chunks_hold_their_bytes(c: Chunk, filename: Seq<char>, received: Seq<u8>, size: int, index: int)
    requires
        is_chunk(c, filename, received, size, index),
        0 < size,
        0 <= index,
        index * size < received.len(),
    ensures
        c.index == index,
        c.name@ == filename + ".part"@ + text::decimal_signed(index + 1),
        0 < c.data@.len() <= size,
        c.data@.len() == size || index * size + c.data@.len() == received.len(),
        forall|j: int| 0 <= j < c.data@.len() ==> #[trigger] c.data@[j] == received[index * size + j],
{
    assert((index + 1) * size == index * size + size) by (nonlinear_arith);
    assert(0 <= index * size) by (nonlinear_arith)
        requires
            0 <= index,
            0 < size,
    ;
}

/// A chunk is uploaded exactly where its document was sent: it keeps its index, and is known by the
/// message and the file of that document. Else it failed, and says why.
pub proof fn law_sent_chunks_keep_their_indexes(index: usize, sent: Result<Message, String>, r: TaskOutcome)
    requires
        is_sent_chunk(index, sent, r),
    ensures
        r is Uploaded <==> sent is Ok && sent->Ok_0.document is Some,
        r matches TaskOutcome::Uploaded(i, c) ==> i == index && service::composite_parts(c@) == Ok::<
            _,
            Seq<char>,
        >((sent->Ok_0.message_id, sent->Ok_0.document->Some_0.file_id@)),
        sent matches Err(e) ==> (r matches TaskOutcome::Failed(f) && f@ == e@),
        (sent matches Ok(m) && m.document is None) ==> (r matches TaskOutcome::Failed(f) && f@
            == "No document in chunk response"@),
        !(r is Broken),
{
    law_sent_documents_are_named(sent_view(sent), "No document in chunk response"@);
}

/// A manifest that came back without its document does not stay: its message is the first to be deleted,
/// and those of the chunks follow.
pub proof fn law_manifests_without_documents_go(
    before: UploadCourse,
    m: Message,
    after: UploadCourse,
    step: UploadStep,
)
    requires
        before.stage is SendingManifest,
        m.document is None,
        course(before, UploadEvent::Sent(Ok(m)), after, step),
    ensures
        after.stage is Over,
        step matches UploadStep::Failed(a) && a.delete_messages@.len() > 0 && a.delete_messages@[0]
            == m.message_id && a.delete_messages@.skip(1) == messages_of(
            text::strings_view(before.stage->SendingManifest_0@),
        ) && a.error@ == "No document in manifest response"@,
{
    let ids = text::strings_view(before.stage->SendingManifest_0@);
    assert((seq![m.message_id] + messages_of(ids)).skip(1) =~= messages_of(ids));
}

/// A file that could not be recorded does not stay: the message of its manifest is the first to be
/// deleted, and those of the chunks follow. One that was sent whole has neither.
pub proof fn law_unrecorded_files_go(
    before: UploadCourse,
    error: String,
    after: UploadCourse,
    step: UploadStep,
)
    requires
        before.stage is Recording,
        course(before, UploadEvent::Recorded(Err(error)), after, step),
    ensures
        step matches UploadStep::Failed(a) && match before.stage->Recording_0 {
            Some((m, ids)) => a.delete_messages@.len() > 0 && a.delete_messages@[0] == m
                && a.delete_messages@.skip(1) == messages_of(text::strings_view(ids@)),
            None => a.delete_messages@.len() == 0,
        },
{
    if let Some((m, ids)) = before.stage->Recording_0 {
        let v = text::strings_view(ids@);
        assert((seq![m] + messages_of(v)).skip(1) =~= messages_of(v));
    }
}

/// A field that is a file decides: the upload is stored under its short identifier, or failed with its
/// error. Any other field leaves the upload as it was.
pub proof fn law_files_decide(
    before: UploadOutcome,
    field: Option<Result<String, String>>,
    after: UploadOutcome,
)
    requires
        follows_field(before, field, after),
    ensures
        field is None ==> after == before,
        field matches Some(Ok(id)) ==> (after matches UploadOutcome::Stored(s) && s@ == id@),
        field matches Some(Err(e)) ==> (after matches UploadOutcome::Failed(f) && f@ == e@),
{
}

/// Of a name every character that is no control character stays, in order, and no other.
pub proof fn law_controls_are_taken_out(s: Seq<char>, c: char)
    ensures
        plain_chars(s.push(c)) == if text::is_control(c) {
            plain_chars(s)
        } else {
            plain_chars(s).push(c)
        },
        plain_chars(Seq::empty()).len() == 0,
{
    assert(s.push(c).drop_last() =~= s);
}

/// A name that takes more than 255 bytes is cut after the last character that still fits.
pub proof fn law_long_names_are_cut(name: Seq<char>, n: int)
    requires
        !name.contains('/'),
        forall|i: int| 0 <= i < name.len() ==> !text::is_control(#[trigger] name[i]),
        0 < n < name.len(),
        encode_utf8(name.take(n)).len() <= 255,
        encode_utf8(name.take(n + 1)).len() > 255,
    ensures
        sanitized(name) == name.take(n),
{
    text::lemma_byte_len(name.take(n));
    text::lemma_byte_len(name.take(n + 1));
    lemma_capped(name, n);
    lemma_plain_chars_same(name);
    text::law_split_where_the_separator_is(name, '/');
    assert(seq![name].last() == name);
    lemma_byte_len_prefix(name, n + 1);
    reveal_strlit(".");
    reveal_strlit("..");
    reveal_with_fuel(text::byte_len, 3);
    if name == "."@ || name == ".."@ {
        assert(text::byte_len(name) <= 8);
    }
}

/// An upload begins where a token and a channel are configured, and is refused elsewhere.
pub proof fn law_uploads_begin_with_a_bot(settings: AppSettingsView, r: Result<TelegramService, Reply>)
    requires
        upload_begins(settings, r),
    ensures
        r is Ok <==> settings.bot_token is Some && settings.bot_token->Some_0.len() > 0
            && settings.channel_name is Some && settings.channel_name->Some_0.len() > 0,
        r matches Ok(s) ==> settings.bot_token == Some(s.bot_token@) && settings.channel_name == Some(
            s.channel_name@,
        ),
        r matches Err(e) ==> reply::refuses(
            e@,
            503,
            "cfg_missing"@,
            "缺少 BOT_TOKEN 或 CHANNEL_NAME，无法上传"@,
        ),
{
    api_files::law_access_takes_token_and_channel(
        settings,
        "缺少 BOT_TOKEN 或 CHANNEL_NAME，无法上传"@,
        "cfg_missing"@,
        r,
    );
}

/// A file that was sent whole and came back without its document failed, and an empty upload is refused;
/// neither leaves a message to delete.
pub proof fn law_whole_files_without_documents_fail(
    before: UploadCourse,
    m: Message,
    after: UploadCourse,
    step: UploadStep,
    upload: Upload,
    end: UploadEnd,
)
    ensures
        before.stage is SendingWhole && m.document is None && course(
            before,
            UploadEvent::Sent(Ok(m)),
            after,
            step,
        ) ==> (step matches UploadStep::Failed(a) && a.error@ == "No document in response"@
            && a.delete_messages@.len() == 0),
        end matches UploadEnd::Refused(e) ==> is_rest(upload, end) ==> upload.received@.len() == 0 && e@
            == "文件为空"@,
{
}

} // verus!
