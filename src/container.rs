use vstd::prelude::*;
use crate::error::WavError;
use crate::header::{le_u32, u32_bytes};

verus! {

#[verifier::external_type_specification]
#[verifier::external_body]
pub struct ExChunk(riff::Chunk);

#[verifier::external_type_specification]
#[verifier::external_body]
pub struct ExIoError(std::io::Error);

/// Where a chunk starts, its four-byte id and the length that its header gives.
pub struct ChunkView {
    pub pos: int,
    pub id: Seq<u8>,
    pub len: int,
}

/// The chunk header found at `pos` of `data`.
pub open spec fn chunk_at(data: Seq<u8>, pos: int) -> ChunkView {
    ChunkView { pos, id: data.subrange(pos, pos + 4), len: le_u32(data, pos + 4) }
}

/// A chunk read from a byte buffer, together with the fields of its header.
pub struct RiffChunk {
    inner: riff::Chunk,
    pos: u64,
    id: [u8; 4],
    len: u32,
}

impl View for RiffChunk {
    type V = ChunkView;

    closed spec fn view(&self) -> ChunkView {
        ChunkView { pos: self.pos as int, id: self.id@, len: self.len as int }
    }
}

impl RiffChunk {
    /// The chunk's four-byte id.
    pub fn id(&self) -> (r: [u8; 4])
        ensures
            r@ == self@.id,
    {
        self.id
    }

    /// The length of the chunk's contents, as its header gives it.
    pub fn len(&self) -> (r: u32)
        ensures
            r == self@.len,
    {
        self.len
    }

    /// Where the chunk starts.
    pub fn offset(&self) -> (r: u64)
        ensures
            r == self@.pos,
    {
        self.pos
    }
}

/// Relies on riff::Chunk::read over a cursor on `data`: it reads the id and the
/// little-endian length at `pos`, and fails when fewer than eight bytes are there.
/// The header's fields are taken from the chunk by riff::Chunk::id and riff::Chunk::len.
#[verifier::external_body]
pub(crate) fn read_chunk(data: &[u8], pos: u64) -> (r: Result<RiffChunk, std::io::Error>)
    ensures
        r is Ok <==> pos + 8 <= data@.len(),
        r is Ok ==> r->Ok_0@ == chunk_at(data@, pos as int),
{
    let c = riff::Chunk::read(&mut std::io::Cursor::new(data), pos)?;
    Ok(RiffChunk { pos, id: c.id().value, len: c.len(), inner: c })
}

/// Relies on riff::Chunk::read_type over a cursor on `data`: the four bytes
/// that follow the chunk's header, failing when fewer are there.
#[verifier::external_body]
pub(crate) fn read_type(data: &[u8], c: &RiffChunk) -> (r: Result<[u8; 4], std::io::Error>)
    requires
        c@.pos + 8 <= data@.len(),
    ensures
        r is Ok <==> c@.pos + 12 <= data@.len(),
        r is Ok ==> r->Ok_0@ == data@.subrange(c@.pos + 8, c@.pos + 12),
{
    c.inner.read_type(&mut std::io::Cursor::new(data)).map(|t| t.value)
}

/// Relies on riff::Chunk::read_contents over a cursor on `data`: the `len`
/// bytes that follow the chunk's header, failing when fewer are there.
#[verifier::external_body]
pub(crate) fn read_contents(data: &[u8], c: &RiffChunk) -> (r: Result<Vec<u8>, std::io::Error>)
    requires
        c@.pos + 8 <= data@.len(),
    ensures
        r is Ok <==> c@.pos + 8 + c@.len <= data@.len(),
        r is Ok ==> r->Ok_0@ == data@.subrange(c@.pos + 8, c@.pos + 8 + c@.len),
{
    c.inner.read_contents(&mut std::io::Cursor::new(data))
}

/// A data chunk as stored: id, little-endian length, contents, and a zero
/// byte after contents of odd length.
pub open spec fn data_chunk_bytes(id: Seq<u8>, d: Seq<u8>) -> Seq<u8> {
    id + u32_bytes(d.len() as u32) + d + if d.len() % 2 == 1 {
        seq![0u8]
    } else {
        Seq::<u8>::empty()
    }
}

/// The data chunks, each an id and its contents, stored one after another.
pub open spec fn chunk_list_bytes(cs: Seq<(Seq<u8>, Seq<u8>)>) -> Seq<u8>
    decreases cs.len(),
{
    if cs.len() == 0 {
        Seq::empty()
    } else {
        chunk_list_bytes(cs.drop_last()) + data_chunk_bytes(cs.last().0, cs.last().1)
    }
}

/// The ids and contents of the given chunks, as sequences.
pub open spec fn chunk_pairs(cs: Seq<([u8; 4], Vec<u8>)>) -> Seq<(Seq<u8>, Seq<u8>)> {
    cs.map_values(|c: ([u8; 4], Vec<u8>)| (c.0@, c.1@))
}

/// The `RIFF` chunk id.
pub open spec fn riff_tag() -> Seq<u8> {
    seq![0x52u8, 0x49u8, 0x46u8, 0x46u8]
}

/// A `RIFF` container of the given form type holding the given data chunks.
pub open spec fn form_bytes(form_type: Seq<u8>, cs: Seq<(Seq<u8>, Seq<u8>)>) -> Seq<u8> {
    riff_tag() + u32_bytes((4 + chunk_list_bytes(cs).len()) as u32) + form_type
        + chunk_list_bytes(cs)
}

/// Relies on riff::ChunkContents::write, on a `RIFF` chunk with the given form
/// type and one data chunk per child, into an in-memory cursor. Writes into a
/// `Vec` do not fail, and riff's own size checks cannot trigger on lengths that
/// fit in 32 bits.
#[verifier::external_body]
pub(crate) fn write_form(form_type: [u8; 4], children: Vec<([u8; 4], Vec<u8>)>) -> (r: Result<
    Vec<u8>,
    std::io::Error,
>)
    requires
        4 + chunk_list_bytes(chunk_pairs(children@)).len() <= u32::MAX,
    ensures
        r is Ok,
        r->Ok_0@ == form_bytes(form_type@, chunk_pairs(children@)),
{
    let kids: Vec<riff::ChunkContents> = children.into_iter().map(
        |(id, d)| riff::ChunkContents::Data(riff::ChunkId { value: id }, d),
    ).collect();
    let form = riff::ChunkContents::Children(
        riff::RIFF_ID.clone(),
        riff::ChunkId { value: form_type },
        kids,
    );
    let mut out = std::io::Cursor::new(Vec::new());
    form.write(&mut out)?;
    Ok(out.into_inner())
}

/// Whether two four-byte ids are equal.
pub fn same_tag(a: [u8; 4], b: [u8; 4]) -> (r: bool)
    ensures
        r == (a@ == b@),
{
    let r = a[0] == b[0] && a[1] == b[1] && a[2] == b[2] && a[3] == b[3];
    if r {
        assert(a@ =~= b@);
    }
    r
}

/// The outcome of looking for a chunk among the children of a container.
pub enum Scan {
    /// The first chunk with the id starts here.
    Found(int),
    /// No child has the id.
    Missing,
    /// A child's header runs past the end of the data before one with the id.
    Truncated,
}

/// Where the sibling after the chunk at `cur` starts: contents of odd length
/// are followed by one byte of padding.
pub open spec fn next_chunk_pos(data: Seq<u8>, cur: int) -> int {
    let len = le_u32(data, cur + 4);
    cur + 8 + len + len % 2
}

/// Walks the chunks from `cur` to `end`, in order, for the first whose id is `tag`.
pub open spec fn scan(data: Seq<u8>, cur: int, end: int, tag: Seq<u8>) -> Scan
    decreases end - cur,
{
    if cur >= end {
        Scan::Missing
    } else if cur < 0 || cur + 8 > data.len() {
        Scan::Truncated
    } else if data.subrange(cur, cur + 4) == tag {
        Scan::Found(cur)
    } else if next_chunk_pos(data, cur) >= end {
        Scan::Missing
    } else {
        scan(data, next_chunk_pos(data, cur), end, tag)
    }
}

/// Where the children of a container chunk start.
pub open spec fn children_start(c: ChunkView) -> int {
    c.pos + 12
}

/// Where the children of a container chunk end.
pub open spec fn children_end(c: ChunkView) -> int {
    c.pos + 4 + c.len
}

/// Finds the first child of `parent` whose id is `tag`; `None` when there is none.
pub fn find_child(data: &[u8], parent: &RiffChunk, tag: [u8; 4]) -> (r: Result<
    Option<RiffChunk>,
    WavError,
>)
    requires
        parent@.pos + 8 <= data@.len(),
    ensures
        match scan(data@, children_start(parent@), children_end(parent@), tag@) {
            Scan::Found(p) => r is Ok && r->Ok_0 is Some && r->Ok_0->Some_0@ == chunk_at(data@, p),
            Scan::Missing => r == Ok::<Option<RiffChunk>, WavError>(None),
            Scan::Truncated => r == Err::<Option<RiffChunk>, WavError>(WavError::UnexpectedEof),
        },
        r is Ok && r->Ok_0 is Some ==> r->Ok_0->Some_0@.pos + 8 <= data@.len(),
{
    let data_len: usize = data.len();
    let end: u128 = parent.offset() as u128 + 4 + parent.len() as u128;
    let mut cur: u128 = parent.offset() as u128 + 12;
    while cur < end
        invariant
            data_len == data@.len(),
            end == children_end(parent@),
            end <= data_len + 4 + u32::MAX,
            scan(data@, cur as int, end as int, tag@) == scan(
                data@,
                children_start(parent@),
                children_end(parent@),
                tag@,
            ),
        decreases end as int - cur as int,
    {
        if cur + 8 > data_len as u128 {
            return Err(WavError::UnexpectedEof);
        }
        let c = match read_chunk(data, cur as u64) {
            Ok(c) => c,
            Err(_) => return Err(WavError::UnexpectedEof),
        };
        if same_tag(c.id(), tag) {
            return Ok(Some(c));
        }
        let len: u32 = c.len();
        let next: u128 = cur + 8 + len as u128 + (len % 2) as u128;
        cur = if next < end {
            next
        } else {
            end
        };
    }
    Ok(None)
}

} // verus!
