//! The container: the signature and an ordered list of chunks.

use crate::chunk::{append_bytes, lemma_chunk_round_trip, parse_chunk, Chunk, ChunkView};
use crate::error::PngError;
use crate::text::text_of;
use vstd::prelude::*;
use vstd::slice::slice_subrange;
use vstd::std_specs::convert::TryFromSpecImpl;
use vstd::string::StringExecFns;

verus! {

/// The eight bytes that every PNG file begins with.
pub const STANDARD_HEADER: [u8; 8] = [137, 80, 78, 71, 13, 10, 26, 10];

/// The signature as a sequence of bytes.
pub open spec fn signature() -> Seq<u8> {
    seq![137u8, 80u8, 78u8, 71u8, 13u8, 10u8, 26u8, 10u8]
}

/// Whether every chunk of `chunks` is one that a chunk can hold.
pub open spec fn all_well_formed(chunks: Seq<ChunkView>) -> bool {
    forall|i: int| 0 <= i < chunks.len() ==> (#[trigger] chunks[i]).well_formed()
}

/// The chunks of `chunks` as they stand in a file, one after the other.
pub open spec fn chunks_to_bytes(chunks: Seq<ChunkView>) -> Seq<u8>
    decreases chunks.len(),
{
    if chunks.len() == 0 {
        Seq::empty()
    } else {
        chunks[0].to_bytes() + chunks_to_bytes(chunks.drop_first())
    }
}

/// The file that holds `chunks`: the signature, then the chunks in order.
pub open spec fn png_to_bytes(chunks: Seq<ChunkView>) -> Seq<u8> {
    signature() + chunks_to_bytes(chunks)
}

/// The chunks that `bytes` is made of, read one after the other until no
/// byte is left, or the failure of the first chunk that cannot be read.
pub open spec fn parse_chunks(bytes: Seq<u8>) -> Result<Seq<ChunkView>, PngError>
    decreases bytes.len(),
{
    if bytes.len() == 0 {
        Ok(Seq::empty())
    } else {
        match parse_chunk(bytes) {
            Err(e) => Err(e),
            Ok((chunk, consumed)) => match parse_chunks(bytes.skip(consumed)) {
                Err(e) => Err(e),
                Ok(rest) => Ok(seq![chunk] + rest),
            },
        }
    }
}

/// The chunks of the file `bytes`: it must begin with the signature, and
/// what follows must be chunks up to its last byte.
pub open spec fn parse_png(bytes: Seq<u8>) -> Result<Seq<ChunkView>, PngError> {
    if bytes.len() < 8 || bytes.subrange(0, 8) != signature() {
        Err(PngError::InvalidSignature)
    } else {
        parse_chunks(bytes.skip(8))
    }
}

/// Whether the type of `chunk`, read as text, is `text`.
pub open spec fn has_type(chunk: ChunkView, text: Seq<char>) -> bool {
    text_of(chunk.chunk_type) == text
}

/// The place of the first chunk of `chunks` whose type is `text`, or the
/// length of `chunks` if there is none.
pub open spec fn first_of_type(chunks: Seq<ChunkView>, text: Seq<char>) -> int
    decreases chunks.len(),
{
    if chunks.len() == 0 {
        0
    } else if has_type(chunks[0], text) {
        0
    } else {
        1 + first_of_type(chunks.drop_first(), text)
    }
}

/// The type of the chunk that ends a file.
pub open spec fn end_type() -> Seq<char> {
    "IEND"@
}

/// Where a new chunk goes: in front of the first end chunk, or behind the
/// last chunk if there is no end chunk.
pub open spec fn insertion_place(chunks: Seq<ChunkView>) -> int {
    first_of_type(chunks, end_type())
}

/// The chunks of `chunks` as their views.
pub open spec fn views(chunks: Seq<Chunk>) -> Seq<ChunkView> {
    chunks.map_values(|chunk: Chunk| chunk@)
}

/// The chunks of `chunks` in text, a line for each, in order.
pub open spec fn describe_chunks(chunks: Seq<ChunkView>) -> Seq<char>
    decreases chunks.len(),
{
    if chunks.len() == 0 {
        Seq::empty()
    } else {
        describe_chunks(chunks.drop_last()) + chunks.last().describe() + "\n"@
    }
}

/// `chunks` put in front of what a parse gave.
spec fn prepend(chunks: Seq<ChunkView>, parsed: Result<Seq<ChunkView>, PngError>) -> Result<
    Seq<ChunkView>,
    PngError,
> {
    match parsed {
        Ok(rest) => Ok(chunks + rest),
        Err(e) => Err(e),
    }
}

/// Writing out a list of chunks and writing out a second one behind it is
/// writing out the two lists joined.
pub proof fn lemma_chunks_to_bytes_concat(a: Seq<ChunkView>, b: Seq<ChunkView>)
    ensures
        chunks_to_bytes(a + b) == chunks_to_bytes(a) + chunks_to_bytes(b),
    decreases a.len(),
{
    if a.len() == 0 {
        assert(a + b =~= b);
    } else {
        lemma_chunks_to_bytes_concat(a.drop_first(), b);
        assert((a + b).drop_first() =~= a.drop_first() + b);
    }
}

/// The first chunk of a type is a chunk of that type, and none before it is.
pub proof fn lemma_first_of_type(chunks: Seq<ChunkView>, text: Seq<char>)
    ensures
        0 <= first_of_type(chunks, text) <= chunks.len(),
        first_of_type(chunks, text) < chunks.len() ==> has_type(
            chunks[first_of_type(chunks, text)],
            text,
        ),
        forall|i: int| 0 <= i < first_of_type(chunks, text) ==> !has_type(#[trigger] chunks[i], text),
    decreases chunks.len(),
{
    if chunks.len() != 0 && !has_type(chunks[0], text) {
        let rest = chunks.drop_first();
        lemma_first_of_type(rest, text);
        assert forall|i: int| 0 <= i < first_of_type(chunks, text) implies !has_type(
            #[trigger] chunks[i],
            text,
        ) by {
            if i > 0 {
                assert(chunks[i] == rest[i - 1]);
            }
        }
    }
}

/// A place such that no chunk before it has the type, and that is either the
/// end of the list or a chunk of the type, is the place of the first chunk of
/// the type.
pub proof fn lemma_first_of_type_is(chunks: Seq<ChunkView>, text: Seq<char>, place: int)
    requires
        0 <= place <= chunks.len(),
        place < chunks.len() ==> has_type(chunks[place], text),
        forall|i: int| 0 <= i < place ==> !has_type(#[trigger] chunks[i], text),
    ensures
        first_of_type(chunks, text) == place,
{
    lemma_first_of_type(chunks, text);
    let first = first_of_type(chunks, text);
    if first < place {
        assert(!has_type(chunks[first], text));
    }
    if place < first {
        assert(!has_type(chunks[place], text));
    }
}

/// A chunk that was put into a container is the chunk that a search for its
/// type finds, if no chunk in front of its place has that type already.
pub proof fn lemma_appended_chunk_is_found(chunks: Seq<ChunkView>, chunk: ChunkView)
    requires
        insertion_place(chunks) <= first_of_type(chunks, text_of(chunk.chunk_type)),
    ensures
        first_of_type(
            chunks.insert(insertion_place(chunks), chunk),
            text_of(chunk.chunk_type),
        ) == insertion_place(chunks),
        chunks.insert(insertion_place(chunks), chunk)[insertion_place(chunks)] == chunk,
{
    let text = text_of(chunk.chunk_type);
    let place = insertion_place(chunks);
    let after = chunks.insert(place, chunk);
    lemma_first_of_type(chunks, end_type());
    lemma_first_of_type(chunks, text);
    assert forall|i: int| 0 <= i < place implies !has_type(#[trigger] after[i], text) by {
        assert(after[i] == chunks[i]);
    }
    lemma_first_of_type_is(after, text, place);
}

/// After a chunk has been put into a container, a search for its type finds
/// a chunk of that type, whatever the container held: the new chunk, or one
/// that stands in front of it.
pub proof fn lemma_appended_type_is_found(chunks: Seq<ChunkView>, chunk: ChunkView)
    ensures
        first_of_type(
            chunks.insert(insertion_place(chunks), chunk),
            text_of(chunk.chunk_type),
        ) <= insertion_place(chunks) <= chunks.len(),
        has_type(
            chunks.insert(insertion_place(chunks), chunk)[first_of_type(
                chunks.insert(insertion_place(chunks), chunk),
                text_of(chunk.chunk_type),
            )],
            text_of(chunk.chunk_type),
        ),
{
    let text = text_of(chunk.chunk_type);
    let place = insertion_place(chunks);
    let after = chunks.insert(place, chunk);
    lemma_first_of_type(chunks, end_type());
    lemma_first_of_type(after, text);
    if first_of_type(after, text) > place {
        assert(has_type(after[place], text));
    }
}

/// Where a container holds an end chunk, putting a chunk into it leaves its
/// last chunk in the last place: an end chunk that was last stays last.
pub proof fn lemma_last_chunk_stays_last(chunks: Seq<ChunkView>, chunk: ChunkView)
    requires
        insertion_place(chunks) < chunks.len(),
    ensures
        chunks.insert(insertion_place(chunks), chunk).last() == chunks.last(),
        has_type(chunks.last(), end_type()) ==> has_type(
            chunks.insert(insertion_place(chunks), chunk).last(),
            end_type(),
        ),
{
    lemma_first_of_type(chunks, end_type());
}

/// Where exactly one chunk of a container has a type, removing the first
/// chunk of that type leaves none of it, neither in the container nor in
/// what is read back from the file written from it.
pub proof fn lemma_removed_type_is_gone(chunks: Seq<ChunkView>, text: Seq<char>)
    requires
        all_well_formed(chunks),
        first_of_type(chunks, text) < chunks.len(),
        forall|i: int|
            first_of_type(chunks, text) < i < chunks.len() ==> !has_type(#[trigger] chunks[i], text),
    ensures
        forall|i: int|
            0 <= i < chunks.len() - 1 ==> !has_type(
                #[trigger] chunks.remove(first_of_type(chunks, text))[i],
                text,
            ),
        first_of_type(chunks.remove(first_of_type(chunks, text)), text) == chunks.len() - 1,
        parse_png(png_to_bytes(chunks.remove(first_of_type(chunks, text)))) == Ok::<
            Seq<ChunkView>,
            PngError,
        >(chunks.remove(first_of_type(chunks, text))),
{
    let place = first_of_type(chunks, text);
    let after = chunks.remove(place);
    lemma_first_of_type(chunks, text);
    assert forall|i: int| 0 <= i < after.len() implies !has_type(#[trigger] after[i], text)
        && after[i].well_formed() by {
        if i < place {
            assert(after[i] == chunks[i]);
        } else {
            assert(after[i] == chunks[i + 1]);
        }
    }
    lemma_first_of_type_is(after, text, after.len() as int);
    lemma_png_round_trip(after);
}

/// Chunks that were written out one after the other are read back as they were.
pub proof fn lemma_chunks_round_trip(chunks: Seq<ChunkView>)
    requires
        all_well_formed(chunks),
    ensures
        parse_chunks(chunks_to_bytes(chunks)) == Ok::<Seq<ChunkView>, PngError>(chunks),
    decreases chunks.len(),
{
    if chunks.len() == 0 {
        assert(chunks =~= Seq::empty());
    } else {
        let first = chunks[0];
        let rest = chunks.drop_first();
        let bytes = chunks_to_bytes(chunks);
        assert forall|i: int| 0 <= i < rest.len() implies (#[trigger] rest[i]).well_formed() by {
            assert(rest[i] == chunks[i + 1]);
        }
        lemma_chunk_round_trip(first, chunks_to_bytes(rest));
        lemma_chunks_round_trip(rest);
        assert(bytes.skip(first.to_bytes().len() as int) =~= chunks_to_bytes(rest));
        assert(seq![first] + rest =~= chunks);
    }
}

/// A file that was written out is read back as the chunks that it was
/// written from, in their order.
pub proof fn lemma_png_round_trip(chunks: Seq<ChunkView>)
    requires
        all_well_formed(chunks),
    ensures
        parse_png(png_to_bytes(chunks)) == Ok::<Seq<ChunkView>, PngError>(chunks),
{
    let bytes = png_to_bytes(chunks);
    assert(bytes.subrange(0, 8) =~= signature());
    assert(bytes.skip(8) =~= chunks_to_bytes(chunks));
    lemma_chunks_round_trip(chunks);
}

/// A PNG file in memory: its chunks, in file order.
#[derive(Debug)]
pub struct Png {
    chunks: Vec<Chunk>,
}

impl View for Png {
    type V = Seq<ChunkView>;

    closed spec fn view(&self) -> Seq<ChunkView> {
        views(self.chunks@)
    }
}

impl Png {
    /// What holds of every container: each of its chunks is well formed.
    #[verifier::type_invariant]
    pub open spec fn well_formed(&self) -> bool {
        all_well_formed(self@)
    }

    /// The container that holds `chunks`, in their order.
    pub fn from_chunks(chunks: Vec<Chunk>) -> (png: Png)
        ensures
            png@ == views(chunks@),
    {
        let mut i: usize = 0;
        while i < chunks.len()
            invariant
                i <= chunks.len(),
                forall|j: int| 0 <= j < i ==> (#[trigger] views(chunks@)[j]).well_formed(),
            decreases chunks.len() - i,
        {
            let chunk: &Chunk = &chunks[i];
            proof {
                use_type_invariant(chunk);
                chunk.lemma_view_well_formed();
            }
            i += 1;
        }
        Png { chunks }
    }

    /// The chunks of the container, in file order.
    pub fn chunks(&self) -> (chunks: &[Chunk])
        ensures
            views(chunks@) == self@,
            all_well_formed(self@),
    {
        proof {
            use_type_invariant(self);
        }
        self.chunks.as_slice()
    }

    /// The place of the first chunk whose type is `chunk_type`, or the number
    /// of chunks if there is none.
    fn find(&self, chunk_type: &str) -> (place: usize)
        ensures
            place == first_of_type(self@, chunk_type@),
            place <= self@.len(),
            place < self@.len() ==> has_type(self@[place as int], chunk_type@),
            self@.len() == self.chunks@.len(),
    {
        let mut i: usize = 0;
        while i < self.chunks.len()
            invariant
                i <= self.chunks.len(),
                forall|j: int| 0 <= j < i ==> !has_type(#[trigger] self@[j], chunk_type@),
            decreases self.chunks.len() - i,
        {
            if self.chunks[i].chunk_type().is_named(chunk_type) {
                proof {
                    lemma_first_of_type_is(self@, chunk_type@, i as int);
                }
                return i;
            }
            i += 1;
        }
        proof {
            lemma_first_of_type_is(self@, chunk_type@, i as int);
        }
        i
    }

    /// Puts `chunk` into the container: in front of the first `IEND` chunk,
    /// so that the end chunk stays behind it, or behind the last chunk if
    /// there is no `IEND` chunk.
    pub fn append_chunk(&mut self, chunk: Chunk)
        ensures
            0 <= insertion_place(old(self)@) <= old(self)@.len(),
            final(self)@ == old(self)@.insert(insertion_place(old(self)@), chunk@),
    {
        proof {
            use_type_invariant(&*self);
            use_type_invariant(&chunk);
            chunk.lemma_view_well_formed();
        }
        let place: usize = self.find("IEND");
        let mut chunks: Vec<Chunk> = Vec::new();
        core::mem::swap(&mut self.chunks, &mut chunks);
        proof {
            assert(views(chunks@.insert(place as int, chunk)) =~= views(chunks@).insert(
                place as int,
                chunk@,
            ));
        }
        chunks.insert(place, chunk);
        self.chunks = chunks;
    }

    /// The first chunk whose type is `chunk_type`, if there is one.
    pub fn chunk_by_type(&self, chunk_type: &str) -> (found: Option<&Chunk>)
        ensures
            match found {
                Some(chunk) => first_of_type(self@, chunk_type@) < self@.len() && chunk@
                    == self@[first_of_type(self@, chunk_type@)] && has_type(chunk@, chunk_type@),
                None => first_of_type(self@, chunk_type@) == self@.len(),
            },
    {
        let place: usize = self.find(chunk_type);
        if place < self.chunks.len() {
            Some(&self.chunks[place])
        } else {
            None
        }
    }

    /// Takes the first chunk whose type is `chunk_type` out of the container
    /// and returns it. Later chunks of that type stay.
    pub fn remove_chunk(&mut self, chunk_type: &str) -> (result: Result<Chunk, PngError>)
        ensures
            match result {
                Ok(chunk) => first_of_type(old(self)@, chunk_type@) < old(self)@.len() && chunk@
                    == old(self)@[first_of_type(old(self)@, chunk_type@)] && final(self)@ == old(
                    self,
                )@.remove(first_of_type(old(self)@, chunk_type@)),
                Err(e) => first_of_type(old(self)@, chunk_type@) == old(self)@.len() && e
                    == PngError::ChunkNotFound && final(self)@ == old(self)@,
            },
    {
        proof {
            use_type_invariant(&*self);
        }
        let place: usize = self.find(chunk_type);
        if place >= self.chunks.len() {
            return Err(PngError::ChunkNotFound);
        }
        let mut chunks: Vec<Chunk> = Vec::new();
        core::mem::swap(&mut self.chunks, &mut chunks);
        proof {
            assert(views(chunks@.remove(place as int)) =~= views(chunks@).remove(place as int));
        }
        let chunk: Chunk = chunks.remove(place);
        self.chunks = chunks;
        Ok(chunk)
    }

    /// The chunks of the container in text, a line for each.
    pub fn to_string(&self) -> (text: String)
        ensures
            text@ == describe_chunks(self@),
    {
        let mut text: String = String::new();
        let mut i: usize = 0;
        while i < self.chunks.len()
            invariant
                i <= self.chunks.len(),
                text@ == describe_chunks(self@.take(i as int)),
            decreases self.chunks.len() - i,
        {
            let line: String = self.chunks[i].to_string();
            proof {
                assert(self@.take(i + 1).drop_last() =~= self@.take(i as int));
            }
            text.append(line.as_str());
            text.append("\n");
            i += 1;
        }
        assert(self@.take(i as int) =~= self@);
        text
    }

    /// The file as bytes: the signature, then each chunk as it stands in a
    /// file. Read back, the bytes give the chunks of the container.
    pub fn as_bytes(&self) -> (bytes: Vec<u8>)
        ensures
            bytes@ == png_to_bytes(self@),
            parse_png(bytes@) == Ok::<Seq<ChunkView>, PngError>(self@),
    {
        proof {
            use_type_invariant(self);
            lemma_png_round_trip(self@);
        }
        let mut bytes: Vec<u8> = Vec::new();
        append_bytes(&mut bytes, STANDARD_HEADER.as_slice());
        let mut i: usize = 0;
        while i < self.chunks.len()
            invariant
                i <= self.chunks.len(),
                bytes@ == signature() + chunks_to_bytes(self@.take(i as int)),
            decreases self.chunks.len() - i,
        {
            let chunk_bytes: Vec<u8> = self.chunks[i].as_bytes();
            append_bytes(&mut bytes, chunk_bytes.as_slice());
            proof {
                let done = self@.take(i as int);
                let one = seq![self@[i as int]];
                lemma_chunks_to_bytes_concat(done, one);
                assert(one.drop_first() =~= Seq::<ChunkView>::empty());
                assert(chunks_to_bytes(Seq::<ChunkView>::empty()) =~= Seq::<u8>::empty());
                assert(done + one =~= self@.take(i + 1));
            }
            i += 1;
        }
        assert(self@.take(i as int) =~= self@);
        bytes
    }
}

impl<'a> TryFromSpecImpl<&'a [u8]> for Png {
    open spec fn obeys_try_from_spec() -> bool {
        false
    }

    closed spec fn try_from_spec(value: &'a [u8]) -> Result<Png, PngError> {
        match parse_png(value@) {
            Ok(chunks) => Ok(choose|png: Png| png@ == chunks),
            Err(e) => Err(e),
        }
    }
}

impl<'a> TryFrom<&'a [u8]> for Png {
    type Error = PngError;

    /// Reads a whole file. The buffer must be the signature followed by
    /// chunks and nothing else: bytes behind the last chunk are read as one
    /// more chunk, and fail as that chunk does.
    fn try_from(value: &'a [u8]) -> (result: Result<Png, PngError>)
        ensures
            match result {
                Ok(png) => parse_png(value@) == Ok::<Seq<ChunkView>, PngError>(png@),
                Err(e) => parse_png(value@) == Err::<Seq<ChunkView>, PngError>(e),
            },
    {
        if value.len() < 8 {
            return Err(PngError::InvalidSignature);
        }
        let mut k: usize = 0;
        while k < 8
            invariant
                k <= 8,
                value@.len() >= 8,
                forall|j: int| 0 <= j < k ==> value@[j] == signature()[j],
            decreases 8 - k,
        {
            if value[k] != STANDARD_HEADER[k] {
                return Err(PngError::InvalidSignature);
            }
            k += 1;
        }
        let mut chunks: Vec<Chunk> = Vec::new();
        let mut cursor: usize = 8;
        while cursor < value.len()
            invariant
                8 <= cursor <= value.len(),
                value@.subrange(0, 8) == signature(),
                all_well_formed(views(chunks@)),
                parse_chunks(value@.skip(8)) == prepend(
                    views(chunks@),
                    parse_chunks(value@.skip(cursor as int)),
                ),
            decreases value.len() - cursor,
        {
            let rest: &[u8] = slice_subrange(value, cursor, value.len());
            match Chunk::parse(rest) {
                Err(e) => {
                    return Err(e);
                },
                Ok((chunk, consumed)) => {
                    proof {
                        let done = views(chunks@);
                        let after = parse_chunks(rest@.skip(consumed as int));
                        assert(rest@.skip(consumed as int) =~= value@.skip(cursor + consumed));
                        assert(views(chunks@.push(chunk)) =~= done.push(chunk@));
                        match after {
                            Ok(tail) => {
                                assert(done + (seq![chunk@] + tail) =~= done.push(chunk@) + tail);
                            },
                            Err(_) => {},
                        }
                    }
                    chunks.push(chunk);
                    cursor += consumed;
                },
            }
        }
        Ok(Png { chunks })
    }
}

} // verus!
