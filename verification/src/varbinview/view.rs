//! A fixed-size view of a byte string.

use vstd::prelude::*;

verus! {

/// The length of the longest value that a view holds in place.
pub const MAX_INLINED_SIZE: u32 = 12;

/// What a [`BinaryView`] denotes.
pub enum ViewModel {
    /// The bytes themselves.
    Inlined(Seq<u8>),
    /// Where `size` bytes are found, and the first four of them.
    Ref { size: u32, prefix: Seq<u8>, buffer_index: u32, offset: u32 },
}

/// The size that a view starts with.
spec fn size_bits(word: u128) -> u32 {
    (word & 0xffff_ffff) as u32
}

/// The byte of a view that stands `k` bytes behind its size.
spec fn byte_bits(word: u128, k: u128) -> u8 {
    ((word >> (32 + 8 * k) as u128) & 0xff) as u8
}

spec fn buffer_bits(word: u128) -> u32 {
    ((word >> 64) & 0xffff_ffff) as u32
}

spec fn offset_bits(word: u128) -> u32 {
    ((word >> 96) & 0xffff_ffff) as u32
}

/// A view of a byte string in sixteen bytes. It starts with the size of the string. A short string
/// follows in place; of a long one, its first four bytes, the buffer and the offset it is found at.
#[derive(Clone, Copy, Debug, PartialEq, Eq, Structural)]
pub struct BinaryView {
    word: u128,
}

impl View for BinaryView {
    type V = ViewModel;

    closed spec fn view(&self) -> ViewModel {
        if size_bits(self.word) <= MAX_INLINED_SIZE {
            ViewModel::Inlined(
                Seq::new(size_bits(self.word) as nat, |i: int| byte_bits(self.word, i as u128)),
            )
        } else {
            ViewModel::Ref {
                size: size_bits(self.word),
                prefix: Seq::new(4, |i: int| byte_bits(self.word, i as u128)),
                buffer_index: buffer_bits(self.word),
                offset: offset_bits(self.word),
            }
        }
    }
}

impl ViewModel {
    /// The number of bytes of the string.
    pub open spec fn len(self) -> nat {
        match self {
            ViewModel::Inlined(bytes) => bytes.len(),
            ViewModel::Ref { size, .. } => size as nat,
        }
    }
}

/// One more byte of a view that is filled from its start.
proof fn lemma_next_byte(word: u128, byte: u8, k: u128)
    by (bit_vector)
    requires
        k < 12,
        word >> ((32 + 8 * k) as u128) == 0,
    ensures
        ({
            let next = word | ((byte as u128) << ((32 + 8 * k) as u128));
            &&& (next & 0xffff_ffff) as u32 == (word & 0xffff_ffff) as u32
            &&& ((next >> ((32 + 8 * k) as u128)) & 0xff) as u8 == byte
            &&& k < 11 ==> next >> ((40 + 8 * k) as u128) == 0
        }),
{
}

/// A byte that is filled in leaves the bytes in front of it alone.
proof fn lemma_earlier_byte(word: u128, byte: u8, k: u128, j: u128)
    by (bit_vector)
    requires
        k < 12,
        j < k,
    ensures
        (((word | ((byte as u128) << ((32 + 8 * k) as u128))) >> ((32 + 8 * j) as u128)) & 0xff)
            as u8 == ((word >> ((32 + 8 * j) as u128)) & 0xff) as u8,
{
}

proof fn lemma_size_alone(size: u32)
    by (bit_vector)
    ensures
        (size as u128) >> 32u128 == 0,
        ((size as u128) & 0xffff_ffff) as u32 == size,
{
}

/// The parts that a view of a long string is put together from.
proof fn lemma_parts(
    size: u32,
    first: u8,
    second: u8,
    third: u8,
    fourth: u8,
    buffer_index: u32,
    offset: u32,
)
    by (bit_vector)
    ensures
        ({
            let word = (size as u128) | ((first as u128) << 32) | ((second as u128) << 40) | ((
            third as u128) << 48) | ((fourth as u128) << 56) | ((buffer_index as u128) << 64) | ((
            offset as u128) << 96);
            &&& (word & 0xffff_ffff) as u32 == size
            &&& ((word >> 32) & 0xff) as u8 == first
            &&& ((word >> 40) & 0xff) as u8 == second
            &&& ((word >> 48) & 0xff) as u8 == third
            &&& ((word >> 56) & 0xff) as u8 == fourth
            &&& ((word >> 64) & 0xffff_ffff) as u32 == buffer_index
            &&& ((word >> 96) & 0xffff_ffff) as u32 == offset
        }),
{
}

impl BinaryView {
    /// A view that holds `bytes` in place.
    pub fn new_inlined(bytes: &[u8]) -> (view: BinaryView)
        requires
            bytes@.len() <= MAX_INLINED_SIZE,
        ensures
            view@ == ViewModel::Inlined(bytes@),
    {
        let size: u32 = bytes.len() as u32;
        let mut word: u128 = size as u128;
        proof {
            lemma_size_alone(size);
        }
        let mut k: usize = 0;
        while k < bytes.len()
            invariant
                k <= bytes@.len() <= 12,
                size == bytes@.len(),
                size_bits(word) == size,
                k < 12 ==> word >> ((32 + 8 * k) as u128) == 0,
                forall|j: int| 0 <= j < k ==> byte_bits(word, j as u128) == #[trigger] bytes@[j],
            decreases bytes@.len() - k,
        {
            let byte: u8 = bytes[k];
            let ghost before = word;
            proof {
                lemma_next_byte(word, byte, k as u128);
            }
            word = word | ((byte as u128) << (32 + 8 * (k as u128)));
            proof {
                assert forall|j: int| 0 <= j < k + 1 implies byte_bits(word, j as u128)
                    == #[trigger] bytes@[j] by {
                    if j < k {
                        lemma_earlier_byte(before, byte, k as u128, j as u128);
                    }
                }
            }
            k += 1;
        }
        let view = BinaryView { word };
        assert(view@->Inlined_0 =~= bytes@);
        view
    }

    /// A view of `size` bytes that start with `prefix` and are found in a buffer at `offset`.
    pub fn new_ref(size: u32, prefix: [u8; 4], buffer_index: u32, offset: u32) -> (view: BinaryView)
        requires
            size > MAX_INLINED_SIZE,
        ensures
            view@ == (ViewModel::Ref { size, prefix: prefix@, buffer_index, offset }),
    {
        let first: u8 = prefix[0];
        let second: u8 = prefix[1];
        let third: u8 = prefix[2];
        let fourth: u8 = prefix[3];
        proof {
            lemma_parts(size, first, second, third, fourth, buffer_index, offset);
        }
        let word: u128 = (size as u128) | ((first as u128) << 32) | ((second as u128) << 40) | ((
        third as u128) << 48) | ((fourth as u128) << 56) | ((buffer_index as u128) << 64) | ((
        offset as u128) << 96);
        let view = BinaryView { word };
        assert(view@->prefix =~= prefix@) by {
            assert(byte_bits(word, 0) == first);
            assert(byte_bits(word, 1) == second);
            assert(byte_bits(word, 2) == third);
            assert(byte_bits(word, 3) == fourth);
        }
        view
    }

    /// The number of bytes of the string.
    pub fn len(&self) -> (len: u32)
        ensures
            len == self@.len(),
    {
        (self.word & 0xffff_ffff) as u32
    }

    /// Whether the view holds the string in place.
    pub fn is_inlined(&self) -> (result: bool)
        ensures
            result == (self@ is Inlined),
            result == (self@.len() <= MAX_INLINED_SIZE),
    {
        self.len() <= MAX_INLINED_SIZE
    }

    /// The bytes that the view holds in place.
    pub fn inlined(&self) -> (bytes: Vec<u8>)
        requires
            self@ is Inlined,
        ensures
            bytes@ == self@->Inlined_0,
    {
        let len = self.len() as usize;
        let mut bytes: Vec<u8> = Vec::with_capacity(len);
        while bytes.len() < len
            invariant
                bytes@.len() <= len <= 12,
                forall|j: int| 0 <= j < bytes@.len() ==> #[trigger] bytes@[j] == byte_bits(
                    self.word,
                    j as u128,
                ),
            decreases len - bytes@.len(),
        {
            let shift: u128 = 32 + 8 * (bytes.len() as u128);
            bytes.push(((self.word >> shift) & 0xff) as u8);
        }
        assert(bytes@ =~= self@->Inlined_0);
        bytes
    }

    /// The first four bytes of a string that is found elsewhere.
    pub fn prefix(&self) -> (prefix: [u8; 4])
        requires
            self@ is Ref,
        ensures
            prefix@ == self@->prefix,
    {
        let prefix = [
            ((self.word >> 32u128) & 0xff) as u8,
            ((self.word >> 40u128) & 0xff) as u8,
            ((self.word >> 48u128) & 0xff) as u8,
            ((self.word >> 56u128) & 0xff) as u8,
        ];
        assert(prefix@ =~= self@->prefix);
        prefix
    }

    /// The buffer that a string is found in.
    pub fn buffer_index(&self) -> (buffer_index: u32)
        requires
            self@ is Ref,
        ensures
            buffer_index == self@->buffer_index,
    {
        ((self.word >> 64) & 0xffff_ffff) as u32
    }

    /// Where a string starts in its buffer.
    pub fn offset(&self) -> (offset: u32)
        requires
            self@ is Ref,
        ensures
            offset == self@->offset,
    {
        ((self.word >> 96) & 0xffff_ffff) as u32
    }
}

/// A short string is read back from its view: as many bytes, and the same.
pub proof fn inlined_strings_are_read_back(
    bytes: &[u8],
    view: BinaryView,
    len: u32,
    inlined: bool,
    read: Vec<u8>,
)
    requires
        bytes@.len() <= 12,
        call_ensures(BinaryView::new_inlined, (bytes,), view),
        call_ensures(BinaryView::len, (&view,), len),
        call_ensures(BinaryView::is_inlined, (&view,), inlined),
        call_ensures(BinaryView::inlined, (&view,), read),
    ensures
        len == bytes@.len(),
        inlined,
        read@ == bytes@,
{
}

/// A view of a long string says where it is found, how long it is and how it starts, just as it was
/// made.
pub proof fn references_are_read_back(
    size: u32,
    prefix: [u8; 4],
    buffer_index: u32,
    offset: u32,
    view: BinaryView,
    len: u32,
    inlined: bool,
    start: [u8; 4],
    buffer: u32,
    at: u32,
)
    requires
        size > 12,
        call_ensures(BinaryView::new_ref, (size, prefix, buffer_index, offset), view),
        call_ensures(BinaryView::len, (&view,), len),
        call_ensures(BinaryView::is_inlined, (&view,), inlined),
        call_ensures(BinaryView::prefix, (&view,), start),
        call_ensures(BinaryView::buffer_index, (&view,), buffer),
        call_ensures(BinaryView::offset, (&view,), at),
    ensures
        len == size,
        !inlined,
        start@ == prefix@,
        buffer == buffer_index,
        at == offset,
{
}

/// Exactly the strings of up to twelve bytes are held in place.
pub proof fn twelve_bytes_are_held_in_place(view: BinaryView, len: u32, inlined: bool)
    requires
        call_ensures(BinaryView::len, (&view,), len),
        call_ensures(BinaryView::is_inlined, (&view,), inlined),
    ensures
        inlined <==> len <= 12,
        match view@ {
            ViewModel::Inlined(bytes) => inlined && bytes.len() == len,
            ViewModel::Ref { size, prefix, .. } => !inlined && size == len && prefix.len() == 4,
        },
{
}

} // verus!
