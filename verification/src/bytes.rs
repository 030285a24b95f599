//! Elements as bytes, in the machine's order.
use vstd::arithmetic::div_mod::*;
use vstd::endian::{endianness, Endian};
use vstd::prelude::*;

verus! {

/// The bytes of the chunks, one chunk after the other.
pub open spec fn flat<const N: usize>(chunks: Seq<[u8; N]>) -> Seq<u8> {
    Seq::new(chunks.len() * (N as nat), |k: int| chunks[k / (N as int)]@[k % (N as int)])
}

/// `bytemuck::cast_slice` from chunks of bytes to bytes, copied out: the bytes of the chunks, one
/// chunk after the other.
#[verifier::external_body]
fn join<const N: usize>(chunks: &[[u8; N]]) -> (bytes: Vec<u8>)
    requires
        N > 0,
    ensures
        bytes@ == flat(chunks@),
{
    bytemuck::cast_slice::<[u8; N], u8>(chunks).to_vec()
}

/// `bytemuck::cast_slice` from bytes to chunks of bytes, copied out: as many chunks as it takes,
/// with the bytes in order. It panics where the length is not a multiple of the chunk's.
#[verifier::external_body]
fn split<const N: usize>(bytes: &[u8]) -> (chunks: Vec<[u8; N]>)
    requires
        N > 0,
        bytes@.len() % (N as nat) == 0,
    ensures
        flat(chunks@) == bytes@,
{
    bytemuck::cast_slice::<u8, [u8; N]>(bytes).to_vec()
}

/// Elements that have a fixed number of bytes, each combination of which is an element.
pub trait Plain: Copy {
    /// The number of bytes of an element.
    const BYTES: usize;

    /// The bytes of the element, in the machine's order.
    spec fn bytes(self) -> Seq<u8>;

    /// An element has the number of bytes that its type says.
    proof fn lemma_len(self)
        ensures
            self.bytes().len() == Self::BYTES,
    ;

    /// No element is without bytes.
    proof fn lemma_positive()
        ensures
            Self::BYTES > 0,
    ;

    /// Different elements have different bytes.
    proof fn lemma_injective(self, other: Self)
        requires
            self.bytes() == other.bytes(),
        ensures
            self == other,
    ;

    /// The bytes of the elements, one element after the other; see [`bytes_of`].
    fn encode(data: &[Self]) -> (bytes: Vec<u8>)
        ensures
            bytes@.len() == data@.len() * Self::BYTES,
            forall|k: int|
                0 <= k < bytes@.len() ==> #[trigger] bytes@[k] == data@[k
                    / (Self::BYTES as int)].bytes()[k % (Self::BYTES as int)],
    ;

    /// The elements with the given bytes; see [`bytes_of`].
    fn decode(bytes: &[u8]) -> (data: Vec<Self>)
        requires
            bytes@.len() % (Self::BYTES as nat) == 0,
        ensures
            bytes@.len() == data@.len() * Self::BYTES,
            forall|k: int|
                0 <= k < bytes@.len() ==> #[trigger] bytes@[k] == data@[k
                    / (Self::BYTES as int)].bytes()[k % (Self::BYTES as int)],
    ;
}

/// The bytes of the elements, one element after the other.
pub open spec fn bytes_of<T: Plain>(data: Seq<T>) -> Seq<u8> {
    Seq::new(
        data.len() * (T::BYTES as nat),
        |k: int| data[k / (T::BYTES as int)].bytes()[k % (T::BYTES as int)],
    )
}

/// Elements are determined by their bytes: what is decoded from an encoding is what was encoded.
pub proof fn law_encoding_is_faithful<T: Plain>(a: Seq<T>, b: Seq<T>)
    requires
        bytes_of(a) == bytes_of(b),
    ensures
        a == b,
{
    T::lemma_positive();
    let n = T::BYTES as int;
    assert(bytes_of(a).len() == a.len() * n);
    assert(bytes_of(b).len() == b.len() * n);
    assert(a.len() == b.len()) by (nonlinear_arith)
        requires
            a.len() * n == b.len() * n,
            n > 0,
    ;
    assert forall|i: int| 0 <= i < a.len() implies a[i] == b[i] by {
        a[i].lemma_len();
        b[i].lemma_len();
        assert forall|j: int| 0 <= j < n implies a[i].bytes()[j] == b[i].bytes()[j] by {
            let k = i * n + j;
            assert(0 <= k < a.len() * n) by (nonlinear_arith)
                requires
                    0 <= i < a.len(),
                    0 <= j < n,
                    k == i * n + j,
            ;
            lemma_fundamental_div_mod_converse(k, n, i, j);
            assert(bytes_of(a)[k] == a[i].bytes()[j]);
            assert(bytes_of(b)[k] == b[i].bytes()[j]);
        }
        assert(a[i].bytes() =~= b[i].bytes());
        a[i].lemma_injective(b[i]);
    }
    assert(a =~= b);
}

/// The bytes of the elements.
pub fn encode<T: Plain>(data: &[T]) -> (bytes: Vec<u8>)
    ensures
        bytes@ == bytes_of(data@),
{
    let bytes = T::encode(data);
    assert(bytes@ =~= bytes_of(data@));
    bytes
}

/// The elements with the given bytes.
pub fn decode<T: Plain>(bytes: &[u8]) -> (data: Vec<T>)
    requires
        bytes@.len() % (T::BYTES as nat) == 0,
    ensures
        bytes_of(data@) == bytes@,
{
    let data = T::decode(bytes);
    assert(bytes@ =~= bytes_of(data@));
    data
}

// ── Bytes of integers ────────────────────────────────────────────────────────

/// The bytes in the machine's order, which `vstd` names and does not fix.
pub open spec fn in_order(least_first: Seq<u8>) -> Seq<u8> {
    match endianness() {
        Endian::Little => least_first,
        Endian::Big => least_first.reverse(),
    }
}

/// The bytes of a 16-bit word.
pub open spec fn half_bytes(w: u16) -> Seq<u8> {
    in_order(seq![(w % 256) as u8, (w / 256) as u8])
}

/// The bytes of a 32-bit word.
pub open spec fn word_bytes(w: u32) -> Seq<u8> {
    in_order(
        seq![
            (w % 256) as u8,
            (w / 256 % 256) as u8,
            (w / 65536 % 256) as u8,
            (w / 16777216) as u8,
        ],
    )
}

/// `bytemuck::cast` from a `u16` to its bytes, which are in the machine's order.
#[verifier::external_body]
fn half_to_chunk(w: u16) -> (chunk: [u8; 2])
    ensures
        chunk@ == half_bytes(w),
{
    bytemuck::cast::<u16, [u8; 2]>(w)
}

/// `bytemuck::cast` from bytes, in the machine's order, to the `u16` that has them.
#[verifier::external_body]
fn chunk_to_half(chunk: [u8; 2]) -> (w: u16)
    ensures
        half_bytes(w) == chunk@,
{
    bytemuck::cast::<[u8; 2], u16>(chunk)
}

/// `bytemuck::cast` from a `u32` to its bytes, which are in the machine's order.
#[verifier::external_body]
fn word_to_chunk(w: u32) -> (chunk: [u8; 4])
    ensures
        chunk@ == word_bytes(w),
{
    bytemuck::cast::<u32, [u8; 4]>(w)
}

/// `bytemuck::cast` from bytes, in the machine's order, to the `u32` that has them.
#[verifier::external_body]
fn chunk_to_word(chunk: [u8; 4]) -> (w: u32)
    ensures
        word_bytes(w) == chunk@,
{
    bytemuck::cast::<[u8; 4], u32>(chunk)
}

/// The machine's order tells apart what the order from the least significant byte on does.
proof fn lemma_in_order(a: Seq<u8>, b: Seq<u8>)
    requires
        in_order(a) == in_order(b),
    ensures
        a == b,
{
    assert(a.reverse().reverse() =~= a);
    assert(b.reverse().reverse() =~= b);
}

proof fn lemma_half_injective(a: u16, b: u16)
    requires
        half_bytes(a) == half_bytes(b),
    ensures
        a == b,
{
    let x = seq![(a % 256) as u8, (a / 256) as u8];
    let y = seq![(b % 256) as u8, (b / 256) as u8];
    lemma_in_order(x, y);
    assert(x[0] == y[0] && x[1] == y[1]);
}

proof fn lemma_word_injective(a: u32, b: u32)
    requires
        word_bytes(a) == word_bytes(b),
    ensures
        a == b,
{
    let x = seq![
        (a % 256) as u8,
        (a / 256 % 256) as u8,
        (a / 65536 % 256) as u8,
        (a / 16777216) as u8,
    ];
    let y = seq![
        (b % 256) as u8,
        (b / 256 % 256) as u8,
        (b / 65536 % 256) as u8,
        (b / 16777216) as u8,
    ];
    lemma_in_order(x, y);
    assert(x[0] == y[0] && x[1] == y[1] && x[2] == y[2] && x[3] == y[3]);
}

/// An IEEE 754 single, held as its bits.
#[derive(Clone, Copy, Debug, PartialEq, Eq, Structural)]
pub struct F32 {
    pub bits: u32,
}

/// Elements that are one 32-bit word.
trait Word: Copy {
    /// The word.
    spec fn word(self) -> u32;

    /// The word.
    fn to_word(self) -> (w: u32)
        ensures
            w == self.word(),
    ;

    /// The element with the word.
    fn from_word(w: u32) -> (x: Self)
        ensures
            x.word() == w,
    ;
}

impl Word for u32 {
    spec fn word(self) -> u32 {
        self
    }

    fn to_word(self) -> (w: u32) {
        self
    }

    fn from_word(w: u32) -> (x: Self) {
        w
    }
}

impl Word for i32 {
    spec fn word(self) -> u32 {
        self as u32
    }

    fn to_word(self) -> (w: u32) {
        self as u32
    }

    fn from_word(w: u32) -> (x: Self) {
        assert((w as i32) as u32 == w) by (bit_vector);
        w as i32
    }
}

impl Word for F32 {
    spec fn word(self) -> u32 {
        self.bits
    }

    fn to_word(self) -> (w: u32) {
        self.bits
    }

    fn from_word(w: u32) -> (x: Self) {
        F32 { bits: w }
    }
}

/// The bytes of the words, one word after the other.
fn encode_words<T: Word>(data: &[T]) -> (bytes: Vec<u8>)
    ensures
        bytes@.len() == data@.len() * 4,
        forall|k: int|
            0 <= k < bytes@.len() ==> #[trigger] bytes@[k] == word_bytes(data@[k / 4].word())[k % 4],
{
    let mut chunks: Vec<[u8; 4]> = Vec::new();
    for i in 0..data.len()
        invariant
            chunks@.len() == i,
            forall|j: int| 0 <= j < i ==> (#[trigger] chunks@[j])@ == word_bytes(data@[j].word()),
    {
        chunks.push(word_to_chunk(data[i].to_word()));
    }
    join(chunks.as_slice())
}

/// The words with the given bytes.
fn decode_words<T: Word>(bytes: &[u8]) -> (data: Vec<T>)
    requires
        bytes@.len() % 4 == 0,
    ensures
        bytes@.len() == data@.len() * 4,
        forall|k: int|
            0 <= k < bytes@.len() ==> #[trigger] bytes@[k] == word_bytes(data@[k / 4].word())[k % 4],
{
    let chunks: Vec<[u8; 4]> = split(bytes);
    assert(flat(chunks@).len() == bytes@.len());
    let mut data: Vec<T> = Vec::new();
    for i in 0..chunks.len()
        invariant
            data@.len() == i,
            forall|j: int| 0 <= j < i ==> chunks@[j]@ == word_bytes((#[trigger] data@[j]).word()),
    {
        data.push(T::from_word(chunk_to_word(chunks[i])));
    }
    assert forall|k: int| 0 <= k < bytes@.len() implies #[trigger] bytes@[k] == word_bytes(
        data@[k / 4].word(),
    )[k % 4] by {
        assert(bytes@[k] == flat(chunks@)[k]);
        assert(chunks@[k / 4]@ == word_bytes(data@[k / 4].word()));
    }
    data
}

impl Plain for u8 {
    const BYTES: usize = 1;

    open spec fn bytes(self) -> Seq<u8> {
        seq![self]
    }

    proof fn lemma_len(self) {
    }

    proof fn lemma_positive() {
    }

    proof fn lemma_injective(self, other: Self) {
        assert(seq![self][0] == self);
        assert(seq![other][0] == other);
    }

    fn encode(data: &[Self]) -> (bytes: Vec<u8>) {
        vstd::slice::slice_to_vec(data)
    }

    fn decode(bytes: &[u8]) -> (data: Vec<Self>) {
        vstd::slice::slice_to_vec(bytes)
    }
}

impl Plain for u16 {
    const BYTES: usize = 2;

    open spec fn bytes(self) -> Seq<u8> {
        half_bytes(self)
    }

    proof fn lemma_len(self) {
    }

    proof fn lemma_positive() {
    }

    proof fn lemma_injective(self, other: Self) {
        lemma_half_injective(self, other);
    }

    fn encode(data: &[Self]) -> (bytes: Vec<u8>) {
        let mut chunks: Vec<[u8; 2]> = Vec::new();
        for i in 0..data.len()
            invariant
                chunks@.len() == i,
                forall|j: int| 0 <= j < i ==> (#[trigger] chunks@[j])@ == data@[j].bytes(),
        {
            chunks.push(half_to_chunk(data[i]));
        }
        join(chunks.as_slice())
    }

    fn decode(bytes: &[u8]) -> (data: Vec<Self>) {
        let chunks: Vec<[u8; 2]> = split(bytes);
        assert(flat(chunks@).len() == bytes@.len());
        let mut data: Vec<Self> = Vec::new();
        for i in 0..chunks.len()
            invariant
                data@.len() == i,
                forall|j: int| 0 <= j < i ==> chunks@[j]@ == (#[trigger] data@[j]).bytes(),
        {
            data.push(chunk_to_half(chunks[i]));
        }
        assert forall|k: int| 0 <= k < bytes@.len() implies #[trigger] bytes@[k] == data@[k
            / 2].bytes()[k % 2] by {
            assert(bytes@[k] == flat(chunks@)[k]);
            assert(chunks@[k / 2]@ == data@[k / 2].bytes());
        }
        data
    }
}

impl Plain for u32 {
    const BYTES: usize = 4;

    open spec fn bytes(self) -> Seq<u8> {
        word_bytes(self)
    }

    proof fn lemma_len(self) {
    }

    proof fn lemma_positive() {
    }

    proof fn lemma_injective(self, other: Self) {
        lemma_word_injective(self, other);
    }

    fn encode(data: &[Self]) -> (bytes: Vec<u8>) {
        encode_words(data)
    }

    fn decode(bytes: &[u8]) -> (data: Vec<Self>) {
        decode_words(bytes)
    }
}

impl Plain for i32 {
    const BYTES: usize = 4;

    open spec fn bytes(self) -> Seq<u8> {
        word_bytes(self as u32)
    }

    proof fn lemma_len(self) {
    }

    proof fn lemma_positive() {
    }

    proof fn lemma_injective(self, other: Self) {
        lemma_word_injective(self as u32, other as u32);
        assert(self as u32 == other as u32 ==> self == other) by (bit_vector);
    }

    fn encode(data: &[Self]) -> (bytes: Vec<u8>) {
        encode_words(data)
    }

    fn decode(bytes: &[u8]) -> (data: Vec<Self>) {
        decode_words(bytes)
    }
}

impl Plain for F32 {
    const BYTES: usize = 4;

    open spec fn bytes(self) -> Seq<u8> {
        word_bytes(self.bits)
    }

    proof fn lemma_len(self) {
    }

    proof fn lemma_positive() {
    }

    proof fn lemma_injective(self, other: Self) {
        lemma_word_injective(self.bits, other.bits);
    }

    fn encode(data: &[Self]) -> (bytes: Vec<u8>) {
        encode_words(data)
    }

    fn decode(bytes: &[u8]) -> (data: Vec<Self>) {
        decode_words(bytes)
    }
}

/// A word is four bytes.
pub proof fn lemma_word_bytes(words: Seq<u32>)
    ensures
        bytes_of(words).len() == words.len() * 4,
{
    0u32.lemma_len();
    assert(words.len() * u32::BYTES == words.len() * 4) by (nonlinear_arith)
        requires
            u32::BYTES == 4,
    ;
}

// ── Bytes in memory ──────────────────────────────────────────────────────────

/// The 32-bit word with index `i` in memory: the number that the four bytes from `4 * i` on are, with
/// the least significant one where the machine has it.
pub open spec fn word_at(memory: Seq<u8>, i: nat) -> u32 {
    let k = 4 * i as int;
    match endianness() {
        Endian::Little => (memory[k] + 256 * memory[k + 1] + 65536 * memory[k + 2] + 16777216
            * memory[k + 3]) as u32,
        Endian::Big => (memory[k + 3] + 256 * memory[k + 2] + 65536 * memory[k + 1] + 16777216
            * memory[k]) as u32,
    }
}

/// The 16-bit word with index `i` in memory.
pub open spec fn half_at(memory: Seq<u8>, i: nat) -> u16 {
    let k = 2 * i as int;
    match endianness() {
        Endian::Little => (memory[k] + 256 * memory[k + 1]) as u16,
        Endian::Big => (memory[k + 1] + 256 * memory[k]) as u16,
    }
}

/// Elements stand one after the other in the order of their indices: as many bytes as the elements
/// take, and byte `j` of element `i` at `i` times the element's size and `j` more.
pub proof fn law_elements_stand_in_order<T: Plain>(data: Seq<T>, i: nat, j: nat)
    requires
        i < data.len(),
        j < T::BYTES,
    ensures
        bytes_of(data).len() == data.len() * T::BYTES,
        i * T::BYTES + j < bytes_of(data).len(),
        bytes_of(data)[(i * T::BYTES + j) as int] == data[i as int].bytes()[j as int],
{
    let n = T::BYTES as int;
    let k = i * n + j;
    assert(0 <= k < data.len() * n) by (nonlinear_arith)
        requires
            0 <= i < data.len(),
            0 <= j < n,
            k == i * n + j,
    ;
    lemma_fundamental_div_mod_converse(k, n, i as int, j as int);
}

/// A word is the number that its bytes are.
proof fn lemma_word_value(w: u32)
    ensures
        w == w % 256 + 256 * (w / 256 % 256) + 65536 * (w / 65536 % 256) + 16777216 * (w / 16777216),
        w / 16777216 < 256,
{
    assert(w == w % 256 + 256 * (w / 256 % 256) + 65536 * (w / 65536 % 256) + 16777216 * (w
        / 16777216)) by (bit_vector);
}

/// Where the four bytes of a word stand in memory, the word is read.
proof fn lemma_word_read(memory: Seq<u8>, i: nat, w: u32)
    requires
        forall|j: int| 0 <= j < 4 ==> memory[4 * i + j] == #[trigger] word_bytes(w)[j],
    ensures
        word_at(memory, i) == w,
{
    lemma_word_value(w);
    let k = 4 * i as int;
    assert(memory[k + 0] == word_bytes(w)[0]);
    assert(memory[k + 1] == word_bytes(w)[1]);
    assert(memory[k + 2] == word_bytes(w)[2]);
    assert(memory[k + 3] == word_bytes(w)[3]);
}

/// Unsigned words are read from memory, by their indices, as the numbers that were put there.
pub proof fn law_words_are_read_back(words: Seq<u32>, i: nat)
    requires
        i < words.len(),
    ensures
        bytes_of(words).len() == 4 * words.len(),
        word_at(bytes_of(words), i) == words[i as int],
{
    lemma_word_bytes(words);
    assert forall|j: int| 0 <= j < 4 implies bytes_of(words)[4 * i + j] == #[trigger] word_bytes(
        words[i as int],
    )[j] by {
        law_elements_stand_in_order(words, i, j as nat);
    }
    lemma_word_read(bytes_of(words), i, words[i as int]);
}

/// Singles are read from memory, by their indices, as the bits that were put there.
pub proof fn law_singles_are_read_back(data: Seq<F32>, i: nat)
    requires
        i < data.len(),
    ensures
        bytes_of(data).len() == 4 * data.len(),
        word_at(bytes_of(data), i) == data[i as int].bits,
{
    data[i as int].lemma_len();
    assert forall|j: int| 0 <= j < 4 implies bytes_of(data)[4 * i + j] == #[trigger] word_bytes(
        data[i as int].bits,
    )[j] by {
        law_elements_stand_in_order(data, i, j as nat);
    }
    lemma_word_read(bytes_of(data), i, data[i as int].bits);
}

/// Where memory begins with the bytes of singles, the words there are their bits.
pub proof fn lemma_singles_read(memory: Seq<u8>, data: Seq<F32>, n: nat, i: nat)
    requires
        n * 4 <= memory.len(),
        memory.take((n * 4) as int) == bytes_of(data),
        i < n,
    ensures
        data.len() == n,
        word_at(memory, i) == data[i as int].bits,
{
    (F32 { bits: 0 }).lemma_len();
    assert(bytes_of(data).len() == data.len() * 4);
    law_singles_are_read_back(data, i);
    let part = memory.take((n * 4) as int);
    let k = 4 * i as int;
    assert(part[k] == memory[k]);
    assert(part[k + 1] == memory[k + 1]);
    assert(part[k + 2] == memory[k + 2]);
    assert(part[k + 3] == memory[k + 3]);
}

/// Signed words are read from memory, by their indices, in two's complement.
pub proof fn law_signed_words_are_read_back(data: Seq<i32>, i: nat)
    requires
        i < data.len(),
    ensures
        bytes_of(data).len() == 4 * data.len(),
        data[i as int] >= 0 ==> word_at(bytes_of(data), i) == data[i as int],
        data[i as int] < 0 ==> word_at(bytes_of(data), i) == data[i as int] + 4294967296,
{
    let x = data[i as int];
    x.lemma_len();
    assert forall|j: int| 0 <= j < 4 implies bytes_of(data)[4 * i + j] == #[trigger] word_bytes(
        x as u32,
    )[j] by {
        law_elements_stand_in_order(data, i, j as nat);
    }
    lemma_word_read(bytes_of(data), i, x as u32);
    assert(x < 0 ==> x as u32 == x + 4294967296) by (bit_vector);
}

/// Unsigned half words are read from memory, by their indices, as the numbers that were put there.
pub proof fn law_halves_are_read_back(data: Seq<u16>, i: nat)
    requires
        i < data.len(),
    ensures
        bytes_of(data).len() == 2 * data.len(),
        half_at(bytes_of(data), i) == data[i as int],
{
    let x = data[i as int];
    x.lemma_len();
    law_elements_stand_in_order(data, i, 0);
    law_elements_stand_in_order(data, i, 1);
}

/// Bytes stand in memory as they are.
pub proof fn law_bytes_are_themselves(data: Seq<u8>)
    ensures
        bytes_of(data) == data,
{
    0u8.lemma_len();
    assert forall|i: int| 0 <= i < data.len() implies bytes_of(data)[i] == data[i] by {
        law_elements_stand_in_order(data, i as nat, 0);
    }
    assert(bytes_of(data) =~= data);
}

} // verus!
