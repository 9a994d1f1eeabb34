//! The genome-encoded neural brain: how nine genome bytes describe one weighted
//! connection, how a brain is built from, mutated in and stored as bytes.
use rand::RngCore;
use vstd::prelude::*;

verus! {

/// One weighted edge of the network. Layer 0 is the input layer, layer 1 the inner
/// layer and layer 2 the output layer; ids index neurons within their layer.
/// The weight is kept exactly, as a count of 2^-29 units: the weight is
/// `weight_units / 536870912`, a value in [-4, 4).
#[derive(Clone, Copy, Debug, PartialEq, Eq, Structural)]
pub struct Connection {
    pub source_type: usize,
    pub source_id: usize,
    pub sink_type: usize,
    pub sink_id: usize,
    pub weight_units: i64,
}

/// Layer a connection reads from: the top bit of its first byte.
pub open spec fn source_layer(b0: u8) -> int {
    b0 as int / 128
}

/// Layer a connection writes to: one more than the second-highest bit of its first byte.
pub open spec fn sink_layer(b0: u8) -> int {
    (b0 as int / 64) % 2 + 1
}

/// The modulus applied to a raw neuron id for a layer of `size` neurons: the size
/// truncated to 16 bits.
pub open spec fn id_modulus(size: usize) -> int {
    size as int % 65536
}

/// The connection that the nine bytes `b` describe, for the layer sizes `sizes`:
/// byte 0 picks the layers, bytes 1-2 and 3-4 are big-endian raw ids reduced modulo
/// the (16-bit truncated) layer sizes, and bytes 5-8 a big-endian unsigned weight
/// offset by 2^31.
pub open spec fn decode_connection(b: Seq<u8>, sizes: Seq<usize>) -> Connection {
    let sot = source_layer(b[0]);
    let sit = sink_layer(b[0]);
    Connection {
        source_type: sot as usize,
        source_id: ((b[1] * 256 + b[2]) % id_modulus(sizes[sot])) as usize,
        sink_type: sit as usize,
        sink_id: ((b[3] * 256 + b[4]) % id_modulus(sizes[sit])) as usize,
        weight_units: (b[5] * 16777216 + b[6] * 65536 + b[7] * 256 + b[8] - 2147483648) as i64,
    }
}

/// The ids of both ends are non-zero moduli, so the bytes can be decoded.
pub open spec fn decodable(b0: u8, sizes: Seq<usize>) -> bool {
    id_modulus(sizes[source_layer(b0)]) != 0 && id_modulus(sizes[sink_layer(b0)]) != 0
}

impl Connection {
    /// Decodes the connection described by the nine bytes `b`.
    pub fn from_bytes(b: &[u8], sizes: &[usize; 3]) -> (r: Connection)
        requires
            b@.len() >= 9,
            decodable(b@[0], sizes@),
        ensures
            r == decode_connection(b@, sizes@),
            r.source_type <= 1,
            1 <= r.sink_type <= 2,
            r.source_id < sizes@[r.source_type as int],
            r.sink_id < sizes@[r.sink_type as int],
            -2147483648 <= r.weight_units < 2147483648,
    {
        let b0 = b[0];
        let sot: usize = (b0 >> 7) as usize;
        assert((b0 >> 7) as int == b0 as int / 128) by (bit_vector);
        assert((b0 << 1) >> 7 <= 1) by (bit_vector);
        let sit: usize = (((b0 << 1) >> 7) + 1) as usize;
        assert((((b0 << 1) >> 7) + 1) as int == (b0 as int / 64) % 2 + 1) by (bit_vector);
        let source_raw: u16 = (b[1] as u16) * 256 + b[2] as u16;
        let sink_raw: u16 = (b[3] as u16) * 256 + b[4] as u16;
        let source_mod: u16 = (sizes[sot] % 65536) as u16;
        let sink_mod: u16 = (sizes[sit] % 65536) as u16;
        let raw_weight: u32 = (b[5] as u32) * 16777216 + (b[6] as u32) * 65536 + (b[7] as u32)
            * 256 + b[8] as u32;
        Connection {
            source_type: sot,
            sink_type: sit,
            source_id: (source_raw % source_mod) as usize,
            sink_id: (sink_raw % sink_mod) as usize,
            weight_units: raw_weight as i64 - 2147483648,
        }
    }
}


/// Layer sizes of a brain whose inner layer has `inside` neurons: 385 inputs
/// (six piece kinds on 64 squares and the side to move), the inner layer, 128 outputs.
pub open spec fn layer_sizes(inside: usize) -> Seq<usize> {
    seq![385usize, inside, 128usize]
}

/// First byte of the chunk that encodes connection `k` of `genome`.
pub open spec fn chunk_head(genome: Seq<u8>, k: int) -> u8 {
    genome[9 * k]
}

/// The nine bytes that encode connection `k` of `genome`.
pub open spec fn chunk(genome: Seq<u8>, k: int) -> Seq<u8> {
    genome.subrange(9 * k, 9 * k + 9)
}

/// The connections a genome encodes: one per complete nine-byte chunk, in order;
/// trailing bytes that do not fill a chunk encode nothing.
pub open spec fn connections_of(genome: Seq<u8>, inside: usize) -> Seq<Connection> {
    Seq::new(genome.len() / 9, |k: int| decode_connection(chunk(genome, k), layer_sizes(inside)))
}

/// Every chunk of `genome` can be decoded with an inner layer of `inside` neurons:
/// either the inner layer's id modulus is non-zero, or no chunk touches the inner layer.
pub open spec fn genome_fits(genome: Seq<u8>, inside: usize) -> bool {
    forall|k: int|
        0 <= k < genome.len() / 9 ==> decodable(#[trigger] chunk_head(genome, k), layer_sizes(inside))
}

/// A connection whose ends lie inside the layers of a brain with `inside` inner neurons.
pub open spec fn connection_fits(c: Connection, inside: usize) -> bool {
    &&& c.source_type <= 1
    &&& 1 <= c.sink_type <= 2
    &&& c.source_id < layer_sizes(inside)[c.source_type as int]
    &&& c.sink_id < layer_sizes(inside)[c.sink_type as int]
    &&& -2147483648 <= c.weight_units < 2147483648
}

/// Builds the connections of `genome`, one per nine-byte chunk.
fn gen_connections(genome: &[u8], sizes: &[usize; 3]) -> (r: Vec<Connection>)
    requires
        sizes@ == layer_sizes(sizes@[1]),
        genome_fits(genome@, sizes@[1]),
    ensures
        r@ == connections_of(genome@, sizes@[1]),
        forall|k: int| 0 <= k < r@.len() ==> connection_fits(#[trigger] r@[k], sizes@[1]),
{
    let len = genome.len();
    let n = len / 9;
    let mut conns: Vec<Connection> = Vec::new();
    let mut k: usize = 0;
    while k < n
        invariant
            len == genome@.len(),
            n == len / 9,
            k <= n,
            sizes@ == layer_sizes(sizes@[1]),
            genome_fits(genome@, sizes@[1]),
            conns@.len() == k,
            forall|j: int|
                0 <= j < k ==> #[trigger] conns@[j] == decode_connection(
                    chunk(genome@, j),
                    layer_sizes(sizes@[1]),
                ),
            forall|j: int| 0 <= j < k ==> connection_fits(#[trigger] conns@[j], sizes@[1]),
        decreases n - k,
    {
        assert(9 * k + 9 <= genome@.len()) by (nonlinear_arith)
            requires
                k < n,
                n == genome@.len() / 9,
                genome@.len() == len,
        ;
        let start = 9 * k;
        let piece = &genome[start..start + 9];
        assert(chunk_head(genome@, k as int) == piece@[0]);
        let c = Connection::from_bytes(piece, sizes);
        conns.push(c);
        k = k + 1;
    }
    assert(conns@ =~= connections_of(genome@, sizes@[1]));
    conns
}


/// `x` has exactly one bit set.
pub open spec fn is_single_bit(x: u8) -> bool {
    x == 1 || x == 2 || x == 4 || x == 8 || x == 16 || x == 32 || x == 64 || x == 128
}

/// `new` is `old`, or `old` with exactly one bit flipped.
pub open spec fn within_one_bit(old: u8, new: u8) -> bool {
    old == new || is_single_bit(old ^ new)
}

/// `new` has the length of `old` and each of its bytes is within one bit of the
/// byte at the same place in `old`.
pub open spec fn is_point_mutation_of(old: Seq<u8>, new: Seq<u8>) -> bool {
    &&& new.len() == old.len()
    &&& forall|i: int| 0 <= i < old.len() ==> within_one_bit(old[i], #[trigger] new[i])
}

/// Whether a mutation draw `roll` mutates a byte at period `period`: the draw modulo
/// the period is below 8, so that a byte mutates with probability about 8 / period.
pub open spec fn mutation_fires(roll: u32, period: u32) -> bool {
    roll % period < 8
}

/// Flips the bit of `byte` that the draw `bit_draw` picks (bit `bit_draw % 8`).
pub fn flip_bit(byte: u8, bit_draw: u32) -> (r: u8)
    ensures
        r == byte ^ (1u8 << ((bit_draw % 8) as u8)),
        is_single_bit(byte ^ r),
        within_one_bit(byte, r),
{
    let k: u8 = (bit_draw % 8) as u8;
    assert(k < 8 ==> is_single_bit(byte ^ (byte ^ (1u8 << k)))) by (bit_vector);
    byte ^ (1u8 << k)
}

/// The byte that `byte` becomes under the draws `roll` and `bit_draw`: when the roll
/// fires at period `period`, the bit that `bit_draw` picks is flipped; otherwise the
/// byte stays.
pub open spec fn mutation_of_byte(byte: u8, roll: u32, bit_draw: u32, period: u32) -> u8 {
    if mutation_fires(roll, period) {
        byte ^ (1u8 << ((bit_draw % 8) as u8))
    } else {
        byte
    }
}

/// `new` is what `old` becomes byte by byte under the roll draws `rolls` and the bit
/// draws `bits`, at period `period`.
pub open spec fn explained_by_draws(
    old: Seq<u8>,
    new: Seq<u8>,
    rolls: Seq<u32>,
    bits: Seq<u32>,
    period: u32,
) -> bool {
    &&& new.len() == old.len()
    &&& rolls.len() == old.len()
    &&& bits.len() == old.len()
    &&& forall|i: int|
        0 <= i < old.len() ==> #[trigger] new[i] == mutation_of_byte(old[i], rolls[i], bits[i], period)
}

/// Whether the roll draw `roll` mutates a byte at period `period`.
pub fn fires(roll: u32, period: u32) -> (r: bool)
    requires
        period > 0,
    ensures
        r == mutation_fires(roll, period),
{
    roll % period < 8
}

/// The byte that `byte` becomes under the draws `roll` and `bit_draw` at period `period`.
pub fn mutated_byte(byte: u8, roll: u32, bit_draw: u32, period: u32) -> (r: u8)
    requires
        period > 0,
    ensures
        r == mutation_of_byte(byte, roll, bit_draw, period),
        within_one_bit(byte, r),
        mutation_fires(roll, period) ==> is_single_bit(byte ^ r),
        period <= 8 ==> mutation_fires(roll, period),
{
    assert(roll % period < period);
    if fires(roll, period) {
        flip_bit(byte, bit_draw)
    } else {
        byte
    }
}

/// Draws the next `u32` of the thread-local generator
/// (`rand::RngCore::next_u32` on `rand::thread_rng()`). Nothing is claimed of the value.
#[verifier::external_body]
fn random_u32() -> u32 {
    rand::thread_rng().next_u32()
}

/// Overwrites `buf` with bytes of the thread-local generator
/// (`rand::RngCore::fill_bytes` on `rand::thread_rng()`). Claimed: the length is kept;
/// nothing is claimed of the bytes.
#[verifier::external_body]
fn fill_random(buf: &mut Vec<u8>)
    ensures
        final(buf)@.len() == old(buf)@.len(),
{
    rand::thread_rng().fill_bytes(buf.as_mut_slice())
}

/// With a non-zero inner id modulus every genome fits, and a genome shorter than one
/// chunk fits any inner layer.
pub proof fn lemma_genome_fits_any(genome: Seq<u8>, inside: usize)
    requires
        id_modulus(inside) != 0 || genome.len() < 9,
    ensures
        genome_fits(genome, inside),
{
    assert forall|k: int| 0 <= k < genome.len() / 9 implies decodable(
        #[trigger] chunk_head(genome, k),
        layer_sizes(inside),
    ) by {
        let b0 = chunk_head(genome, k);
        assert(0 <= source_layer(b0) <= 1);
        assert(1 <= sink_layer(b0) <= 2);
    }
}

/// A genome of `n` bytes encodes `n / 9` connections, and when it fits the inner layer
/// each of them lies within the layers, with a weight in [-4, 4).
pub proof fn lemma_decoded_connections_fit(genome: Seq<u8>, inside: usize)
    requires
        genome_fits(genome, inside),
    ensures
        connections_of(genome, inside).len() == genome.len() / 9,
        forall|k: int|
            0 <= k < genome.len() / 9 ==> connection_fits(
                #[trigger] connections_of(genome, inside)[k],
                inside,
            ),
{
    assert forall|k: int| 0 <= k < genome.len() / 9 implies connection_fits(
        #[trigger] connections_of(genome, inside)[k],
        inside,
    ) by {
        assert(9 * k + 9 <= genome.len()) by (nonlinear_arith)
            requires
                0 <= k < genome.len() / 9,
        ;
        let b = chunk(genome, k);
        assert(b[0] == chunk_head(genome, k));
        assert(decodable(b[0], layer_sizes(inside)));
        let sizes = layer_sizes(inside);
        let c = decode_connection(b, sizes);
        let sot = source_layer(b[0]);
        let sit = sink_layer(b[0]);
        assert(0 <= sot <= 1 && 1 <= sit <= 2);
        assert(0 <= b[1] * 256 + b[2]);
        assert(0 <= b[3] * 256 + b[4]);
        assert(id_modulus(sizes[sot]) <= sizes[sot]);
        assert(id_modulus(sizes[sit]) <= sizes[sit]);
    }
}

/// Why loading a stored brain failed.
#[derive(Clone, Copy, Debug, PartialEq, Eq, Structural)]
pub enum LoadError {
    /// Fewer than the eight bytes of the inner layer size.
    TooShort,
    /// The stored inner layer size does not fit in a `usize` of this target.
    SizeTooLarge,
    /// Some connection needs the inner layer, whose id modulus is zero.
    InnerLayerEmpty,
}

/// The unsigned integer that the first eight bytes of `b` encode, big-endian.
pub open spec fn be_u64(b: Seq<u8>) -> int {
    b[0] * 0x100_0000_0000_0000 + b[1] * 0x1_0000_0000_0000 + b[2] * 0x100_0000_0000 + b[3]
        * 0x1_0000_0000 + b[4] * 0x100_0000 + b[5] * 0x1_0000 + b[6] * 0x100 + b[7]
}

/// The eight big-endian bytes of `x`.
pub open spec fn be_bytes(x: u64) -> Seq<u8> {
    seq![
        (x >> 56u64) as u8,
        (x >> 48u64) as u8,
        (x >> 40u64) as u8,
        (x >> 32u64) as u8,
        (x >> 24u64) as u8,
        (x >> 16u64) as u8,
        (x >> 8u64) as u8,
        x as u8,
    ]
}

/// How a brain is stored: the inner layer size as eight big-endian bytes, then the genome.
pub open spec fn brain_file(genome: Seq<u8>, inside: usize) -> Seq<u8> {
    be_bytes(inside as u64) + genome
}

/// What reading the stored bytes gives: the genome and the inner layer size, or the
/// reason they cannot make a brain.
pub open spec fn parse_brain_file(bytes: Seq<u8>) -> Result<(Seq<u8>, usize), LoadError> {
    if bytes.len() < 8 {
        Err(LoadError::TooShort)
    } else if be_u64(bytes) > usize::MAX {
        Err(LoadError::SizeTooLarge)
    } else if !genome_fits(bytes.skip(8), be_u64(bytes) as usize) {
        Err(LoadError::InnerLayerEmpty)
    } else {
        Ok((bytes.skip(8), be_u64(bytes) as usize))
    }
}

/// Big-endian bytes read back give the number they were written from.
pub proof fn lemma_be_roundtrip(x: u64)
    ensures
        be_u64(be_bytes(x)) == x,
{
    let b = be_bytes(x);
    assert(((x >> 56u64) as u8) as int * 0x100_0000_0000_0000 + ((x >> 48u64) as u8) as int
        * 0x1_0000_0000_0000 + ((x >> 40u64) as u8) as int * 0x100_0000_0000 + ((x
        >> 32u64) as u8) as int * 0x1_0000_0000 + ((x >> 24u64) as u8) as int * 0x100_0000
        + ((x >> 16u64) as u8) as int * 0x1_0000 + ((x >> 8u64) as u8) as int * 0x100 + (
    x as u8) as int == x) by (bit_vector);
}

/// Storing a brain and reading it back gives its genome and inner layer size again
/// (and so, through `from_file_bytes`, the same connections), whenever the genome
/// fits the inner layer.
pub proof fn lemma_brain_file_roundtrip(genome: Seq<u8>, inside: usize)
    requires
        genome_fits(genome, inside),
    ensures
        parse_brain_file(brain_file(genome, inside)) == Ok::<(Seq<u8>, usize), LoadError>((genome, inside)),
{
    let bytes = brain_file(genome, inside);
    lemma_be_roundtrip(inside as u64);
    assert(bytes.skip(8) =~= genome);
    assert(be_u64(bytes) == be_u64(be_bytes(inside as u64)));
}

/// Whether every chunk of `genome` can be decoded with `inside` inner neurons.
pub fn genome_fits_exec(genome: &[u8], inside: usize) -> (r: bool)
    ensures
        r == genome_fits(genome@, inside),
{
    if inside % 65536 != 0 {
        proof {
            lemma_genome_fits_any(genome@, inside);
        }
        return true;
    }
    let len = genome.len();
    let n = len / 9;
    let mut k: usize = 0;
    while k < n
        invariant
            len == genome@.len(),
            n == len / 9,
            k <= n,
            id_modulus(inside) == 0,
            forall|j: int| 0 <= j < k ==> decodable(#[trigger] chunk_head(genome@, j), layer_sizes(inside)),
        decreases n - k,
    {
        assert(9 * k + 9 <= len) by (nonlinear_arith)
            requires
                k < n,
                n == len / 9,
        ;
        let b0 = genome[9 * k];
        assert(b0 == chunk_head(genome@, k as int));
        if b0 >= 128 || (b0 / 64) % 2 == 0 {
            assert(!decodable(b0, layer_sizes(inside)));
            return false;
        }
        k = k + 1;
    }
    true
}

/// A network brain: its genome and the connections it encodes.
pub struct OrganicNNBrain {
    genome: Vec<u8>,
    connections: Vec<Connection>,
    sizes: [usize; 3],
}

impl OrganicNNBrain {
    /// The layers have 385, `inside_size()` and 128 neurons, and every connection lies
    /// within them.
    #[verifier::type_invariant]
    spec fn well_formed(&self) -> bool {
        &&& self.sizes@ == layer_sizes(self.sizes@[1])
        &&& forall|k: int|
            0 <= k < self.connections@.len() ==> connection_fits(
                #[trigger] self.connections@[k],
                self.sizes@[1],
            )
    }

    /// The genome bytes.
    pub closed spec fn genome_seq(&self) -> Seq<u8> {
        self.genome@
    }

    /// Number of neurons of the inner layer.
    pub closed spec fn inside_size(&self) -> usize {
        self.sizes@[1]
    }

    /// The connections currently in use.
    pub closed spec fn connection_seq(&self) -> Seq<Connection> {
        self.connections@
    }

    /// The connections are those that the genome encodes.
    pub open spec fn in_sync(&self) -> bool {
        self.connection_seq() == connections_of(self.genome_seq(), self.inside_size())
    }

    /// A brain with a copy of `genome` and an inner layer of `inside_size` neurons.
    pub fn new(genome: &[u8], inside_size: usize) -> (r: OrganicNNBrain)
        requires
            genome_fits(genome@, inside_size),
        ensures
            r.genome_seq() == genome@,
            r.inside_size() == inside_size,
            genome_fits(r.genome_seq(), r.inside_size()),
            r.in_sync(),
    {
        let sizes: [usize; 3] = [385, inside_size, 128];
        assert(sizes@ =~= layer_sizes(inside_size));
        let connections = gen_connections(genome, &sizes);
        OrganicNNBrain { genome: vstd::slice::slice_to_vec(genome), sizes, connections }
    }

    /// A brain with a random genome of `conns` connections and an inner layer of
    /// `inside_size` neurons; `None` when the drawn genome has a chunk that needs an
    /// inner layer whose id modulus is zero, so that its connections cannot be built.
    /// A brain is always returned when the inner layer's id modulus is non-zero or
    /// there is no connection.
    pub fn random(inside_size: usize, conns: usize) -> (r: Option<OrganicNNBrain>)
        requires
            conns * 9 <= usize::MAX,
        ensures
            id_modulus(inside_size) != 0 || conns == 0 ==> r is Some,
            exists|g: Seq<u8>|
                g.len() == conns * 9 && (r is None <==> !#[trigger] genome_fits(g, inside_size)) && (
                r matches Some(b) ==> b.genome_seq() == g),
            r matches Some(b) ==> {
                &&& b.genome_seq().len() == conns * 9
                &&& b.inside_size() == inside_size
                &&& genome_fits(b.genome_seq(), b.inside_size())
                &&& b.in_sync()
            },
    {
        let mut genome: Vec<u8> = vec![0u8; conns * 9];
        fill_random(&mut genome);
        let fits = genome_fits_exec(genome.as_slice(), inside_size);
        proof {
            if id_modulus(inside_size) != 0 || conns == 0 {
                lemma_genome_fits_any(genome@, inside_size);
            }
        }
        if !fits {
            assert(!genome_fits(genome@, inside_size));
            return None;
        }
        let b = OrganicNNBrain::new(genome.as_slice(), inside_size);
        assert(genome_fits(b.genome_seq(), inside_size));
        Some(b)
    }

    /// A copy of this brain with its genome mutated (see `mutate`) and its connections
    /// rebuilt from the mutated genome; `None` when the mutation made some chunk need an
    /// inner layer whose id modulus is zero, so that the connections cannot be rebuilt.
    /// That can only happen when the inner layer's id modulus is zero and the genome has
    /// a chunk; otherwise a brain is always returned.
    pub fn get_mutated(&self, period: u32) -> (r: Option<OrganicNNBrain>)
        requires
            period > 0 || self.genome_seq().len() == 0,
            genome_fits(self.genome_seq(), self.inside_size()),
        ensures
            id_modulus(self.inside_size()) != 0 || self.genome_seq().len() < 9 ==> r is Some,
            r is None ==> id_modulus(self.inside_size()) == 0 && self.genome_seq().len() >= 9,
            exists|g: Seq<u8>, rolls: Seq<u32>, bits: Seq<u32>|
                #[trigger] explained_by_draws(self.genome_seq(), g, rolls, bits, period) && (r is None
                    <==> !genome_fits(g, self.inside_size())) && (r matches Some(b) ==> b.genome_seq()
                    == g),
            r matches Some(b) ==> {
                &&& exists|rolls: Seq<u32>, bits: Seq<u32>|
                    #[trigger] explained_by_draws(self.genome_seq(), b.genome_seq(), rolls, bits, period)
                &&& is_point_mutation_of(self.genome_seq(), b.genome_seq())
                &&& (period <= 8 ==> forall|i: int|
                    0 <= i < self.genome_seq().len() ==> is_single_bit(
                        self.genome_seq()[i] ^ #[trigger] b.genome_seq()[i],
                    ))
                &&& b.inside_size() == self.inside_size()
                &&& genome_fits(b.genome_seq(), b.inside_size())
                &&& b.in_sync()
            },
    {
        let mut out = OrganicNNBrain::new(self.genome.as_slice(), self.get_size(1));
        out.mutate(period);
        let ghost (rolls, bits) = choose|rolls: Seq<u32>, bits: Seq<u32>|
            explained_by_draws(self.genome_seq(), out.genome_seq(), rolls, bits, period);
        assert(explained_by_draws(self.genome_seq(), out.genome_seq(), rolls, bits, period));
        if !genome_fits_exec(out.genome.as_slice(), out.get_size(1)) {
            proof {
                if id_modulus(self.inside_size()) != 0 || self.genome_seq().len() < 9 {
                    lemma_genome_fits_any(out.genome_seq(), out.inside_size());
                }
            }
            return None;
        }
        out.regen_connections();
        assert(explained_by_draws(self.genome_seq(), out.genome_seq(), rolls, bits, period));
        Some(out)
    }

    /// The stored form of this brain: the inner layer size as eight big-endian bytes,
    /// then the genome.
    pub fn to_file_bytes(&self) -> (r: Vec<u8>)
        ensures
            r@ == brain_file(self.genome_seq(), self.inside_size()),
    {
        let x: u64 = self.get_size(1) as u64;
        let mut out: Vec<u8> = Vec::new();
        out.push((x >> 56u64) as u8);
        out.push((x >> 48u64) as u8);
        out.push((x >> 40u64) as u8);
        out.push((x >> 32u64) as u8);
        out.push((x >> 24u64) as u8);
        out.push((x >> 16u64) as u8);
        out.push((x >> 8u64) as u8);
        out.push(x as u8);
        assert(out@ =~= be_bytes(x));
        let len = self.genome.len();
        let mut i: usize = 0;
        while i < len
            invariant
                len == self.genome@.len(),
                i <= len,
                out@ =~= be_bytes(x) + self.genome@.subrange(0, i as int),
            decreases len - i,
        {
            out.push(self.genome[i]);
            i = i + 1;
        }
        assert(self.genome@.subrange(0, len as int) =~= self.genome@);
        out
    }

    /// Reads a brain back from its stored form (see `to_file_bytes`).
    pub fn from_file_bytes(bytes: &[u8]) -> (r: Result<OrganicNNBrain, LoadError>)
        ensures
            match (r, parse_brain_file(bytes@)) {
                (Ok(b), Ok((genome, inside))) => b.genome_seq() == genome && b.inside_size()
                    == inside && b.in_sync(),
                (Err(e), Err(f)) => e == f,
                _ => false,
            },
    {
        if bytes.len() < 8 {
            return Err(LoadError::TooShort);
        }
        let v: u64 = (bytes[0] as u64) * 0x100_0000_0000_0000 + (bytes[1] as u64)
            * 0x1_0000_0000_0000 + (bytes[2] as u64) * 0x100_0000_0000 + (bytes[3] as u64)
            * 0x1_0000_0000 + (bytes[4] as u64) * 0x100_0000 + (bytes[5] as u64) * 0x1_0000
            + (bytes[6] as u64) * 0x100 + bytes[7] as u64;
        if v > usize::MAX as u64 {
            return Err(LoadError::SizeTooLarge);
        }
        let inside = v as usize;
        let genome = &bytes[8..bytes.len()];
        assert(genome@ =~= bytes@.skip(8));
        if !genome_fits_exec(genome, inside) {
            return Err(LoadError::InnerLayerEmpty);
        }
        Ok(OrganicNNBrain::new(genome, inside))
    }

    /// The size of layer `idx` (0: input, 1: inner, 2: output).
    pub fn get_size(&self, idx: usize) -> (r: usize)
        requires
            idx < 3,
        ensures
            r == layer_sizes(self.inside_size())[idx as int],
    {
        proof {
            use_type_invariant(self);
        }
        self.sizes[idx]
    }

    /// The connections currently in use; each lies within the layers.
    pub fn connections(&self) -> (r: &Vec<Connection>)
        ensures
            r@ == self.connection_seq(),
            forall|k: int| 0 <= k < r@.len() ==> connection_fits(#[trigger] r@[k], self.inside_size()),
    {
        proof {
            use_type_invariant(self);
        }
        &self.connections
    }

    /// The genome bytes.
    pub fn genome(&self) -> (r: &Vec<u8>)
        ensures
            r@ == self.genome_seq(),
    {
        &self.genome
    }

    /// Rebuilds the connections from the genome.
    fn regen_connections(&mut self)
        requires
            genome_fits(old(self).genome_seq(), old(self).inside_size()),
        ensures
            final(self).genome_seq() == old(self).genome_seq(),
            final(self).inside_size() == old(self).inside_size(),
            final(self).in_sync(),
    {
        proof {
            use_type_invariant(&*self);
        }
        let conns = gen_connections(self.genome.as_slice(), &self.sizes);
        self.connections = conns;
    }

    /// Flips, independently for each genome byte, one random bit of it when a random
    /// draw modulo `period` falls below 8 (`period` is `1 / rate` of a mutation rate,
    /// so each byte mutates with probability about `8 * rate`). The connections are
    /// left as they were: `get_mutated` rebuilds them.
    pub fn mutate(&mut self, period: u32)
        requires
            period > 0 || old(self).genome_seq().len() == 0,
        ensures
            exists|rolls: Seq<u32>, bits: Seq<u32>|
                #[trigger] explained_by_draws(
                    old(self).genome_seq(),
                    final(self).genome_seq(),
                    rolls,
                    bits,
                    period,
                ),
            is_point_mutation_of(old(self).genome_seq(), final(self).genome_seq()),
            period <= 8 ==> forall|i: int|
                0 <= i < old(self).genome_seq().len() ==> is_single_bit(
                    old(self).genome_seq()[i] ^ #[trigger] final(self).genome_seq()[i],
                ),
            final(self).inside_size() == old(self).inside_size(),
            final(self).connection_seq() == old(self).connection_seq(),
    {
        proof {
            use_type_invariant(&*self);
        }
        let mut genome: Vec<u8> = Vec::new();
        std::mem::swap(&mut genome, &mut self.genome);
        let ghost before = genome@;
        let ghost mut rolls: Seq<u32> = Seq::empty();
        let ghost mut bits: Seq<u32> = Seq::empty();
        let len = genome.len();
        let mut i: usize = 0;
        while i < len
            invariant
                len == genome@.len(),
                i <= len,
                period > 0 || len == 0,
                before == old(self).genome@,
                genome@.len() == before.len(),
                rolls.len() == i,
                bits.len() == i,
                forall|j: int|
                    0 <= j < i ==> #[trigger] genome@[j] == mutation_of_byte(
                        before[j],
                        rolls[j],
                        bits[j],
                        period,
                    ),
                forall|j: int| 0 <= j < i ==> within_one_bit(before[j], #[trigger] genome@[j]),
                period <= 8 ==> forall|j: int|
                    0 <= j < i ==> is_single_bit(before[j] ^ #[trigger] genome@[j]),
                forall|j: int| i <= j < len ==> #[trigger] genome@[j] == before[j],
            decreases len - i,
        {
            let roll = random_u32();
            let bit_draw: u32 = if fires(roll, period) {
                random_u32()
            } else {
                0
            };
            let byte = mutated_byte(genome[i], roll, bit_draw, period);
            genome.set(i, byte);
            proof {
                rolls = rolls.push(roll);
                bits = bits.push(bit_draw);
            }
            i = i + 1;
        }
        assert(explained_by_draws(before, genome@, rolls, bits, period));
        self.genome = genome;
        assert(explained_by_draws(old(self).genome_seq(), self.genome_seq(), rolls, bits, period));
    }
}

} // verus!
