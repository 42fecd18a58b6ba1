//! Pair-buffer codec: the flat little-endian form in which ordered key/value
//! collections cross the host boundary.
//!
//! Layout: a 32-bit pair count `n`; then `2n` 32-bit lengths, key length and
//! value length of each pair in turn; then, pair by pair, the key bytes, a zero
//! byte, the value bytes and a zero byte.
use vstd::prelude::*;
use vstd::slice::{slice_subrange, slice_to_vec};
use vstd::utf8::{decode_utf8, encode_utf8, encode_utf8_decode_utf8, valid_utf8};

verus! {

/// The four little-endian bytes of `x`.
pub open spec fn le_bytes(x: u32) -> Seq<u8> {
    seq![
        (x % 256) as u8,
        (x / 256 % 256) as u8,
        (x / 256 / 256 % 256) as u8,
        (x / 256 / 256 / 256 % 256) as u8,
    ]
}

/// The unsigned little-endian number held in the four bytes at `off`.
pub open spec fn le_value(b: Seq<u8>, off: int) -> int {
    b[off] as int + 256 * (b[off + 1] as int + 256 * (b[off + 2] as int + 256 * (
    b[off + 3] as int)))
}

/// Length in bytes of the UTF-8 form of a text.
pub open spec fn byte_len(s: Seq<char>) -> int {
    encode_utf8(s).len() as int
}

/// The length table of the wire form: key and value length of each pair.
pub open spec fn length_table(ps: Seq<(Seq<char>, Seq<char>)>) -> Seq<u8>
    decreases ps.len(),
{
    if ps.len() == 0 {
        seq![]
    } else {
        let p = ps.last();
        length_table(ps.drop_last()) + le_bytes(byte_len(p.0) as u32) + le_bytes(
            byte_len(p.1) as u32,
        )
    }
}

/// The data section of the wire form: each key and value, each followed by a zero byte.
pub open spec fn data_section(ps: Seq<(Seq<char>, Seq<char>)>) -> Seq<u8>
    decreases ps.len(),
{
    if ps.len() == 0 {
        seq![]
    } else {
        let p = ps.last();
        data_section(ps.drop_last()) + encode_utf8(p.0) + seq![0u8] + encode_utf8(p.1) + seq![0u8]
    }
}

/// Size of the data section.
pub open spec fn data_size(ps: Seq<(Seq<char>, Seq<char>)>) -> int
    decreases ps.len(),
{
    if ps.len() == 0 {
        0
    } else {
        data_size(ps.drop_last()) + byte_len(ps.last().0) + byte_len(ps.last().1) + 2
    }
}

/// The whole wire form of a sequence of pairs.
pub open spec fn encode_pairs(ps: Seq<(Seq<char>, Seq<char>)>) -> Seq<u8> {
    le_bytes(ps.len() as u32) + length_table(ps) + data_section(ps)
}

/// Size of the wire form: `4 + 8n + sum of (key length + 1 + value length + 1)`.
pub open spec fn encoded_size(ps: Seq<(Seq<char>, Seq<char>)>) -> int {
    4 + 8 * ps.len() + data_size(ps)
}

/// The pairs fit the format: the count and every length fit 32 bits, and the
/// whole form fits in memory.
pub open spec fn encodable(ps: Seq<(Seq<char>, Seq<char>)>) -> bool {
    &&& ps.len() <= u32::MAX
    &&& forall|i: int|
        0 <= i < ps.len() ==> byte_len(#[trigger] ps[i].0) <= u32::MAX && byte_len(ps[i].1)
            <= u32::MAX
    &&& encoded_size(ps) <= usize::MAX
}

/// The collection a sequence of pairs describes: a later pair wins over an
/// earlier one with the same key.
pub open spec fn pairs_map(ps: Seq<(Seq<char>, Seq<char>)>) -> Map<Seq<char>, Seq<char>>
    decreases ps.len(),
{
    if ps.len() == 0 {
        Map::empty()
    } else {
        pairs_map(ps.drop_last()).insert(ps.last().0, ps.last().1)
    }
}

/// Number of pairs that a buffer declares.
pub open spec fn pair_count(b: Seq<u8>) -> int {
    le_value(b, 0)
}

/// Declared key length of pair `j`.
pub open spec fn key_len_at(b: Seq<u8>, j: int) -> int {
    le_value(b, 4 + 8 * j)
}

/// Declared value length of pair `j`.
pub open spec fn value_len_at(b: Seq<u8>, j: int) -> int {
    le_value(b, 8 + 8 * j)
}

/// Where the data of pair `j` starts in a buffer of `n` pairs; only the
/// header decides it.
pub open spec fn data_offset(b: Seq<u8>, n: int, j: int) -> int
    decreases j,
{
    if j <= 0 {
        4 + 8 * n
    } else {
        data_offset(b, n, j - 1) + key_len_at(b, j - 1) + value_len_at(b, j - 1) + 2
    }
}

/// Key bytes of pair `j`.
pub open spec fn key_field(b: Seq<u8>, n: int, j: int) -> Seq<u8> {
    let o = data_offset(b, n, j);
    b.subrange(o, o + key_len_at(b, j))
}

/// Value bytes of pair `j`.
pub open spec fn value_field(b: Seq<u8>, n: int, j: int) -> Seq<u8> {
    let o = data_offset(b, n, j) + key_len_at(b, j) + 1;
    b.subrange(o, o + value_len_at(b, j))
}

/// Every key and value of the first `n` pairs is UTF-8 text.
pub open spec fn fields_are_text(b: Seq<u8>, n: int) -> bool {
    forall|j: int|
        0 <= j < n ==> valid_utf8(#[trigger] key_field(b, n, j)) && valid_utf8(
            value_field(b, n, j),
        )
}

/// Why a buffer does not decode.
#[derive(Clone, Copy, Debug, PartialEq, Eq, Structural)]
pub enum DecodeError {
    /// The buffer ends inside the length table.
    TruncatedHeader,
    /// A declared length makes a key or value run past the end of the buffer.
    LengthOverrun,
    /// A key or value is not UTF-8 text.
    InvalidText,
}

/// What a buffer decodes to: its pairs in order, or the error.
pub open spec fn decode_pairs(b: Seq<u8>) -> Result<Seq<(Seq<char>, Seq<char>)>, DecodeError> {
    let n = pair_count(b);
    if b.len() < 4 || n == 0 {
        Ok(seq![])
    } else if 4 + 8 * n > b.len() {
        Err(DecodeError::TruncatedHeader)
    } else if data_offset(b, n, n) > b.len() + 1 {
        Err(DecodeError::LengthOverrun)
    } else if !fields_are_text(b, n) {
        Err(DecodeError::InvalidText)
    } else {
        Ok(
            Seq::new(
                n as nat,
                |j: int| (decode_utf8(key_field(b, n, j)), decode_utf8(value_field(b, n, j))),
            ),
        )
    }
}

/// Views of a sequence of string pairs.
pub open spec fn pair_views(es: Seq<(String, String)>) -> Seq<(Seq<char>, Seq<char>)> {
    es.map_values(|e: (String, String)| (e.0@, e.1@))
}

/// No key occurs twice.
pub open spec fn keys_unique(ps: Seq<(Seq<char>, Seq<char>)>) -> bool {
    forall|i: int, j: int| 0 <= i < j < ps.len() ==> ps[i].0 != ps[j].0
}

/// A mapping from text keys to text values, each key present at most once.
/// Pairs keep the order in which their keys were first inserted.
pub struct PairMap {
    entries: Vec<(String, String)>,
}

impl View for PairMap {
    type V = Map<Seq<char>, Seq<char>>;

    open spec fn view(&self) -> Map<Seq<char>, Seq<char>> {
        pairs_map(self.pairs())
    }
}

impl PairMap {
    /// The pairs in order.
    pub closed spec fn pairs(&self) -> Seq<(Seq<char>, Seq<char>)> {
        pair_views(self.entries@)
    }

    #[verifier::type_invariant]
    closed spec fn unique(&self) -> bool {
        keys_unique(self.pairs())
    }
}


proof fn lemma_pairs_map_domain(ps: Seq<(Seq<char>, Seq<char>)>, k: Seq<char>)
    ensures
        pairs_map(ps).contains_key(k) <==> exists|i: int| 0 <= i < ps.len() && ps[i].0 == k,
    decreases ps.len(),
{
    if ps.len() > 0 {
        let init = ps.drop_last();
        lemma_pairs_map_domain(init, k);
        if pairs_map(ps).contains_key(k) && k != ps.last().0 {
            let i = choose|i: int| 0 <= i < init.len() && init[i].0 == k;
            assert(ps[i].0 == k);
        }
        if exists|i: int| 0 <= i < ps.len() && ps[i].0 == k {
            let i = choose|i: int| 0 <= i < ps.len() && ps[i].0 == k;
            if i < init.len() {
                assert(init[i].0 == k);
            }
        }
    }
}

proof fn lemma_pairs_map_at(ps: Seq<(Seq<char>, Seq<char>)>, i: int)
    requires
        keys_unique(ps),
        0 <= i < ps.len(),
    ensures
        pairs_map(ps).contains_key(ps[i].0),
        pairs_map(ps)[ps[i].0] == ps[i].1,
    decreases ps.len(),
{
    let init = ps.drop_last();
    if i < ps.len() - 1 {
        assert(keys_unique(init));
        lemma_pairs_map_at(init, i);
        assert(init[i] == ps[i]);
        assert(ps[i].0 != ps.last().0);
    }
}

proof fn lemma_pairs_map_len(ps: Seq<(Seq<char>, Seq<char>)>)
    requires
        keys_unique(ps),
    ensures
        pairs_map(ps).dom().finite(),
        pairs_map(ps).len() == ps.len(),
    decreases ps.len(),
{
    if ps.len() > 0 {
        let init = ps.drop_last();
        assert(keys_unique(init));
        lemma_pairs_map_len(init);
        lemma_pairs_map_domain(init, ps.last().0);
        if pairs_map(init).contains_key(ps.last().0) {
            let i = choose|i: int| 0 <= i < init.len() && init[i].0 == ps.last().0;
            assert(ps[i].0 == ps[ps.len() - 1].0);
        }
    }
}

proof fn lemma_pairs_map_update(ps: Seq<(Seq<char>, Seq<char>)>, i: int, v: Seq<char>)
    requires
        keys_unique(ps),
        0 <= i < ps.len(),
    ensures
        pairs_map(ps.update(i, (ps[i].0, v))) == pairs_map(ps).insert(ps[i].0, v),
    decreases ps.len(),
{
    let k = ps[i].0;
    let qs = ps.update(i, (k, v));
    let init = ps.drop_last();
    if i == ps.len() - 1 {
        assert(qs.drop_last() =~= init);
        assert(pairs_map(qs) =~= pairs_map(ps).insert(k, v));
    } else {
        assert(keys_unique(init));
        assert(qs.drop_last() =~= init.update(i, (k, v)));
        assert(init[i] == ps[i]);
        lemma_pairs_map_update(init, i, v);
        assert(ps.last().0 != k);
        assert(pairs_map(qs) =~= pairs_map(ps).insert(k, v));
    }
}

impl PairMap {
    /// An empty collection.
    pub fn new() -> (r: PairMap)
        ensures
            r@ == Map::<Seq<char>, Seq<char>>::empty(),
            r.pairs() == Seq::<(Seq<char>, Seq<char>)>::empty(),
    {
        let r = PairMap { entries: Vec::new() };
        assert(r.pairs() =~= Seq::<(Seq<char>, Seq<char>)>::empty());
        r
    }

    /// Number of pairs, which is the number of distinct keys.
    pub fn len(&self) -> (r: usize)
        ensures
            r == self.pairs().len(),
            r == self@.len(),
    {
        proof {
            use_type_invariant(self);
            lemma_pairs_map_len(self.pairs());
        }
        self.entries.len()
    }

    /// The key and value of the pair at `i`.
    pub fn pair_at(&self, i: usize) -> (r: (&String, &String))
        requires
            i < self.pairs().len(),
        ensures
            (r.0@, r.1@) == self.pairs()[i as int],
    {
        let e = &self.entries[i];
        (&e.0, &e.1)
    }

    /// Binds `key` to `value`, replacing the value of a key already present
    /// in its place, or adding the pair at the end.
    pub fn insert(&mut self, key: String, value: String)
        ensures
            final(self)@ == old(self)@.insert(key@, value@),
            forall|i: int|
                0 <= i < old(self).pairs().len() && (#[trigger] old(self).pairs()[i]).0 == key@
                    ==> final(self).pairs() == old(self).pairs().update(i, (key@, value@)),
            !old(self)@.contains_key(key@) ==> final(self).pairs() == old(self).pairs().push(
                (key@, value@),
            ),
    {
        proof {
            use_type_invariant(&*self);
        }
        let ghost ps = self.pairs();
        let mut taken = PairMap { entries: Vec::new() };
        proof {
            assert(pair_views(taken.entries@) =~= Seq::<(Seq<char>, Seq<char>)>::empty());
        }
        core::mem::swap(self, &mut taken);
        let PairMap { mut entries } = taken;
        let n = entries.len();
        let mut i: usize = 0;
        while i < n
            invariant
                n == entries@.len(),
                ps == pair_views(entries@),
                ps == old(self).pairs(),
                keys_unique(ps),
                0 <= i <= n,
                forall|j: int| 0 <= j < i ==> ps[j].0 != key@,
            decreases n - i,
        {
            if entries[i].0 == key {
                proof {
                    lemma_pairs_map_update(ps, i as int, value@);
                    lemma_pairs_map_domain(ps, key@);
                }
                let ghost kv = (ps[i as int].0, value@);
                entries.set(i, (key, value));
                assert(pair_views(entries@) =~= ps.update(i as int, kv));
                assert forall|j: int| 0 <= j < ps.len() && (#[trigger] ps[j]).0 == kv.0 implies j
                    == i by {}
                *self = PairMap { entries };
                return;
            }
            i = i + 1;
        }
        proof {
            lemma_pairs_map_domain(ps, key@);
        }
        let ghost kv = (key@, value@);
        entries.push((key, value));
        assert(pair_views(entries@) =~= ps.push(kv));
        assert(pair_views(entries@).drop_last() =~= ps);
        *self = PairMap { entries };
    }

    /// The value bound to `key`, if any.
    pub fn get(&self, key: &String) -> (r: Option<&String>)
        ensures
            r matches Some(v) ==> self@.contains_key(key@) && v@ == self@[key@],
            r is None ==> !self@.contains_key(key@),
    {
        proof {
            use_type_invariant(self);
            lemma_pairs_map_domain(self.pairs(), key@);
        }
        let n = self.entries.len();
        let mut i: usize = 0;
        while i < n
            invariant
                n == self.entries@.len(),
                keys_unique(self.pairs()),
                0 <= i <= n,
                forall|j: int| 0 <= j < i ==> self.pairs()[j].0 != key@,
            decreases n - i,
        {
            if self.entries[i].0 == *key {
                proof {
                    lemma_pairs_map_at(self.pairs(), i as int);
                }
                return Some(&self.entries[i].1);
            }
            i = i + 1;
        }
        None
    }
}


proof fn lemma_take_step(ps: Seq<(Seq<char>, Seq<char>)>, i: int)
    requires
        0 <= i < ps.len(),
    ensures
        ps.take(i + 1).drop_last() == ps.take(i),
        ps.take(i + 1).last() == ps[i],
        ps.take(i + 1).len() > 0,
{
    assert(ps.take(i + 1).drop_last() =~= ps.take(i));
}

proof fn lemma_data_size_mono(ps: Seq<(Seq<char>, Seq<char>)>, i: int)
    requires
        0 <= i <= ps.len(),
    ensures
        0 <= data_size(ps.take(i)) <= data_size(ps),
    decreases ps.len() - i,
{
    if i == ps.len() {
        assert(ps.take(i) =~= ps);
        lemma_data_size_nonneg(ps);
    } else {
        lemma_take_step(ps, i);
        lemma_data_size_mono(ps, i + 1);
        lemma_data_size_nonneg(ps.take(i));
    }
}

proof fn lemma_data_size_nonneg(ps: Seq<(Seq<char>, Seq<char>)>)
    ensures
        data_size(ps) >= 0,
    decreases ps.len(),
{
    if ps.len() > 0 {
        lemma_data_size_nonneg(ps.drop_last());
    }
}

/// Appends the four little-endian bytes of `x`.
fn push_le32(buf: &mut Vec<u8>, x: u32)
    ensures
        final(buf)@ == old(buf)@ + le_bytes(x),
{
    buf.push((x % 256) as u8);
    buf.push((x / 256 % 256) as u8);
    buf.push((x / 256 / 256 % 256) as u8);
    buf.push((x / 256 / 256 / 256 % 256) as u8);
    assert(buf@ =~= old(buf)@ + le_bytes(x));
}

/// Appends `bytes`.
fn push_bytes(buf: &mut Vec<u8>, bytes: &[u8])
    ensures
        final(buf)@ == old(buf)@ + bytes@,
{
    let n = bytes.len();
    let mut i: usize = 0;
    while i < n
        invariant
            n == bytes@.len(),
            0 <= i <= n,
            buf@ == old(buf)@ + bytes@.take(i as int),
        decreases n - i,
    {
        buf.push(bytes[i]);
        assert(bytes@.take(i + 1) =~= bytes@.take(i as int).push(bytes@[i as int]));
        i = i + 1;
    }
    assert(bytes@.take(n as int) =~= bytes@);
}

/// Size in bytes of the wire form of `pairs`.
pub fn buffer_size(pairs: &PairMap) -> (r: usize)
    requires
        encoded_size(pairs.pairs()) <= usize::MAX,
    ensures
        r == encoded_size(pairs.pairs()),
{
    let ghost ps = pairs.pairs();
    let n = pairs.len();
    proof {
        lemma_data_size_mono(ps, 0);
        assert(ps.take(0) =~= Seq::<(Seq<char>, Seq<char>)>::empty());
    }
    let mut size: usize = 4 + 8 * n;
    let mut i: usize = 0;
    while i < n
        invariant
            n == ps.len(),
            ps == pairs.pairs(),
            encoded_size(ps) <= usize::MAX,
            0 <= i <= n,
            size == 4 + 8 * n + data_size(ps.take(i as int)),
        decreases n - i,
    {
        let (k, v) = pairs.pair_at(i);
        proof {
            lemma_take_step(ps, i as int);
            lemma_data_size_mono(ps, i + 1);
        }
        size = size + k.as_str().len() + 1 + v.as_str().len() + 1;
        i = i + 1;
    }
    assert(ps.take(n as int) =~= ps);
    size
}

/// Appends the wire form of `pairs` to `buffer`.
fn append_wire(pairs: &PairMap, buffer: &mut Vec<u8>)
    requires
        encodable(pairs.pairs()),
    ensures
        final(buffer)@ == old(buffer)@ + encode_pairs(pairs.pairs()),
{
    let ghost ps = pairs.pairs();
    let n = pairs.len();
    push_le32(buffer, n as u32);
    let ghost start = buffer@;
    assert(ps.take(0) =~= Seq::<(Seq<char>, Seq<char>)>::empty());
    assert(start == start + length_table(ps.take(0)));
    let mut i: usize = 0;
    while i < n
        invariant
            n == ps.len(),
            ps == pairs.pairs(),
            encodable(ps),
            0 <= i <= n,
            buffer@ == start + length_table(ps.take(i as int)),
        decreases n - i,
    {
        let (k, v) = pairs.pair_at(i);
        proof {
            lemma_take_step(ps, i as int);
            assert(byte_len(ps[i as int].0) <= u32::MAX);
        }
        push_le32(buffer, k.as_str().len() as u32);
        push_le32(buffer, v.as_str().len() as u32);
        assert(buffer@ =~= start + length_table(ps.take(i + 1)));
        i = i + 1;
    }
    assert(ps.take(n as int) =~= ps);
    let ghost table_end = buffer@;
    assert(table_end == table_end + data_section(ps.take(0)));
    let mut i: usize = 0;
    while i < n
        invariant
            n == ps.len(),
            ps == pairs.pairs(),
            0 <= i <= n,
            buffer@ == table_end + data_section(ps.take(i as int)),
        decreases n - i,
    {
        let (k, v) = pairs.pair_at(i);
        proof {
            lemma_take_step(ps, i as int);
        }
        push_bytes(buffer, k.as_str().as_bytes());
        buffer.push(0u8);
        push_bytes(buffer, v.as_str().as_bytes());
        buffer.push(0u8);
        assert(buffer@ =~= table_end + data_section(ps.take(i + 1)));
        i = i + 1;
    }
    assert(ps.take(n as int) =~= ps);
    assert(buffer@ =~= old(buffer)@ + encode_pairs(ps));
}

/// Writes the wire form of `pairs` from the start of `buffer`, which the
/// caller has sized to hold it; bytes past the wire form keep their value.
pub fn hashmap_into_buffer(pairs: &PairMap, buffer: &mut Vec<u8>)
    requires
        encodable(pairs.pairs()),
        old(buffer)@.len() >= encoded_size(pairs.pairs()),
    ensures
        final(buffer)@ == encode_pairs(pairs.pairs()) + old(buffer)@.skip(
            encoded_size(pairs.pairs()),
        ),
{
    let ghost ps = pairs.pairs();
    let mut wire: Vec<u8> = Vec::new();
    append_wire(pairs, &mut wire);
    proof {
        lemma_table_len(ps);
        assert(wire@ =~= encode_pairs(ps));
    }
    let n = wire.len();
    let mut i: usize = 0;
    while i < n
        invariant
            n == wire@.len(),
            n == encoded_size(ps),
            0 <= i <= n,
            buffer@.len() == old(buffer)@.len(),
            old(buffer)@.len() >= n,
            forall|k: int| 0 <= k < i ==> buffer@[k] == wire@[k],
            forall|k: int| i <= k < buffer@.len() ==> buffer@[k] == old(buffer)@[k],
        decreases n - i,
    {
        buffer.set(i, wire[i]);
        i = i + 1;
    }
    assert(buffer@ =~= wire@ + old(buffer)@.skip(n as int));
}

/// The size of the wire form of `pairs`, or `None` where the pairs do not fit it.
fn checked_size(pairs: &PairMap) -> (r: Option<usize>)
    ensures
        encodable(pairs.pairs()) ==> r == Some(encoded_size(pairs.pairs()) as usize),
        !encodable(pairs.pairs()) ==> r is None,
{
    let ghost ps = pairs.pairs();
    let n = pairs.len();
    proof {
        lemma_data_size_mono(ps, 0);
        assert(ps.take(0) =~= Seq::<(Seq<char>, Seq<char>)>::empty());
    }
    if n > 0xffff_ffffusize {
        return None;
    }
    if n > (usize::MAX - 4) / 8 {
        return None;
    }
    let mut size: usize = 4 + 8 * n;
    let mut i: usize = 0;
    while i < n
        invariant
            n == ps.len(),
            n <= u32::MAX,
            ps == pairs.pairs(),
            0 <= i <= n,
            size == 4 + 8 * n + data_size(ps.take(i as int)),
            forall|j: int|
                0 <= j < i ==> byte_len(#[trigger] ps[j].0) <= u32::MAX && byte_len(ps[j].1)
                    <= u32::MAX,
        decreases n - i,
    {
        let (k, v) = pairs.pair_at(i);
        let kl = k.as_str().as_bytes().len();
        let vl = v.as_str().as_bytes().len();
        proof {
            lemma_take_step(ps, i as int);
            lemma_data_size_mono(ps, i + 1);
        }
        if kl > 0xffff_ffffusize || vl > 0xffff_ffffusize {
            return None;
        }
        if kl > usize::MAX - size {
            return None;
        }
        size = size + kl;
        if vl > usize::MAX - size {
            return None;
        }
        size = size + vl;
        if 2 > usize::MAX - size {
            return None;
        }
        size = size + 2;
        assert(kl == byte_len(ps[i as int].0) && vl == byte_len(ps[i as int].1));
        assert(data_size(ps.take(i + 1)) == data_size(ps.take(i as int)) + kl + vl + 2);
        assert forall|j: int| 0 <= j < i + 1 implies byte_len(#[trigger] ps[j].0) <= u32::MAX
            && byte_len(ps[j].1) <= u32::MAX by {
            if j == i {
                assert(kl == byte_len(ps[i as int].0));
            }
        }
        i = i + 1;
    }
    assert(ps.take(n as int) =~= ps);
    Some(size)
}

/// The wire form of `pairs` in a buffer of its own, or `None` where the pairs
/// do not fit the format.
pub fn export_hashmap(pairs: &PairMap) -> (r: Option<Vec<u8>>)
    ensures
        encodable(pairs.pairs()) ==> (r matches Some(b) && b@ == encode_pairs(pairs.pairs())),
        !encodable(pairs.pairs()) ==> r is None,
{
    match checked_size(pairs) {
        None => None,
        Some(size) => {
            let mut buffer: Vec<u8> = Vec::with_capacity(size);
            append_wire(pairs, &mut buffer);
            assert(buffer@ =~= encode_pairs(pairs.pairs()));
            Some(buffer)
        },
    }
}


/// The first `j` pairs of a buffer of `n` pairs, decoded.
pub open spec fn decoded_prefix(b: Seq<u8>, n: int, j: int) -> Seq<(Seq<char>, Seq<char>)> {
    Seq::new(
        j as nat,
        |i: int| (decode_utf8(key_field(b, n, i)), decode_utf8(value_field(b, n, i))),
    )
}

proof fn lemma_le_value_nonneg(b: Seq<u8>, off: int)
    ensures
        0 <= le_value(b, off) <= u32::MAX,
{
}

proof fn lemma_data_offset_mono(b: Seq<u8>, n: int, j: int, k: int)
    requires
        0 <= j <= k,
    ensures
        data_offset(b, n, j) <= data_offset(b, n, k),
    decreases k,
{
    if j < k {
        lemma_data_offset_mono(b, n, j, k - 1);
        lemma_le_value_nonneg(b, 4 + 8 * (k - 1));
        lemma_le_value_nonneg(b, 8 + 8 * (k - 1));
    }
}

/// Relies on `String::from_utf8`: it succeeds exactly when the bytes are
/// UTF-8, and the string it returns holds those bytes.
#[verifier::external_body]
pub(crate) fn text_from_bytes(bytes: Vec<u8>) -> (r: Option<String>)
    ensures
        r is Some <==> valid_utf8(bytes@),
        r matches Some(s) ==> encode_utf8(s@) == bytes@,
{
    String::from_utf8(bytes).ok()
}

/// Reads the little-endian number held in the four bytes at `off`.
fn read_le32(b: &[u8], off: usize) -> (r: u32)
    requires
        off + 4 <= b@.len(),
    ensures
        r as int == le_value(b@, off as int),
{
    let b0 = b[off] as u32;
    let b1 = b[off + 1] as u32;
    let b2 = b[off + 2] as u32;
    let b3 = b[off + 3] as u32;
    b0 + 256 * (b1 + 256 * (b2 + 256 * b3))
}

/// Decodes a wire buffer. A buffer shorter than the count field, or one that
/// declares no pairs, gives the empty collection. All lengths are read before
/// any key or value; a later pair with a key seen before replaces its value.
/// Only a key or value that runs past the end is an error: the zero byte after
/// the last value may be missing, and zero bytes are not checked.
/// Every key and value of the first `j` pairs is UTF-8 text.
#[verifier::opaque]
spec fn text_upto(b: Seq<u8>, n: int, j: int) -> bool {
    forall|i: int|
        0 <= i < j ==> valid_utf8(#[trigger] key_field(b, n, i)) && valid_utf8(
            value_field(b, n, i),
        )
}

proof fn lemma_text_extend(b: Seq<u8>, n: int, j: int)
    requires
        0 <= j,
        text_upto(b, n, j),
        valid_utf8(key_field(b, n, j)),
        valid_utf8(value_field(b, n, j)),
    ensures
        text_upto(b, n, j + 1),
{
    reveal(text_upto);
}

proof fn lemma_text_all(b: Seq<u8>, n: int)
    ensures
        text_upto(b, n, 0),
        text_upto(b, n, n) ==> fields_are_text(b, n),
{
    reveal(text_upto);
}

#[verifier::rlimit(30)]
pub fn buffer_into_hashmap(buffer: &[u8]) -> (r: Result<PairMap, DecodeError>)
    ensures
        match decode_pairs(buffer@) {
            Ok(ps) => r matches Ok(m) && m@ == pairs_map(ps),
            Err(e) => r == Err::<PairMap, DecodeError>(e),
        },
{
    let ghost b = buffer@;
    let len = buffer.len();
    if len < 4 {
        let m = PairMap::new();
        assert(m@ =~= pairs_map(seq![]));
        return Ok(m);
    }
    let n = read_le32(buffer, 0);
    let ghost ni = n as int;
    if n == 0 {
        let m = PairMap::new();
        return Ok(m);
    }
    let nn = n as usize;
    if nn > (len - 4) / 8 {
        return Err(DecodeError::TruncatedHeader);
    }
    let header_end: usize = 4 + 8 * nn;
    let mut lens: Vec<(u32, u32)> = Vec::new();
    let mut last: usize = header_end - 1;
    let mut j: usize = 0;
    while j < nn
        invariant
            b == buffer@,
            len == b.len(),
            ni == pair_count(b),
            nn == ni,
            ni > 0,
            header_end == 4 + 8 * ni,
            header_end <= len,
            0 <= j <= nn,
            lens@.len() == j,
            forall|i: int|
                0 <= i < j ==> (#[trigger] lens@[i]).0 as int == key_len_at(b, i) && lens@[i].1 as int
                    == value_len_at(b, i),
            last + 1 == data_offset(b, ni, j as int),
            last <= len,
        decreases nn - j,
    {
        let kl = read_le32(buffer, 4 + 8 * j);
        let vl = read_le32(buffer, 8 + 8 * j);
        proof {
            lemma_data_offset_mono(b, ni, j + 1, ni);
        }
        if kl as usize >= len - last {
            return Err(DecodeError::LengthOverrun);
        }
        let key_end = last + 1 + kl as usize;
        if vl as usize >= len - key_end {
            return Err(DecodeError::LengthOverrun);
        }
        let value_end = key_end + 1 + vl as usize;
        last = value_end;
        lens.push((kl, vl));
        j = j + 1;
    }
    let mut m = PairMap::new();
    assert(decoded_prefix(b, ni, 0) =~= Seq::<(Seq<char>, Seq<char>)>::empty());
    proof {
        lemma_text_all(b, ni);
    }
    let mut off: usize = header_end;
    let mut j: usize = 0;
    while j < nn
        invariant
            b == buffer@,
            len == b.len(),
            ni == pair_count(b),
            nn == ni,
            ni > 0,
            header_end == 4 + 8 * ni,
            header_end <= len,
            data_offset(b, ni, ni) <= len + 1,
            0 <= j <= nn,
            lens@.len() == nn,
            forall|i: int|
                0 <= i < nn ==> (#[trigger] lens@[i]).0 as int == key_len_at(b, i) && lens@[i].1 as int
                    == value_len_at(b, i),
            j < nn ==> off == data_offset(b, ni, j as int),
            text_upto(b, ni, j as int),
            m@ == pairs_map(decoded_prefix(b, ni, j as int)),
        decreases nn - j,
    {
        let (kl, vl) = lens[j];
        proof {
            lemma_data_offset_mono(b, ni, j + 1, ni);
            if j + 2 <= nn {
                lemma_data_offset_mono(b, ni, j + 2, ni);
            }
        }
        let key_end = off + kl as usize;
        let key_bytes = slice_to_vec(slice_subrange(buffer, off, key_end));
        assert(key_bytes@ == key_field(b, ni, j as int));
        let key = match text_from_bytes(key_bytes) {
            Some(k) => k,
            None => {
                assert(!fields_are_text(b, ni));
                return Err(DecodeError::InvalidText);
            },
        };
        let value_start = key_end + 1;
        let value_end = value_start + vl as usize;
        let value_bytes = slice_to_vec(slice_subrange(buffer, value_start, value_end));
        assert(value_bytes@ == value_field(b, ni, j as int));
        let value = match text_from_bytes(value_bytes) {
            Some(v) => v,
            None => {
                assert(!fields_are_text(b, ni));
                return Err(DecodeError::InvalidText);
            },
        };
        proof {
            encode_utf8_decode_utf8(key@);
            encode_utf8_decode_utf8(value@);
            assert(decoded_prefix(b, ni, j + 1).drop_last() =~= decoded_prefix(b, ni, j as int));
            lemma_text_extend(b, ni, j as int);
        }
        m.insert(key, value);
        if j + 1 < nn {
            off = value_end + 1;
        }
        j = j + 1;
    }
    proof {
        lemma_text_all(b, ni);
    }
    assert(fields_are_text(b, ni));
    Ok(m)
}


proof fn lemma_le_round(b: Seq<u8>, off: int, x: u32)
    requires
        0 <= off,
        off + 4 <= b.len(),
        b.subrange(off, off + 4) == le_bytes(x),
    ensures
        le_value(b, off) == x as int,
{
    let w = b.subrange(off, off + 4);
    assert(b[off] == w[0] && b[off + 1] == w[1] && b[off + 2] == w[2] && b[off + 3] == w[3]);
    let q1 = x / 256;
    let q2 = q1 / 256;
    let q3 = q2 / 256;
    assert(x == x % 256 + 256 * q1);
    assert(q1 == q1 % 256 + 256 * q2);
    assert(q2 == q2 % 256 + 256 * q3);
    assert(q3 < 256);
}

proof fn lemma_table_len(ps: Seq<(Seq<char>, Seq<char>)>)
    ensures
        length_table(ps).len() == 8 * ps.len(),
        data_section(ps).len() == data_size(ps),
    decreases ps.len(),
{
    if ps.len() > 0 {
        lemma_table_len(ps.drop_last());
    }
}

proof fn lemma_table_at(ps: Seq<(Seq<char>, Seq<char>)>, j: int)
    requires
        0 <= j < ps.len(),
    ensures
        length_table(ps).subrange(8 * j, 8 * j + 4) == le_bytes(byte_len(ps[j].0) as u32),
        length_table(ps).subrange(8 * j + 4, 8 * j + 8) == le_bytes(byte_len(ps[j].1) as u32),
    decreases ps.len(),
{
    let init = ps.drop_last();
    let t = length_table(ps);
    lemma_table_len(init);
    if j < ps.len() - 1 {
        lemma_table_at(init, j);
        assert(t.subrange(8 * j, 8 * j + 4) =~= length_table(init).subrange(8 * j, 8 * j + 4));
        assert(t.subrange(8 * j + 4, 8 * j + 8) =~= length_table(init).subrange(
            8 * j + 4,
            8 * j + 8,
        ));
    } else {
        assert(t.subrange(8 * j, 8 * j + 4) =~= le_bytes(byte_len(ps[j].0) as u32));
        assert(t.subrange(8 * j + 4, 8 * j + 8) =~= le_bytes(byte_len(ps[j].1) as u32));
    }
}

proof fn lemma_section_prefix(ps: Seq<(Seq<char>, Seq<char>)>, j: int)
    requires
        0 <= j <= ps.len(),
    ensures
        data_size(ps.take(j)) <= data_size(ps),
        data_section(ps).subrange(0, data_size(ps.take(j))) == data_section(ps.take(j)),
    decreases ps.len(),
{
    lemma_table_len(ps);
    lemma_table_len(ps.take(j));
    if j == ps.len() {
        assert(ps.take(j) =~= ps);
        assert(data_section(ps).subrange(0, data_size(ps)) =~= data_section(ps));
    } else {
        let init = ps.drop_last();
        assert(init.take(j) =~= ps.take(j));
        lemma_section_prefix(init, j);
        lemma_table_len(init);
        assert(data_section(ps).subrange(0, data_size(ps.take(j))) =~= data_section(
            init,
        ).subrange(0, data_size(ps.take(j))));
    }
}

proof fn lemma_lengths_of_encoding(ps: Seq<(Seq<char>, Seq<char>)>, j: int)
    requires
        encodable(ps),
        0 <= j < ps.len(),
    ensures
        key_len_at(encode_pairs(ps), j) == byte_len(ps[j].0),
        value_len_at(encode_pairs(ps), j) == byte_len(ps[j].1),
{
    let b = encode_pairs(ps);
    let kl = byte_len(ps[j].0);
    let vl = byte_len(ps[j].1);
    assert(kl <= u32::MAX && vl <= u32::MAX);
    lemma_table_len(ps);
    lemma_table_at(ps, j);
    assert(b.subrange(4 + 8 * j, 8 + 8 * j) =~= length_table(ps).subrange(8 * j, 8 * j + 4));
    assert(b.subrange(8 + 8 * j, 12 + 8 * j) =~= length_table(ps).subrange(8 * j + 4, 8 * j + 8));
    lemma_le_round(b, 4 + 8 * j, kl as u32);
    lemma_le_round(b, 8 + 8 * j, vl as u32);
}

proof fn lemma_offset_of_encoding(ps: Seq<(Seq<char>, Seq<char>)>, j: int)
    requires
        encodable(ps),
        0 <= j <= ps.len(),
    ensures
        data_offset(encode_pairs(ps), ps.len() as int, j) == 4 + 8 * ps.len() + data_size(
            ps.take(j),
        ),
    decreases j,
{
    if j > 0 {
        lemma_offset_of_encoding(ps, j - 1);
        lemma_take_step(ps, j - 1);
        lemma_lengths_of_encoding(ps, j - 1);
    } else {
        assert(ps.take(0) =~= Seq::<(Seq<char>, Seq<char>)>::empty());
    }
}

#[verifier::rlimit(60)]
proof fn lemma_fields_of_encoding(ps: Seq<(Seq<char>, Seq<char>)>, j: int)
    requires
        encodable(ps),
        0 <= j < ps.len(),
    ensures
        key_field(encode_pairs(ps), ps.len() as int, j) == encode_utf8(ps[j].0),
        value_field(encode_pairs(ps), ps.len() as int, j) == encode_utf8(ps[j].1),
{
    let b = encode_pairs(ps);
    let n = ps.len() as int;
    let kl = byte_len(ps[j].0);
    let vl = byte_len(ps[j].1);
    lemma_table_len(ps);
    lemma_lengths_of_encoding(ps, j);
    lemma_offset_of_encoding(ps, j);
    lemma_take_step(ps, j);
    lemma_section_prefix(ps, j + 1);
    lemma_table_len(ps.take(j));
    let d = data_section(ps);
    let ds = data_size(ps.take(j));
    let prefix = data_section(ps.take(j + 1));
    assert(prefix == data_section(ps.take(j)) + encode_utf8(ps[j].0) + seq![0u8] + encode_utf8(
        ps[j].1,
    ) + seq![0u8]);
    assert(d.subrange(ds, ds + kl) =~= prefix.subrange(ds, ds + kl));
    assert(prefix.subrange(ds, ds + kl) =~= encode_utf8(ps[j].0));
    assert(d.subrange(ds + kl + 1, ds + kl + 1 + vl) =~= prefix.subrange(
        ds + kl + 1,
        ds + kl + 1 + vl,
    ));
    assert(prefix.subrange(ds + kl + 1, ds + kl + 1 + vl) =~= encode_utf8(ps[j].1));
    let o = 4 + 8 * n + ds;
    assert(b.subrange(o, o + kl) =~= d.subrange(ds, ds + kl));
    assert(b.subrange(o + kl + 1, o + kl + 1 + vl) =~= d.subrange(ds + kl + 1, ds + kl + 1 + vl));
}

/// Decoding the wire form of pairs that fit the format gives back exactly
/// those pairs, in the same order.
pub proof fn lemma_decode_encode(ps: Seq<(Seq<char>, Seq<char>)>)
    requires
        encodable(ps),
    ensures
        decode_pairs(encode_pairs(ps)) == Ok::<Seq<(Seq<char>, Seq<char>)>, DecodeError>(ps),
{
    let b = encode_pairs(ps);
    let n = ps.len() as int;
    lemma_table_len(ps);
    assert(b.subrange(0, 4) =~= le_bytes(n as u32));
    lemma_le_round(b, 0, n as u32);
    if n == 0 {
        assert(ps =~= Seq::<(Seq<char>, Seq<char>)>::empty());
    } else {
        lemma_offset_of_encoding(ps, n);
        lemma_data_size_nonneg(ps);
        assert(ps.take(n) =~= ps);
        assert(b.len() == 4 + 8 * n + data_size(ps));
        assert(pair_count(b) == n);
        assert(data_offset(b, n, n) <= b.len());
        assert forall|j: int| 0 <= j < n implies valid_utf8(#[trigger] key_field(b, n, j))
            && valid_utf8(value_field(b, n, j)) by {
            lemma_fields_of_encoding(ps, j);
            vstd::utf8::encode_utf8_valid_utf8(ps[j].0);
            vstd::utf8::encode_utf8_valid_utf8(ps[j].1);
        }
        let ds = Seq::new(
            n as nat,
            |j: int| (decode_utf8(key_field(b, n, j)), decode_utf8(value_field(b, n, j))),
        );
        assert forall|j: int| 0 <= j < n implies ds[j] == ps[j] by {
            lemma_fields_of_encoding(ps, j);
            encode_utf8_decode_utf8(ps[j].0);
            encode_utf8_decode_utf8(ps[j].1);
        }
        assert(ds =~= ps);
        assert(fields_are_text(b, n));
    }
}

/// Round trip: a collection that fits the format decodes from its own wire
/// form to an equal collection.
pub proof fn lemma_round_trip(m: &PairMap)
    requires
        encodable(m.pairs()),
    ensures
        decode_pairs(encode_pairs(m.pairs())) matches Ok(ps) && pairs_map(ps) == m@,
{
    lemma_decode_encode(m.pairs());
}

} // verus!
