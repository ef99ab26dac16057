//! Bit-level writing of H.264 NAL units.
//!
//! A writer is modelled by the sequence of bits written so far, most
//! significant bit first. Syntax elements append to that sequence, and closing
//! a unit packs it into bytes and guards the bytes against start codes.
use vstd::arithmetic::power2::pow2;
use vstd::prelude::*;

verus! {

/// The low `n` bits of `value`, most significant first: the descriptor `u(n)`.
pub open spec fn bits(value: nat, n: nat) -> Seq<bool>
    decreases n,
{
    if n == 0 {
        seq![]
    } else {
        bits(value / 2, (n - 1) as nat).push(value % 2 == 1)
    }
}

/// The number that a run of bits stands for.
pub open spec fn value_of(s: Seq<bool>) -> nat
    decreases s.len(),
{
    if s.len() == 0 {
        0
    } else {
        2 * value_of(s.drop_last()) + if s.last() {
            1nat
        } else {
            0
        }
    }
}

/// A run of `n` zero bits.
pub open spec fn zeros(n: nat) -> Seq<bool> {
    Seq::new(n, |i: int| false)
}

/// How many bits the binary form of `v` takes; none for zero.
pub open spec fn bit_length(v: nat) -> nat
    decreases v,
{
    if v == 0 {
        0
    } else {
        1 + bit_length(v / 2)
    }
}

/// Unsigned Exp-Golomb code of `v`: the descriptor `ue(v)`.
pub open spec fn ue_bits(v: nat) -> Seq<bool> {
    let n = bit_length(v + 1);
    zeros((n - 1) as nat) + bits(v + 1, n)
}

/// The code number that stands for a signed value: 1, -1, 2, -2, ... in turn.
pub open spec fn se_code(v: int) -> nat {
    if v > 0 {
        (2 * v - 1) as nat
    } else {
        (-2 * v) as nat
    }
}

/// Signed Exp-Golomb code of `v`: the descriptor `se(v)`.
pub open spec fn se_bits(v: int) -> Seq<bool> {
    ue_bits(se_code(v))
}

/// `s` with as many zero bits behind it as reach the next byte boundary.
pub open spec fn pad(s: Seq<bool>) -> Seq<bool> {
    s + zeros(((8 - s.len() % 8) % 8) as nat)
}

/// `s` closed by the stop bit and its alignment.
pub open spec fn with_trailing_bits(s: Seq<bool>) -> Seq<bool> {
    pad(s + bits(1, 1))
}

/// The bits of a run of bytes.
pub open spec fn bits_of_bytes(bytes: Seq<u8>) -> Seq<bool>
    decreases bytes.len(),
{
    if bytes.len() == 0 {
        seq![]
    } else {
        bits_of_bytes(bytes.drop_last()) + bits(bytes.last() as nat, 8)
    }
}

/// The bytes that a byte-aligned run of bits fills.
pub open spec fn pack(s: Seq<bool>) -> Seq<u8>
    decreases s.len(),
{
    if s.len() < 8 {
        seq![]
    } else {
        pack(s.take(s.len() - 8)).push(value_of(s.skip(s.len() - 8)) as u8)
    }
}

/// Whether the last two bytes are zero.
pub open spec fn ends_in_zeros(s: Seq<u8>) -> bool {
    s.len() >= 2 && s[s.len() - 1] == 0 && s[s.len() - 2] == 0
}

/// `payload` with an emulation prevention byte before each byte of at most 3
/// that would follow two zero bytes.
pub open spec fn escape(payload: Seq<u8>) -> Seq<u8>
    decreases payload.len(),
{
    if payload.len() == 0 {
        seq![]
    } else {
        let before = escape(payload.drop_last());
        let byte = payload.last();
        if ends_in_zeros(before) && byte <= 3 {
            before.push(3).push(byte)
        } else {
            before.push(byte)
        }
    }
}

/// What a decoder does: drop each byte 3 that follows two zero bytes.
pub open spec fn unescape(coded: Seq<u8>) -> Seq<u8>
    decreases coded.len(),
{
    if coded.len() == 0 {
        seq![]
    } else {
        let before = unescape(coded.drop_last());
        if coded.last() == 3 && ends_in_zeros(coded.drop_last()) {
            before
        } else {
            before.push(coded.last())
        }
    }
}

/// The number of zero bits that `s` starts with.
pub open spec fn leading_zeros(s: Seq<bool>) -> nat
    decreases s.len(),
{
    if s.len() == 0 || s[0] {
        0
    } else {
        1 + leading_zeros(s.skip(1))
    }
}

/// What a decoder reads of an unsigned Exp-Golomb code at the front of `s`: the
/// value, and what follows the code.
pub open spec fn read_ue(s: Seq<bool>) -> Option<(nat, Seq<bool>)> {
    let n = leading_zeros(s);
    if s.len() < 2 * n + 1 {
        None
    } else {
        Some(
            (
                (value_of(s.subrange(n as int, (2 * n + 1) as int)) - 1) as nat,
                s.skip((2 * n + 1) as int),
            ),
        )
    }
}

/// A field has as many bits as it is given.
pub proof fn lemma_bits_len(value: nat, n: nat)
    ensures
        bits(value, n).len() == n,
    decreases n,
{
    if n > 0 {
        lemma_bits_len(value / 2, (n - 1) as nat);
    }
}

proof fn lemma_bits_of_zero(n: nat)
    ensures
        bits(0, n) == zeros(n),
    decreases n,
{
    if n > 0 {
        lemma_bits_of_zero((n - 1) as nat);
        assert(bits(0, n) == zeros((n - 1) as nat).push(false));
    }
    assert(bits(0, n) =~= zeros(n));
}

/// Writing a number in as many bits as it needs, and reading it, gives it back.
pub proof fn lemma_value_of_bits(value: nat, n: nat)
    requires
        bit_length(value) <= n,
    ensures
        value_of(bits(value, n)) == value,
    decreases n,
{
    lemma_bits_len(value, n);
    if n > 0 {
        lemma_value_of_bits(value / 2, (n - 1) as nat);
        assert(bits(value, n).drop_last() =~= bits(value / 2, (n - 1) as nat));
    }
}

proof fn lemma_byte_length(value: u8)
    ensures
        bit_length(value as nat) <= 8,
{
    reveal_with_fuel(bit_length, 9);
}

proof fn lemma_bits_of_bytes_len(bytes: Seq<u8>)
    ensures
        bits_of_bytes(bytes).len() == 8 * bytes.len(),
    decreases bytes.len(),
{
    if bytes.len() > 0 {
        lemma_bits_of_bytes_len(bytes.drop_last());
        lemma_bits_len(bytes.last() as nat, 8);
    }
}

proof fn lemma_pack_bits_of_bytes(bytes: Seq<u8>)
    ensures
        pack(bits_of_bytes(bytes)) == bytes,
    decreases bytes.len(),
{
    lemma_bits_of_bytes_len(bytes);
    if bytes.len() > 0 {
        let front = bits_of_bytes(bytes.drop_last());
        let last = bits(bytes.last() as nat, 8);
        let s = bits_of_bytes(bytes);
        lemma_bits_len(bytes.last() as nat, 8);
        lemma_pack_bits_of_bytes(bytes.drop_last());
        assert(s.take(s.len() - 8) =~= front);
        assert(s.skip(s.len() - 8) =~= last);
        lemma_byte_length(bytes.last());
        lemma_value_of_bits(bytes.last() as nat, 8);
        assert(pack(s) =~= bytes);
    } else {
        assert(pack(bits_of_bytes(bytes)) =~= bytes);
    }
}

proof fn lemma_bits_of_value(s: Seq<bool>)
    ensures
        bits(value_of(s), s.len()) == s,
    decreases s.len(),
{
    if s.len() > 0 {
        lemma_bits_of_value(s.drop_last());
        let v = value_of(s.drop_last());
        assert(value_of(s) / 2 == v);
        assert(bits(value_of(s), s.len()) =~= s);
    } else {
        assert(bits(value_of(s), s.len()) =~= s);
    }
}

proof fn lemma_value_of_byte(s: Seq<bool>)
    requires
        s.len() == 8,
    ensures
        value_of(s) < 256,
{
    reveal_with_fuel(value_of, 9);
}

proof fn lemma_bits_of_pack(s: Seq<bool>)
    requires
        s.len() % 8 == 0,
    ensures
        bits_of_bytes(pack(s)) == s,
    decreases s.len(),
{
    if s.len() >= 8 {
        let front = s.take(s.len() - 8);
        let last = s.skip(s.len() - 8);
        lemma_bits_of_pack(front);
        lemma_value_of_byte(last);
        lemma_bits_of_value(last);
        assert(pack(s).drop_last() =~= pack(front));
        assert(pack(s).last() as nat == value_of(last));
        assert(front + last =~= s);
    } else {
        assert(bits_of_bytes(pack(s)) =~= s);
    }
}

/// A decoder that drops the emulation prevention bytes of a closed unit finds the
/// bits that were written, filled up to a whole byte.
pub proof fn the_written_bits_are_found(written: Seq<bool>)
    ensures
        bits_of_bytes(unescape(escape(pack(pad(written))))) == pad(written),
{
    unescape_undoes_escape(pack(pad(written)));
    lemma_bits_of_pack(pad(written));
}

/// A guarded payload never holds two zero bytes with a byte of at most 2 behind
/// them, so no start code can be read inside it.
pub proof fn escaped_payload_holds_no_start_code(payload: Seq<u8>, i: int)
    requires
        0 <= i,
        i + 2 < escape(payload).len(),
    ensures
        !(escape(payload)[i] == 0 && escape(payload)[i + 1] == 0 && escape(payload)[i + 2] <= 2),
    decreases payload.len(),
{
    if payload.len() > 0 {
        let before = escape(payload.drop_last());
        if i + 2 < before.len() {
            escaped_payload_holds_no_start_code(payload.drop_last(), i);
        }
    }
}

/// Removing the emulation prevention bytes gives the payload back.
pub proof fn unescape_undoes_escape(payload: Seq<u8>)
    ensures
        unescape(escape(payload)) == payload,
    decreases payload.len(),
{
    if payload.len() > 0 {
        unescape_undoes_escape(payload.drop_last());
        let before = escape(payload.drop_last());
        let byte = payload.last();
        let coded = escape(payload);
        if ends_in_zeros(before) && byte <= 3 {
            assert(coded.drop_last() =~= before.push(3));
            assert(before.push(3).drop_last() =~= before);
            assert(before.push(3).last() == 3);
            assert(unescape(before.push(3)) == unescape(before));
            assert(!ends_in_zeros(before.push(3)));
        } else {
            assert(coded.drop_last() =~= before);
        }
        assert(unescape(coded) =~= payload);
    } else {
        assert(unescape(escape(payload)) =~= payload);
    }
}

proof fn lemma_leading_zeros_of_run(n: nat, rest: Seq<bool>)
    requires
        rest.len() > 0,
        rest[0],
    ensures
        leading_zeros(zeros(n) + rest) == n,
    decreases n,
{
    let s = zeros(n) + rest;
    if n == 0 {
        assert(s =~= rest);
    } else {
        lemma_leading_zeros_of_run((n - 1) as nat, rest);
        assert(s.skip(1) =~= zeros((n - 1) as nat) + rest);
    }
}

proof fn lemma_top_bit_is_set(v: nat)
    requires
        v > 0,
    ensures
        bit_length(v) > 0,
        bits(v, bit_length(v))[0],
    decreases v,
{
    let n = bit_length(v);
    lemma_bits_len(v / 2, (n - 1) as nat);
    assert(bits(v, n) == bits(v / 2, (n - 1) as nat).push(v % 2 == 1));
    if v / 2 > 0 {
        lemma_top_bit_is_set(v / 2);
    } else {
        assert(bit_length(v / 2) == 0);
    }
}

/// Reading an unsigned Exp-Golomb code gives the coded value back, whatever
/// bits follow it.
pub proof fn read_ue_undoes_ue_bits(v: nat, rest: Seq<bool>)
    ensures
        read_ue(ue_bits(v) + rest) == Some((v, rest)),
{
    let n = bit_length(v + 1);
    let code = bits(v + 1, n);
    let s = ue_bits(v) + rest;
    lemma_bits_len(v + 1, n);
    lemma_top_bit_is_set(v + 1);
    assert(s =~= zeros((n - 1) as nat) + (code + rest));
    lemma_leading_zeros_of_run((n - 1) as nat, code + rest);
    lemma_value_of_bits(v + 1, n);
    assert(s.subrange(n - 1, 2 * (n - 1) + 1) =~= code);
    assert(s.skip(2 * (n - 1) + 1) =~= rest);
}

/// Two signed values with one code number are the same value.
pub proof fn se_code_is_injective(a: int, b: int)
    requires
        se_code(a) == se_code(b),
    ensures
        a == b,
{
}

/// Bitstream writer for H.264 NAL unit construction.
pub struct BitWriter {
    pub data: Vec<u8>,
    pub current_byte: u8,
    pub bits_in_byte: u8,
}

/// How many bits the binary form of `value` takes.
fn significant_bits(value: u32) -> (n: u8)
    ensures
        n == bit_length(value as nat),
        n <= 32,
{
    let mut rest: u32 = value;
    let mut n: u8 = 0;
    proof {
        lemma_u32_length(value);
    }
    while rest > 0
        invariant
            n + bit_length(rest as nat) == bit_length(value as nat),
            bit_length(value as nat) <= 32,
        decreases rest,
    {
        rest = rest / 2;
        n = n + 1;
    }
    n
}

proof fn lemma_u32_length(value: u32)
    ensures
        bit_length(value as nat) <= 32,
{
    reveal_with_fuel(bit_length, 33);
}

impl BitWriter {
    /// The bits written so far.
    pub open spec fn view(&self) -> Seq<bool> {
        bits_of_bytes(self.data@) + bits(self.current_byte as nat, self.bits_in_byte as nat)
    }

    /// Fewer than eight bits wait in the open byte, and nothing else is in it.
    pub open spec fn wf(&self) -> bool {
        &&& self.bits_in_byte < 8
        &&& bit_length(self.current_byte as nat) <= self.bits_in_byte
    }

    /// A writer that nothing was written to.
    pub fn new() -> (r: Self)
        ensures
            r.wf(),
            r@ == Seq::<bool>::empty(),
    {
        let r = BitWriter { data: Vec::new(), current_byte: 0, bits_in_byte: 0 };
        assert(r@ =~= Seq::<bool>::empty());
        r
    }

    fn push_bit(&mut self, bit: bool)
        requires
            old(self).wf(),
        ensures
            final(self).wf(),
            final(self)@ == old(self)@.push(bit),
    {
        let ghost before = self@;
        proof {
            lemma_open_byte(self.current_byte, self.bits_in_byte as nat);
        }
        let low: u8 = if bit {
            1
        } else {
            0
        };
        let ghost cur = self.current_byte as nat;
        let ghost k = self.bits_in_byte as nat;
        self.current_byte = self.current_byte * 2 + low;
        self.bits_in_byte = self.bits_in_byte + 1;
        proof {
            assert(self.current_byte as nat / 2 == cur);
            assert(bits(self.current_byte as nat, k + 1) == bits(cur, k).push(bit));
            assert(self@ =~= before.push(bit));
        }
        if self.bits_in_byte == 8 {
            let ghost whole = self.data@;
            self.data.push(self.current_byte);
            proof {
                assert(self.data@.drop_last() =~= whole);
                assert(bits_of_bytes(self.data@) == before.push(bit));
            }
            self.current_byte = 0;
            self.bits_in_byte = 0;
            assert(self@ =~= before.push(bit));
        }
    }

    /// Appends the low `num_bits` bits of `value`.
    pub fn write_bits(&mut self, value: u32, num_bits: u8)
        requires
            old(self).wf(),
            num_bits <= 32,
        ensures
            final(self).wf(),
            final(self)@ == old(self)@ + bits(value as nat, num_bits as nat),
    {
        let mut left: u8 = num_bits;
        assert(self@ =~= old(self)@ + bits(high_part(value, left), 0));
        while left > 0
            invariant
                left <= num_bits <= 32,
                self.wf(),
                self@ == old(self)@ + bits(high_part(value, left), (num_bits - left) as nat),
            decreases left,
        {
            left = left - 1;
            let bit: u32 = (value >> left) & 1;
            proof {
                let shift = left as u32;
                let shifted = value >> shift;
                assert(shifted & 1 == shifted % 2) by (bit_vector);
                assert(shift < 31 ==> value >> ((shift + 1) as u32) == (value >> shift) / 2) by (bit_vector);
                assert(shift == 31 ==> (value >> shift) / 2 == 0) by (bit_vector);
                assert(high_part(value, left) / 2 == high_part(value, (left + 1) as u8));
            }
            self.push_bit(bit == 1);
            proof {
                let n = (num_bits - left) as nat;
                assert(bits(high_part(value, left), n) == bits(
                    high_part(value, (left + 1) as u8),
                    (n - 1) as nat,
                ).push(bit == 1));
                assert(self@ =~= old(self)@ + bits(high_part(value, left), n));
            }
        }
        assert(value >> 0u32 == value) by (bit_vector);
    }

    /// Exp-Golomb unsigned encoding.
    pub fn write_ue(&mut self, value: u32)
        requires
            old(self).wf(),
            value < u32::MAX,
        ensures
            final(self).wf(),
            final(self)@ == old(self)@ + ue_bits(value as nat),
    {
        let code: u32 = value + 1;
        let width: u8 = significant_bits(code);
        self.write_bits(0, width - 1);
        self.write_bits(code, width);
        proof {
            lemma_bits_of_zero((width - 1) as nat);
            assert(self@ =~= old(self)@ + ue_bits(value as nat));
        }
    }

    /// Exp-Golomb signed encoding.
    pub fn write_se(&mut self, value: i32)
        requires
            old(self).wf(),
            -0x4000_0000 < value < 0x4000_0000,
        ensures
            final(self).wf(),
            final(self)@ == old(self)@ + se_bits(value as int),
    {
        let mapped: u32 = if value > 0 {
            (value * 2 - 1) as u32
        } else if value < 0 {
            (-value * 2) as u32
        } else {
            0
        };
        self.write_ue(mapped);
    }

    fn align(&mut self)
        requires
            old(self).wf(),
        ensures
            final(self).wf(),
            final(self).bits_in_byte == 0,
            final(self)@ == pad(old(self)@),
    {
        proof {
            self.lemma_open_bits();
        }
        if self.bits_in_byte > 0 {
            let padding: u8 = 8 - self.bits_in_byte;
            self.write_bits(0, padding);
            proof {
                lemma_bits_of_zero(padding as nat);
                self.lemma_open_bits();
                lemma_bits_len(0, padding as nat);
            }
        }
        assert(self@ =~= pad(old(self)@));
    }

    proof fn lemma_open_bits(&self)
        requires
            self.wf(),
        ensures
            self@.len() % 8 == self.bits_in_byte as nat,
    {
        lemma_bits_of_bytes_len(self.data@);
        lemma_bits_len(self.current_byte as nat, self.bits_in_byte as nat);
    }

    /// Appends the stop bit and zero bits up to the byte boundary.
    pub fn write_rbsp_trailing_bits(&mut self)
        requires
            old(self).wf(),
        ensures
            final(self).wf(),
            final(self)@ == with_trailing_bits(old(self)@),
    {
        self.write_bits(1, 1);
        self.align();
    }

    /// Flushes the remaining bits and applies emulation prevention (0x03
    /// stuffing).
    pub fn finish_with_emulation_prevention(self) -> (result: Vec<u8>)
        requires
            self.wf(),
        ensures
            result@ == escape(pack(pad(self@))),
    {
        let mut writer = self;
        writer.align();
        proof {
            assert(writer@ =~= bits_of_bytes(writer.data@));
            lemma_pack_bits_of_bytes(writer.data@);
        }
        let data = writer.data;
        let mut result: Vec<u8> = Vec::new();
        let mut zero_count: u32 = 0;
        let mut i: usize = 0;
        assert(data@.take(0) =~= Seq::<u8>::empty());
        while i < data.len()
            invariant
                i <= data.len(),
                result@ == escape(data@.take(i as int)),
                zero_count <= 2,
                zero_count == 2 <==> ends_in_zeros(result@),
                zero_count >= 1 <==> (result@.len() > 0 && result@.last() == 0),
            decreases data.len() - i,
        {
            let byte: u8 = data[i];
            proof {
                assert(data@.take(i + 1).drop_last() =~= data@.take(i as int));
                assert(data@.take(i + 1).last() == byte);
            }
            if zero_count >= 2 && byte <= 0x03 {
                result.push(0x03);
                zero_count = 0;
            }
            result.push(byte);
            if byte == 0 {
                zero_count = zero_count + 1;
            } else {
                zero_count = 0;
            }
            i = i + 1;
        }
        assert(data@.take(data@.len() as int) =~= data@);
        result
    }
}

/// What is left of `value` above its low `n` bits.
spec fn high_part(value: u32, n: u8) -> nat {
    if n < 32 {
        (value >> (n as u32)) as nat
    } else {
        0
    }
}

proof fn lemma_open_byte(byte: u8, k: nat)
    requires
        k < 8,
        bit_length(byte as nat) <= k,
    ensures
        byte < 128,
{
    if byte >= 128 {
        reveal_with_fuel(bit_length, 9);
    }
}

/// A field is written from its most significant bit down: bit `i` of the value, counted
/// from the least significant one, stands `i` places before the end.
pub proof fn fields_are_written_from_the_top(value: nat, n: nat, i: nat)
    requires
        i < n,
    ensures
        bits(value, n).len() == n,
        bits(value, n)[n - 1 - i] == ((value / pow2(i)) % 2 == 1),
    decreases n,
{
    lemma_bits_len(value, n);
    lemma_bits_len(value / 2, (n - 1) as nat);
    if i > 0 {
        let j = (i - 1) as nat;
        fields_are_written_from_the_top(value / 2, (n - 1) as nat, j);
        vstd::arithmetic::power2::lemma_pow2_pos(j);
        vstd::arithmetic::power2::lemma_pow2_unfold(i);
        vstd::arithmetic::div_mod::lemma_div_denominator(value as int, 2, pow2(j) as int);
        assert(value as int / 2 / (pow2(j) as int) == value as int / (2 * pow2(j) as int));
    } else {
        vstd::arithmetic::power2::lemma2_to64();
    }
}

proof fn lemma_bit_length_is(v: nat, k: nat)
    requires
        pow2(k) <= v < pow2(k + 1),
    ensures
        bit_length(v) == k + 1,
    decreases v,
{
    vstd::arithmetic::power2::lemma_pow2_pos(k);
    vstd::arithmetic::power2::lemma_pow2_unfold(k + 1);
    if k > 0 {
        vstd::arithmetic::power2::lemma_pow2_unfold(k);
        lemma_bit_length_is(v / 2, (k - 1) as nat);
    } else {
        vstd::arithmetic::power2::lemma2_to64();
        assert(v == 1);
        assert(bit_length(0) == 0);
    }
}

/// An unsigned Exp-Golomb code is the value plus one in binary, behind as many zeros as
/// it has bits after its first.
pub proof fn what_an_exp_golomb_code_is(v: nat, k: nat)
    requires
        pow2(k) <= v + 1 < pow2(k + 1),
    ensures
        ue_bits(v).len() == 2 * k + 1,
        forall|i: int| 0 <= i < k ==> !(#[trigger] ue_bits(v)[i]),
        ue_bits(v).skip(k as int) == bits(v + 1, k + 1),
{
    lemma_bit_length_is(v + 1, k);
    lemma_bits_len(v + 1, k + 1);
    assert(ue_bits(v).skip(k as int) =~= bits(v + 1, k + 1));
}

/// Signed values take the code numbers in turn: 0, 1, -1, 2, -2 and so on.
pub proof fn signed_values_take_turns(v: nat)
    requires
        v > 0,
    ensures
        se_bits(0) == ue_bits(0),
        se_bits(v as int) == ue_bits((2 * v - 1) as nat),
        se_bits(-(v as int)) == ue_bits(2 * v),
{
}

/// A byte of at most 3 gets a byte 3 in front of it where it would follow two zero
/// bytes; every other byte is written as it is.
pub proof fn how_a_byte_is_guarded(payload: Seq<u8>, byte: u8)
    ensures
        ({
            let before = escape(payload);
            let n = before.len() as int;
            let follows_zeros = n >= 2 && before[n - 2] == 0 && before[n - 1] == 0;
            escape(payload.push(byte)) == if follows_zeros && byte <= 3 {
                before + seq![3u8, byte]
            } else {
                before + seq![byte]
            }
        }),
        escape(Seq::<u8>::empty()) == Seq::<u8>::empty(),
{
    let before = escape(payload);
    assert(payload.push(byte).drop_last() =~= payload);
    assert(before.push(3).push(byte) =~= before + seq![3u8, byte]);
    assert(before.push(byte) =~= before + seq![byte]);
}

/// A payload without two zero bytes in a row is written as it is.
pub proof fn nothing_is_guarded_without_need(payload: Seq<u8>)
    requires
        forall|i: int|
            0 <= i && i + 1 < payload.len() ==> !(#[trigger] payload[i] == 0 && payload[i + 1]
                == 0),
    ensures
        escape(payload) == payload,
    decreases payload.len(),
{
    if payload.len() > 0 {
        let front = payload.drop_last();
        assert forall|i: int| 0 <= i && i + 1 < front.len() implies !(#[trigger] front[i] == 0
            && front[i + 1] == 0) by {
            assert(!(payload[i] == 0 && payload[i + 1] == 0));
        }
        nothing_is_guarded_without_need(front);
        let n = front.len() as int;
        if n >= 2 {
            assert(!(payload[n - 2] == 0 && payload[n - 1] == 0));
        }
        assert(front.push(payload.last()) =~= payload);
    } else {
        assert(escape(payload) =~= payload);
    }
}

/// The bits of bytes are those of each byte in turn, its most significant bit first.
pub proof fn bytes_are_read_from_the_top(bytes: Seq<u8>, k: int, i: nat)
    requires
        0 <= k < bytes.len(),
        i < 8,
    ensures
        bits_of_bytes(bytes).len() == 8 * bytes.len(),
        bits_of_bytes(bytes)[8 * k + 7 - i] == ((bytes[k] as nat / pow2(i)) % 2 == 1),
    decreases bytes.len(),
{
    let front = bytes.drop_last();
    let last = bytes.last() as nat;
    lemma_bits_len(last, 8);
    fields_are_written_from_the_top(last, 8, i);
    lemma_bits_of_bytes_len(front);
    if k < bytes.len() - 1 {
        bytes_are_read_from_the_top(front, k, i);
    }
}

/// A unit is filled up with zeros to whole bytes, fewer than eight of them.
pub proof fn units_are_filled_up(s: Seq<bool>)
    ensures
        pad(s).len() % 8 == 0,
        s.len() <= pad(s).len() < s.len() + 8,
        pad(s).take(s.len() as int) == s,
        forall|i: int| s.len() <= i < pad(s).len() ==> !(#[trigger] pad(s)[i]),
{
    assert(pad(s).take(s.len() as int) =~= s);
}

/// A parameter set is closed by a one bit, and filled up with zeros behind it.
pub proof fn parameter_sets_are_closed_by_a_one(s: Seq<bool>)
    ensures
        with_trailing_bits(s).len() % 8 == 0,
        s.len() < with_trailing_bits(s).len() <= s.len() + 8,
        with_trailing_bits(s).take(s.len() as int) == s,
        with_trailing_bits(s)[s.len() as int],
        forall|i: int|
            s.len() < i < with_trailing_bits(s).len() ==> !(#[trigger] with_trailing_bits(s)[i]),
{
    reveal_with_fuel(bits, 2);
    lemma_bits_len(1, 1);
    let one = s + bits(1, 1);
    assert(bits(1, 1)[0]);
    units_are_filled_up(one);
    assert(pad(one)[s.len() as int] == one[s.len() as int]);
    assert(with_trailing_bits(s).take(s.len() as int) =~= s);
}

} // verus!
