use vstd::arithmetic::div_mod::{
    lemma_fundamental_div_mod, lemma_mod_bound, lemma_mod_multiples_vanish,
};
use vstd::prelude::*;

verus! {

/// The 16-bit big-endian word that starts at byte `2 * i` of `s`.
pub open spec fn word_at(s: Seq<u8>, i: int) -> nat {
    (s[2 * i] as nat) * 256 + (s[2 * i + 1] as nat)
}

/// The sum of the first `k` words of `s`.
pub open spec fn sum_words(s: Seq<u8>, k: nat) -> nat
    decreases k,
{
    if k == 0 {
        0
    } else {
        sum_words(s, (k - 1) as nat) + word_at(s, k - 1)
    }
}

/// The sum of all words of `s`; a trailing odd byte is the high byte of a
/// word whose low byte is zero.
pub open spec fn word_sum(s: Seq<u8>) -> nat {
    sum_words(s, s.len() / 2) + if s.len() % 2 == 1 {
        (s[s.len() - 1] as nat) * 256
    } else {
        0
    }
}

/// Adds the bits above bit 15 back into the low 16 bits until no carry is left.
pub open spec fn fold_carries(x: nat) -> nat
    decreases x,
    via fold_carries_decreases
{
    if x < 0x10000 {
        x
    } else {
        fold_carries(x / 0x10000 + x % 0x10000)
    }
}

#[via_fn]
proof fn fold_carries_decreases(x: nat) {
    if x >= 0x10000 {
        assert(x / 0x10000 + x % 0x10000 < x) by (nonlinear_arith)
            requires x >= 0x10000;
    }
}

/// The Internet checksum of `s`: the ones' complement of its folded word sum.
/// A buffer is valid when this is zero.
pub open spec fn internet_checksum(s: Seq<u8>) -> u16 {
    (0xffff - fold_carries(word_sum(s))) as u16
}

/// `s` with the 16-bit field at byte `k` first zeroed and then set, big-endian,
/// to the checksum of the zeroed buffer.
pub open spec fn with_checksum(s: Seq<u8>, k: int) -> Seq<u8> {
    let z = s.update(k, 0).update(k + 1, 0);
    let c = internet_checksum(z);
    z.update(k, (c / 256) as u8).update(k + 1, (c % 256) as u8)
}

/// The folded sum in closed form: zero stays zero, anything else lands in
/// `1..=0xffff` with the same remainder modulo `0xffff`.
proof fn lemma_fold_closed_form(x: nat)
    ensures
        fold_carries(x) == if x == 0 { 0 } else { ((x - 1) as int % 0xffff) + 1 },
    decreases x,
{
    if x < 0x10000 {
        lemma_mod_bound(x - 1, 0xffff);
        if x > 0 {
            assert((x - 1) as int % 0xffff == x - 1 || x == 0x10000);
        }
    } else {
        let q = x / 0x10000;
        let r = x % 0x10000;
        let y = q + r;
        lemma_fundamental_div_mod(x as int, 0x10000);
        assert(y < x && y >= 1) by (nonlinear_arith)
            requires x >= 0x10000, y == q + r, q == x / 0x10000, r == x % 0x10000,
                x == 0x10000 * q + r, 0 <= r;
        lemma_fold_closed_form((y) as nat);
        assert(x - 1 == 0xffff * q + (y - 1));
        lemma_mod_multiples_vanish(q as int, y - 1, 0xffff);
    }
}

/// Folding part of a sum first does not change the folded total.
proof fn lemma_fold_partial(a: nat, w: nat)
    ensures
        fold_carries(fold_carries(a) + w) == fold_carries(a + w),
{
    lemma_fold_closed_form(a);
    lemma_fold_closed_form(a + w);
    if a > 0 {
        let f = fold_carries(a);
        lemma_fold_closed_form(f + w);
        let k = (a - 1) as int / 0xffff;
        lemma_fundamental_div_mod(a - 1, 0xffff);
        lemma_mod_bound(a - 1, 0xffff);
        assert(a + w - 1 == 0xffff * k + (f + w - 1));
        lemma_mod_multiples_vanish(k, f + w - 1, 0xffff);
    }
}

/// One folding step on a value below `0x20000`, as the exec code performs it.
proof fn lemma_fold_step(s: u32)
    requires
        0x10000 <= s <= 0x1fffe,
    ensures
        (s >> 16) + (s & 0xffff) == s - 0xffff,
        fold_carries(s as nat) == s - 0xffff,
{
    assert((s >> 16) + (s & 0xffff) == s - 0xffff) by (bit_vector)
        requires 0x10000 <= s <= 0x1fffe;
    assert(s / 0x10000 == 1);
    assert(s % 0x10000 == s - 0x10000);
    let y = (s / 0x10000 + s % 0x10000) as nat;
    assert(y < 0x10000);
    assert(fold_carries(y) == y);
    assert(fold_carries(s as nat) == fold_carries(y));
}

/// Computes the Internet checksum of `data`: the 16-bit big-endian words are
/// summed with their carries folded back in, and the sum is complemented.
pub fn checksum(data: &[u8]) -> (r: u16)
    ensures
        r == internet_checksum(data@),
{
    let len = data.len();
    let n = len / 2;
    let mut sum: u32 = 0;
    let mut i: usize = 0;
    while i < n
        invariant
            len == data@.len(),
            n == len / 2,
            i <= n,
            sum <= 0xffff,
            sum as nat == fold_carries(sum_words(data@, i as nat)),
        decreases n - i,
    {
        assert(2 * i + 1 < len);
        let w = (data[2 * i] as u32) * 256 + data[2 * i + 1] as u32;
        proof {
            lemma_fold_partial(sum_words(data@, i as nat), w as nat);
            assert(sum_words(data@, (i + 1) as nat) == sum_words(data@, i as nat) + w);
        }
        sum = sum + w;
        if sum > 0xffff {
            proof {
                lemma_fold_step(sum);
            }
            sum = (sum >> 16) + (sum & 0xffff);
        }
        i = i + 1;
    }
    if data.len() % 2 == 1 {
        let w = (data[data.len() - 1] as u32) * 256;
        proof {
            lemma_fold_partial(sum_words(data@, n as nat), w as nat);
        }
        sum = sum + w;
        if sum > 0xffff {
            proof {
                lemma_fold_step(sum);
            }
            sum = (sum >> 16) + (sum & 0xffff);
        }
    } else {
        assert(word_sum(data@) == sum_words(data@, n as nat));
    }
    let low = sum as u16;
    assert(!low == 0xffff - low) by (bit_vector);
    !low
}

/// The same Internet checksum as [`checksum`], under the name that the
/// packet handlers use.
pub fn compute_checksum(data: &[u8]) -> (r: u16)
    ensures
        r == internet_checksum(data@),
{
    checksum(data)
}

/// Changing one word changes the sum of words by the difference.
proof fn lemma_sum_words_update(s: Seq<u8>, t: Seq<u8>, j: int, n: nat)
    requires
        s.len() == t.len(),
        2 * n <= s.len(),
        0 <= j < n,
        forall|b: int| 0 <= b < s.len() && b != 2 * j && b != 2 * j + 1 ==> s[b] == t[b],
    ensures
        sum_words(t, n) + word_at(s, j) == sum_words(s, n) + word_at(t, j),
    decreases n,
{
    if n - 1 > j {
        lemma_sum_words_update(s, t, j, (n - 1) as nat);
    } else {
        lemma_sum_words_same(s, t, (n - 1) as nat);
    }
}

/// Buffers that agree on the first `n` words have the same sum over them.
proof fn lemma_sum_words_same(s: Seq<u8>, t: Seq<u8>, n: nat)
    requires
        2 * n <= s.len(),
        2 * n <= t.len(),
        forall|b: int| 0 <= b < 2 * n ==> s[b] == t[b],
    ensures
        sum_words(t, n) == sum_words(s, n),
    decreases n,
{
    if n > 0 {
        lemma_sum_words_same(s, t, (n - 1) as nat);
    }
}

/// Filling a checksum field makes the buffer valid: for any buffer and any
/// 16-bit field at an even offset, zeroing the field and then writing into it
/// the checksum of the zeroed buffer gives a buffer whose checksum is zero.
pub proof fn lemma_filled_checksum_is_valid(s: Seq<u8>, k: int)
    requires
        0 <= k,
        k % 2 == 0,
        k + 1 < s.len(),
    ensures
        internet_checksum(with_checksum(s, k)) == 0,
{
    let z = s.update(k, 0).update(k + 1, 0);
    let c = internet_checksum(z);
    let t = with_checksum(s, k);
    let j = k / 2;
    let n = (s.len() / 2) as nat;
    assert(word_at(z, j) == 0);
    assert(word_at(t, j) == c);
    lemma_sum_words_update(z, t, j, n);
    if s.len() % 2 == 1 {
        assert(t[s.len() - 1] == z[s.len() - 1]);
    }
    assert(word_sum(t) == word_sum(z) + c);
    let sz = word_sum(z);
    lemma_fold_closed_form(sz);
    lemma_fold_closed_form((sz + c) as nat);
    if sz > 0 {
        let q = (sz - 1) as int / 0xffff;
        lemma_fundamental_div_mod(sz - 1, 0xffff);
        lemma_mod_bound(sz - 1, 0xffff);
        assert(sz + c - 1 == 0xffff * q + 0xfffe);
        lemma_mod_multiples_vanish(q, 0xfffe, 0xffff);
    }
}

/// Refilling is stable: filling the checksum field of a buffer whose field
/// was already filled gives back the same buffer, which is still valid.
pub proof fn lemma_refill_is_stable(s: Seq<u8>, k: int)
    requires
        0 <= k,
        k % 2 == 0,
        k + 1 < s.len(),
    ensures
        with_checksum(with_checksum(s, k), k) == with_checksum(s, k),
        internet_checksum(with_checksum(with_checksum(s, k), k)) == 0,
{
    let t = with_checksum(s, k);
    assert(t.update(k, 0).update(k + 1, 0) =~= s.update(k, 0).update(k + 1, 0));
    assert(with_checksum(t, k) =~= t);
    lemma_filled_checksum_is_valid(s, k);
}

} // verus!
