//! The RC4 stream cipher, with a model of its state and of the keystream it
//! produces.
use vstd::prelude::*;

verus! {

/// The state of RC4: the permutation box and the two indices.
pub struct Rc4State {
    pub sbox: Seq<u8>,
    pub i: u8,
    pub j: u8,
}

/// `s` with the entries at `a` and `b` exchanged.
pub open spec fn swap_entries(s: Seq<u8>, a: int, b: int) -> Seq<u8> {
    s.update(a, s[b]).update(b, s[a])
}

/// The identity permutation of the 256 byte values.
pub open spec fn identity_box() -> Seq<u8> {
    Seq::new(256, |k: int| k as u8)
}

/// The box and `j` after the first `n` rounds of the key schedule.
pub open spec fn ksa_rounds(key: Seq<u8>, n: nat) -> (Seq<u8>, u8)
    decreases n,
{
    if n == 0 {
        (identity_box(), 0u8)
    } else {
        let (s, j) = ksa_rounds(key, (n - 1) as nat);
        let i = n - 1;
        let j2 = ((j + s[i] + key[i % (key.len() as int)]) % 256) as u8;
        (swap_entries(s, i, j2 as int), j2)
    }
}

/// The state that the key schedule makes of `key`.
pub open spec fn ksa(key: Seq<u8>) -> Rc4State {
    Rc4State { sbox: ksa_rounds(key, 256).0, i: 0, j: 0 }
}

/// The state after one step of the generator.
pub open spec fn prga_next(st: Rc4State) -> Rc4State {
    let i = ((st.i + 1) % 256) as u8;
    let j = ((st.j + st.sbox[i as int]) % 256) as u8;
    Rc4State { sbox: swap_entries(st.sbox, i as int, j as int), i, j }
}

/// The keystream byte that the step from `st` yields.
pub open spec fn prga_byte(st: Rc4State) -> u8 {
    let n = prga_next(st);
    n.sbox[((n.sbox[n.i as int] + n.sbox[n.j as int]) % 256) as int]
}

/// The state after `n` steps of the generator.
pub open spec fn advance(st: Rc4State, n: nat) -> Rc4State
    decreases n,
{
    if n == 0 {
        st
    } else {
        advance(prga_next(st), (n - 1) as nat)
    }
}

/// The next `n` keystream bytes from `st`.
pub open spec fn keystream(st: Rc4State, n: nat) -> Seq<u8>
    decreases n,
{
    if n == 0 {
        Seq::empty()
    } else {
        seq![prga_byte(st)] + keystream(prga_next(st), (n - 1) as nat)
    }
}

/// `data` with the bytes from `start` on, as many as `ks` holds, combined by
/// exclusive or with `ks`.
pub open spec fn xor_from(data: Seq<u8>, start: int, ks: Seq<u8>) -> Seq<u8> {
    Seq::new(
        data.len(),
        |k: int|
            if start <= k < start + ks.len() {
                data[k] ^ ks[k - start]
            } else {
                data[k]
            },
    )
}

/// Stepping `a` times and then `b` times is stepping `a + b` times.
pub proof fn lemma_advance_add(st: Rc4State, a: nat, b: nat)
    ensures
        advance(st, a + b) == advance(advance(st, a), b),
    decreases a,
{
    if a > 0 {
        lemma_advance_add(prga_next(st), (a - 1) as nat, b);
        assert((a + b - 1) as nat == ((a - 1) as nat + b) as nat);
    }
}

/// The keystream holds as many bytes as were asked for.
pub proof fn lemma_keystream_len(st: Rc4State, n: nat)
    ensures
        keystream(st, n).len() == n,
    decreases n,
{
    if n > 0 {
        lemma_keystream_len(prga_next(st), (n - 1) as nat);
    }
}

/// The keystream of `a + b` bytes is that of `a` bytes followed by the `b`
/// bytes that come after them.
pub proof fn lemma_keystream_add(st: Rc4State, a: nat, b: nat)
    ensures
        keystream(st, a + b) == keystream(st, a) + keystream(advance(st, a), b),
    decreases a,
{
    if a == 0 {
        assert(keystream(st, 0) + keystream(st, b) =~= keystream(st, b));
    } else {
        lemma_keystream_add(prga_next(st), (a - 1) as nat, b);
        assert((a + b - 1) as nat == ((a - 1) as nat + b) as nat);
        assert(keystream(st, a + b) =~= keystream(st, a) + keystream(advance(st, a), b));
    }
}

/// One more step: the keystream gains the byte of the step from where the
/// shorter one ends.
pub proof fn lemma_step(st: Rc4State, n: nat)
    ensures
        keystream(st, n + 1) == keystream(st, n).push(prga_byte(advance(st, n))),
        advance(st, n + 1) == prga_next(advance(st, n)),
{
    lemma_keystream_add(st, n, 1);
    lemma_advance_add(st, n, 1);
    let t = advance(st, n);
    reveal_with_fuel(advance, 2);
    reveal_with_fuel(keystream, 2);
    assert(advance(t, 1) == prga_next(t));
    assert(keystream(t, 1) =~= seq![prga_byte(t)]);
    assert(keystream(st, n) + seq![prga_byte(t)] =~= keystream(st, n).push(prga_byte(t)));
}

/// Combining with the same keystream twice gives the bytes back: a header
/// encrypted by one side is restored by the other side's cipher in the same
/// state.
pub proof fn law_keystream_roundtrip(data: Seq<u8>, start: int, ks: Seq<u8>)
    ensures
        xor_from(xor_from(data, start, ks), start, ks) == data,
{
    let once = xor_from(data, start, ks);
    let twice = xor_from(once, start, ks);
    assert forall|k: int| 0 <= k < data.len() implies twice[k] == data[k] by {
        if start <= k < start + ks.len() {
            let a = data[k];
            let b = ks[k - start];
            assert((a ^ b) ^ b == a) by (bit_vector);
        }
    }
    assert(twice =~= data);
}

/// The RC4 cipher.
pub struct Rc4 {
    sbox: Vec<u8>,
    i: u8,
    j: u8,
}

impl View for Rc4 {
    type V = Rc4State;

    closed spec fn view(&self) -> Rc4State {
        Rc4State { sbox: self.sbox@, i: self.i, j: self.j }
    }
}

impl Rc4 {
    #[verifier::type_invariant]
    spec fn box_is_full(self) -> bool {
        self.sbox@.len() == 256
    }

    /// Runs the key schedule on `key`.
    pub fn new(key: &[u8]) -> (c: Self)
        requires
            key@.len() > 0,
        ensures
            c@ == ksa(key@),
    {
        let mut sbox: Vec<u8> = Vec::new();
        let mut k: usize = 0;
        while k < 256
            invariant
                k <= 256,
                sbox@ =~= Seq::new(k as nat, |x: int| x as u8),
            decreases 256 - k,
        {
            sbox.push(k as u8);
            k = k + 1;
        }
        assert(sbox@ =~= identity_box());
        let mut j: u8 = 0;
        let mut i: usize = 0;
        while i < 256
            invariant
                i <= 256,
                key@.len() > 0,
                sbox@.len() == 256,
                (sbox@, j) == ksa_rounds(key@, i as nat),
            decreases 256 - i,
        {
            let at = i % key.len();
            let si = sbox[i];
            let next_j = ((j as u16 + si as u16 + key[at] as u16) % 256) as u8;
            let sj = sbox[next_j as usize];
            sbox.set(i, sj);
            sbox.set(next_j as usize, si);
            j = next_j;
            i = i + 1;
            proof {
                let (s0, j0) = ksa_rounds(key@, (i - 1) as nat);
                assert(sbox@ =~= swap_entries(s0, (i - 1) as int, j as int));
            }
        }
        Rc4 { sbox, i: 0, j: 0 }
    }

    /// One step of the generator; returns the keystream byte.
    pub fn next_byte(&mut self) -> (k: u8)
        ensures
            final(self)@ == prga_next(old(self)@),
            k == prga_byte(old(self)@),
        no_unwind
    {
        proof {
            use_type_invariant(&*self);
        }
        let i = ((self.i as u16 + 1) % 256) as u8;
        let si = self.sbox[i as usize];
        let j = ((self.j as u16 + si as u16) % 256) as u8;
        let sj = self.sbox[j as usize];
        self.sbox[i as usize] = sj;
        self.sbox[j as usize] = si;
        self.i = i;
        self.j = j;
        let t = ((sj as u16 + si as u16) % 256) as u8;
        let k = self.sbox[t as usize];
        proof {
            let n = prga_next(old(self)@);
            assert(self.sbox@ =~= n.sbox);
        }
        k
    }

    /// Steps the generator `n` times, the bytes left unused.
    pub fn skip(&mut self, n: usize)
        ensures
            final(self)@ == advance(old(self)@, n as nat),
    {
        let mut k: usize = 0;
        while k < n
            invariant
                k <= n,
                self@ == advance(old(self)@, k as nat),
            decreases n - k,
        {
            proof {
                lemma_step(old(self)@, k as nat);
            }
            self.next_byte();
            k = k + 1;
        }
    }

    /// Combines `data[start..end]` with the next keystream bytes by exclusive
    /// or; this both encrypts and decrypts.
    pub fn apply(&mut self, data: &mut [u8], start: usize, end: usize)
        requires
            start <= end <= old(data)@.len(),
        ensures
            final(data)@ == xor_from(old(data)@, start as int, keystream(old(self)@, (end - start) as nat)),
            final(self)@ == advance(old(self)@, (end - start) as nat),
    {
        let ghost st0 = self@;
        let ghost data0 = data@;
        let mut k: usize = start;
        proof {
            assert(data@ =~= xor_from(data0, start as int, keystream(st0, 0)));
        }
        while k < end
            invariant
                start <= k <= end,
                end <= data@.len(),
                data@.len() == data0.len(),
                data@ == xor_from(data0, start as int, keystream(st0, (k - start) as nat)),
                self@ == advance(st0, (k - start) as nat),
            decreases end - k,
        {
            let ghost m = (k - start) as nat;
            proof {
                lemma_step(st0, m);
                lemma_keystream_len(st0, m);
                lemma_keystream_len(st0, m + 1);
            }
            let b = self.next_byte();
            let x = data[k] ^ b;
            data[k] = x;
            k = k + 1;
            proof {
                assert(data@ =~= xor_from(data0, start as int, keystream(st0, (k - start) as nat)));
            }
        }
    }
}

} // verus!
