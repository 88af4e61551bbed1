use vstd::prelude::*;
use crate::component::EntityId;

verus! {

/// The `k` low bytes of `n`, least significant first.
pub open spec fn le_bytes(n: nat, k: nat) -> Seq<u8>
    decreases k,
{
    if k == 0 {
        Seq::empty()
    } else {
        seq![(n % 256) as u8] + le_bytes(n / 256, (k - 1) as nat)
    }
}

/// Whether row `row` of an entity buffer (eight little-endian bytes per
/// row) holds entity `e`.
pub open spec fn row_holds(buf: Seq<u8>, row: int, e: EntityId) -> bool {
    buf.subrange(8 * row, 8 * row + 8) == le_bytes(e.0 as nat, 8)
}

/// Whether an entity map is a bijection from the entities of a buffer of `n`
/// rows onto the rows `0..n`: one entry per row, each naming a row below `n`
/// that holds its entity, no row named twice, every row named.
pub open spec fn entity_map_wf(m: Seq<(EntityId, usize)>, buf: Seq<u8>, n: nat) -> bool {
    &&& m.len() == n
    &&& forall|i: int| 0 <= i < m.len() ==> (#[trigger] m[i]).1 < n && row_holds(buf, m[i].1 as int, m[i].0)
    &&& forall|i: int, j: int| 0 <= i < m.len() && 0 <= j < m.len() && i != j ==> (#[trigger] m[i]).1 != (#[trigger] m[j]).1
    &&& forall|r: int| 0 <= r < n ==> #[trigger] names_row(m, r)
}

/// Whether some entry of `m` names row `r`.
pub open spec fn names_row(m: Seq<(EntityId, usize)>, r: int) -> bool {
    exists|i: int| 0 <= i < m.len() && (#[trigger] m[i]).1 == r
}

/// `le_bytes` gives exactly `k` bytes.
pub proof fn lemma_le_bytes_len(n: nat, k: nat)
    ensures
        le_bytes(n, k).len() == k,
    decreases k,
{
    if k > 0 {
        lemma_le_bytes_len(n / 256, (k - 1) as nat);
    }
}

/// Distinct numbers below `256^k` have distinct `k`-byte encodings.
pub proof fn lemma_le_bytes_injective(a: nat, b: nat, k: nat)
    requires
        a < pow256(k),
        b < pow256(k),
        le_bytes(a, k) == le_bytes(b, k),
    ensures
        a == b,
    decreases k,
{
    if k > 0 {
        lemma_le_bytes_len(a / 256, (k - 1) as nat);
        lemma_le_bytes_len(b / 256, (k - 1) as nat);
        assert(le_bytes(a, k) == seq![(a % 256) as u8] + le_bytes(a / 256, (k - 1) as nat));
        assert(le_bytes(b, k) == seq![(b % 256) as u8] + le_bytes(b / 256, (k - 1) as nat));
        assert(le_bytes(a, k)[0] == (a % 256) as u8);
        assert(le_bytes(b, k)[0] == (b % 256) as u8);
        assert(le_bytes(a, k)[0] == le_bytes(b, k)[0]);
        assert(((a % 256) as u8) as nat == a % 256);
        assert(((b % 256) as u8) as nat == b % 256);
        assert(a % 256 == b % 256);
        let p = pow256((k - 1) as nat);
        assert(a / 256 < p) by (nonlinear_arith)
            requires
                a < 256 * p,
        ;
        assert(b / 256 < p) by (nonlinear_arith)
            requires
                b < 256 * p,
        ;
        assert(le_bytes(a / 256, (k - 1) as nat) =~= le_bytes(a, k).subrange(1, k as int));
        assert(le_bytes(b / 256, (k - 1) as nat) =~= le_bytes(b, k).subrange(1, k as int));
        lemma_le_bytes_injective(a / 256, b / 256, (k - 1) as nat);
        assert(a == 256 * (a / 256) + a % 256);
        assert(b == 256 * (b / 256) + b % 256);
    } else {
        assert(a == 0 && b == 0);
    }
}

/// `256^k`.
pub open spec fn pow256(k: nat) -> nat
    decreases k,
{
    if k == 0 {
        1
    } else {
        256 * pow256((k - 1) as nat)
    }
}

/// Every 64-bit number is below `256^8`.
pub proof fn lemma_u64_below_pow256(x: u64)
    ensures
        (x as nat) < pow256(8),
{
    reveal_with_fuel(pow256, 9);
    assert(pow256(8) == 0x1_0000_0000_0000_0000);
}

/// The eight little-endian bytes of an entity id.
pub fn encode_entity(e: EntityId) -> (r: Vec<u8>)
    ensures
        r@ == le_bytes(e.0 as nat, 8),
{
    let mut out: Vec<u8> = Vec::new();
    let mut x: u64 = e.0;
    let mut k: usize = 0;
    while k < 8
        invariant
            k <= 8,
            out@ + le_bytes(x as nat, (8 - k) as nat) == le_bytes(e.0 as nat, 8),
        decreases 8 - k,
    {
        let ghost before = out@;
        let ghost x0 = x;
        let ghost k0 = k;
        assert(le_bytes(x0 as nat, (8 - k0) as nat) == seq![(x0 % 256) as u8] + le_bytes(
            (x0 / 256) as nat,
            (8 - k0 - 1) as nat,
        ));
        out.push((x % 256) as u8);
        x = x / 256;
        k = k + 1;
        assert(out@ + le_bytes(x as nat, (8 - k) as nat) =~= before + le_bytes(
            x0 as nat,
            (8 - k0) as nat,
        ));
    }
    assert(le_bytes(x as nat, 0) =~= Seq::<u8>::empty());
    assert(out@ =~= le_bytes(e.0 as nat, 8));
    out
}

/// Whether row `row` of `buf` holds entity `e`.
pub fn row_matches(buf: &Vec<u8>, row: usize, e: EntityId) -> (r: bool)
    requires
        8 * row + 8 <= buf@.len(),
    ensures
        r == row_holds(buf@, row as int, e),
{
    let enc = encode_entity(e);
    proof {
        lemma_le_bytes_len(e.0 as nat, 8);
    }
    let len = buf.len();
    let base = 8 * row;
    let mut k: usize = 0;
    while k < 8
        invariant
            k <= 8,
            base == 8 * row,
            base + 8 <= buf@.len(),
            enc@ == le_bytes(e.0 as nat, 8),
            enc@.len() == 8,
            forall|j: int| 0 <= j < k ==> buf@[base + j] == enc@[j],
        decreases 8 - k,
    {
        if buf[base + k] != enc[k] {
            assert(buf@.subrange(8 * row, 8 * row + 8)[k as int] != enc@[k as int]);
            return false;
        }
        k = k + 1;
    }
    assert(buf@.subrange(8 * row, 8 * row + 8) =~= enc@);
    true
}

/// Whether `m` is a bijection from the entities of `buf` onto its rows.
pub fn check_entity_map(m: &Vec<(EntityId, usize)>, buf: &Vec<u8>, n: usize) -> (r: bool)
    requires
        buf@.len() == 8 * n,
    ensures
        r == entity_map_wf(m@, buf@, n as nat),
{
    if m.len() != n {
        return false;
    }
    let mut seen: Vec<bool> = Vec::new();
    let mut z: usize = 0;
    while z < n
        invariant
            z <= n,
            seen@.len() == z,
            forall|r: int| 0 <= r < z ==> !(#[trigger] seen@[r]),
        decreases n - z,
    {
        seen.push(false);
        z = z + 1;
    }
    let mut i: usize = 0;
    while i < m.len()
        invariant
            i <= m@.len(),
            m@.len() == n,
            buf@.len() == 8 * n,
            seen@.len() == n,
            forall|r: int| 0 <= r < n ==> (#[trigger] seen@[r] <==> exists|j: int| 0 <= j < i && (#[trigger] m@[j]).1 == r),
            forall|j: int| 0 <= j < i ==> (#[trigger] m@[j]).1 < n && row_holds(buf@, m@[j].1 as int, m@[j].0),
            forall|j: int, l: int| 0 <= j < i && 0 <= l < i && j != l ==> (#[trigger] m@[j]).1 != (#[trigger] m@[l]).1,
        decreases m@.len() - i,
    {
        let (e, row) = m[i];
        if row >= n {
            return false;
        }
        if seen[row] {
            let ghost j = choose|j: int| 0 <= j < i && (#[trigger] m@[j]).1 == row;
            assert(m@[j].1 == m@[i as int].1);
            return false;
        }
        if !row_matches(buf, row, e) {
            return false;
        }
        seen.set(row, true);
        i = i + 1;
        assert forall|r: int| 0 <= r < n implies (#[trigger] seen@[r] <==> exists|j: int|
            0 <= j < i && (#[trigger] m@[j]).1 == r) by {
            if r == row as int {
                assert(m@[i - 1].1 == r);
            }
        }
    }
    assert forall|r: int| 0 <= r < n implies (#[trigger] seen@[r] <==> names_row(m@, r)) by {
        if seen@[r] {
            let j = choose|j: int| 0 <= j < i && (#[trigger] m@[j]).1 == r;
            assert(m@[j].1 == r);
        }
        if names_row(m@, r) {
            let j = choose|j: int| 0 <= j < m@.len() && (#[trigger] m@[j]).1 == r;
            assert(m@[j].1 == r);
        }
    }
    let mut k: usize = 0;
    while k < n
        invariant
            k <= n,
            seen@.len() == n,
            forall|r: int| 0 <= r < k ==> #[trigger] seen@[r],
            forall|r: int| 0 <= r < n ==> (#[trigger] seen@[r] <==> names_row(m@, r)),
        decreases n - k,
    {
        if !seen[k] {
            assert(!names_row(m@, k as int));
            return false;
        }
        k = k + 1;
    }
    assert forall|r: int| 0 <= r < n implies #[trigger] names_row(m@, r) by {
        assert(seen@[r]);
    }
    true
}

} // verus!
