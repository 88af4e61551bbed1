use vstd::prelude::*;
use crate::component::{ComponentId, Error};

verus! {

/// The column name reserved for the entity-id column of every external
/// table: the bytes of `entity_id`.
pub open spec fn entity_id_name() -> Seq<u8> {
    seq![101u8, 110u8, 116u8, 105u8, 116u8, 121u8, 95u8, 105u8, 100u8]
}

/// Whether a byte is an ASCII decimal digit.
pub open spec fn is_digit(b: u8) -> bool {
    48 <= b <= 57
}

/// A non-empty run of ASCII decimal digits.
pub open spec fn is_decimal(s: Seq<u8>) -> bool {
    s.len() > 0 && forall|i: int| 0 <= i < s.len() ==> is_digit(#[trigger] s[i])
}

/// The number that a run of decimal digits denotes.
pub open spec fn decimal_value(s: Seq<u8>) -> nat
    decreases s.len(),
{
    if s.len() == 0 {
        0
    } else {
        decimal_value(s.drop_last()) * 10 + (s.last() - 48) as nat
    }
}

/// The shortest decimal form of `n`, without sign or leading zeros.
pub open spec fn decimal_of(n: nat) -> Seq<u8>
    decreases n,
{
    if n < 10 {
        seq![(48 + n) as u8]
    } else {
        decimal_of(n / 10).push((48 + n % 10) as u8)
    }
}

/// Whether `name` is a column name that denotes a component id: a run of
/// decimal digits whose value fits 64 bits.
pub open spec fn names_component(name: Seq<u8>) -> bool {
    is_decimal(name) && decimal_value(name) <= u64::MAX
}

/// The decimal form of every number is a run of digits that denotes it.
pub proof fn lemma_decimal_of(n: nat)
    ensures
        is_decimal(decimal_of(n)),
        decimal_value(decimal_of(n)) == n,
    decreases n,
{
    let s = decimal_of(n);
    if n < 10 {
        assert(s.drop_last() =~= Seq::<u8>::empty());
        assert(decimal_value(s.drop_last()) == 0);
    } else {
        lemma_decimal_of(n / 10);
        assert(s.drop_last() =~= decimal_of(n / 10));
        assert(s.last() == (48 + n % 10) as u8);
        assert((n / 10) * 10 + n % 10 == n);
        assert forall|i: int| 0 <= i < s.len() implies is_digit(#[trigger] s[i]) by {
            if i < s.len() - 1 {
                assert(s[i] == decimal_of(n / 10)[i]);
            }
        }
    }
}

/// Naming a column by a component id's decimal form and parsing that name
/// back gives the same id; no such name is the reserved entity-id name.
pub proof fn lemma_component_name_round_trip(c: ComponentId)
    ensures
        names_component(decimal_of(c.0 as nat)),
        decimal_value(decimal_of(c.0 as nat)) == c.0,
        decimal_of(c.0 as nat) != entity_id_name(),
{
    lemma_decimal_of(c.0 as nat);
    let s = decimal_of(c.0 as nat);
    if s == entity_id_name() {
        assert(is_digit(s[0]));
    }
}

/// Appends the decimal form of `n` to `out`.
pub fn write_decimal(n: u64, out: &mut Vec<u8>)
    ensures
        final(out)@ == old(out)@ + decimal_of(n as nat),
    decreases n,
{
    if n >= 10 {
        write_decimal(n / 10, out);
    }
    out.push((48 + n % 10) as u8);
    proof {
        if n >= 10 {
            assert(decimal_of(n as nat) == decimal_of((n / 10) as nat).push((48 + n % 10) as u8));
        }
    }
    assert(final(out)@ =~= old(out)@ + decimal_of(n as nat));
}

/// The external column name of a component: its id in decimal.
pub fn component_name(id: ComponentId) -> (r: Vec<u8>)
    ensures
        r@ == decimal_of(id.0 as nat),
{
    let mut out: Vec<u8> = Vec::new();
    write_decimal(id.0, &mut out);
    assert(out@ =~= decimal_of(id.0 as nat));
    out
}

/// The bytes of the reserved entity-id column name.
pub fn entity_name() -> (r: Vec<u8>)
    ensures
        r@ == entity_id_name(),
{
    let r: Vec<u8> = vec![101u8, 110u8, 116u8, 105u8, 116u8, 121u8, 95u8, 105u8, 100u8];
    assert(r@ =~= entity_id_name());
    r
}

/// Parses a column name as a component id: the whole name must be decimal
/// digits, and the value must fit 64 bits.
pub fn parse_component_id(name: &[u8]) -> (r: Result<ComponentId, Error>)
    ensures
        names_component(name@) ==> r == Ok::<ComponentId, Error>(
            ComponentId(decimal_value(name@) as u64),
        ),
        !names_component(name@) ==> r == Err::<ComponentId, Error>(Error::InvalidComponentId),
{
    if name.len() == 0 {
        return Err(Error::InvalidComponentId);
    }
    let mut v: u64 = 0;
    let mut i: usize = 0;
    while i < name.len()
        invariant
            i <= name@.len(),
            name@.len() > 0,
            v == decimal_value(name@.subrange(0, i as int)),
            forall|j: int| 0 <= j < i ==> is_digit(#[trigger] name@[j]),
        decreases name@.len() - i,
    {
        let b = name[i];
        let ghost pre = name@.subrange(0, i as int);
        let ghost next = name@.subrange(0, i as int + 1);
        assert(next.drop_last() =~= pre);
        if b < 48 || b > 57 {
            return Err(Error::InvalidComponentId);
        }
        let d = (b - 48) as u64;
        if v > (u64::MAX - d) / 10 {
            proof {
                assert(decimal_value(next) == v * 10 + d);
                assert(v * 10 + d > u64::MAX) by (nonlinear_arith)
                    requires
                        v > (u64::MAX - d) / 10,
                        d <= 9,
                ;
                lemma_prefix_bound(name@, i as int + 1);
            }
            return Err(Error::InvalidComponentId);
        }
        assert(v * 10 + d <= u64::MAX) by (nonlinear_arith)
            requires
                v <= (u64::MAX - d) / 10,
                d <= 9,
        ;
        v = v * 10 + d;
        i = i + 1;
    }
    assert(name@.subrange(0, i as int) =~= name@);
    Ok(ComponentId(v))
}

/// Digits appended to a prefix never lower its value.
pub proof fn lemma_prefix_bound(s: Seq<u8>, k: int)
    requires
        0 <= k <= s.len(),
        forall|j: int| 0 <= j < k ==> is_digit(#[trigger] s[j]),
    ensures
        is_decimal(s) ==> decimal_value(s) >= decimal_value(s.subrange(0, k)),
    decreases s.len() - k,
{
    if k == s.len() {
        assert(s.subrange(0, k) =~= s);
    } else if is_decimal(s) {
        assert(s.subrange(0, k + 1).drop_last() =~= s.subrange(0, k));
        let p = decimal_value(s.subrange(0, k));
        assert(p * 10 + (s[k] - 48) as nat >= p) by (nonlinear_arith);
        lemma_prefix_bound(s, k + 1);
    }
}

} // verus!
