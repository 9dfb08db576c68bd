//! The group-by key engine: a key-encoding strategy is chosen once per
//! query from the grouping columns' byte widths; rows are then packed into
//! fixed-width integer keys (bit-packing each column into its slice of the
//! integer, high bits first by column order) or serialized into
//! variable-length byte keys. Two rows with identical grouping values
//! always produce bit-identical keys, and distinct in-range rows produce
//! distinct keys (`lemma_fixed_key_injective`,
//! `lemma_serialized_key_injective`).

use vstd::prelude::*;
use vstd::arithmetic::power2::pow2;
use vstd::pervasive::VecAdditionalExecFns;
use vstd::string::StringExecFns;

use crate::coercion::spec_modulus_of;
use crate::data_type::DataType;
use crate::error::ErrorCode;
use crate::error::ErrorKind;
use crate::type_id::TypeID;

verus! {

/// The chosen key encoding: a fixed 1/2/4/8-byte packed key, or a
/// serialized variable-length key.
#[derive(Clone, Copy, PartialEq, Eq, Structural, Debug)]
pub enum HashMethodKind {
    KeysU8,
    KeysU16,
    KeysU32,
    KeysU64,
    Serializer,
}

/// The sum of the fixed byte widths of a list of type identities.
pub open spec fn sum_widths(tys: Seq<TypeID>) -> int
    decreases tys.len(),
{
    if tys.len() == 0 {
        0
    } else {
        sum_widths(tys.drop_last()) + tys.last().spec_fixed_byte_width()
    }
}

/// Whether every grouping type can be packed or serialized: booleans,
/// integer-backed types and strings.
pub open spec fn groupable(tys: Seq<TypeID>) -> bool {
    forall|i: int|
        0 <= i < tys.len() ==> ((#[trigger] tys[i]).spec_is_integer_backed() || tys[i]
            == TypeID::Boolean || tys[i] == TypeID::String)
}

/// The strategy for a list of grouping types: the narrowest fixed key the
/// summed widths fit, serialization when a variable-width column is
/// present or the sum exceeds a machine word.
pub open spec fn spec_choose_hash_method(tys: Seq<TypeID>) -> HashMethodKind {
    if exists|i: int| 0 <= i < tys.len() && (#[trigger] tys[i]) == TypeID::String {
        HashMethodKind::Serializer
    } else {
        let s = sum_widths(tys);
        if s <= 1 {
            HashMethodKind::KeysU8
        } else if s <= 2 {
            HashMethodKind::KeysU16
        } else if s <= 4 {
            HashMethodKind::KeysU32
        } else if s <= 8 {
            HashMethodKind::KeysU64
        } else {
            HashMethodKind::Serializer
        }
    }
}

/// Chooses the key strategy for the grouping columns, by their declared
/// types. Fails when a column cannot serve as a grouping key at all.
pub fn choose_hash_method(types: &Vec<DataType>) -> (r: Result<HashMethodKind, ErrorCode>)
    ensures
        match r {
            Ok(k) => {
                &&& types@.len() > 0
                &&& groupable(types@.map_values(|t: DataType| t.base.spec_id()))
                &&& k == spec_choose_hash_method(
                    types@.map_values(|t: DataType| t.base.spec_id()),
                )
            },
            Err(e) => (types@.len() == 0 && e.kind == ErrorKind::EmptyData) || (types@.len() > 0
                && !groupable(types@.map_values(|t: DataType| t.base.spec_id())) && e.kind
                == ErrorKind::BadDataValueType),
        },
{
    let ghost ids = types@.map_values(|t: DataType| t.base.spec_id());
    let n = types.len();
    if n == 0 {
        return Err(
            ErrorCode::new(
                ErrorKind::EmptyData,
                String::from_str("Group keys require at least one column"),
            ),
        );
    }
    let mut any_string = false;
    let mut big = false;
    let mut sum: usize = 0;
    let mut i: usize = 0;
    while i < n
        invariant
            n == types@.len(),
            ids == types@.map_values(|t: DataType| t.base.spec_id()),
            i <= n,
            forall|t: int|
                0 <= t < i ==> ((#[trigger] ids[t]).spec_is_integer_backed() || ids[t]
                    == TypeID::Boolean || ids[t] == TypeID::String),
            any_string == (exists|t: int| 0 <= t < i && (#[trigger] ids[t]) == TypeID::String),
            !big ==> sum == sum_widths(ids.take(i as int)) && sum <= 8,
            big ==> sum_widths(ids.take(i as int)) > 8,
        decreases n - i,
    {
        let id = types[i].data_type_id();
        if matches!(id, TypeID::String) {
            any_string = true;
        } else if !(id.is_integer_backed() || matches!(id, TypeID::Boolean)) {
            return Err(
                ErrorCode::new(
                    ErrorKind::BadDataValueType,
                    String::from_str("This type cannot serve as a grouping key"),
                ),
            );
        }
        let w = id.fixed_byte_width();
        proof {
            assert(ids.take(i as int + 1).drop_last() =~= ids.take(i as int));
            assert(ids.take(i as int + 1).last() == ids[i as int]);
            assert(ids[i as int].spec_fixed_byte_width() >= 0);
        }
        if !big {
            sum = sum + w;
            if sum > 8 {
                big = true;
            }
        }
        i += 1;
    }
    proof {
        assert(ids.take(n as int) =~= ids);
    }
    let kind = if any_string {
        HashMethodKind::Serializer
    } else if big {
        HashMethodKind::Serializer
    } else if sum <= 1 {
        HashMethodKind::KeysU8
    } else if sum <= 2 {
        HashMethodKind::KeysU16
    } else if sum <= 4 {
        HashMethodKind::KeysU32
    } else {
        HashMethodKind::KeysU64
    };
    Ok(kind)
}

/// The bit pattern of a cell value in a field of `w` bytes: its
/// two's-complement residue.
pub open spec fn cell_bits(w: int, v: int) -> int {
    v % (pow2((8 * w) as nat) as int)
}

/// The packed key of a row: each column's bit pattern in its slice of the
/// integer, the first column in the highest bits.
pub open spec fn pack_spec(cells: Seq<int>, widths: Seq<int>) -> int
    decreases cells.len(),
{
    if cells.len() == 0 || cells.len() != widths.len() {
        0
    } else {
        pack_spec(cells.drop_last(), widths.drop_last()) * pow2((8 * widths.last()) as nat)
            + cell_bits(widths.last(), cells.last())
    }
}

/// Every width is a legal fixed width and at least one byte.
pub open spec fn widths_ok(widths: Seq<int>) -> bool {
    forall|i: int|
        0 <= i < widths.len() ==> ((#[trigger] widths[i]) == 1 || widths[i] == 2 || widths[i] == 4
            || widths[i] == 8)
}

/// The sum of a width list.
pub open spec fn width_total(widths: Seq<int>) -> int
    decreases widths.len(),
{
    if widths.len() == 0 {
        0
    } else {
        width_total(widths.drop_last()) + widths.last()
    }
}

/// A prefix of a legal width list is legal.
proof fn lemma_widths_ok_take(widths: Seq<int>, k: int)
    requires
        widths_ok(widths),
        0 <= k <= widths.len(),
    ensures
        widths_ok(widths.take(k)),
{
    assert forall|i: int| 0 <= i < k implies ((#[trigger] widths.take(k)[i]) == 1 || widths.take(
        k,
    )[i] == 2 || widths.take(k)[i] == 4 || widths.take(k)[i] == 8) by {
        assert(widths.take(k)[i] == widths[i]);
    }
}

proof fn lemma_width_total_bounds(widths: Seq<int>)
    requires
        widths_ok(widths),
    ensures
        width_total(widths) >= widths.len(),
        widths.len() > 0 ==> width_total(widths.drop_last()) <= width_total(widths) - 1,
    decreases widths.len(),
{
    if widths.len() > 0 {
        assert forall|i: int| 0 <= i < widths.drop_last().len() implies ((#[trigger] widths.drop_last()[i])
            == 1 || widths.drop_last()[i] == 2 || widths.drop_last()[i] == 4
            || widths.drop_last()[i] == 8) by {
            assert(widths.drop_last()[i] == widths[i]);
        }
        lemma_width_total_bounds(widths.drop_last());
    }
}

/// The fixed-width modulus of a width in bytes.
fn width_modulus(w: usize) -> (m: i128)
    requires
        w == 1 || w == 2 || w == 4 || w == 8,
    ensures
        m == pow2((8 * w) as nat),
        1 < m <= 0x1_0000_0000_0000_0000,
        w < 8 ==> m <= 0x1_0000_0000,
{
    proof {
        vstd::arithmetic::power2::lemma2_to64();
        vstd::arithmetic::power2::lemma2_to64_rest();
    }
    if w == 1 {
        0x100
    } else if w == 2 {
        0x1_0000
    } else if w == 4 {
        0x1_0000_0000
    } else {
        0x1_0000_0000_0000_0000
    }
}

/// Packs a row of cell values into one fixed-width integer key, the first
/// column in the highest bits. Two rows with identical cell values always
/// produce the same key, since the key is a function of the cells alone.
pub fn pack_group_key(cells: &Vec<i128>, widths: &Vec<usize>) -> (key: u64)
    requires
        cells@.len() == widths@.len(),
        widths_ok(widths@.map_values(|w: usize| w as int)),
        width_total(widths@.map_values(|w: usize| w as int)) <= 8,
        forall|i: int|
            0 <= i < cells@.len() ==> -0x1_0000_0000_0000_0000 <= #[trigger] cells@[i]
                <= 0x1_0000_0000_0000_0000,
    ensures
        key as int == pack_spec(
            cells@.map_values(|c: i128| c as int),
            widths@.map_values(|w: usize| w as int),
        ),
        (key as int) < pow2((8 * width_total(widths@.map_values(|w: usize| w as int))) as nat),
{
    let n = cells.len();
    proof {
        assert(cells@.map_values(|c: i128| c as int).take(n as int) =~= cells@.map_values(
            |c: i128| c as int,
        ));
        assert(widths@.map_values(|w: usize| w as int).take(n as int) =~= widths@.map_values(
            |w: usize| w as int,
        ));
    }
    pack_group_key_prefix(cells, widths, n)
}

/// Packs the first `n` columns of a row.
fn pack_group_key_prefix(cells: &Vec<i128>, widths: &Vec<usize>, n: usize) -> (key: u64)
    requires
        n <= cells@.len(),
        cells@.len() == widths@.len(),
        widths_ok(widths@.map_values(|w: usize| w as int)),
        width_total(widths@.map_values(|w: usize| w as int).take(n as int)) <= 8,
        forall|i: int|
            0 <= i < cells@.len() ==> -0x1_0000_0000_0000_0000 <= #[trigger] cells@[i]
                <= 0x1_0000_0000_0000_0000,
    ensures
        key as int == pack_spec(
            cells@.map_values(|c: i128| c as int).take(n as int),
            widths@.map_values(|w: usize| w as int).take(n as int),
        ),
        (key as int) < pow2(
            (8 * width_total(widths@.map_values(|w: usize| w as int).take(n as int))) as nat,
        ),
    decreases n,
{
    let ghost gw = widths@.map_values(|w: usize| w as int);
    let ghost gc = cells@.map_values(|c: i128| c as int);
    if n == 0 {
        proof {
            vstd::arithmetic::power2::lemma_pow2_pos(0);
            assert(pow2(0) == 1) by {
                vstd::arithmetic::power2::lemma2_to64();
            }
        }
        return 0;
    }
    let w = widths[n - 1];
    proof {
        assert(gw[n - 1] == w as int);
        assert(gw.take(n as int).drop_last() =~= gw.take(n as int - 1));
        assert(gc.take(n as int).drop_last() =~= gc.take(n as int - 1));
        assert(gw.take(n as int).last() == w as int);
        assert(gc.take(n as int).last() == cells@[n - 1] as int);
        assert(widths_ok(gw.take(n as int))) by {
            assert forall|i: int| 0 <= i < n implies ((#[trigger] gw.take(n as int)[i]) == 1
                || gw.take(n as int)[i] == 2 || gw.take(n as int)[i] == 4 || gw.take(n as int)[i]
                == 8) by {
                assert(gw.take(n as int)[i] == gw[i]);
            }
        }
        lemma_width_total_bounds(gw.take(n as int));
        assert(width_total(gw.take(n as int)) == width_total(gw.take(n as int - 1)) + w);
        assert(width_total(gw.take(n as int - 1)) <= 8 - w);
    }
    let front = pack_group_key_prefix(cells, widths, n - 1);
    let m = width_modulus(w);
    let bits = crate::coercion::euclid_mod(cells[n - 1], m);
    proof {
        vstd::arithmetic::div_mod::lemma_mod_bound(cells@[n - 1] as int, m as int);
        let st = width_total(gw.take(n as int - 1));
        let s = width_total(gw.take(n as int));
        assert(s == st + w);
        lemma_widths_ok_take(gw, n as int - 1);
        lemma_width_total_bounds(gw.take(n as int - 1));
        assert(st >= 0);
        vstd::arithmetic::power2::lemma_pow2_adds((8 * st) as nat, (8 * w) as nat);
        assert(pow2((8 * st) as nat) * pow2((8 * w) as nat) == pow2((8 * s) as nat));
        assert((front as int) * (m as int) + bits < pow2((8 * s) as nat)) by (nonlinear_arith)
            requires
                (front as int) < pow2((8 * st) as nat),
                0 <= bits < m,
                m == pow2((8 * w) as nat),
                pow2((8 * st) as nat) * pow2((8 * w) as nat) == pow2((8 * s) as nat),
                front >= 0,
        ;
        assert(pow2((8 * s) as nat) <= pow2(64)) by {
            if s < 8 {
                vstd::arithmetic::power2::lemma_pow2_strictly_increases((8 * s) as nat, 64);
            }
        }
        assert(pow2(64) == 0x1_0000_0000_0000_0000) by {
            vstd::arithmetic::power2::lemma2_to64_rest();
        }
    }
    let key = if w == 8 {
        proof {
            assert(width_total(gw.take(n as int - 1)) <= 0);
            assert(widths_ok(gw.take(n as int - 1))) by {
                assert forall|i: int| 0 <= i < n - 1 implies ((#[trigger] gw.take(n as int - 1)[i])
                    == 1 || gw.take(n as int - 1)[i] == 2 || gw.take(n as int - 1)[i] == 4
                    || gw.take(n as int - 1)[i] == 8) by {
                    assert(gw.take(n as int - 1)[i] == gw[i]);
                }
            }
            lemma_width_total_bounds(gw.take(n as int - 1));
            assert(gw.take(n as int - 1).len() == 0);
            assert(gw.take(n as int - 1) =~= Seq::<int>::empty());
            assert(gc.take(n as int - 1) =~= Seq::<int>::empty());
            assert(pow2(0) == 1) by {
                vstd::arithmetic::power2::lemma2_to64();
            }
            assert(front == 0);
        }
        bits as u64
    } else {
        front * (m as u64) + (bits as u64)
    };
    proof {
        assert(key as int == (front as int) * (m as int) + bits);
    }
    key
}

/// Unpacks a fixed-width key back into its columns' bit patterns, the
/// exact inverse of `pack_group_key` on bit patterns.
pub fn unpack_group_key(key: u64, widths: &Vec<usize>) -> (cells: Vec<u64>)
    requires
        widths_ok(widths@.map_values(|w: usize| w as int)),
        width_total(widths@.map_values(|w: usize| w as int)) <= 8,
        (key as int) < pow2((8 * width_total(widths@.map_values(|w: usize| w as int))) as nat),
    ensures
        cells@.len() == widths@.len(),
        forall|i: int|
            0 <= i < cells@.len() ==> 0 <= #[trigger] cells@[i] < pow2(
                (8 * widths@[i]) as nat,
            ),
        pack_spec(
            cells@.map_values(|c: u64| c as int),
            widths@.map_values(|w: usize| w as int),
        ) == key as int,
{
    let n = widths.len();
    proof {
        assert(widths@.map_values(|w: usize| w as int).take(n as int) =~= widths@.map_values(
            |w: usize| w as int,
        ));
    }
    unpack_group_key_prefix(key, widths, n)
}

/// Unpacks the first `n` columns of a key.
fn unpack_group_key_prefix(key: u64, widths: &Vec<usize>, n: usize) -> (cells: Vec<u64>)
    requires
        n <= widths@.len(),
        widths_ok(widths@.map_values(|w: usize| w as int)),
        width_total(widths@.map_values(|w: usize| w as int).take(n as int)) <= 8,
        (key as int) < pow2(
            (8 * width_total(widths@.map_values(|w: usize| w as int).take(n as int))) as nat,
        ),
    ensures
        cells@.len() == n,
        forall|i: int|
            0 <= i < n ==> 0 <= #[trigger] cells@[i] < pow2((8 * widths@[i]) as nat),
        pack_spec(
            cells@.map_values(|c: u64| c as int),
            widths@.map_values(|w: usize| w as int).take(n as int),
        ) == key as int,
    decreases n,
{
    let ghost gw = widths@.map_values(|w: usize| w as int);
    if n == 0 {
        let cells: Vec<u64> = Vec::new();
        proof {
            assert(cells@.map_values(|c: u64| c as int) =~= Seq::<int>::empty());
            assert(gw.take(0) =~= Seq::<int>::empty());
            assert(pow2(0) == 1) by {
                vstd::arithmetic::power2::lemma2_to64();
            }
        }
        return cells;
    }
    let w = widths[n - 1];
    proof {
        assert(gw[n - 1] == w as int);
        assert(widths_ok(gw.take(n as int))) by {
            assert forall|i: int| 0 <= i < n implies ((#[trigger] gw.take(n as int)[i]) == 1
                || gw.take(n as int)[i] == 2 || gw.take(n as int)[i] == 4 || gw.take(n as int)[i]
                == 8) by {
                assert(gw.take(n as int)[i] == gw[i]);
            }
        }
        lemma_width_total_bounds(gw.take(n as int));
        assert(gw.take(n as int).drop_last() =~= gw.take(n as int - 1));
        assert(gw.take(n as int).last() == w as int);
    }
    let m = width_modulus(w);
    let m64ok = w < 8;
    let (bits, front_key) = if m64ok {
        let mu = m as u64;
        (key % mu, key / mu)
    } else {
        (key, 0u64)
    };
    proof {
        let st = width_total(gw.take(n as int - 1));
        let s = width_total(gw.take(n as int));
        assert(s == st + w);
        lemma_widths_ok_take(gw, n as int - 1);
        lemma_width_total_bounds(gw.take(n as int - 1));
        assert(st >= 0);
        vstd::arithmetic::power2::lemma_pow2_adds((8 * st) as nat, (8 * w) as nat);
        if m64ok {
            assert(key as int == (m as int) * (front_key as int) + bits) by {
                vstd::arithmetic::div_mod::lemma_fundamental_div_mod(key as int, m as int);
            }
            assert((front_key as int) < pow2((8 * st) as nat)) by (nonlinear_arith)
                requires
                    key as int == (m as int) * (front_key as int) + bits,
                    0 <= bits < m,
                    (key as int) < pow2((8 * st) as nat) * pow2((8 * w) as nat),
                    m == pow2((8 * w) as nat),
                    m > 1,
                    front_key >= 0,
            ;
        } else {
            assert(st <= 0);
            assert(gw.take(n as int - 1).len() == 0);
            assert(pow2(0) == 1) by {
                vstd::arithmetic::power2::lemma2_to64();
            }
            assert((front_key as int) < pow2((8 * st) as nat));
        }
    }
    let mut cells = unpack_group_key_prefix(front_key, widths, n - 1);
    let ghost pre = cells@;
    cells.push(bits);
    proof {
        let gc = cells@.map_values(|c: u64| c as int);
        assert(gc.len() == n);
        assert(gw.take(n as int).len() == n);
        assert(cells@.drop_last() =~= pre);
        assert(gc.drop_last() =~= pre.map_values(|c: u64| c as int));
        assert(gc.last() == bits as int);
        assert((bits as int) < pow2((8 * w) as nat));
        assert(pack_spec(pre.map_values(|c: u64| c as int), gw.take(n as int - 1))
            == front_key as int);
        assert(pack_spec(gc.drop_last(), gw.take(n as int - 1)) == front_key as int);
        vstd::arithmetic::div_mod::lemma_small_mod(bits as nat, pow2((8 * w) as nat));
        assert(cell_bits(w as int, bits as int) == bits as int);
        assert(pack_spec(gc, gw.take(n as int)) == pack_spec(gc.drop_last(), gw.take(n as int - 1))
            * pow2((8 * w) as nat) + bits as int);
        assert((pack_spec(gc.drop_last(), gw.take(n as int - 1))) * pow2((8 * w) as nat)
            == (front_key as int) * (m as int));
        assert((front_key as int) * (m as int) == (m as int) * (front_key as int)) by (nonlinear_arith);
        assert forall|i: int| 0 <= i < n implies 0 <= #[trigger] cells@[i] < pow2(
            (8 * widths@[i]) as nat,
        ) by {
            if i == n - 1 {
                assert(cells@[i] == bits);
                assert(widths@[i] == w);
            }
        }
    }
    cells
}

/// Distinct in-range rows pack to distinct fixed keys: the packed key
/// determines every column's cell value, so equal keys mean equal rows.
pub proof fn lemma_fixed_key_injective(c1: Seq<int>, c2: Seq<int>, tys: Seq<TypeID>)
    requires
        c1.len() == tys.len(),
        c2.len() == tys.len(),
        forall|i: int| 0 <= i < tys.len() ==> (#[trigger] tys[i]).spec_is_integer_backed(),
        forall|i: int| 0 <= i < tys.len() ==> (#[trigger] tys[i]).in_range(c1[i]),
        forall|i: int| 0 <= i < tys.len() ==> (#[trigger] tys[i]).in_range(c2[i]),
        pack_spec(c1, tys.map_values(|t: TypeID| t.spec_fixed_byte_width())) == pack_spec(
            c2,
            tys.map_values(|t: TypeID| t.spec_fixed_byte_width()),
        ),
    ensures
        c1 =~= c2,
    decreases tys.len(),
{
    let gw = tys.map_values(|t: TypeID| t.spec_fixed_byte_width());
    if tys.len() > 0 {
        let w = gw.last();
        let ty = tys.last();
        lemma_modulus_is_pow2(ty);
        let m = pow2((8 * w) as nat);
        vstd::arithmetic::power2::lemma_pow2_pos((8 * w) as nat);
        let k1 = pack_spec(c1, gw);
        let f1 = pack_spec(c1.drop_last(), gw.drop_last());
        let f2 = pack_spec(c2.drop_last(), gw.drop_last());
        let b1 = cell_bits(w, c1.last());
        let b2 = cell_bits(w, c2.last());
        vstd::arithmetic::div_mod::lemma_mod_bound(c1.last(), m as int);
        vstd::arithmetic::div_mod::lemma_mod_bound(c2.last(), m as int);
        assert(f1 * m + b1 == f2 * m + b2);
        assert(f1 == f2 && b1 == b2) by (nonlinear_arith)
            requires
                f1 * m + b1 == f2 * m + b2,
                0 <= b1 < m,
                0 <= b2 < m,
                m > 0,
        ;
        lemma_cell_bits_injective(ty, c1.last(), c2.last());
        assert(gw.drop_last() =~= tys.drop_last().map_values(
            |t: TypeID| t.spec_fixed_byte_width(),
        ));
        lemma_fixed_key_injective(c1.drop_last(), c2.drop_last(), tys.drop_last());
        assert(c1 =~= c1.drop_last().push(c1.last()));
        assert(c2 =~= c2.drop_last().push(c2.last()));
    }
}

/// The modulus of an integer-backed type is the power of two of its bit
/// width.
proof fn lemma_modulus_is_pow2(ty: TypeID)
    requires
        ty.spec_is_integer_backed(),
    ensures
        spec_modulus_of(ty) == pow2((8 * ty.spec_fixed_byte_width()) as nat),
        ty.int_max() - ty.int_min() + 1 == spec_modulus_of(ty),
{
    vstd::arithmetic::power2::lemma2_to64();
    vstd::arithmetic::power2::lemma2_to64_rest();
}

/// Within one type's range, the bit pattern determines the value.
proof fn lemma_cell_bits_injective(ty: TypeID, v1: int, v2: int)
    requires
        ty.spec_is_integer_backed(),
        ty.in_range(v1),
        ty.in_range(v2),
        cell_bits(ty.spec_fixed_byte_width(), v1) == cell_bits(ty.spec_fixed_byte_width(), v2),
    ensures
        v1 == v2,
{
    lemma_modulus_is_pow2(ty);
    let m = pow2((8 * ty.spec_fixed_byte_width()) as nat) as int;
    vstd::arithmetic::power2::lemma_pow2_pos((8 * ty.spec_fixed_byte_width()) as nat);
    vstd::arithmetic::div_mod::lemma_fundamental_div_mod(v1, m as int);
    vstd::arithmetic::div_mod::lemma_fundamental_div_mod(v2, m as int);
    vstd::arithmetic::div_mod::lemma_mod_bound(v1, m as int);
    vstd::arithmetic::div_mod::lemma_mod_bound(v2, m as int);
    let q1 = v1 / m;
    let q2 = v2 / m;
    assert(v1 - v2 == m * (q1 - q2)) by (nonlinear_arith)
        requires
            v1 == m * q1 + v1 % m,
            v2 == m * q2 + v2 % m,
            v1 % m == v2 % m,
    ;
    assert(-m < v1 - v2 < m);
    assert(q1 - q2 == 0) by (nonlinear_arith)
        requires
            v1 - v2 == m * (q1 - q2),
            -m < v1 - v2 < m,
            m > 0,
    ;
}

/// A value of one grouping column, ready for key serialization: a
/// fixed-width bit pattern, or a variable-width byte string.
#[derive(Debug)]
pub enum GroupKeyCell {
    Fixed { width: usize, bits: u64 },
    Bytes { data: Vec<u8> },
}

/// Well-formedness of a cell: a legal width and bits that fit it.
pub open spec fn cell_wf(c: GroupKeyCell) -> bool {
    match c {
        GroupKeyCell::Fixed { width, bits } => (width == 1 || width == 2 || width == 4 || width
            == 8) && (bits as int) < pow2((8 * width) as nat),
        GroupKeyCell::Bytes { data } => data@.len() < pow2(64),
    }
}

/// Two cells of the same column have the same shape: equal fixed widths,
/// or both variable-width.
pub open spec fn cell_same_shape(a: GroupKeyCell, b: GroupKeyCell) -> bool {
    match a {
        GroupKeyCell::Fixed { width: wa, bits: _ } => match b {
            GroupKeyCell::Fixed { width: wb, bits: _ } => wa == wb,
            _ => false,
        },
        GroupKeyCell::Bytes { data: _ } => b is Bytes,
    }
}

/// Equality of cells by contents.
pub open spec fn cell_eq(a: GroupKeyCell, b: GroupKeyCell) -> bool {
    match a {
        GroupKeyCell::Fixed { width: wa, bits: ba } => match b {
            GroupKeyCell::Fixed { width: wb, bits: bb } => wa == wb && ba == bb,
            _ => false,
        },
        GroupKeyCell::Bytes { data: da } => match b {
            GroupKeyCell::Bytes { data: db } => da@ == db@,
            _ => false,
        },
    }
}

/// A value's big-endian bytes in a field of `w` bytes.
pub open spec fn be_bytes(w: int, bits: int) -> Seq<u8>
    decreases w,
{
    if w <= 0 {
        Seq::empty()
    } else {
        be_bytes(w - 1, bits / 0x100) + seq![(bits % 0x100) as u8]
    }
}

/// The serialized bytes of one cell: the bit pattern in its width for a
/// fixed cell, an eight-byte length followed by the bytes for a
/// variable-width cell.
pub open spec fn ser_cell(c: GroupKeyCell) -> Seq<u8> {
    match c {
        GroupKeyCell::Fixed { width, bits } => be_bytes(width as int, bits as int),
        GroupKeyCell::Bytes { data } => be_bytes(8, data@.len() as int) + data@,
    }
}

/// A row's serialized key: each column's serialization, concatenated in
/// column order.
pub open spec fn ser_row(cells: Seq<GroupKeyCell>) -> Seq<u8>
    decreases cells.len(),
{
    if cells.len() == 0 {
        Seq::empty()
    } else {
        ser_cell(cells.first()) + ser_row(cells.drop_first())
    }
}

proof fn lemma_be_bytes_len(w: int, bits: int)
    requires
        w >= 0,
    ensures
        be_bytes(w, bits).len() == w,
    decreases w,
{
    if w > 0 {
        lemma_be_bytes_len(w - 1, bits / 0x100);
    }
}

/// Big-endian encoding is injective on values that fit the width.
proof fn lemma_be_bytes_injective(w: int, b1: int, b2: int)
    requires
        w >= 0,
        0 <= b1 < pow2((8 * w) as nat),
        0 <= b2 < pow2((8 * w) as nat),
        be_bytes(w, b1) == be_bytes(w, b2),
    ensures
        b1 == b2,
    decreases w,
{
    if w == 0 {
        assert(pow2(0) == 1) by {
            vstd::arithmetic::power2::lemma2_to64();
        }
    } else {
        lemma_be_bytes_len(w - 1, b1 / 0x100);
        lemma_be_bytes_len(w - 1, b2 / 0x100);
        let s1 = be_bytes(w, b1);
        let s2 = be_bytes(w, b2);
        assert(s1.last() == ((b1 % 0x100) as u8));
        assert(s2.last() == ((b2 % 0x100) as u8));
        vstd::arithmetic::div_mod::lemma_mod_bound(b1, 0x100);
        vstd::arithmetic::div_mod::lemma_mod_bound(b2, 0x100);
        assert(b1 % 0x100 == b2 % 0x100);
        assert(s1.drop_last() =~= be_bytes(w - 1, b1 / 0x100));
        assert(s2.drop_last() =~= be_bytes(w - 1, b2 / 0x100));
        vstd::arithmetic::power2::lemma_pow2_adds((8 * (w - 1)) as nat, 8);
        assert(pow2(8) == 0x100) by {
            vstd::arithmetic::power2::lemma2_to64();
        }
        vstd::arithmetic::div_mod::lemma_fundamental_div_mod(b1, 0x100);
        vstd::arithmetic::div_mod::lemma_fundamental_div_mod(b2, 0x100);
        assert(b1 / 0x100 < pow2((8 * (w - 1)) as nat)) by (nonlinear_arith)
            requires
                b1 == 0x100 * (b1 / 0x100) + b1 % 0x100,
                0 <= b1 % 0x100 < 0x100,
                b1 < pow2((8 * (w - 1)) as nat) * 0x100,
                b1 / 0x100 >= 0,
        ;
        assert(b2 / 0x100 < pow2((8 * (w - 1)) as nat)) by (nonlinear_arith)
            requires
                b2 == 0x100 * (b2 / 0x100) + b2 % 0x100,
                0 <= b2 % 0x100 < 0x100,
                b2 < pow2((8 * (w - 1)) as nat) * 0x100,
                b2 / 0x100 >= 0,
        ;
        assert(b1 / 0x100 >= 0 && b2 / 0x100 >= 0);
        lemma_be_bytes_injective(w - 1, b1 / 0x100, b2 / 0x100);
    }
}

/// The serialized length of a cell.
proof fn lemma_ser_cell_len(c: GroupKeyCell)
    requires
        cell_wf(c),
    ensures
        match c {
            GroupKeyCell::Fixed { width, bits } => ser_cell(c).len() == width,
            GroupKeyCell::Bytes { data } => ser_cell(c).len() == 8 + data@.len(),
        },
{
    match c {
        GroupKeyCell::Fixed { width, bits } => {
            lemma_be_bytes_len(width as int, bits as int);
        },
        GroupKeyCell::Bytes { data } => {
            lemma_be_bytes_len(8, data@.len() as int);
        },
    }
}

/// Serialized keys separate rows: two same-shaped, well-formed rows with
/// equal serializations hold equal values in every column. In particular
/// distinct strings (of any lengths) serialize to distinct keys.
pub proof fn lemma_serialized_key_injective(c1: Seq<GroupKeyCell>, c2: Seq<GroupKeyCell>)
    requires
        c1.len() == c2.len(),
        forall|i: int| 0 <= i < c1.len() ==> cell_wf(#[trigger] c1[i]),
        forall|i: int| 0 <= i < c2.len() ==> cell_wf(#[trigger] c2[i]),
        forall|i: int| 0 <= i < c1.len() ==> cell_same_shape(#[trigger] c1[i], c2[i]),
        ser_row(c1) == ser_row(c2),
    ensures
        forall|i: int| 0 <= i < c1.len() ==> cell_eq(#[trigger] c1[i], c2[i]),
    decreases c1.len(),
{
    if c1.len() > 0 {
        let a = c1.first();
        let b = c2.first();
        let s1 = ser_row(c1);
        let s2 = ser_row(c2);
        lemma_ser_cell_len(a);
        lemma_ser_cell_len(b);
        assert(cell_same_shape(a, b));
        match a {
            GroupKeyCell::Fixed { width: wa, bits: ba } => {
                let wb = (match b {
                    GroupKeyCell::Fixed { width: w, bits: _ } => w,
                    GroupKeyCell::Bytes { data: _ } => 0,
                });
                let bb = (match b {
                    GroupKeyCell::Fixed { width: _, bits: x } => x,
                    GroupKeyCell::Bytes { data: _ } => 0,
                });
                assert(wa == wb);
                assert(s1.subrange(0, wa as int) =~= ser_cell(a));
                assert(s2.subrange(0, wa as int) =~= ser_cell(b));
                lemma_be_bytes_injective(wa as int, ba as int, bb as int);
                assert(cell_eq(a, b));
                assert(s1.subrange(wa as int, s1.len() as int) =~= ser_row(c1.drop_first()));
                assert(s2.subrange(wa as int, s2.len() as int) =~= ser_row(c2.drop_first()));
            },
            GroupKeyCell::Bytes { data: da } => {
                let db = (match b {
                    GroupKeyCell::Bytes { data: d } => d,
                    GroupKeyCell::Fixed { width: _, bits: _ } => da,
                });
                lemma_be_bytes_len(8, da@.len() as int);
                lemma_be_bytes_len(8, db@.len() as int);
                assert(s1.subrange(0, 8) =~= be_bytes(8, da@.len() as int));
                assert(s2.subrange(0, 8) =~= be_bytes(8, db@.len() as int));
                lemma_be_bytes_injective(8, da@.len() as int, db@.len() as int);
                assert(da@.len() == db@.len());
                let l = da@.len() as int;
                assert(s1.subrange(8, 8 + l) =~= da@);
                assert(s2.subrange(8, 8 + l) =~= db@);
                assert(cell_eq(a, b));
                assert(s1.subrange(8 + l, s1.len() as int) =~= ser_row(c1.drop_first()));
                assert(s2.subrange(8 + l, s2.len() as int) =~= ser_row(c2.drop_first()));
            },
        }
        assert forall|i: int| 0 <= i < c1.drop_first().len() implies cell_wf(
            #[trigger] c1.drop_first()[i],
        ) && cell_wf(c2.drop_first()[i]) && cell_same_shape(
            c1.drop_first()[i],
            c2.drop_first()[i],
        ) by {
            assert(c1.drop_first()[i] == c1[i + 1]);
            assert(c2.drop_first()[i] == c2[i + 1]);
            assert(cell_wf(c1[i + 1]));
            assert(cell_wf(c2[i + 1]));
            assert(cell_same_shape(c1[i + 1], c2[i + 1]));
        }
        lemma_serialized_key_injective(c1.drop_first(), c2.drop_first());
        assert forall|i: int| 0 <= i < c1.len() implies cell_eq(#[trigger] c1[i], c2[i]) by {
            if i > 0 {
                assert(cell_eq(c1.drop_first()[i - 1], c2.drop_first()[i - 1]));
                assert(c1.drop_first()[i - 1] == c1[i]);
                assert(c2.drop_first()[i - 1] == c2[i]);
            }
        }
    }
}

/// The big-endian bytes of a value in a `w`-byte field.
fn be_bytes_exec(w: usize, bits: u64) -> (out: Vec<u8>)
    ensures
        out@ == be_bytes(w as int, bits as int),
    decreases w,
{
    if w == 0 {
        let out: Vec<u8> = Vec::new();
        proof {
            assert(out@ =~= be_bytes(0, bits as int));
        }
        out
    } else {
        let mut out = be_bytes_exec(w - 1, bits / 0x100);
        out.push((bits % 0x100) as u8);
        proof {
            assert(out@ =~= be_bytes(w as int, bits as int));
        }
        out
    }
}

/// Serializes a row of grouping values into one variable-length byte key.
/// Two rows with identical values always serialize identically, since the
/// key is a function of the cells alone.
pub fn serialize_group_key(cells: &Vec<GroupKeyCell>) -> (out: Vec<u8>)
    ensures
        out@ == ser_row(cells@),
{
    let n = cells.len();
    let mut out: Vec<u8> = Vec::new();
    let mut i: usize = 0;
    while i < n
        invariant
            n == cells@.len(),
            i <= n,
            out@ == ser_row(cells@.take(i as int)),
        decreases n - i,
    {
        let mut piece: Vec<u8> = match &cells[i] {
            GroupKeyCell::Fixed { width, bits } => be_bytes_exec(*width, *bits),
            GroupKeyCell::Bytes { data } => {
                let mut p = be_bytes_exec(8, data.len() as u64);
                let m = data.len();
                let mut k: usize = 0;
                while k < m
                    invariant
                        m == data@.len(),
                        k <= m,
                        p@ == be_bytes(8, data@.len() as int) + data@.take(k as int),
                    decreases m - k,
                {
                    p.push(data[k]);
                    proof {
                        assert(p@ =~= be_bytes(8, data@.len() as int) + data@.take(k as int + 1));
                    }
                    k += 1;
                }
                proof {
                    assert(data@.take(m as int) =~= data@);
                }
                p
            },
        };
        proof {
            assert(piece@ == ser_cell(cells@[i as int]));
        }
        out.append(&mut piece);
        proof {
            lemma_ser_row_snoc(cells@.take(i as int), cells@[i as int]);
            assert(cells@.take(i as int).push(cells@[i as int]) =~= cells@.take(i as int + 1));
        }
        i += 1;
    }
    proof {
        assert(cells@.take(n as int) =~= cells@);
    }
    out
}

/// Appending a cell to a row appends its serialization.
proof fn lemma_ser_row_snoc(cells: Seq<GroupKeyCell>, c: GroupKeyCell)
    ensures
        ser_row(cells.push(c)) == ser_row(cells) + ser_cell(c),
    decreases cells.len(),
{
    if cells.len() == 0 {
        assert(cells =~= Seq::<GroupKeyCell>::empty());
        assert(cells.push(c).drop_first() =~= cells);
        assert(cells.push(c).first() == c);
        assert(ser_row(cells) =~= Seq::<u8>::empty());
        assert(ser_row(cells.push(c)) =~= ser_row(cells) + ser_cell(c));
    } else {
        assert(cells.push(c).first() == cells.first());
        assert(cells.push(c).drop_first() =~= cells.drop_first().push(c));
        lemma_ser_row_snoc(cells.drop_first(), c);
        assert(ser_row(cells.push(c)) =~= ser_row(cells) + ser_cell(c));
    }
}

/// A bump allocator: many byte runs are carved from one buffer and freed
/// together when the whole state is dropped.
pub struct Arena {
    pub buf: Vec<u8>,
}

impl Arena {
    pub fn new() -> (r: Arena)
        ensures
            r.buf@.len() == 0,
    {
        Arena { buf: Vec::new() }
    }

    /// Copies a byte run into the arena, returning its offset and length;
    /// existing runs are never moved or freed.
    pub fn allocate(&mut self, bytes: &Vec<u8>) -> (r: (usize, usize))
        requires
            old(self).buf@.len() + bytes@.len() <= usize::MAX,
        ensures
            final (self).buf@ == old(self).buf@ + bytes@,
            r.0 == old(self).buf@.len(),
            r.1 == bytes@.len(),
    {
        let offset = self.buf.len();
        let n = bytes.len();
        let mut k: usize = 0;
        while k < n
            invariant
                n == bytes@.len(),
                k <= n,
                self.buf@ == old(self).buf@ + bytes@.take(k as int),
            decreases n - k,
        {
            self.buf.push(bytes[k]);
            proof {
                assert(self.buf@ =~= old(self).buf@ + bytes@.take(k as int + 1));
            }
            k += 1;
        }
        proof {
            assert(old(self).buf@ + bytes@.take(n as int) =~= old(self).buf@ + bytes@);
        }
        (offset, n)
    }
}


/// The dense-table state for narrow fixed keys: every possible key value
/// owns a table slot, so lookup is direct addressing.
pub struct ShortFixedKeysAggregatorState {
    pub capacity: usize,
    pub table: Vec<Option<usize>>,
    pub groups: Vec<u64>,
}

impl ShortFixedKeysAggregatorState {
    /// The interned keys, in first-arrival order.
    pub open spec fn spec_groups(&self) -> Seq<u64> {
        self.groups@
    }

    pub open spec fn wf(&self) -> bool {
        &&& self.table@.len() == self.capacity
        &&& forall|k: int|
            0 <= k < self.table@.len() ==> ((#[trigger] self.table@[k]) matches Some(i) ==> i
                < self.groups@.len() && self.groups@[i as int] == k)
        &&& forall|i: int|
            0 <= i < self.groups@.len() ==> (#[trigger] self.groups@[i]) < self.capacity
                && self.table@[self.groups@[i] as int] == Some(i as usize)
    }

    pub fn create(max_size: usize) -> (r: ShortFixedKeysAggregatorState)
        ensures
            r.wf(),
            r.capacity == max_size,
            r.spec_groups().len() == 0,
    {
        let mut table: Vec<Option<usize>> = Vec::new();
        let mut k: usize = 0;
        while k < max_size
            invariant
                k <= max_size,
                table@.len() == k,
                forall|t: int| 0 <= t < k ==> (#[trigger] table@[t]) is None,
            decreases max_size - k,
        {
            table.push(Option::None);
            k += 1;
        }
        ShortFixedKeysAggregatorState { capacity: max_size, table, groups: Vec::new() }
    }

    /// Looks up or interns a key and returns its state slot: an existing
    /// key keeps its slot whatever the arrival order, a new key takes the
    /// next slot.
    pub fn entity(&mut self, key: u64) -> (slot: usize)
        requires
            old(self).wf(),
            key < old(self).capacity,
            old(self).spec_groups().len() < usize::MAX,
        ensures
            final (self).wf(),
            final (self).capacity == old(self).capacity,
            old(self).spec_groups().contains(key) ==> final (self).spec_groups() == old(self).spec_groups() && slot < final (self).spec_groups().len() && final (self).spec_groups()[slot as int] == key,
            !old(self).spec_groups().contains(key) ==> final (self).spec_groups() == old(self).spec_groups().push(key) && slot == old(self).spec_groups().len(),
    {
        let k = key as usize;
        match self.table[k] {
            Option::Some(i) => {
                proof {
                    assert(old(self).spec_groups()[i as int] == key);
                    assert(old(self).spec_groups().contains(key));
                }
                i
            },
            Option::None => {
                proof {
                    if old(self).spec_groups().contains(key) {
                        let i = choose|i: int|
                            0 <= i < old(self).spec_groups().len() && old(self).spec_groups()[i]
                                == key;
                        assert(old(self).table@[key as int] == Some(i as usize));
                        assert(false);
                    }
                }
                let slot = self.groups.len();
                self.groups.push(key);
                self.table.set(k, Option::Some(slot));
                slot
            },
        }
    }
}

/// The scan-table state for machine-word fixed keys: keys are compared by
/// value against the interned list.
pub struct LongerFixedKeysAggregatorState {
    pub area: Arena,
    pub groups: Vec<u64>,
}

impl LongerFixedKeysAggregatorState {
    /// The interned keys, in first-arrival order.
    pub open spec fn spec_groups(&self) -> Seq<u64> {
        self.groups@
    }

    /// No key is interned twice.
    pub open spec fn wf(&self) -> bool {
        forall|i: int, j: int|
            0 <= i < j < self.groups@.len() ==> (#[trigger] self.groups@[i]) != (
            #[trigger] self.groups@[j])
    }

    pub fn create() -> (r: LongerFixedKeysAggregatorState)
        ensures
            r.wf(),
            r.spec_groups().len() == 0,
    {
        LongerFixedKeysAggregatorState { area: Arena::new(), groups: Vec::new() }
    }

    /// Looks up or interns a key and returns its state slot.
    pub fn entity(&mut self, key: u64) -> (slot: usize)
        requires
            old(self).wf(),
            old(self).spec_groups().len() < usize::MAX,
        ensures
            final (self).wf(),
            old(self).spec_groups().contains(key) ==> final (self).spec_groups() == old(self).spec_groups() && slot < final (self).spec_groups().len() && final (self).spec_groups()[slot as int] == key,
            !old(self).spec_groups().contains(key) ==> final (self).spec_groups() == old(self).spec_groups().push(key) && slot == old(self).spec_groups().len(),
    {
        let n = self.groups.len();
        let mut i: usize = 0;
        while i < n
            invariant
                old(self).wf(),
                self.groups@ == old(self).groups@,
                self.area == old(self).area,
                n == self.groups@.len(),
                i <= n,
                forall|t: int| 0 <= t < i ==> (#[trigger] self.groups@[t]) != key,
            decreases n - i,
        {
            if self.groups[i] == key {
                proof {
                    assert(self.wf());
                    assert(self.spec_groups().contains(key));
                }
                return i;
            }
            i += 1;
        }
        proof {
            if old(self).spec_groups().contains(key) {
                let t = choose|t: int|
                    0 <= t < old(self).spec_groups().len() && old(self).spec_groups()[t] == key;
                assert(false);
            }
        }
        let slot = self.groups.len();
        self.groups.push(key);
        proof {
            assert forall|a: int, b: int|
                0 <= a < b < self.groups@.len() implies (#[trigger] self.groups@[a]) != (
            #[trigger] self.groups@[b]) by {
                if b == self.groups@.len() - 1 {
                    assert(self.groups@[a] == old(self).spec_groups()[a]);
                } else {
                    assert(self.groups@[a] == old(self).spec_groups()[a]);
                    assert(self.groups@[b] == old(self).spec_groups()[b]);
                }
            }
            assert(self.wf());
        }
        slot
    }
}

/// The serialized-key state: key bytes live in an arena, the table maps
/// each interned run to its state slot.
pub struct SerializedKeysAggregatorState {
    pub keys_area: Arena,
    pub state_area: Arena,
    pub keys: Vec<(usize, usize)>,
}

impl SerializedKeysAggregatorState {
    /// The interned keys, in first-arrival order, read out of the arena.
    pub open spec fn spec_groups(&self) -> Seq<Seq<u8>> {
        let buf = self.keys_area.buf@;
        self.keys@.map_values(|e: (usize, usize)| buf.subrange(e.0 as int, e.0 + e.1))
    }

    /// Every interned run lies inside the arena.
    pub open spec fn wf(&self) -> bool {
        forall|i: int|
            0 <= i < self.keys@.len() ==> (#[trigger] self.keys@[i]).0 + self.keys@[i].1
                <= self.keys_area.buf@.len()
    }

    pub fn create() -> (r: SerializedKeysAggregatorState)
        ensures
            r.wf(),
            r.spec_groups().len() == 0,
    {
        SerializedKeysAggregatorState {
            keys_area: Arena::new(),
            state_area: Arena::new(),
            keys: Vec::new(),
        }
    }

    /// Looks up or interns a serialized key and returns its state slot:
    /// rows with identical key bytes always reach the same slot.
    pub fn entity_by_bytes(&mut self, key: &Vec<u8>) -> (slot: usize)
        requires
            old(self).wf(),
            old(self).spec_groups().len() < usize::MAX,
            old(self).keys_area.buf@.len() + key@.len() <= usize::MAX,
        ensures
            final (self).wf(),
            old(self).spec_groups().contains(key@) ==> final (self).spec_groups() == old(self).spec_groups() && slot < final (self).spec_groups().len() && final (self).spec_groups()[slot as int] == key@,
            !old(self).spec_groups().contains(key@) ==> final (self).spec_groups() =~= old(self).spec_groups().push(key@) && slot == old(self).spec_groups().len(),
    {
        let n = self.keys.len();
        let mut i: usize = 0;
        while i < n
            invariant
                self.wf(),
                self == old(self),
                n == self.keys@.len(),
                i <= n,
                forall|t: int| 0 <= t < i ==> (#[trigger] self.spec_groups()[t]) != key@,
            decreases n - i,
        {
            let (off, len) = self.keys[i];
            if arena_run_matches(&self.keys_area.buf, off, len, key) {
                proof {
                    assert(self.spec_groups()[i as int] == self.keys_area.buf@.subrange(
                        off as int,
                        off + len,
                    ));
                }
                return i;
            }
            proof {
                assert(self.spec_groups()[i as int] == self.keys_area.buf@.subrange(
                    off as int,
                    off + len,
                ));
            }
            i += 1;
        }
        proof {
            if old(self).spec_groups().contains(key@) {
                let t = choose|t: int|
                    0 <= t < old(self).spec_groups().len() && old(self).spec_groups()[t] == key@;
                assert(false);
            }
        }
        let slot = self.keys.len();
        let (off, len) = self.keys_area.allocate(key);
        self.keys.push((off, len));
        proof {
            let oldbuf = old(self).keys_area.buf@;
            let newbuf = self.keys_area.buf@;
            assert(newbuf.subrange(off as int, off + len) =~= key@);
            assert forall|t: int| 0 <= t < old(self).keys@.len() implies #[trigger] self.spec_groups()[t]
                == old(self).spec_groups()[t] by {
                let e = old(self).keys@[t];
                assert(self.keys@[t] == e);
                assert(newbuf.subrange(e.0 as int, e.0 + e.1) =~= oldbuf.subrange(
                    e.0 as int,
                    e.0 + e.1,
                ));
            }
            assert(self.spec_groups() =~= old(self).spec_groups().push(key@));
        }
        slot
    }
}

/// Whether the arena run at `[off, off+len)` equals the probed key.
fn arena_run_matches(buf: &Vec<u8>, off: usize, len: usize, key: &Vec<u8>) -> (r: bool)
    requires
        off + len <= buf@.len(),
    ensures
        r == (buf@.subrange(off as int, off + len) == key@),
{
    let total = buf.len();
    if len != key.len() {
        proof {
            assert(buf@.subrange(off as int, off + len).len() == len);
        }
        return false;
    }
    let mut t: usize = 0;
    while t < len
        invariant
            off + len <= buf@.len(),
            buf@.len() <= usize::MAX,
            len == key@.len(),
            t <= len,
            forall|u: int| 0 <= u < t ==> #[trigger] buf@[off + u] == key@[u],
        decreases len - t,
    {
        if buf[off + t] != key[t] {
            proof {
                assert(buf@.subrange(off as int, off + len)[t as int] == buf@[off + t]);
            }
            return false;
        }
        t += 1;
    }
    proof {
        assert forall|u: int| 0 <= u < len implies buf@.subrange(off as int, off + len)[u]
            == key@[u] by {
            assert(buf@[off + u] == key@[u]);
        }
        assert(buf@.subrange(off as int, off + len) =~= key@);
    }
    true
}

/// Builds the output grouping-keys column for a fixed-key method.
pub struct FixedKeysColumnBuilder {
    pub ty: crate::type_id::TypeID,
    pub inner_builder: Vec<i128>,
}

impl FixedKeysColumnBuilder {
    pub fn with_capacity(ty: crate::type_id::TypeID, _capacity: usize) -> (r:
        FixedKeysColumnBuilder)
        requires
            ty.spec_is_integer_backed(),
        ensures
            r.ty == ty,
            r.inner_builder@.len() == 0,
    {
        FixedKeysColumnBuilder { ty, inner_builder: Vec::new() }
    }

    pub fn append(&mut self, key: u64)
        requires
            old(self).ty.in_range(key as int),
        ensures
            final (self).ty == old(self).ty,
            final (self).inner_builder@ == old(self).inner_builder@.push(key as i128),
    {
        self.inner_builder.push(key as i128);
    }

    /// The finished keys column: one cell per appended key, in order.
    pub fn finish(self) -> (r: crate::column::Column)
        requires
            self.ty.spec_is_integer_backed(),
            forall|i: int|
                0 <= i < self.inner_builder@.len() ==> self.ty.in_range(
                    #[trigger] self.inner_builder@[i] as int,
                ),
        ensures
            r.wf(),
            r.spec_shape() == crate::column::Shape::SInt(self.ty),
            r.values() == self.inner_builder@.map_values(
                |v: i128| crate::column::Val::Int(v as int),
            ),
    {
        crate::column::Column::Ints { ty: self.ty, data: self.inner_builder }
    }
}

/// Builds the output grouping-keys list for the serialized method.
pub struct SerializedKeysColumnBuilder {
    pub inner_builder: Vec<Vec<u8>>,
}

impl SerializedKeysColumnBuilder {
    pub fn with_capacity(_capacity: usize) -> (r: SerializedKeysColumnBuilder)
        ensures
            r.inner_builder@.len() == 0,
    {
        SerializedKeysColumnBuilder { inner_builder: Vec::new() }
    }

    pub fn append(&mut self, key: Vec<u8>)
        ensures
            final (self).inner_builder@ == old(self).inner_builder@.push(key),
    {
        self.inner_builder.push(key);
    }

    /// The finished serialized keys, in group order.
    pub fn finish(self) -> (r: Vec<Vec<u8>>)
        ensures
            r == self.inner_builder,
    {
        self.inner_builder
    }
}

pub struct HashMethodKeysU8;

pub struct HashMethodKeysU16;

pub struct HashMethodKeysU32;

pub struct HashMethodKeysU64;

pub struct HashMethodSerializer;

/// What a hash method supplies to the aggregation engine: its state kind
/// and its output keys-column builder kind.
pub trait PolymorphicKeysHelper<Method> {
    type State;

    type ColumnBuilder;

    /// What a freshly created state must satisfy: well-formed, empty, and
    /// sized for this method's key space.
    spec fn state_ok(&self, s: &Self::State) -> bool;

    /// What a freshly created keys-column builder must satisfy: empty and
    /// producing this method's key type.
    spec fn builder_ok(&self, b: &Self::ColumnBuilder) -> bool;

    fn aggregate_state(&self) -> (r: Self::State)
        ensures
            self.state_ok(&r),
    ;

    fn state_array_builder(&self, capacity: usize) -> (r: Self::ColumnBuilder)
        ensures
            self.builder_ok(&r),
    ;
}

impl PolymorphicKeysHelper<HashMethodKeysU8> for HashMethodKeysU8 {
    type State = ShortFixedKeysAggregatorState;

    type ColumnBuilder = FixedKeysColumnBuilder;

    open spec fn state_ok(&self, s: &ShortFixedKeysAggregatorState) -> bool {
        s.wf() && s.spec_groups().len() == 0 && s.capacity == 0x100
    }

    open spec fn builder_ok(&self, b: &FixedKeysColumnBuilder) -> bool {
        b.ty == TypeID::UInt8 && b.inner_builder@.len() == 0
    }

    fn aggregate_state(&self) -> (r: Self::State) {
        ShortFixedKeysAggregatorState::create(0x100)
    }

    fn state_array_builder(&self, capacity: usize) -> (r: Self::ColumnBuilder) {
        FixedKeysColumnBuilder::with_capacity(TypeID::UInt8, capacity)
    }
}

impl PolymorphicKeysHelper<HashMethodKeysU16> for HashMethodKeysU16 {
    type State = ShortFixedKeysAggregatorState;

    type ColumnBuilder = FixedKeysColumnBuilder;

    open spec fn state_ok(&self, s: &ShortFixedKeysAggregatorState) -> bool {
        s.wf() && s.spec_groups().len() == 0 && s.capacity == 0x1_0000
    }

    open spec fn builder_ok(&self, b: &FixedKeysColumnBuilder) -> bool {
        b.ty == TypeID::UInt16 && b.inner_builder@.len() == 0
    }

    fn aggregate_state(&self) -> (r: Self::State) {
        ShortFixedKeysAggregatorState::create(0x1_0000)
    }

    fn state_array_builder(&self, capacity: usize) -> (r: Self::ColumnBuilder) {
        FixedKeysColumnBuilder::with_capacity(TypeID::UInt16, capacity)
    }
}

impl PolymorphicKeysHelper<HashMethodKeysU32> for HashMethodKeysU32 {
    type State = LongerFixedKeysAggregatorState;

    type ColumnBuilder = FixedKeysColumnBuilder;

    open spec fn state_ok(&self, s: &LongerFixedKeysAggregatorState) -> bool {
        s.wf() && s.spec_groups().len() == 0
    }

    open spec fn builder_ok(&self, b: &FixedKeysColumnBuilder) -> bool {
        b.ty == TypeID::UInt32 && b.inner_builder@.len() == 0
    }

    fn aggregate_state(&self) -> (r: Self::State) {
        LongerFixedKeysAggregatorState::create()
    }

    fn state_array_builder(&self, capacity: usize) -> (r: Self::ColumnBuilder) {
        FixedKeysColumnBuilder::with_capacity(TypeID::UInt32, capacity)
    }
}

impl PolymorphicKeysHelper<HashMethodKeysU64> for HashMethodKeysU64 {
    type State = LongerFixedKeysAggregatorState;

    type ColumnBuilder = FixedKeysColumnBuilder;

    open spec fn state_ok(&self, s: &LongerFixedKeysAggregatorState) -> bool {
        s.wf() && s.spec_groups().len() == 0
    }

    open spec fn builder_ok(&self, b: &FixedKeysColumnBuilder) -> bool {
        b.ty == TypeID::UInt64 && b.inner_builder@.len() == 0
    }

    fn aggregate_state(&self) -> (r: Self::State) {
        LongerFixedKeysAggregatorState::create()
    }

    fn state_array_builder(&self, capacity: usize) -> (r: Self::ColumnBuilder) {
        FixedKeysColumnBuilder::with_capacity(TypeID::UInt64, capacity)
    }
}

impl PolymorphicKeysHelper<HashMethodSerializer> for HashMethodSerializer {
    type State = SerializedKeysAggregatorState;

    type ColumnBuilder = SerializedKeysColumnBuilder;

    open spec fn state_ok(&self, s: &SerializedKeysAggregatorState) -> bool {
        s.wf() && s.spec_groups().len() == 0
    }

    open spec fn builder_ok(&self, b: &SerializedKeysColumnBuilder) -> bool {
        b.inner_builder@.len() == 0
    }

    fn aggregate_state(&self) -> (r: Self::State) {
        SerializedKeysAggregatorState::create()
    }

    fn state_array_builder(&self, capacity: usize) -> (r: Self::ColumnBuilder) {
        SerializedKeysColumnBuilder::with_capacity(capacity)
    }
}


} // verus!
