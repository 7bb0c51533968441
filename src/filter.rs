use vstd::prelude::*;
use vstd::string::*;
use vstd::multiset::Multiset;
use crate::types::{DiskInfo, SortBy, round_half_even, lemma_round_half_even_bounds};

verus! {

/// Lexicographic order on characters (the order of their UTF-8 bytes too).
pub open spec fn lex_le(a: Seq<char>, b: Seq<char>) -> bool
    decreases a.len(),
{
    if a.len() == 0 {
        true
    } else if b.len() == 0 {
        false
    } else if a[0] as u32 != b[0] as u32 {
        (a[0] as u32) < (b[0] as u32)
    } else {
        lex_le(a.drop_first(), b.drop_first())
    }
}

proof fn lemma_lex_total(a: Seq<char>, b: Seq<char>)
    ensures
        lex_le(a, b) || lex_le(b, a),
    decreases a.len(),
{
    if a.len() > 0 && b.len() > 0 && a[0] as u32 == b[0] as u32 {
        lemma_lex_total(a.drop_first(), b.drop_first());
    }
}

proof fn lemma_lex_trans(a: Seq<char>, b: Seq<char>, c: Seq<char>)
    requires
        lex_le(a, b),
        lex_le(b, c),
    ensures
        lex_le(a, c),
    decreases a.len(),
{
    if a.len() > 0 && b.len() > 0 && c.len() > 0 && a[0] as u32 == b[0] as u32 && b[0] as u32
        == c[0] as u32 {
        lemma_lex_trans(a.drop_first(), b.drop_first(), c.drop_first());
    }
}

/// `a` may stand before `b` in a list ordered by `by`: higher usage (as the
/// exact ratio of used space to capacity) first, larger capacity first, or the
/// lexicographically smaller mount path first.
pub open spec fn ordered(a: DiskInfo, b: DiskInfo, by: SortBy) -> bool {
    match by {
        SortBy::Usage => a.usage_num() * b.usage_den() >= b.usage_num() * a.usage_den(),
        SortBy::Size => a.total_space >= b.total_space,
        SortBy::MountPoint => lex_le(a.mount_point@, b.mount_point@),
    }
}

/// Every earlier record may stand before every later one.
pub open spec fn sorted_by(s: Seq<DiskInfo>, by: SortBy) -> bool {
    forall|i: int, j: int| 0 <= i < j < s.len() ==> ordered(#[trigger] s[i], #[trigger] s[j], by)
}

proof fn lemma_ordered_total(a: DiskInfo, b: DiskInfo, by: SortBy)
    ensures
        ordered(a, b, by) || ordered(b, a, by),
{
    if by == SortBy::MountPoint {
        lemma_lex_total(a.mount_point@, b.mount_point@);
    }
}

proof fn lemma_ordered_trans(a: DiskInfo, b: DiskInfo, c: DiskInfo, by: SortBy)
    requires
        ordered(a, b, by),
        ordered(b, c, by),
    ensures
        ordered(a, c, by),
{
    match by {
        SortBy::Usage => {
            let (au, ad) = (a.usage_num() as int, a.usage_den() as int);
            let (bu, bd) = (b.usage_num() as int, b.usage_den() as int);
            let (cu, cd) = (c.usage_num() as int, c.usage_den() as int);
            assert(au * cd >= cu * ad) by (nonlinear_arith)
                requires
                    au * bd >= bu * ad,
                    bu * cd >= cu * bd,
                    ad > 0,
                    bd > 0,
                    cd > 0,
                    au >= 0,
                    bu >= 0,
                    cu >= 0,
            {
                assert(au * bd * cd >= bu * ad * cd);
                assert(bu * cd * ad >= cu * bd * ad);
                assert((au * cd) * bd >= (cu * ad) * bd);
            }
        },
        SortBy::Size => {},
        SortBy::MountPoint => {
            lemma_lex_trans(a.mount_point@, b.mount_point@, c.mount_point@);
        },
    }
}

/// Compares two strings character by character.
fn text_le(a: &str, b: &str) -> (r: bool)
    ensures
        r == lex_le(a@, b@),
{
    let na = a.unicode_len();
    let nb = b.unicode_len();
    let mut i: usize = 0;
    assert(a@.skip(0) =~= a@);
    assert(b@.skip(0) =~= b@);
    while i < na && i < nb
        invariant
            na == a@.len(),
            nb == b@.len(),
            i <= na,
            i <= nb,
            lex_le(a@.skip(i as int), b@.skip(i as int)) == lex_le(a@, b@),
        decreases na - i,
    {
        let ca = a.get_char(i);
        let cb = b.get_char(i);
        if ca as u32 != cb as u32 {
            return (ca as u32) < (cb as u32);
        }
        assert(a@.skip(i as int).drop_first() =~= a@.skip(i + 1));
        assert(b@.skip(i as int).drop_first() =~= b@.skip(i + 1));
        i = i + 1;
    }
    i == na
}

/// Whether `a` may stand before `b` under `by`.
fn comes_before(a: &DiskInfo, b: &DiskInfo, by: SortBy) -> (r: bool)
    ensures
        r == ordered(*a, *b, by),
{
    match by {
        SortBy::Usage => {
            let ad: u128 = if a.total_space == 0 {
                1
            } else {
                a.total_space as u128
            };
            let bd: u128 = if b.total_space == 0 {
                1
            } else {
                b.total_space as u128
            };
            let au = a.used_space as u128;
            let bu = b.used_space as u128;
            assert(au * bd < 0x1_0000_0000_0000_0000_0000_0000_0000_0000) by (nonlinear_arith)
                requires
                    au < 0x1_0000_0000_0000_0000,
                    bd < 0x1_0000_0000_0000_0000,
            ;
            assert(bu * ad < 0x1_0000_0000_0000_0000_0000_0000_0000_0000) by (nonlinear_arith)
                requires
                    bu < 0x1_0000_0000_0000_0000,
                    ad < 0x1_0000_0000_0000_0000,
            ;
            au * bd >= bu * ad
        },
        SortBy::Size => a.total_space >= b.total_space,
        SortBy::MountPoint => text_le(a.mount_point.as_str(), b.mount_point.as_str()),
    }
}

/// Index of a record in `rest` that may stand before all the others.
fn first_under(rest: &Vec<DiskInfo>, by: SortBy) -> (r: usize)
    requires
        rest@.len() > 0,
    ensures
        r < rest@.len(),
        forall|j: int| 0 <= j < rest@.len() ==> ordered(rest@[r as int], #[trigger] rest@[j], by),
{
    let mut best: usize = 0;
    let mut k: usize = 1;
    proof {
        lemma_ordered_total(rest@[0], rest@[0], by);
    }
    while k < rest.len()
        invariant
            best < k <= rest@.len(),
            forall|j: int| 0 <= j < k ==> ordered(rest@[best as int], #[trigger] rest@[j], by),
        decreases rest@.len() - k,
    {
        if !comes_before(&rest[best], &rest[k], by) {
            proof {
                lemma_ordered_total(rest@[best as int], rest@[k as int], by);
                lemma_ordered_total(rest@[k as int], rest@[k as int], by);
                assert forall|j: int| 0 <= j <= k implies ordered(
                    rest@[k as int],
                    #[trigger] rest@[j],
                    by,
                ) by {
                    if j < k {
                        lemma_ordered_trans(rest@[k as int], rest@[best as int], rest@[j], by);
                    }
                }
            }
            best = k;
        }
        k = k + 1;
    }
    best
}

/// Orders `disks` by `sort_by`: by usage or by size, largest first; by mount
/// path, ascending. The records themselves are kept, each once.
pub fn sort_disks(disks: &mut Vec<DiskInfo>, sort_by: SortBy)
    ensures
        final(disks)@.len() == old(disks)@.len(),
        final(disks)@.to_multiset() == old(disks)@.to_multiset(),
        sorted_by(final(disks)@, sort_by),
{
    broadcast use vstd::multiset::group_multiset_axioms, vstd::seq_lib::group_to_multiset_ensures;

    let mut rest: Vec<DiskInfo> = Vec::new();
    rest.append(disks);
    assert(rest@ =~= old(disks)@);
    while rest.len() > 0
        invariant
            disks@.to_multiset().add(rest@.to_multiset()) == old(disks)@.to_multiset(),
            sorted_by(disks@, sort_by),
            forall|i: int, j: int|
                0 <= i < disks@.len() && 0 <= j < rest@.len() ==> ordered(
                    #[trigger] disks@[i],
                    #[trigger] rest@[j],
                    sort_by,
                ),
        decreases rest@.len(),
    {
        let k = first_under(&rest, sort_by);
        let ghost before_rest = rest@;
        let ghost before_disks = disks@;
        let x = rest.remove(k);
        disks.push(x);
        proof {
            assert(before_rest[k as int] == x);
            assert(before_rest.contains(x));
            vstd::seq_lib::to_multiset_contains(before_rest, x);
            vstd::seq_lib::to_multiset_remove(before_rest, k as int);
            vstd::seq_lib::to_multiset_build(before_disks, x);
            assert(before_rest.to_multiset().count(x) > 0);
            assert(rest@ == before_rest.remove(k as int));
            assert(before_rest.remove(k as int).to_multiset() == before_rest.to_multiset().remove(x));
            assert(disks@ == before_disks.push(x));
            assert(disks@.to_multiset() =~= before_disks.to_multiset().insert(x));
            assert(disks@.to_multiset().add(rest@.to_multiset()) =~= old(disks)@.to_multiset());
            assert forall|i: int, j: int| 0 <= i < j < disks@.len() implies ordered(
                #[trigger] disks@[i],
                #[trigger] disks@[j],
                sort_by,
            ) by {
                if j == disks@.len() - 1 {
                    assert(before_rest[k as int] == x);
                    assert(ordered(before_disks[i], before_rest[k as int], sort_by));
                } else {
                    assert(ordered(before_disks[i], before_disks[j], sort_by));
                }
            }
            assert forall|i: int, j: int|
                0 <= i < disks@.len() && 0 <= j < rest@.len() implies ordered(
                #[trigger] disks@[i],
                #[trigger] rest@[j],
                sort_by,
            ) by {
                let jj = if j < k {
                    j
                } else {
                    j + 1
                };
                assert(rest@[j] == before_rest[jj]);
                if i == disks@.len() - 1 {
                    assert(ordered(before_rest[k as int], before_rest[jj], sort_by));
                } else {
                    assert(ordered(before_disks[i], before_rest[jj], sort_by));
                }
            }
        }
    }
    assert(rest@.to_multiset() =~= Multiset::empty());
    assert(disks@.to_multiset() =~= old(disks)@.to_multiset());
    assert(disks@.len() == disks@.to_multiset().len());
    assert(old(disks)@.len() == old(disks)@.to_multiset().len());
}


/// A list ordered by usage shows non-increasing usage percentages: the exact
/// ratios, and the rounded figures of well-formed records.
pub proof fn lemma_usage_order_nonincreasing(s: Seq<DiskInfo>)
    requires
        sorted_by(s, SortBy::Usage),
        forall|i: int| 0 <= i < s.len() ==> (#[trigger] s[i]).wf(),
    ensures
        forall|i: int, j: int|
            0 <= i < j < s.len() ==> (#[trigger] s[i]).usage_num() * (#[trigger] s[j]).usage_den()
                >= s[j].usage_num() * s[i].usage_den() && s[i].usage_tenths >= s[j].usage_tenths,
{
    assert forall|i: int, j: int| 0 <= i < j < s.len() implies (#[trigger] s[i]).usage_num() * (
    #[trigger] s[j]).usage_den() >= s[j].usage_num() * s[i].usage_den() && s[i].usage_tenths
        >= s[j].usage_tenths by {
        assert(ordered(s[i], s[j], SortBy::Usage));
        lemma_tenths_monotone(s[i], s[j]);
    }
}

proof fn lemma_tenths_by_den(d: DiskInfo)
    requires
        d.wf(),
    ensures
        d.usage_tenths as int == round_half_even(1000 * d.usage_num(), d.usage_den()),
{
    if d.total_space == 0 {
        assert(d.usage_num() == 0);
        vstd::arithmetic::div_mod::lemma_fundamental_div_mod_converse(0, 1, 0, 0);
    }
}

/// The rounded usage follows the exact ratio.
proof fn lemma_tenths_monotone(a: DiskInfo, b: DiskInfo)
    requires
        a.wf(),
        b.wf(),
        a.usage_num() * b.usage_den() >= b.usage_num() * a.usage_den(),
    ensures
        a.usage_tenths >= b.usage_tenths,
{
    let (au, ad) = (a.usage_num() as int, a.usage_den() as int);
    let (bu, bd) = (b.usage_num() as int, b.usage_den() as int);
    lemma_tenths_by_den(a);
    lemma_tenths_by_den(b);
    lemma_round_half_even_bounds(1000 * a.usage_num(), a.usage_den());
    lemma_round_half_even_bounds(1000 * b.usage_num(), b.usage_den());
    let ka = a.usage_tenths as int;
    let kb = b.usage_tenths as int;
    let na = 1000 * au;
    let nb = 1000 * bu;
    if ka < kb {
        assert(na * bd >= nb * ad) by (nonlinear_arith)
            requires
                au * bd >= bu * ad,
                na == 1000 * au,
                nb == 1000 * bu,
        ;
        assert(2 * nb >= (2 * ka + 1) * bd) by (nonlinear_arith)
            requires
                2 * nb >= (2 * kb - 1) * bd,
                ka + 1 <= kb,
                bd > 0,
        ;
        assert(2 * na == (2 * ka + 1) * ad && 2 * nb == (2 * ka + 1) * bd) by (nonlinear_arith)
            requires
                2 * na <= (2 * ka + 1) * ad,
                2 * nb >= (2 * ka + 1) * bd,
                na * bd >= nb * ad,
                ad > 0,
                bd > 0,
        {
            assert(2 * na * bd <= (2 * ka + 1) * ad * bd);
            assert((2 * ka + 1) * bd * ad <= 2 * nb * ad);
            assert(2 * nb * ad <= 2 * na * bd);
        }
        assert(kb == ka + 1 && 2 * nb == (2 * kb - 1) * bd) by (nonlinear_arith)
            requires
                2 * nb == (2 * ka + 1) * bd,
                2 * nb >= (2 * kb - 1) * bd,
                ka + 1 <= kb,
                bd > 0,
        ;
    }
}

} // verus!
