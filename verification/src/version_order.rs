//! The order on version strings used to tell which of two versions is the
//! newer one: the runs of ASCII digits are compared as numbers, left to
//! right, with missing runs counting as zero; equal runs fall back to the
//! plain character order of the two strings.
use vstd::prelude::*;
use crate::text::{chars_of, digit_test, is_digit};

verus! {

/// The result of comparing two versions.
#[derive(Clone, Copy, Debug, PartialEq, Eq, Structural)]
pub enum VersionOrder {
    Less,
    Equal,
    Greater,
}

pub open spec fn order_sign(o: VersionOrder) -> int {
    match o {
        VersionOrder::Less => -1,
        VersionOrder::Equal => 0,
        VersionOrder::Greater => 1,
    }
}

pub open spec fn digit_value(c: char) -> nat {
    (c as u32 - '0' as u32) as nat
}

/// A run's value as a `u64`: `u64::MAX` when it does not fit.
pub open spec fn saturate(v: nat) -> nat {
    if v <= u64::MAX {
        v
    } else {
        u64::MAX as nat
    }
}

/// The digit runs of `s` that are already closed, and the value of the run
/// still open at its end, if any.
pub open spec fn scan_runs(s: Seq<char>) -> (Seq<nat>, Option<nat>)
    decreases s.len(),
{
    if s.len() == 0 {
        (Seq::<nat>::empty(), None)
    } else {
        let (done, cur) = scan_runs(s.drop_last());
        let c = s.last();
        if is_digit(c) {
            (
                done,
                Some(
                    match cur {
                        Some(v) => v * 10 + digit_value(c),
                        None => digit_value(c),
                    },
                ),
            )
        } else {
            match cur {
                Some(v) => (done.push(saturate(v)), None),
                None => (done, None),
            }
        }
    }
}

/// The values of the maximal runs of ASCII digits in `s`, left to right.
pub open spec fn version_parts(s: Seq<char>) -> Seq<nat> {
    let (done, cur) = scan_runs(s);
    match cur {
        Some(v) => done.push(saturate(v)),
        None => done,
    }
}

pub open spec fn part_at(a: Seq<nat>, i: int) -> nat {
    if 0 <= i < a.len() {
        a[i]
    } else {
        0
    }
}

/// Lexicographic comparison of `a[i..]` and `b[i..]`, the shorter padded with zeros.
pub open spec fn parts_order_from(a: Seq<nat>, b: Seq<nat>, i: int) -> int
    decreases a.len() + b.len() - i,
{
    if i < 0 || (i >= a.len() && i >= b.len()) {
        0
    } else if part_at(a, i) < part_at(b, i) {
        -1
    } else if part_at(a, i) > part_at(b, i) {
        1
    } else {
        parts_order_from(a, b, i + 1)
    }
}

/// The character order of two strings (a proper prefix comes first).
pub open spec fn chars_order(a: Seq<char>, b: Seq<char>) -> int
    decreases a.len(),
{
    if a.len() == 0 {
        if b.len() == 0 {
            0
        } else {
            -1
        }
    } else if b.len() == 0 {
        1
    } else if a[0] < b[0] {
        -1
    } else if a[0] > b[0] {
        1
    } else {
        chars_order(a.drop_first(), b.drop_first())
    }
}

/// The order of two versions: -1, 0 or 1.
pub open spec fn version_order(a: Seq<char>, b: Seq<char>) -> int {
    let c = parts_order_from(version_parts(a), version_parts(b), 0);
    if c != 0 {
        c
    } else {
        chars_order(a, b)
    }
}

// ---------------------------------------------------------------------------
// Executable comparison
// ---------------------------------------------------------------------------

/// The values of the digit runs of `version`, each saturating at `u64::MAX`.
pub fn numeric_version_parts(version: &str) -> (parts: Vec<u64>)
    ensures
        parts@.len() == version_parts(version@).len(),
        forall|i: int| 0 <= i < parts@.len() ==> parts@[i] as nat == #[trigger] version_parts(version@)[i],
{
    let s = chars_of(version);
    let mut parts: Vec<u64> = Vec::new();
    let mut in_run = false;
    let mut cur: u128 = 0;
    let ghost mut raw: nat = 0;
    let mut i: usize = 0;
    assert(s@.subrange(0, 0) =~= Seq::<char>::empty());
    while i < s.len()
        invariant
            i <= s.len(),
            s@ == version@,
            parts@.len() == scan_runs(s@.subrange(0, i as int)).0.len(),
            forall|k: int|
                0 <= k < parts@.len() ==> parts@[k] as nat == #[trigger] scan_runs(
                    s@.subrange(0, i as int),
                ).0[k],
            in_run == scan_runs(s@.subrange(0, i as int)).1 is Some,
            in_run ==> scan_runs(s@.subrange(0, i as int)).1 == Some(raw),
            cur == if raw > 0x1_0000_0000_0000_0000 {
                0x1_0000_0000_0000_0000
            } else {
                raw
            },
        decreases s.len() - i,
    {
        let ghost pre = s@.subrange(0, i as int);
        assert(s@.subrange(0, i + 1).drop_last() =~= pre);
        let c = s[i];
        if digit_test(c) {
            let d = (c as u32 - '0' as u32) as u128;
            let ghost old_raw: nat = if in_run {
                raw
            } else {
                0
            };
            if !in_run {
                cur = 0;
            }
            let next = cur * 10 + d;
            cur = if next > 0x1_0000_0000_0000_0000 {
                0x1_0000_0000_0000_0000
            } else {
                next
            };
            proof {
                raw = old_raw * 10 + digit_value(c);
            }
            in_run = true;
        } else {
            if in_run {
                let v: u64 = if cur > u64::MAX as u128 {
                    u64::MAX
                } else {
                    cur as u64
                };
                parts.push(v);
            }
            in_run = false;
            cur = 0;
            proof {
                raw = 0;
            }
        }
        i = i + 1;
    }
    assert(s@.subrange(0, s.len() as int) =~= s@);
    if in_run {
        let v: u64 = if cur > u64::MAX as u128 {
            u64::MAX
        } else {
            cur as u64
        };
        parts.push(v);
    }
    parts
}

pub open spec fn nat_parts(v: Seq<u64>) -> Seq<nat> {
    v.map_values(|x: u64| x as nat)
}

fn part_exec(parts: &Vec<u64>, i: usize) -> (v: u64)
    ensures
        v as nat == part_at(nat_parts(parts@), i as int),
{
    if i < parts.len() {
        parts[i]
    } else {
        0
    }
}

/// Compares two versions.
pub fn compare_versions(left: &str, right: &str) -> (r: VersionOrder)
    ensures
        order_sign(r) == version_order(left@, right@),
{
    let lp = numeric_version_parts(left);
    let rp = numeric_version_parts(right);
    let ghost a = version_parts(left@);
    let ghost b = version_parts(right@);
    assert(nat_parts(lp@) =~= a);
    assert(nat_parts(rp@) =~= b);
    let max_len = if lp.len() > rp.len() {
        lp.len()
    } else {
        rp.len()
    };
    let mut index: usize = 0;
    while index < max_len
        invariant
            index <= max_len,
            max_len == if a.len() > b.len() {
                a.len()
            } else {
                b.len()
            },
            a == nat_parts(lp@),
            b == nat_parts(rp@),
            a == version_parts(left@),
            b == version_parts(right@),
            parts_order_from(a, b, 0) == parts_order_from(a, b, index as int),
        decreases max_len - index,
    {
        let l = part_exec(&lp, index);
        let r = part_exec(&rp, index);
        proof {
            lemma_parts_order_unfold(a, b, index as int);
        }
        assert(l as nat == part_at(a, index as int));
        assert(r as nat == part_at(b, index as int));
        if l < r {
            assert(parts_order_from(a, b, 0) == -1);
            return VersionOrder::Less;
        }
        if l > r {
            assert(parts_order_from(a, b, 0) == 1);
            return VersionOrder::Greater;
        }
        index = index + 1;
    }
    let ls = chars_of(left);
    let rs = chars_of(right);
    compare_chars(&ls, &rs)
}

fn compare_chars(a: &Vec<char>, b: &Vec<char>) -> (r: VersionOrder)
    ensures
        order_sign(r) == chars_order(a@, b@),
{
    let mut i: usize = 0;
    assert(a@.skip(0) =~= a@);
    assert(b@.skip(0) =~= b@);
    while i < a.len() && i < b.len()
        invariant
            i <= a.len(),
            i <= b.len(),
            chars_order(a@, b@) == chars_order(a@.skip(i as int), b@.skip(i as int)),
        decreases a.len() - i,
    {
        assert(a@.skip(i as int)[0] == a@[i as int]);
        assert(b@.skip(i as int)[0] == b@[i as int]);
        if a[i] < b[i] {
            return VersionOrder::Less;
        }
        if a[i] > b[i] {
            return VersionOrder::Greater;
        }
        assert(a@.skip(i as int).drop_first() =~= a@.skip(i + 1));
        assert(b@.skip(i as int).drop_first() =~= b@.skip(i + 1));
        i = i + 1;
    }
    if i < a.len() {
        VersionOrder::Greater
    } else if i < b.len() {
        VersionOrder::Less
    } else {
        VersionOrder::Equal
    }
}

// ---------------------------------------------------------------------------
// The order is total
// ---------------------------------------------------------------------------

proof fn lemma_parts_order_unfold(a: Seq<nat>, b: Seq<nat>, i: int)
    requires
        i >= 0,
    ensures
        parts_order_from(a, b, i) == if part_at(a, i) < part_at(b, i) {
            -1
        } else if part_at(a, i) > part_at(b, i) {
            1
        } else {
            parts_order_from(a, b, i + 1)
        },
{
}

proof fn lemma_parts_order_antisym(a: Seq<nat>, b: Seq<nat>, i: int)
    ensures
        parts_order_from(a, b, i) == -parts_order_from(b, a, i),
    decreases a.len() + b.len() - i,
{
    if !(i < 0 || (i >= a.len() && i >= b.len())) {
        lemma_parts_order_antisym(a, b, i + 1);
    }
}

proof fn lemma_parts_order_range(a: Seq<nat>, b: Seq<nat>, i: int)
    ensures
        -1 <= parts_order_from(a, b, i) <= 1,
    decreases a.len() + b.len() - i,
{
    if !(i < 0 || (i >= a.len() && i >= b.len())) {
        lemma_parts_order_range(a, b, i + 1);
    }
}

proof fn lemma_parts_order_trans(a: Seq<nat>, b: Seq<nat>, c: Seq<nat>, i: int)
    requires
        i >= 0,
        parts_order_from(a, b, i) <= 0,
        parts_order_from(b, c, i) <= 0,
    ensures
        parts_order_from(a, c, i) <= 0,
        parts_order_from(a, c, i) == 0 ==> parts_order_from(a, b, i) == 0 && parts_order_from(b, c, i)
            == 0,
    decreases a.len() + b.len() + c.len() - i,
{
    lemma_parts_order_unfold(a, b, i);
    lemma_parts_order_unfold(b, c, i);
    lemma_parts_order_unfold(a, c, i);
    if i >= a.len() && i >= b.len() && i >= c.len() {
        assert(parts_order_from(a, c, i) == 0);
        assert(parts_order_from(a, b, i) == 0);
        assert(parts_order_from(b, c, i) == 0);
    } else if part_at(a, i) == part_at(b, i) && part_at(b, i) == part_at(c, i) {
        lemma_parts_order_trans(a, b, c, i + 1);
    }
}

proof fn lemma_chars_order_antisym(a: Seq<char>, b: Seq<char>)
    ensures
        chars_order(a, b) == -chars_order(b, a),
        -1 <= chars_order(a, b) <= 1,
        chars_order(a, b) == 0 <==> a == b,
    decreases a.len(),
{
    if a.len() > 0 && b.len() > 0 && a[0] == b[0] {
        lemma_chars_order_antisym(a.drop_first(), b.drop_first());
        if a.drop_first() == b.drop_first() {
            assert(a =~= seq![a[0]] + a.drop_first());
            assert(b =~= seq![b[0]] + b.drop_first());
        }
    }
    if a.len() == 0 && b.len() == 0 {
        assert(a =~= b);
    }
    if a == b && a.len() > 0 {
        assert(a.drop_first() == b.drop_first());
    }
}

proof fn lemma_chars_order_trans(a: Seq<char>, b: Seq<char>, c: Seq<char>)
    requires
        chars_order(a, b) < 0,
        chars_order(b, c) < 0,
    ensures
        chars_order(a, c) < 0,
    decreases a.len(),
{
    if a.len() > 0 && b.len() > 0 && c.len() > 0 && a[0] == b[0] && b[0] == c[0] {
        lemma_chars_order_trans(a.drop_first(), b.drop_first(), c.drop_first());
    }
}

/// Swapping the two versions reverses the comparison.
pub proof fn lemma_version_order_antisymmetric(a: Seq<char>, b: Seq<char>)
    ensures
        version_order(a, b) == -version_order(b, a),
        -1 <= version_order(a, b) <= 1,
{
    lemma_parts_order_antisym(version_parts(a), version_parts(b), 0);
    lemma_parts_order_range(version_parts(a), version_parts(b), 0);
    lemma_chars_order_antisym(a, b);
}

/// Two versions compare equal exactly when they are the same string.
pub proof fn lemma_version_order_equal(a: Seq<char>, b: Seq<char>)
    ensures
        version_order(a, b) == 0 <==> a == b,
{
    lemma_chars_order_antisym(a, b);
    if a == b {
        lemma_parts_order_antisym(version_parts(a), version_parts(b), 0);
    }
}

/// The order on versions is transitive.
pub proof fn lemma_version_order_transitive(a: Seq<char>, b: Seq<char>, c: Seq<char>)
    requires
        version_order(a, b) < 0,
        version_order(b, c) < 0,
    ensures
        version_order(a, c) < 0,
{
    let pa = version_parts(a);
    let pb = version_parts(b);
    let pc = version_parts(c);
    lemma_parts_order_range(pa, pb, 0);
    lemma_parts_order_range(pb, pc, 0);
    lemma_parts_order_range(pa, pc, 0);
    lemma_parts_order_trans(pa, pb, pc, 0);
    if parts_order_from(pa, pc, 0) == 0 {
        lemma_chars_order_trans(a, b, c);
    }
}

/// At most one of `a < b`, `a == b`, `a > b` fails to hold: the order is total.
pub proof fn lemma_version_order_total(a: Seq<char>, b: Seq<char>)
    ensures
        version_order(a, b) < 0 || a == b || version_order(b, a) < 0,
{
    lemma_version_order_antisymmetric(a, b);
    lemma_version_order_equal(a, b);
}

pub proof fn lemma_version_order_le_transitive(a: Seq<char>, b: Seq<char>, c: Seq<char>)
    requires
        version_order(a, b) <= 0,
        version_order(b, c) <= 0,
    ensures
        version_order(a, c) <= 0,
{
    lemma_version_order_equal(a, b);
    lemma_version_order_equal(b, c);
    if version_order(a, b) < 0 && version_order(b, c) < 0 {
        lemma_version_order_transitive(a, b, c);
    }
}

} // verus!
