//! Text for the versions of a package change: the full list `dix` reports,
//! and the compact old/new pair shown for upgrades and downgrades.
use vstd::prelude::*;
use crate::dix::{DixVersion, DixVersionDiff, DixVersionDiffView, DixVersionView, version_diffs_view};
use crate::model::{ChangeStatus, StatusView, VersionChange, VersionChangeView};
use crate::text::{
    alnum_test, alpha_test, chars_of, copy_str, has_digit, has_digit_exec, int_decimal, is_alnum,
    is_digit,
    is_alpha, join, join_exec, join_strings, push_int, range_string, seq_equal, split_exec,
    split_on, str_equal, ends_with, ends_with_exec,
};
use crate::version_order::{
    compare_versions, lemma_version_order_antisymmetric, lemma_version_order_equal,
    lemma_version_order_le_transitive,
    version_order, VersionOrder,
};

verus! {

// ---------------------------------------------------------------------------
// One version entry
// ---------------------------------------------------------------------------

/// A version name, with its multiplicity when there is more than one.
pub open spec fn named_version(v: DixVersionView) -> Seq<char> {
    match v.amount {
        Some(a) => if a > 1 {
            v.name + " x"@ + int_decimal(a as int)
        } else {
            v.name
        },
        None => v.name,
    }
}

pub open spec fn missing_version(v: DixVersionDiffView) -> Seq<char> {
    "<"@ + v.kind + ">"@
}

pub open spec fn arrow(a: Seq<char>, b: Seq<char>) -> Seq<char> {
    a + " -> "@ + b
}

/// How one version entry of a diff is shown.
pub open spec fn version_text(v: DixVersionDiffView) -> Seq<char> {
    if v.kind == "amount_changed"@ {
        match (v.version, v.old_amount, v.new_amount) {
            (Some(pv), Some(o), Some(n)) => pv.name + " ("@ + int_decimal(o as int) + " -> "@
                + int_decimal(n as int) + ")"@,
            _ => missing_version(v),
        }
    } else if v.kind == "changed"@ {
        match (v.old, v.new) {
            (Some(o), Some(n)) => arrow(named_version(o), named_version(n)),
            _ => missing_version(v),
        }
    } else if v.kind == "added"@ || v.kind == "removed"@ {
        match v.version {
            Some(pv) => named_version(pv),
            None => missing_version(v),
        }
    } else {
        match v.version {
            Some(pv) => named_version(pv),
            None => match (v.old, v.new) {
                (Some(o), Some(n)) => arrow(named_version(o), named_version(n)),
                _ => missing_version(v),
            },
        }
    }
}

pub open spec fn version_texts(vs: Seq<DixVersionDiffView>) -> Seq<Seq<char>> {
    vs.map_values(|v: DixVersionDiffView| version_text(v))
}

/// The version column: every entry, then `...` when entries were left out,
/// or `-` when there is nothing to show.
pub open spec fn versions_text(vs: Seq<DixVersionDiffView>, has_omitted: bool) -> Seq<char> {
    let names = if has_omitted {
        version_texts(vs).push("..."@)
    } else {
        version_texts(vs)
    };
    if names.len() == 0 {
        "-"@
    } else {
        join(names, ", "@)
    }
}

pub fn format_named_version(version: &DixVersion) -> (r: String)
    ensures
        r@ == named_version(version@),
{
    match version.amount {
        Some(amount) if amount > 1 => {
            let mut s = version.name.clone();
            s.append(" x");
            push_int(&mut s, amount);
            s
        },
        _ => version.name.clone(),
    }
}

pub fn format_missing_version(version: &DixVersionDiff) -> (r: String)
    ensures
        r@ == missing_version(version@),
{
    let mut s = String::new();
    s.append("<");
    s.append(version.kind.as_str());
    s.append(">");
    s
}

fn format_arrow(old: &DixVersion, new: &DixVersion) -> (r: String)
    ensures
        r@ == arrow(named_version(old@), named_version(new@)),
{
    let mut s = format_named_version(old);
    s.append(" -> ");
    let n = format_named_version(new);
    s.append(n.as_str());
    s
}

pub fn format_version(version: &DixVersionDiff) -> (r: String)
    ensures
        r@ == version_text(version@),
{
    let kind = version.kind.as_str();
    if str_equal(kind, "amount_changed") {
        match (&version.version, version.old_amount, version.new_amount) {
            (Some(package_version), Some(old_amount), Some(new_amount)) => {
                let mut s = package_version.name.clone();
                s.append(" (");
                push_int(&mut s, old_amount);
                s.append(" -> ");
                push_int(&mut s, new_amount);
                s.append(")");
                s
            },
            _ => format_missing_version(version),
        }
    } else if str_equal(kind, "changed") {
        match (&version.old, &version.new) {
            (Some(old), Some(new)) => format_arrow(old, new),
            _ => format_missing_version(version),
        }
    } else if str_equal(kind, "added") || str_equal(kind, "removed") {
        match &version.version {
            Some(v) => format_named_version(v),
            None => format_missing_version(version),
        }
    } else {
        match &version.version {
            Some(v) => format_named_version(v),
            None => match (&version.old, &version.new) {
                (Some(old), Some(new)) => format_arrow(old, new),
                _ => format_missing_version(version),
            },
        }
    }
}

/// The version column of a package change.
pub fn format_versions(versions: &[DixVersionDiff], has_omitted_versions: bool) -> (r: String)
    ensures
        r@ == versions_text(version_diffs_view(versions@), has_omitted_versions),
{
    let ghost vs = version_diffs_view(versions@);
    let mut names: Vec<String> = Vec::new();
    let mut i: usize = 0;
    while i < versions.len()
        invariant
            i <= versions@.len(),
            vs == version_diffs_view(versions@),
            names@.len() == i,
            forall|k: int| 0 <= k < i ==> #[trigger] names@[k]@ == version_text(vs[k]),
        decreases versions.len() - i,
    {
        names.push(format_version(&versions[i]));
        i = i + 1;
    }
    if has_omitted_versions {
        names.push(copy_str("..."));
    }
    let ghost expected = if has_omitted_versions {
        version_texts(vs).push("..."@)
    } else {
        version_texts(vs)
    };
    assert(names@.map_values(|p: String| p@) =~= expected);
    if names.len() == 0 {
        copy_str("-")
    } else {
        join_strings(&names, ", ")
    }
}

// ---------------------------------------------------------------------------
// Output suffixes
// ---------------------------------------------------------------------------

/// The output-name suffixes that are dropped from a single version name,
/// tried in this order.
pub open spec fn output_suffix(i: nat) -> Seq<char> {
    if i == 0 {
        "-fish-completions"@
    } else if i == 1 {
        "-fhsenv-profile"@
    } else if i == 2 {
        "-fhsenv-rootfs"@
    } else if i == 3 {
        "-libgcc"@
    } else if i == 4 {
        "-bwrap"@
    } else if i == 5 {
        "-extracted"@
    } else if i == 6 {
        "-patched"@
    } else if i == 7 {
        "-init"@
    } else if i == 8 {
        "-bin"@
    } else if i == 9 {
        "-dev"@
    } else if i == 10 {
        "-doc"@
    } else if i == 11 {
        "-info"@
    } else if i == 12 {
        "-lib"@
    } else if i == 13 {
        "-man"@
    } else if i == 14 {
        "-out"@
    } else if i == 15 {
        "-static"@
    } else {
        "-debug"@
    }
}

pub open spec fn output_suffix_count() -> nat {
    17
}

fn output_suffix_exec(i: usize) -> (r: &'static str)
    requires
        i < 17,
    ensures
        r@ == output_suffix(i as nat),
{
    if i == 0 {
        "-fish-completions"
    } else if i == 1 {
        "-fhsenv-profile"
    } else if i == 2 {
        "-fhsenv-rootfs"
    } else if i == 3 {
        "-libgcc"
    } else if i == 4 {
        "-bwrap"
    } else if i == 5 {
        "-extracted"
    } else if i == 6 {
        "-patched"
    } else if i == 7 {
        "-init"
    } else if i == 8 {
        "-bin"
    } else if i == 9 {
        "-dev"
    } else if i == 10 {
        "-doc"
    } else if i == 11 {
        "-info"
    } else if i == 12 {
        "-lib"
    } else if i == 13 {
        "-man"
    } else if i == 14 {
        "-out"
    } else if i == 15 {
        "-static"
    } else {
        "-debug"
    }
}

/// `v` without the first listed suffix (from index `i` on) that it ends
/// with and whose removal leaves a digit; `v` itself when there is none.
pub open spec fn strip_output_suffix_from(v: Seq<char>, i: nat) -> Seq<char>
    decreases output_suffix_count() - i,
{
    if i >= output_suffix_count() {
        v
    } else {
        let suf = output_suffix(i);
        let base = v.subrange(0, v.len() - suf.len());
        if ends_with(v, suf) && has_digit(base) {
            base
        } else {
            strip_output_suffix_from(v, i + 1)
        }
    }
}

pub open spec fn compact_single(v: Seq<char>) -> Seq<char> {
    strip_output_suffix_from(v, 0)
}

/// A single version name without its output suffix.
pub fn compact_single_version(version: &str) -> (r: String)
    ensures
        r@ == compact_single(version@),
{
    let v = chars_of(version);
    let mut i: usize = 0;
    while i < 17
        invariant
            i <= 17,
            v@ == version@,
            compact_single(version@) == strip_output_suffix_from(version@, i as nat),
        decreases 17 - i,
    {
        let suffix = chars_of(output_suffix_exec(i));
        if ends_with_exec(&v, &suffix) {
            let base_len = v.len() - suffix.len();
            let base = range_string(&v, 0, base_len);
            let base_chars = chars_of(base.as_str());
            if has_digit_exec(&base_chars) {
                return base;
            }
        }
        i = i + 1;
    }
    copy_str(version)
}

/// A dash-separated part that names an output (`lib`, `bwrap`, ...):
/// some letter, and nothing but letters, digits, `_` and `.`.
pub open spec fn is_output_suffix_part(p: Seq<char>) -> bool {
    &&& exists|i: int| 0 <= i < p.len() && is_alpha(#[trigger] p[i])
    &&& forall|i: int|
        0 <= i < p.len() ==> is_alnum(#[trigger] p[i]) || p[i] == '_' || p[i] == '.'
}

pub fn looks_like_output_suffix_part(part: &Vec<char>) -> (r: bool)
    ensures
        r == is_output_suffix_part(part@),
{
    let mut any_alpha = false;
    let mut i: usize = 0;
    while i < part.len()
        invariant
            i <= part.len(),
            any_alpha == exists|j: int| 0 <= j < i && is_alpha(#[trigger] part@[j]),
            forall|j: int|
                0 <= j < i ==> is_alnum(#[trigger] part@[j]) || part@[j] == '_' || part@[j] == '.',
        decreases part.len() - i,
    {
        let c = part[i];
        if !(alnum_test(c) || c == '_' || c == '.') {
            return false;
        }
        if alpha_test(c) {
            any_alpha = true;
        }
        i = i + 1;
    }
    any_alpha
}

/// Number of trailing dash-separated parts the two names share, counted
/// from `k` on, that look like output names; at most `max`.
pub open spec fn shared_suffix_len(op: Seq<Seq<char>>, np: Seq<Seq<char>>, max: int, k: int) -> int
    decreases max - k,
{
    if k < max && op[op.len() - 1 - k] == np[np.len() - 1 - k] && is_output_suffix_part(
        op[op.len() - 1 - k],
    ) {
        shared_suffix_len(op, np, max, k + 1)
    } else {
        k
    }
}

/// Two version names without the output suffix they share, when both keep a digit.
pub open spec fn strip_common_suffix(old: Seq<char>, new: Seq<char>) -> Option<
    (Seq<char>, Seq<char>),
> {
    let op = split_on(old, '-');
    let np = split_on(new, '-');
    if op.len() < 2 || np.len() < 2 {
        None
    } else {
        let max = if op.len() < np.len() {
            op.len() - 1
        } else {
            np.len() - 1
        };
        let n = shared_suffix_len(op, np, max, 0);
        if n == 0 {
            None
        } else {
            let ob = join(op.subrange(0, op.len() - n), "-"@);
            let nb = join(np.subrange(0, np.len() - n), "-"@);
            if ob.len() == 0 || nb.len() == 0 || !has_digit(ob) || !has_digit(nb) {
                None
            } else {
                Some((ob, nb))
            }
        }
    }
}

pub open spec fn compact_pair_spec(old: Seq<char>, new: Seq<char>) -> (Seq<char>, Seq<char>) {
    match strip_common_suffix(old, new) {
        Some(p) => p,
        None => (old, new),
    }
}

proof fn lemma_shared_suffix_bounds(op: Seq<Seq<char>>, np: Seq<Seq<char>>, max: int, k: int)
    requires
        0 <= k <= max,
    ensures
        k <= shared_suffix_len(op, np, max, k) <= max,
    decreases max - k,
{
    if k < max && op[op.len() - 1 - k] == np[np.len() - 1 - k] && is_output_suffix_part(
        op[op.len() - 1 - k],
    ) {
        lemma_shared_suffix_bounds(op, np, max, k + 1);
    }
}

fn suffix_part_matches(op: &Vec<Vec<char>>, np: &Vec<Vec<char>>, k: usize) -> (r: bool)
    requires
        k < op@.len(),
        k < np@.len(),
    ensures
        r == (op@[op@.len() - 1 - k]@ == np@[np@.len() - 1 - k]@ && is_output_suffix_part(
            op@[op@.len() - 1 - k]@,
        )),
{
    let a = &op[op.len() - 1 - k];
    let b = &np[np.len() - 1 - k];
    seq_equal(a, b) && looks_like_output_suffix_part(a)
}

pub fn strip_common_output_suffix(old: &str, new: &str) -> (r: Option<(String, String)>)
    ensures
        match r {
            Some((a, b)) => strip_common_suffix(old@, new@) == Some((a@, b@)),
            None => strip_common_suffix(old@, new@) is None,
        },
{
    let ov = chars_of(old);
    let nv = chars_of(new);
    let op = split_exec(&ov, '-');
    let np = split_exec(&nv, '-');
    let ghost sop = split_on(old@, '-');
    let ghost snp = split_on(new@, '-');
    if op.len() < 2 || np.len() < 2 {
        return None;
    }
    let max = if op.len() < np.len() {
        op.len() - 1
    } else {
        np.len() - 1
    };
    let mut k: usize = 0;
    while k < max && suffix_part_matches(&op, &np, k)
        invariant
            k <= max,
            max < op@.len(),
            max < np@.len(),
            op@.len() == sop.len(),
            np@.len() == snp.len(),
            forall|i: int| 0 <= i < op@.len() ==> #[trigger] op@[i]@ == sop[i],
            forall|i: int| 0 <= i < np@.len() ==> #[trigger] np@[i]@ == snp[i],
            shared_suffix_len(sop, snp, max as int, 0) == shared_suffix_len(
                sop,
                snp,
                max as int,
                k as int,
            ),
        decreases max - k,
    {
        k = k + 1;
    }
    if k == 0 {
        return None;
    }
    let old_base = join_exec(&op, op.len() - k, "-");
    let new_base = join_exec(&np, np.len() - k, "-");
    assert(op@.subrange(0, op.len() - k).map_values(|p: Vec<char>| p@) =~= sop.subrange(
        0,
        sop.len() - k,
    ));
    assert(np@.subrange(0, np.len() - k).map_values(|p: Vec<char>| p@) =~= snp.subrange(
        0,
        snp.len() - k,
    ));
    let oc = chars_of(old_base.as_str());
    let nc = chars_of(new_base.as_str());
    if oc.len() == 0 || nc.len() == 0 || !has_digit_exec(&oc) || !has_digit_exec(&nc) {
        return None;
    }
    Some((old_base, new_base))
}

pub fn compact_pair(old: &str, new: &str) -> (r: (String, String))
    ensures
        (r.0@, r.1@) == compact_pair_spec(old@, new@),
{
    match strip_common_output_suffix(old, new) {
        Some(p) => p,
        None => (copy_str(old), copy_str(new)),
    }
}

// ---------------------------------------------------------------------------
// Choosing the compact old/new versions
// ---------------------------------------------------------------------------

/// UTF-8 width of a character, in bytes.
pub open spec fn char_width(c: char) -> nat {
    if (c as u32) < 0x80 {
        1
    } else if (c as u32) < 0x800 {
        2
    } else if (c as u32) < 0x10000 {
        3
    } else {
        4
    }
}

/// Length of a string in bytes (`str::len`).
pub open spec fn byte_len(s: Seq<char>) -> nat
    decreases s.len(),
{
    if s.len() == 0 {
        0
    } else {
        byte_len(s.drop_last()) + char_width(s.last())
    }
}

fn byte_len_exec(s: &str) -> (n: u128)
    ensures
        n == byte_len(s@),
        n <= 4 * 0x1_0000_0000_0000_0000,
{
    let v = chars_of(s);
    let mut n: u128 = 0;
    let mut i: usize = 0;
    assert(v@.subrange(0, 0) =~= Seq::<char>::empty());
    while i < v.len()
        invariant
            i <= v.len(),
            n == byte_len(v@.subrange(0, i as int)),
            n <= 4 * i,
            v@ == s@,
        decreases v.len() - i,
    {
        assert(v@.subrange(0, i + 1).drop_last() =~= v@.subrange(0, i as int));
        let u = v[i] as u32;
        let w: u128 = if u < 0x80 {
            1
        } else if u < 0x800 {
            2
        } else if u < 0x10000 {
            3
        } else {
            4
        };
        n = n + w;
        i = i + 1;
    }
    assert(v@.subrange(0, v.len() as int) =~= v@);
    n
}

/// The compact pair of a `changed` entry that has both versions.
pub open spec fn changed_pair(v: DixVersionDiffView) -> Option<(Seq<char>, Seq<char>)> {
    if v.kind != "changed"@ {
        None
    } else {
        match (v.old, v.new) {
            (Some(o), Some(n)) => Some(compact_pair_spec(o.name, n.name)),
            _ => None,
        }
    }
}

pub open spec fn changed_pairs(vs: Seq<DixVersionDiffView>) -> Seq<(Seq<char>, Seq<char>)> {
    vs.filter_map(|v: DixVersionDiffView| changed_pair(v))
}

pub open spec fn pair_len(p: (Seq<char>, Seq<char>)) -> nat {
    byte_len(p.0) + byte_len(p.1)
}

/// The first pair whose two names are shortest together.
pub open spec fn shortest_pair(s: Seq<(Seq<char>, Seq<char>)>) -> Option<(Seq<char>, Seq<char>)>
    decreases s.len(),
{
    if s.len() == 0 {
        None
    } else {
        match shortest_pair(s.drop_last()) {
            None => Some(s.last()),
            Some(m) => if pair_len(s.last()) < pair_len(m) {
                Some(s.last())
            } else {
                Some(m)
            },
        }
    }
}

/// The first shortest name.
pub open spec fn shortest_name(s: Seq<Seq<char>>) -> Option<Seq<char>>
    decreases s.len(),
{
    if s.len() == 0 {
        None
    } else {
        match shortest_name(s.drop_last()) {
            None => Some(s.last()),
            Some(m) => if byte_len(s.last()) < byte_len(m) {
                Some(s.last())
            } else {
                Some(m)
            },
        }
    }
}

/// The lowest version in the version order.
pub open spec fn lowest_version(s: Seq<Seq<char>>) -> Option<Seq<char>>
    decreases s.len(),
{
    if s.len() == 0 {
        None
    } else {
        match lowest_version(s.drop_last()) {
            None => Some(s.last()),
            Some(m) => if version_order(s.last(), m) < 0 {
                Some(s.last())
            } else {
                Some(m)
            },
        }
    }
}

/// The highest version in the version order.
pub open spec fn highest_version(s: Seq<Seq<char>>) -> Option<Seq<char>>
    decreases s.len(),
{
    if s.len() == 0 {
        None
    } else {
        match highest_version(s.drop_last()) {
            None => Some(s.last()),
            Some(m) => if version_order(s.last(), m) > 0 {
                Some(s.last())
            } else {
                Some(m)
            },
        }
    }
}

/// A version name a downgrade can be read from.
pub open spec fn downgrade_candidate(v: DixVersionDiffView) -> Option<Seq<char>> {
    if v.kind == "added"@ || v.kind == "removed"@ || v.kind == "amount_changed"@ {
        match v.version {
            Some(pv) => Some(compact_single(pv.name)),
            None => None,
        }
    } else {
        None
    }
}

pub open spec fn downgrade_candidates(vs: Seq<DixVersionDiffView>) -> Seq<Seq<char>> {
    vs.filter_map(|v: DixVersionDiffView| downgrade_candidate(v))
}

/// For a downgrade: the highest candidate was the old version and the
/// lowest is the new one, when they differ.
pub open spec fn downgrade_change(vs: Seq<DixVersionDiffView>) -> Option<VersionChangeView> {
    let c = downgrade_candidates(vs);
    match (lowest_version(c), highest_version(c)) {
        (Some(lo), Some(hi)) => if hi == lo {
            None
        } else {
            Some(VersionChangeView { old: Some(hi), new: Some(lo) })
        },
        _ => None,
    }
}

pub open spec fn kind_candidate(v: DixVersionDiffView, kind: Seq<char>) -> Option<Seq<char>> {
    if v.kind == kind {
        match v.version {
            Some(pv) => Some(compact_single(pv.name)),
            None => None,
        }
    } else {
        None
    }
}

pub open spec fn kind_candidates(vs: Seq<DixVersionDiffView>, kind: Seq<char>) -> Seq<Seq<char>> {
    vs.filter_map(|v: DixVersionDiffView| kind_candidate(v, kind))
}

/// The shortest compact version among the entries of `kind`.
pub open spec fn kind_version(vs: Seq<DixVersionDiffView>, kind: Seq<char>) -> Option<Seq<char>> {
    shortest_name(kind_candidates(vs, kind))
}

/// A downgrade shows its higher version as the old one.
pub open spec fn oriented(status: StatusView, old: Seq<char>, new: Seq<char>) -> VersionChangeView {
    if status is Downgraded && version_order(old, new) < 0 {
        VersionChangeView { old: Some(new), new: Some(old) }
    } else {
        VersionChangeView { old: Some(old), new: Some(new) }
    }
}

/// The old/new pair shown for a package change.
pub open spec fn version_change_spec(
    status: StatusView,
    vs: Seq<DixVersionDiffView>,
    has_omitted: bool,
) -> VersionChangeView {
    match shortest_pair(changed_pairs(vs)) {
        Some((o, n)) => oriented(status, o, n),
        None => if status is Downgraded && downgrade_change(vs) is Some {
            downgrade_change(vs)->0
        } else {
            let old = kind_version(vs, "removed"@);
            let new = kind_version(vs, "added"@);
            if has_omitted {
                match (old, new) {
                    (None, Some(_)) => VersionChangeView { old: Some("..."@), new },
                    (Some(_), None) => VersionChangeView { old, new: Some("..."@) },
                    (None, None) => VersionChangeView { old: Some("..."@), new },
                    (Some(_), Some(_)) => VersionChangeView { old, new },
                }
            } else {
                VersionChangeView { old, new }
            }
        },
    }
}

proof fn lemma_shortest_pair_push(s: Seq<(Seq<char>, Seq<char>)>, p: (Seq<char>, Seq<char>))
    ensures
        shortest_pair(s + seq![p]) == match shortest_pair(s) {
            None => Some(p),
            Some(m) => if pair_len(p) < pair_len(m) {
                Some(p)
            } else {
                Some(m)
            },
        },
{
    assert((s + seq![p]).drop_last() =~= s);
}

proof fn lemma_shortest_name_push(s: Seq<Seq<char>>, p: Seq<char>)
    ensures
        shortest_name(s + seq![p]) == match shortest_name(s) {
            None => Some(p),
            Some(m) => if byte_len(p) < byte_len(m) {
                Some(p)
            } else {
                Some(m)
            },
        },
{
    assert((s + seq![p]).drop_last() =~= s);
}

proof fn lemma_lowest_push(s: Seq<Seq<char>>, p: Seq<char>)
    ensures
        lowest_version(s + seq![p]) == match lowest_version(s) {
            None => Some(p),
            Some(m) => if version_order(p, m) < 0 {
                Some(p)
            } else {
                Some(m)
            },
        },
        highest_version(s + seq![p]) == match highest_version(s) {
            None => Some(p),
            Some(m) => if version_order(p, m) > 0 {
                Some(p)
            } else {
                Some(m)
            },
        },
{
    assert((s + seq![p]).drop_last() =~= s);
}

proof fn lemma_changed_pairs_step(vs: Seq<DixVersionDiffView>, i: int)
    requires
        0 <= i < vs.len(),
    ensures
        changed_pairs(vs.take(i + 1)) == match changed_pair(vs[i]) {
            Some(p) => changed_pairs(vs.take(i)) + seq![p],
            None => changed_pairs(vs.take(i)),
        },
{
    assert(vs.take(i + 1).drop_last() =~= vs.take(i));
}

proof fn lemma_downgrade_candidates_step(vs: Seq<DixVersionDiffView>, i: int)
    requires
        0 <= i < vs.len(),
    ensures
        downgrade_candidates(vs.take(i + 1)) == match downgrade_candidate(vs[i]) {
            Some(p) => downgrade_candidates(vs.take(i)) + seq![p],
            None => downgrade_candidates(vs.take(i)),
        },
{
    assert(vs.take(i + 1).drop_last() =~= vs.take(i));
}

proof fn lemma_kind_candidates_step(vs: Seq<DixVersionDiffView>, kind: Seq<char>, i: int)
    requires
        0 <= i < vs.len(),
    ensures
        kind_candidates(vs.take(i + 1), kind) == match kind_candidate(vs[i], kind) {
            Some(p) => kind_candidates(vs.take(i), kind) + seq![p],
            None => kind_candidates(vs.take(i), kind),
        },
{
    assert(vs.take(i + 1).drop_last() =~= vs.take(i));
}

pub open spec fn opt_string_view(o: Option<String>) -> Option<Seq<char>> {
    match o {
        Some(s) => Some(s@),
        None => None,
    }
}

pub fn compact_changed_version_pair(version: &DixVersionDiff) -> (r: Option<(String, String)>)
    ensures
        match r {
            Some((a, b)) => changed_pair(version@) == Some((a@, b@)),
            None => changed_pair(version@) is None,
        },
{
    if !str_equal(version.kind.as_str(), "changed") {
        return None;
    }
    match (&version.old, &version.new) {
        (Some(old), Some(new)) => Some(compact_pair(old.name.as_str(), new.name.as_str())),
        _ => None,
    }
}

fn shortest_changed_pair(versions: &[DixVersionDiff]) -> (r: Option<(String, String)>)
    ensures
        match r {
            Some((a, b)) => shortest_pair(changed_pairs(version_diffs_view(versions@))) == Some(
                (a@, b@),
            ),
            None => shortest_pair(changed_pairs(version_diffs_view(versions@))) is None,
        },
{
    let ghost vs = version_diffs_view(versions@);
    let mut best: Option<(String, String)> = None;
    let mut best_len: u128 = 0;
    let mut i: usize = 0;
    assert(vs.take(0) =~= Seq::<DixVersionDiffView>::empty());
    while i < versions.len()
        invariant
            i <= versions@.len(),
            vs == version_diffs_view(versions@),
            match best {
                Some((a, b)) => shortest_pair(changed_pairs(vs.take(i as int))) == Some((a@, b@))
                    && best_len == byte_len(a@) + byte_len(b@),
                None => shortest_pair(changed_pairs(vs.take(i as int))) is None,
            },
        decreases versions.len() - i,
    {
        proof {
            lemma_changed_pairs_step(vs, i as int);
        }
        let candidate = compact_changed_version_pair(&versions[i]);
        match candidate {
            Some((a, b)) => {
                proof {
                    lemma_shortest_pair_push(changed_pairs(vs.take(i as int)), (a@, b@));
                }
                let la = byte_len_exec(a.as_str());
                let lb = byte_len_exec(b.as_str());
                let len = la + lb;
                match best {
                    None => {
                        best = Some((a, b));
                        best_len = len;
                    },
                    Some(_) => {
                        if len < best_len {
                            best = Some((a, b));
                            best_len = len;
                        }
                    },
                }
            },
            None => {},
        }
        i = i + 1;
    }
    assert(vs.take(versions@.len() as int) =~= vs);
    best
}


fn version_change_of(old: Option<String>, new: Option<String>) -> (r: VersionChange)
    ensures
        r@ == (VersionChangeView { old: opt_string_view(old), new: opt_string_view(new) }),
{
    VersionChange { old, new }
}

/// For a downgrade, the highest candidate version as the old one and the
/// lowest as the new one, when they differ.
pub fn compact_downgrade_versions(versions: &[DixVersionDiff]) -> (r: Option<VersionChange>)
    ensures
        match r {
            Some(c) => downgrade_change(version_diffs_view(versions@)) == Some(c@),
            None => downgrade_change(version_diffs_view(versions@)) is None,
        },
{
    let ghost vs = version_diffs_view(versions@);
    let mut low: Option<String> = None;
    let mut high: Option<String> = None;
    let mut i: usize = 0;
    assert(vs.take(0) =~= Seq::<DixVersionDiffView>::empty());
    while i < versions.len()
        invariant
            i <= versions@.len(),
            vs == version_diffs_view(versions@),
            opt_string_view(low) == lowest_version(downgrade_candidates(vs.take(i as int))),
            opt_string_view(high) == highest_version(downgrade_candidates(vs.take(i as int))),
        decreases versions.len() - i,
    {
        proof {
            lemma_downgrade_candidates_step(vs, i as int);
        }
        let version = &versions[i];
        let kind = version.kind.as_str();
        if str_equal(kind, "added") || str_equal(kind, "removed") || str_equal(
            kind,
            "amount_changed",
        ) {
            match &version.version {
                Some(v) => {
                    let candidate = compact_single_version(v.name.as_str());
                    proof {
                        lemma_lowest_push(downgrade_candidates(vs.take(i as int)), candidate@);
                    }
                    let replace_low = match &low {
                        None => true,
                        Some(l) => compare_versions(candidate.as_str(), l.as_str())
                            == VersionOrder::Less,
                    };
                    let replace_high = match &high {
                        None => true,
                        Some(h) => compare_versions(candidate.as_str(), h.as_str())
                            == VersionOrder::Greater,
                    };
                    if replace_low {
                        low = Some(candidate.clone());
                    }
                    if replace_high {
                        high = Some(candidate);
                    }
                },
                None => {},
            }
        }
        i = i + 1;
    }
    assert(vs.take(versions@.len() as int) =~= vs);
    match (low, high) {
        (Some(new), Some(old)) => {
            if str_equal(old.as_str(), new.as_str()) {
                None
            } else {
                Some(version_change_of(Some(old), Some(new)))
            }
        },
        _ => None,
    }
}

/// The shortest compact version among the entries of `kind`.
pub fn compact_version_with_kind(versions: &[DixVersionDiff], kind: &str) -> (r: Option<String>)
    ensures
        opt_string_view(r) == kind_version(version_diffs_view(versions@), kind@),
{
    let ghost vs = version_diffs_view(versions@);
    let mut best: Option<String> = None;
    let mut best_len: u128 = 0;
    let mut i: usize = 0;
    assert(vs.take(0) =~= Seq::<DixVersionDiffView>::empty());
    while i < versions.len()
        invariant
            i <= versions@.len(),
            vs == version_diffs_view(versions@),
            opt_string_view(best) == shortest_name(kind_candidates(vs.take(i as int), kind@)),
            match best {
                Some(b) => best_len == byte_len(b@),
                None => true,
            },
        decreases versions.len() - i,
    {
        proof {
            lemma_kind_candidates_step(vs, kind@, i as int);
        }
        let version = &versions[i];
        if str_equal(version.kind.as_str(), kind) {
            match &version.version {
                Some(v) => {
                    let candidate = compact_single_version(v.name.as_str());
                    proof {
                        lemma_shortest_name_push(kind_candidates(vs.take(i as int), kind@), candidate@);
                    }
                    let len = byte_len_exec(candidate.as_str());
                    let replace = match &best {
                        None => true,
                        Some(_) => len < best_len,
                    };
                    if replace {
                        best = Some(candidate);
                        best_len = len;
                    }
                },
                None => {},
            }
        }
        i = i + 1;
    }
    assert(vs.take(versions@.len() as int) =~= vs);
    best
}

pub fn orient_version_change(status: &ChangeStatus, old: String, new: String) -> (r: VersionChange)
    ensures
        r@ == oriented(status@, old@, new@),
{
    let downgraded = match status {
        ChangeStatus::Downgraded => true,
        _ => false,
    };
    if downgraded && compare_versions(old.as_str(), new.as_str()) == VersionOrder::Less {
        return version_change_of(Some(new), Some(old));
    }
    version_change_of(Some(old), Some(new))
}

/// The old/new versions shown for an upgrade or a downgrade.
pub fn format_version_change(
    status: &ChangeStatus,
    versions: &[DixVersionDiff],
    has_omitted_versions: bool,
) -> (r: VersionChange)
    ensures
        r@ == version_change_spec(status@, version_diffs_view(versions@), has_omitted_versions),
{
    if let Some((old, new)) = shortest_changed_pair(versions) {
        return orient_version_change(status, old, new);
    }
    let downgraded = match status {
        ChangeStatus::Downgraded => true,
        _ => false,
    };
    if downgraded {
        if let Some(change) = compact_downgrade_versions(versions) {
            return change;
        }
    }
    let mut old = compact_version_with_kind(versions, "removed");
    let mut new = compact_version_with_kind(versions, "added");
    if has_omitted_versions {
        match (&old, &new) {
            (None, Some(_)) => old = Some(copy_str("...")),
            (Some(_), None) => new = Some(copy_str("...")),
            (None, None) => old = Some(copy_str("...")),
            (Some(_), Some(_)) => {},
        }
    }
    version_change_of(old, new)
}

/// The lowest and highest candidates are what sorting the candidates by
/// the version order puts first and last: each is a candidate, and it is
/// at or below (at or above) every candidate.
pub proof fn lemma_lowest_highest_bounds(s: Seq<Seq<char>>)
    ensures
        lowest_version(s) is Some <==> s.len() > 0,
        highest_version(s) is Some <==> s.len() > 0,
        lowest_version(s) matches Some(lo) ==> s.contains(lo) && forall|i: int|
            0 <= i < s.len() ==> version_order(lo, #[trigger] s[i]) <= 0,
        highest_version(s) matches Some(hi) ==> s.contains(hi) && forall|i: int|
            0 <= i < s.len() ==> version_order(#[trigger] s[i], hi) <= 0,
    decreases s.len(),
{
    if s.len() > 0 {
        let rest = s.drop_last();
        let x = s.last();
        lemma_lowest_highest_bounds(rest);
        lemma_version_order_antisymmetric(x, x);
        match lowest_version(rest) {
            None => {
                assert(s[0] == x);
            },
            Some(m) => {
                let j = choose|j: int| 0 <= j < rest.len() && rest[j] == m;
                assert(s[j] == m);
                lemma_version_order_antisymmetric(x, m);
                if version_order(x, m) < 0 {
                    assert forall|i: int| 0 <= i < s.len() implies version_order(x, #[trigger] s[i]) <= 0 by {
                        if i < s.len() - 1 {
                            assert(rest[i] == s[i]);
                            lemma_version_order_le_transitive(x, m, s[i]);
                        }
                    }
                } else {
                    assert forall|i: int| 0 <= i < s.len() implies version_order(m, #[trigger] s[i]) <= 0 by {
                        if i < s.len() - 1 {
                            assert(rest[i] == s[i]);
                        }
                    }
                }
            },
        }
        match highest_version(rest) {
            None => {
                assert(s[0] == x);
            },
            Some(m) => {
                let j = choose|j: int| 0 <= j < rest.len() && rest[j] == m;
                assert(s[j] == m);
                lemma_version_order_antisymmetric(x, m);
                if version_order(x, m) > 0 {
                    assert forall|i: int| 0 <= i < s.len() implies version_order(#[trigger] s[i], x) <= 0 by {
                        if i < s.len() - 1 {
                            assert(rest[i] == s[i]);
                            lemma_version_order_le_transitive(s[i], m, x);
                        }
                    }
                } else {
                    assert forall|i: int| 0 <= i < s.len() implies version_order(#[trigger] s[i], m) <= 0 by {
                        if i < s.len() - 1 {
                            assert(rest[i] == s[i]);
                        }
                    }
                }
            },
        }
    }
}

/// A downgrade never reads as going up: when its old and new versions come
/// from a `changed` entry or from the versions the downgrade lists, the new
/// version is at or below the old one in the version order.
pub proof fn lemma_downgrade_goes_down(vs: Seq<DixVersionDiffView>, has_omitted: bool)
    requires
        shortest_pair(changed_pairs(vs)) is Some || downgrade_change(vs) is Some,
    ensures
        version_change_spec(StatusView::Downgraded, vs, has_omitted) matches VersionChangeView {
            old: Some(o),
            new: Some(n),
        } && version_order(n, o) <= 0,
{
    match shortest_pair(changed_pairs(vs)) {
        Some((o, n)) => {
            lemma_version_order_antisymmetric(o, n);
        },
        None => {
            let c = downgrade_candidates(vs);
            lemma_lowest_highest_bounds(c);
            let hi = highest_version(c)->0;
            let k = choose|k: int| 0 <= k < c.len() && c[k] == hi;
            assert(version_order(lowest_version(c)->0, c[k]) <= 0);
        },
    }
}

proof fn lemma_shortest_name_contains(s: Seq<Seq<char>>)
    ensures
        shortest_name(s) matches Some(m) ==> s.contains(m),
    decreases s.len(),
{
    if s.len() > 0 {
        let rest = s.drop_last();
        lemma_shortest_name_contains(rest);
        assert(s[s.len() - 1] == s.last());
        if let Some(m) = shortest_name(rest) {
            let k = choose|k: int| 0 <= k < rest.len() && rest[k] == m;
            assert(s[k] == m);
        }
    }
}

proof fn lemma_kind_candidates_are_downgrade_candidates(vs: Seq<DixVersionDiffView>, kind: Seq<char>, m: Seq<char>)
    requires
        kind == "removed"@ || kind == "added"@,
        kind_candidates(vs, kind).contains(m),
    ensures
        downgrade_candidates(vs).contains(m),
    decreases vs.len(),
{
    let rest = vs.drop_last();
    let kc = kind_candidates(rest, kind);
    let dc = downgrade_candidates(rest);
    match kind_candidate(vs.last(), kind) {
        Some(p) => {
            assert(downgrade_candidate(vs.last()) == Some(p));
            assert(kind_candidates(vs, kind) == kc + seq![p]);
            assert(downgrade_candidates(vs) == dc + seq![p]);
            let k = choose|k: int| 0 <= k < kind_candidates(vs, kind).len() && kind_candidates(vs, kind)[k] == m;
            if k < kc.len() {
                assert(kc[k] == m);
                lemma_kind_candidates_are_downgrade_candidates(rest, kind, m);
                let j = choose|j: int| 0 <= j < dc.len() && dc[j] == m;
                assert((dc + seq![p])[j] == m);
            } else {
                assert((dc + seq![p])[dc.len() as int] == m);
            }
        },
        None => {
            assert(kind_candidates(vs, kind) == kc);
            lemma_kind_candidates_are_downgrade_candidates(rest, kind, m);
            let j = choose|j: int| 0 <= j < dc.len() && dc[j] == m;
            match downgrade_candidate(vs.last()) {
                Some(p) => {
                    assert(downgrade_candidates(vs) == dc + seq![p]);
                    assert((dc + seq![p])[j] == m);
                },
                None => {
                    assert(downgrade_candidates(vs) == dc);
                },
            }
        },
    }
}

/// A downgrade never shows a new version above its old one: whenever both
/// columns hold a version (not the `...` placeholder), the new one is at or
/// below the old one in the version order.
pub proof fn lemma_downgrade_never_goes_up(vs: Seq<DixVersionDiffView>, has_omitted: bool)
    ensures
        version_change_spec(StatusView::Downgraded, vs, has_omitted) matches VersionChangeView {
            old: Some(o),
            new: Some(n),
        } ==> (o != "..."@ && n != "..."@ ==> version_order(n, o) <= 0),
{
    if shortest_pair(changed_pairs(vs)) is Some || downgrade_change(vs) is Some {
        lemma_downgrade_goes_down(vs, has_omitted);
    } else {
        let c = downgrade_candidates(vs);
        lemma_lowest_highest_bounds(c);
        let removed = kind_candidates(vs, "removed"@);
        let added = kind_candidates(vs, "added"@);
        lemma_shortest_name_contains(removed);
        lemma_shortest_name_contains(added);
        if let (Some(o), Some(n)) = (kind_version(vs, "removed"@), kind_version(vs, "added"@)) {
            lemma_kind_candidates_are_downgrade_candidates(vs, "removed"@, o);
            lemma_kind_candidates_are_downgrade_candidates(vs, "added"@, n);
            let ko = choose|k: int| 0 <= k < c.len() && c[k] == o;
            let kn = choose|k: int| 0 <= k < c.len() && c[k] == n;
            let lo = lowest_version(c)->0;
            let hi = highest_version(c)->0;
            assert(hi == lo);
            assert(version_order(lo, c[ko]) <= 0 && version_order(c[ko], hi) <= 0);
            assert(version_order(lo, c[kn]) <= 0 && version_order(c[kn], hi) <= 0);
            lemma_version_order_antisymmetric(lo, o);
            lemma_version_order_antisymmetric(lo, n);
            lemma_version_order_equal(lo, o);
            lemma_version_order_equal(lo, n);
            lemma_version_order_equal(n, o);
        }
    }
}

/// Only a part that holds an ASCII letter can name an output: a part of
/// digits (a day, a build number) never counts as an output suffix.
pub proof fn lemma_output_part_has_letter(p: Seq<char>)
    ensures
        is_output_suffix_part(p) ==> exists|i: int| 0 <= i < p.len() && is_alpha(#[trigger] p[i]),
        (forall|i: int| 0 <= i < p.len() ==> is_digit(#[trigger] p[i])) ==> !is_output_suffix_part(p),
{
    if is_output_suffix_part(p) && (forall|i: int| 0 <= i < p.len() ==> is_digit(#[trigger] p[i])) {
        let i = choose|i: int| 0 <= i < p.len() && is_alpha(#[trigger] p[i]);
        assert(is_digit(p[i]));
    }
}

/// When the last dash-separated part of the old version holds no ASCII
/// letter, no output suffix is stripped and both versions are shown whole.
pub proof fn lemma_no_letter_no_strip(old: Seq<char>, new: Seq<char>)
    requires
        forall|i: int|
            0 <= i < split_on(old, '-').last().len() ==> !is_alpha(
                #[trigger] split_on(old, '-').last()[i],
            ),
    ensures
        strip_common_suffix(old, new) is None,
        compact_pair_spec(old, new) == (old, new),
{
    let op = split_on(old, '-');
    let np = split_on(new, '-');
    if op.len() >= 2 && np.len() >= 2 {
        let max = if op.len() < np.len() {
            op.len() - 1
        } else {
            np.len() - 1
        };
        assert(op[op.len() - 1] == op.last());
        assert(!is_output_suffix_part(op[op.len() - 1 - 0]));
        assert(shared_suffix_len(op, np, max, 0) == 0);
    }
}

} // verus!
