//! Browser roots and libraries: their kinds and the order in which they are
//! offered.
use vstd::prelude::*;

use crate::paths::{same_path, same_path_spec};
use crate::text::chars_of;

verus! {

/// Where a browsable root comes from.
#[derive(Clone, Copy, Debug, PartialEq, Eq, Structural)]
pub enum BrowserRootKind {
    System,
    Home,
    Physical,
    Network,
}

/// A filesystem root the browser can open.
#[derive(Clone, Debug)]
pub struct BrowserRootData {
    pub path: String,
    pub name: String,
    pub kind: BrowserRootKind,
}

/// The well-known user folder a library entry stands for.
#[derive(Clone, Copy, Debug, PartialEq, Eq, Structural)]
pub enum BrowserLibraryKind {
    Documents,
    Music,
    Pictures,
    Videos,
    Downloads,
}

/// A well-known user folder offered next to the roots.
#[derive(Clone, Debug)]
pub struct BrowserLibraryData {
    pub path: String,
    pub name: String,
    pub kind: BrowserLibraryKind,
}

/// The rank of a root kind: system first, then home, physical volumes, and
/// network shares.
pub open spec fn rank_of(kind: BrowserRootKind) -> u8 {
    match kind {
        BrowserRootKind::System => 0,
        BrowserRootKind::Home => 1,
        BrowserRootKind::Physical => 2,
        BrowserRootKind::Network => 3,
    }
}

/// The rank of a root kind in the offered order.
pub fn root_rank(kind: BrowserRootKind) -> (rank: u8)
    ensures
        rank == rank_of(kind),
{
    match kind {
        BrowserRootKind::System => 0,
        BrowserRootKind::Home => 1,
        BrowserRootKind::Physical => 2,
        BrowserRootKind::Network => 3,
    }
}

/// The kind of a volume mounted below a mount parent: a network share when
/// its path is one of the network mount points (compared as paths, with the
/// `/` separator of the systems that have mount parents), a physical volume
/// otherwise.
pub fn child_mount_kind(path: &str, network_mounts: &Vec<String>) -> (kind: BrowserRootKind)
    ensures
        kind == (if exists|i: int| 0 <= i < network_mounts@.len() && same_path_spec(#[trigger] network_mounts@[i]@, path@, '/') {
            BrowserRootKind::Network
        } else {
            BrowserRootKind::Physical
        }),
{
    let mut i: usize = 0;
    while i < network_mounts.len()
        invariant
            i <= network_mounts.len(),
            forall|k: int| 0 <= k < i ==> !same_path_spec(#[trigger] network_mounts@[k]@, path@, '/'),
        decreases network_mounts.len() - i,
    {
        if same_path(network_mounts[i].as_str(), path, '/') {
            return BrowserRootKind::Network;
        }
        i = i + 1;
    }
    BrowserRootKind::Physical
}

/// Unicode lower-case mapping of a text, as `str::to_lowercase` computes it.
pub uninterp spec fn unicode_lowercase(s: Seq<char>) -> Seq<char>;

/// Lower-cases a text.
///
/// Calls `str::to_lowercase`; the contract claims only that the result is a
/// function of the text, named `unicode_lowercase`. Which mapping Unicode
/// defines is left unsaid.
#[verifier::external_body]
fn lowercase(s: &str) -> (result: String)
    ensures
        result@ == unicode_lowercase(s@),
{
    s.to_lowercase()
}

/// Lexicographic order of texts by code point, the order of `str::cmp`.
pub open spec fn text_le(a: Seq<char>, b: Seq<char>) -> bool
    decreases a.len(),
{
    if a.len() == 0 {
        true
    } else if b.len() == 0 {
        false
    } else if a[0] < b[0] {
        true
    } else if a[0] > b[0] {
        false
    } else {
        text_le(a.skip(1), b.skip(1))
    }
}

/// Whether `a` may stand before `b`: by kind rank, then by lower-cased name.
pub open spec fn root_le(a: BrowserRootData, b: BrowserRootData) -> bool {
    ||| rank_of(a.kind) < rank_of(b.kind)
    ||| rank_of(a.kind) == rank_of(b.kind) && text_le(
        unicode_lowercase(a.name@),
        unicode_lowercase(b.name@),
    )
}

/// `x` inserted into `sorted` after every root that may stand before it.
pub open spec fn insert_root(sorted: Seq<BrowserRootData>, x: BrowserRootData) -> Seq<
    BrowserRootData,
>
    decreases sorted.len(),
{
    if sorted.len() == 0 {
        seq![x]
    } else if root_le(sorted.last(), x) {
        sorted.push(x)
    } else {
        insert_root(sorted.drop_last(), x).push(sorted.last())
    }
}

/// The stable sort of `roots` by [`root_le`] (what `sort_by` yields).
pub open spec fn sorted_roots(roots: Seq<BrowserRootData>) -> Seq<BrowserRootData>
    decreases roots.len(),
{
    if roots.len() == 0 {
        Seq::empty()
    } else {
        insert_root(sorted_roots(roots.drop_last()), roots.last())
    }
}

/// `roots` with each root dropped whose path equals that of the root kept
/// just before it (what `dedup_by` on the path yields).
pub open spec fn dedup_roots(roots: Seq<BrowserRootData>) -> Seq<BrowserRootData>
    decreases roots.len(),
{
    if roots.len() == 0 {
        Seq::empty()
    } else {
        let kept = dedup_roots(roots.drop_last());
        if kept.len() > 0 && kept.last().path@ == roots.last().path@ {
            kept
        } else {
            kept.push(roots.last())
        }
    }
}

/// Compares two texts by code point.
fn text_le_chars(a: &Vec<char>, b: &Vec<char>) -> (result: bool)
    ensures
        result == text_le(a@, b@),
{
    let mut k: usize = 0;
    assert(a@.skip(0) == a@);
    assert(b@.skip(0) == b@);
    while k < a.len() && k < b.len() && a[k] == b[k]
        invariant
            k <= a.len(),
            k <= b.len(),
            text_le(a@, b@) == text_le(a@.skip(k as int), b@.skip(k as int)),
        decreases a.len() - k,
    {
        assert(a@.skip(k as int).skip(1) == a@.skip(k + 1));
        assert(b@.skip(k as int).skip(1) == b@.skip(k + 1));
        k = k + 1;
    }
    assert(a@.skip(k as int).len() == a@.len() - k);
    assert(b@.skip(k as int).len() == b@.len() - k);
    if k == a.len() {
        true
    } else if k == b.len() {
        false
    } else {
        assert(a@.skip(k as int)[0] == a@[k as int]);
        assert(b@.skip(k as int)[0] == b@[k as int]);
        a[k] < b[k]
    }
}

/// Sort key of a root: its rank and its lower-cased name.
struct RootKey {
    rank: u8,
    name: Vec<char>,
}

fn key_le(a: &RootKey, b: &RootKey) -> (result: bool)
    ensures
        result == (a.rank < b.rank || (a.rank == b.rank && text_le(a.name@, b.name@))),
{
    a.rank < b.rank || (a.rank == b.rank && text_le_chars(&a.name, &b.name))
}

proof fn lemma_insert_root(sorted: Seq<BrowserRootData>, x: BrowserRootData, j: int)
    requires
        0 <= j <= sorted.len(),
        forall|k: int| j <= k < sorted.len() ==> !root_le(#[trigger] sorted[k], x),
        j > 0 ==> root_le(sorted[j - 1], x),
    ensures
        insert_root(sorted, x) == sorted.take(j).push(x) + sorted.skip(j),
    decreases sorted.len(),
{
    if sorted.len() == 0 {
        assert(sorted.take(j).push(x) + sorted.skip(j) =~= seq![x]);
    } else if j == sorted.len() {
        assert(sorted.take(j) =~= sorted);
        assert(sorted.take(j).push(x) + sorted.skip(j) =~= sorted.push(x));
    } else {
        assert(!root_le(sorted[sorted.len() - 1], x));
        lemma_insert_root(sorted.drop_last(), x, j);
        assert(sorted.drop_last().take(j) =~= sorted.take(j));
        assert((sorted.take(j).push(x) + sorted.drop_last().skip(j)).push(sorted.last())
            =~= sorted.take(j).push(x) + sorted.skip(j));
    }
}

/// Orders roots for display: by kind (system, home, physical, network), then
/// by lower-cased name, keeping the given order among equals; then drops a
/// root whose path repeats that of the root kept just before it.
pub fn order_roots(roots: Vec<BrowserRootData>) -> (result: Vec<BrowserRootData>)
    ensures
        result@ == dedup_roots(sorted_roots(roots@)),
{
    let ghost original = roots@;
    let mut rest = roots;
    let mut sorted: Vec<BrowserRootData> = Vec::new();
    let mut keys: Vec<RootKey> = Vec::new();
    while rest.len() > 0
        invariant
            sorted@ == sorted_roots(original.take(original.len() - rest@.len())),
            rest@.len() <= original.len(),
            rest@ == original.skip(original.len() - rest@.len()),
            keys@.len() == sorted@.len(),
            forall|k: int|
                0 <= k < keys@.len() ==> (#[trigger] keys@[k]).rank == rank_of(sorted@[k].kind)
                    && keys@[k].name@ == unicode_lowercase(sorted@[k].name@),
        decreases rest@.len(),
    {
        let ghost done = original.take(original.len() - rest@.len());
        let x = rest.remove(0);
        let ghost done2 = original.take(original.len() - rest@.len());
        assert(done2.drop_last() =~= done);
        assert(done2.last() == x);
        let lowered = lowercase(x.name.as_str());
        let key = RootKey { rank: root_rank(x.kind), name: chars_of(lowered.as_str()) };
        let mut j: usize = sorted.len();
        while j > 0 && !key_le(&keys[j - 1], &key)
            invariant
                j <= sorted@.len(),
                keys@.len() == sorted@.len(),
                key.rank == rank_of(x.kind),
                key.name@ == unicode_lowercase(x.name@),
                forall|k: int|
                    0 <= k < keys@.len() ==> (#[trigger] keys@[k]).rank == rank_of(
                        sorted@[k].kind,
                    ) && keys@[k].name@ == unicode_lowercase(sorted@[k].name@),
                forall|k: int| j <= k < sorted@.len() ==> !root_le(#[trigger] sorted@[k], x),
            decreases j,
        {
            assert(!root_le(sorted@[j - 1], x));
            j = j - 1;
        }
        proof {
            if j > 0 {
                assert(root_le(sorted@[j - 1], x));
            }
            lemma_insert_root(sorted@, x, j as int);
        }
        let ghost old_sorted = sorted@;
        let ghost old_keys = keys@;
        sorted.insert(j, x);
        keys.insert(j, key);
        assert(sorted@ =~= old_sorted.take(j as int).push(x) + old_sorted.skip(j as int));
        assert forall|k: int| 0 <= k < keys@.len() implies (#[trigger] keys@[k]).rank == rank_of(
            sorted@[k].kind,
        ) && keys@[k].name@ == unicode_lowercase(sorted@[k].name@) by {
            if k < j {
                assert(keys@[k] == old_keys[k]);
            } else if k > j {
                assert(keys@[k] == old_keys[k - 1]);
            }
        }
    }
    assert(original.take(original.len() as int) =~= original);
    dedup_sorted(sorted)
}

fn dedup_sorted(roots: Vec<BrowserRootData>) -> (result: Vec<BrowserRootData>)
    ensures
        result@ == dedup_roots(roots@),
{
    let ghost original = roots@;
    let mut rest = roots;
    let mut kept: Vec<BrowserRootData> = Vec::new();
    let mut last_path: Vec<char> = Vec::new();
    while rest.len() > 0
        invariant
            rest@.len() <= original.len(),
            rest@ == original.skip(original.len() - rest@.len()),
            kept@ == dedup_roots(original.take(original.len() - rest@.len())),
            kept@.len() > 0 ==> last_path@ == kept@.last().path@,
        decreases rest@.len(),
    {
        let ghost done = original.take(original.len() - rest@.len());
        let x = rest.remove(0);
        let ghost done2 = original.take(original.len() - rest@.len());
        assert(done2.drop_last() =~= done);
        assert(done2.last() == x);
        let path = chars_of(x.path.as_str());
        if kept.len() > 0 && crate::text::chars_equal(&last_path, &path) {
        } else {
            last_path = path;
            kept.push(x);
        }
    }
    assert(original.take(original.len() as int) =~= original);
    kept
}

/// Every root of `roots` ranks at most `bound`.
pub open spec fn ranks_at_most(roots: Seq<BrowserRootData>, bound: u8) -> bool {
    forall|i: int| 0 <= i < roots.len() ==> rank_of(#[trigger] roots[i].kind) <= bound
}

/// No root repeats the path of the root just before it.
pub open spec fn adjacent_paths_differ(roots: Seq<BrowserRootData>) -> bool {
    forall|i: int, j: int| 0 <= i && j == i + 1 && j < roots.len() ==> #[trigger] roots[i].path@ != #[trigger] roots[j].path@
}

/// Roots in order of kind: system, home, physical volumes, network shares.
pub open spec fn ordered_by_kind(roots: Seq<BrowserRootData>) -> bool {
    forall|i: int, j: int| 0 <= i < j < roots.len() ==> rank_of(roots[i].kind) <= rank_of(roots[j].kind)
}

proof fn lemma_insert_bounded(sorted: Seq<BrowserRootData>, x: BrowserRootData, bound: u8)
    requires
        ranks_at_most(sorted, bound),
        rank_of(x.kind) <= bound,
    ensures
        ranks_at_most(insert_root(sorted, x), bound),
    decreases sorted.len(),
{
    if sorted.len() > 0 && !root_le(sorted.last(), x) {
        let rest = sorted.drop_last();
        assert(ranks_at_most(rest, bound)) by {
            assert forall|i: int| 0 <= i < rest.len() implies rank_of(#[trigger] rest[i].kind) <= bound by {
                assert(rest[i] == sorted[i]);
            }
        }
        lemma_insert_bounded(rest, x, bound);
    }
}

proof fn lemma_insert_ordered(sorted: Seq<BrowserRootData>, x: BrowserRootData)
    requires
        ordered_by_kind(sorted),
    ensures
        ordered_by_kind(insert_root(sorted, x)),
    decreases sorted.len(),
{
    if sorted.len() > 0 {
        let last = sorted.last();
        let rest = sorted.drop_last();
        assert(ranks_at_most(rest, rank_of(last.kind))) by {
            assert forall|i: int| 0 <= i < rest.len() implies rank_of(#[trigger] rest[i].kind) <= rank_of(last.kind) by {
                assert(rest[i] == sorted[i]);
            }
        }
        if !root_le(last, x) {
            assert(ordered_by_kind(rest)) by {
                assert forall|i: int, j: int| 0 <= i < j < rest.len() implies rank_of(rest[i].kind) <= rank_of(rest[j].kind) by {
                    assert(rest[i] == sorted[i] && rest[j] == sorted[j]);
                }
            }
            lemma_insert_ordered(rest, x);
            lemma_insert_bounded(rest, x, rank_of(last.kind));
            let inner = insert_root(rest, x);
            assert forall|i: int, j: int| 0 <= i < j < inner.len() + 1 implies rank_of(inner.push(last)[i].kind) <= rank_of(inner.push(last)[j].kind) by {
                if j == inner.len() {
                    assert(rank_of(inner[i].kind) <= rank_of(last.kind));
                }
            }
        } else {
            assert forall|i: int, j: int| 0 <= i < j < sorted.len() + 1 implies rank_of(sorted.push(x)[i].kind) <= rank_of(sorted.push(x)[j].kind) by {
                if j == sorted.len() && i < sorted.len() - 1 {
                    assert(rank_of(sorted[i].kind) <= rank_of(last.kind));
                }
            }
        }
    }
}

proof fn lemma_sorted_ordered(roots: Seq<BrowserRootData>)
    ensures
        ordered_by_kind(sorted_roots(roots)),
    decreases roots.len(),
{
    if roots.len() > 0 {
        lemma_sorted_ordered(roots.drop_last());
        lemma_insert_ordered(sorted_roots(roots.drop_last()), roots.last());
    }
}

proof fn lemma_dedup_ordered(roots: Seq<BrowserRootData>)
    requires
        ordered_by_kind(roots),
    ensures
        ordered_by_kind(dedup_roots(roots)),
        roots.len() > 0 ==> ranks_at_most(dedup_roots(roots), rank_of(roots.last().kind)),
        adjacent_paths_differ(dedup_roots(roots)),
    decreases roots.len(),
{
    if roots.len() > 0 {
        let rest = roots.drop_last();
        assert(ordered_by_kind(rest)) by {
            assert forall|i: int, j: int| 0 <= i < j < rest.len() implies rank_of(rest[i].kind) <= rank_of(rest[j].kind) by {
                assert(rest[i] == roots[i] && rest[j] == roots[j]);
            }
        }
        lemma_dedup_ordered(rest);
        let kept = dedup_roots(rest);
        if rest.len() > 0 {
            assert(rank_of(rest.last().kind) <= rank_of(roots.last().kind));
        }
        assert(ranks_at_most(kept, rank_of(roots.last().kind))) by {
            assert forall|i: int| 0 <= i < kept.len() implies rank_of(#[trigger] kept[i].kind) <= rank_of(roots.last().kind) by {
                assert(rest.len() > 0);
                assert(rank_of(kept[i].kind) <= rank_of(rest.last().kind));
            }
        }
        if !(kept.len() > 0 && kept.last().path@ == roots.last().path@) {
            let out = kept.push(roots.last());
            assert forall|i: int, j: int| 0 <= i < j < out.len() implies rank_of(out[i].kind) <= rank_of(out[j].kind) by {
                if j == kept.len() {
                    assert(rank_of(kept[i].kind) <= rank_of(roots.last().kind));
                } else {
                    assert(out[i] == kept[i] && out[j] == kept[j]);
                }
            }
            assert forall|i: int, j: int| 0 <= i && j == i + 1 && j < out.len() implies #[trigger] out[i].path@ != #[trigger] out[j].path@ by {
                if j < kept.len() {
                    assert(out[i] == kept[i] && out[j] == kept[j]);
                }
            }
        }
    }
}

/// The offered roots are grouped by kind (system, home, physical volumes,
/// network shares, in that order), and no root repeats the path of the one
/// before it.
pub proof fn law_roots_ordered_and_deduplicated(roots: Seq<BrowserRootData>)
    ensures
        ordered_by_kind(dedup_roots(sorted_roots(roots))),
        adjacent_paths_differ(dedup_roots(sorted_roots(roots))),
{
    lemma_sorted_ordered(roots);
    lemma_dedup_ordered(sorted_roots(roots));
}

proof fn lemma_text_le_total(a: Seq<char>, b: Seq<char>)
    ensures
        text_le(a, b) || text_le(b, a),
    decreases a.len(),
{
    if a.len() > 0 && b.len() > 0 && a[0] == b[0] {
        lemma_text_le_total(a.skip(1), b.skip(1));
    }
}

proof fn lemma_text_le_trans(a: Seq<char>, b: Seq<char>, c: Seq<char>)
    requires
        text_le(a, b),
        text_le(b, c),
    ensures
        text_le(a, c),
    decreases a.len(),
{
    if a.len() > 0 && b.len() > 0 && c.len() > 0 && a[0] == b[0] && b[0] == c[0] {
        lemma_text_le_trans(a.skip(1), b.skip(1), c.skip(1));
    }
}

proof fn lemma_root_le_total_trans(a: BrowserRootData, b: BrowserRootData, c: BrowserRootData)
    ensures
        root_le(a, b) || root_le(b, a),
        root_le(a, b) && root_le(b, c) ==> root_le(a, c),
{
    lemma_text_le_total(unicode_lowercase(a.name@), unicode_lowercase(b.name@));
    if root_le(a, b) && root_le(b, c) && rank_of(a.kind) == rank_of(b.kind) && rank_of(b.kind) == rank_of(c.kind) {
        lemma_text_le_trans(unicode_lowercase(a.name@), unicode_lowercase(b.name@), unicode_lowercase(c.name@));
    }
}

/// Every root of `roots` may stand before the next one, and before any
/// later one.
pub open spec fn in_display_order(roots: Seq<BrowserRootData>) -> bool {
    forall|i: int, j: int| 0 <= i < j < roots.len() ==> root_le(#[trigger] roots[i], #[trigger] roots[j])
}

/// Every root of `roots` may stand before `top`.
spec fn all_before(roots: Seq<BrowserRootData>, top: BrowserRootData) -> bool {
    forall|i: int| 0 <= i < roots.len() ==> root_le(#[trigger] roots[i], top)
}

proof fn lemma_insert_before(sorted: Seq<BrowserRootData>, x: BrowserRootData, top: BrowserRootData)
    requires
        all_before(sorted, top),
        root_le(x, top),
    ensures
        all_before(insert_root(sorted, x), top),
    decreases sorted.len(),
{
    if sorted.len() > 0 && !root_le(sorted.last(), x) {
        let rest = sorted.drop_last();
        assert(all_before(rest, top)) by {
            assert forall|i: int| 0 <= i < rest.len() implies root_le(#[trigger] rest[i], top) by {
                assert(rest[i] == sorted[i]);
            }
        }
        lemma_insert_before(rest, x, top);
        assert(root_le(sorted.last(), top)) by {
            assert(sorted.last() == sorted[sorted.len() - 1]);
        }
    }
}

proof fn lemma_insert_in_order(sorted: Seq<BrowserRootData>, x: BrowserRootData)
    requires
        in_display_order(sorted),
    ensures
        in_display_order(insert_root(sorted, x)),
    decreases sorted.len(),
{
    if sorted.len() > 0 {
        let last = sorted.last();
        let rest = sorted.drop_last();
        assert(all_before(rest, last)) by {
            assert forall|i: int| 0 <= i < rest.len() implies root_le(#[trigger] rest[i], last) by {
                assert(rest[i] == sorted[i] && last == sorted[sorted.len() - 1]);
            }
        }
        if root_le(last, x) {
            let out = sorted.push(x);
            assert forall|i: int, j: int| 0 <= i < j < out.len() implies root_le(#[trigger] out[i], #[trigger] out[j]) by {
                if j == sorted.len() {
                    if i < sorted.len() - 1 {
                        assert(root_le(rest[i], last));
                        lemma_root_le_total_trans(out[i], last, x);
                    }
                } else {
                    assert(out[i] == sorted[i] && out[j] == sorted[j]);
                }
            }
        } else {
            assert(in_display_order(rest)) by {
                assert forall|i: int, j: int| 0 <= i < j < rest.len() implies root_le(#[trigger] rest[i], #[trigger] rest[j]) by {
                    assert(rest[i] == sorted[i] && rest[j] == sorted[j]);
                }
            }
            lemma_root_le_total_trans(last, x, last);
            lemma_insert_in_order(rest, x);
            lemma_insert_before(rest, x, last);
            let inner = insert_root(rest, x);
            let out = inner.push(last);
            assert forall|i: int, j: int| 0 <= i < j < out.len() implies root_le(#[trigger] out[i], #[trigger] out[j]) by {
                if j == inner.len() {
                    assert(root_le(inner[i], last));
                } else {
                    assert(out[i] == inner[i] && out[j] == inner[j]);
                }
            }
        }
    }
}

proof fn lemma_sorted_in_order(roots: Seq<BrowserRootData>)
    ensures
        in_display_order(sorted_roots(roots)),
    decreases roots.len(),
{
    if roots.len() > 0 {
        lemma_sorted_in_order(roots.drop_last());
        lemma_insert_in_order(sorted_roots(roots.drop_last()), roots.last());
    }
}

proof fn lemma_dedup_in_order(roots: Seq<BrowserRootData>)
    requires
        in_display_order(roots),
    ensures
        in_display_order(dedup_roots(roots)),
        roots.len() > 0 ==> all_before(dedup_roots(roots), roots.last()),
    decreases roots.len(),
{
    if roots.len() > 0 {
        let rest = roots.drop_last();
        let last = roots.last();
        assert(in_display_order(rest)) by {
            assert forall|i: int, j: int| 0 <= i < j < rest.len() implies root_le(#[trigger] rest[i], #[trigger] rest[j]) by {
                assert(rest[i] == roots[i] && rest[j] == roots[j]);
            }
        }
        lemma_dedup_in_order(rest);
        let kept = dedup_roots(rest);
        assert(all_before(kept, last)) by {
            assert forall|i: int| 0 <= i < kept.len() implies root_le(#[trigger] kept[i], last) by {
                assert(rest.len() > 0);
                assert(root_le(kept[i], rest.last()));
                assert(root_le(rest.last(), last)) by {
                    assert(rest.last() == roots[roots.len() - 2] && last == roots[roots.len() - 1]);
                }
                lemma_root_le_total_trans(kept[i], rest.last(), last);
            }
        }
        lemma_root_le_total_trans(last, last, last);
        if !(kept.len() > 0 && kept.last().path@ == last.path@) {
            let out = kept.push(last);
            assert forall|i: int, j: int| 0 <= i < j < out.len() implies root_le(#[trigger] out[i], #[trigger] out[j]) by {
                if j == kept.len() {
                    assert(root_le(kept[i], last));
                } else {
                    assert(out[i] == kept[i] && out[j] == kept[j]);
                }
            }
            assert forall|i: int| 0 <= i < out.len() implies root_le(#[trigger] out[i], last) by {
                if i < kept.len() {
                    assert(out[i] == kept[i]);
                }
            }
        }
    }
}

/// Within a kind, the offered roots come in order of their lower-cased
/// names: every root may stand before every later one, by kind rank and
/// then by lower-cased name.
pub proof fn law_roots_named_in_order(roots: Seq<BrowserRootData>)
    ensures
        in_display_order(dedup_roots(sorted_roots(roots))),
        forall|i: int, j: int|
            0 <= i < j < dedup_roots(sorted_roots(roots)).len() && rank_of(
                (#[trigger] dedup_roots(sorted_roots(roots))[i]).kind,
            ) == rank_of((#[trigger] dedup_roots(sorted_roots(roots))[j]).kind) ==> text_le(
                unicode_lowercase(dedup_roots(sorted_roots(roots))[i].name@),
                unicode_lowercase(dedup_roots(sorted_roots(roots))[j].name@),
            ),
{
    lemma_sorted_in_order(roots);
    lemma_dedup_in_order(sorted_roots(roots));
    let out = dedup_roots(sorted_roots(roots));
    assert forall|i: int, j: int| 0 <= i < j < out.len() && rank_of((#[trigger] out[i]).kind) == rank_of((#[trigger] out[j]).kind) implies text_le(
        unicode_lowercase(out[i].name@),
        unicode_lowercase(out[j].name@),
    ) by {
        assert(root_le(out[i], out[j]));
    }
}

} // verus!
