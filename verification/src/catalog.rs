use vstd::prelude::*;

use crate::format::{res_le, res_lt, resolution_le, FrameFormatKind, Resolution};
use crate::selector::{index_eq, IndexKind};
use vstd::multiset::Multiset;
use vstd::seq_lib::lemma_multiset_commutative;

verus! {

broadcast use vstd::seq_lib::group_to_multiset_ensures, vstd::multiset::group_multiset_axioms;

/// One supported resolution together with the frame rates the device offers
/// at it. The rate list is kept exactly as the device reported it.
#[derive(Clone, Debug)]
pub struct ResolutionRates {
    pub resolution: Resolution,
    pub rates: Vec<u32>,
}

/// Strictly ordered by resolution: sorted, with no resolution repeated.
pub open spec fn strictly_sorted_by_resolution(s: Seq<ResolutionRates>) -> bool {
    forall|i: int, j: int| 0 <= i < j < s.len() ==> res_lt(s[i].resolution, s[j].resolution)
}

/// No two entries share a resolution.
pub open spec fn distinct_resolutions(s: Seq<ResolutionRates>) -> bool {
    forall|i: int, j: int| 0 <= i < j < s.len() ==> s[i].resolution != s[j].resolution
}

/// Inserting anywhere in a sequence adds exactly one occurrence to its
/// multiset of elements.
proof fn lemma_insert_to_multiset(s: Seq<ResolutionRates>, pos: int, x: ResolutionRates)
    requires
        0 <= pos <= s.len(),
    ensures
        s.insert(pos, x).to_multiset() == s.to_multiset().insert(x),
{
    let pre = s.subrange(0, pos);
    let post = s.subrange(pos, s.len() as int);
    lemma_multiset_commutative(pre.push(x), post);
    lemma_multiset_commutative(pre, post);
    assert(s =~= pre + post);
    assert(pre.push(x).to_multiset() =~= pre.to_multiset().insert(x));
    assert(pre.to_multiset().insert(x).add(post.to_multiset()) =~= pre.to_multiset().add(
        post.to_multiset(),
    ).insert(x));
}

/// Inserts `x` into a strictly sorted list, keeping it strictly sorted.
fn insert_sorted(v: &mut Vec<ResolutionRates>, x: ResolutionRates)
    requires
        strictly_sorted_by_resolution(old(v)@),
        forall|k: int| 0 <= k < old(v)@.len() ==> old(v)@[k].resolution != x.resolution,
    ensures
        strictly_sorted_by_resolution(final(v)@),
        final(v)@.to_multiset() == old(v)@.to_multiset().insert(x),
        forall|k: int|
            0 <= k < final(v)@.len() ==> final(v)@[k] == x || old(v)@.contains(final(v)@[k]),
{
    let mut pos: usize = 0;
    while pos < v.len() && !resolution_le(&x.resolution, &v[pos].resolution)
        invariant
            pos <= v@.len(),
            v@ == old(v)@,
            forall|k: int| 0 <= k < pos ==> res_lt(v@[k].resolution, x.resolution),
        decreases v@.len() - pos,
    {
        pos = pos + 1;
    }
    let ghost prev = v@;
    v.insert(pos, x);
    proof {
        lemma_insert_to_multiset(prev, pos as int, x);
        prev.insert_ensures(pos as int, x);
        assert forall|j: int| pos < j < v@.len() implies res_lt(
            x.resolution,
            #[trigger] v@[j].resolution,
        ) by {
            assert(v@[j] == prev[j - 1]);
            assert(res_le(x.resolution, prev[pos as int].resolution));
            assert(prev[pos as int].resolution != x.resolution);
            if j - 1 > pos {
                assert(res_lt(prev[pos as int].resolution, prev[j - 1].resolution));
            }
        }
        assert(strictly_sorted_by_resolution(v@));
    }
}

/// Sorts a combination list by resolution, width first and height second: a
/// deterministic pure function of the entries, independent of the order the
/// device reported them in. The input comes from a map keyed by resolution,
/// so no two entries share one; the result is the same entries, strictly
/// ordered.
pub fn sort_combos(combos: Vec<ResolutionRates>) -> (r: Vec<ResolutionRates>)
    requires
        distinct_resolutions(combos@),
    ensures
        strictly_sorted_by_resolution(r@),
        r@.to_multiset() == combos@.to_multiset(),
{
    let mut rest = combos;
    let mut out: Vec<ResolutionRates> = Vec::new();
    while rest.len() > 0
        invariant
            distinct_resolutions(rest@),
            strictly_sorted_by_resolution(out@),
            out@.to_multiset().add(rest@.to_multiset()) == combos@.to_multiset(),
            forall|a: int, b: int|
                0 <= a < out@.len() && 0 <= b < rest@.len() ==> out@[a].resolution
                    != rest@[b].resolution,
        decreases rest@.len(),
    {
        let ghost prev = rest@;
        let ghost old_out = out@;
        let x = match rest.pop() {
            Some(x) => x,
            None => {
                proof {
                    assert(false);
                }
                return out;
            },
        };
        proof {
            assert(prev.drop_last() =~= prev.subrange(0, prev.len() - 1));
            assert(prev.remove(prev.len() - 1) =~= prev.drop_last());
            assert(prev.contains(x)) by {
                assert(prev[prev.len() - 1] == x);
            }
            assert(rest@.to_multiset() == prev.to_multiset().remove(x));
            assert(rest@.to_multiset().insert(x) =~= prev.to_multiset());
        }
        insert_sorted(&mut out, x);
        proof {
            assert(out@.to_multiset().add(rest@.to_multiset()) =~= combos@.to_multiset());
            assert(forall|a: int, b: int|
                0 <= a < out@.len() && 0 <= b < rest@.len() ==> out@[a].resolution
                    != rest@[b].resolution) by {
                assert(forall|b: int| 0 <= b < rest@.len() ==> rest@[b] == prev[b]);
                assert(forall|a: int|
                    0 <= a < out@.len() && out@[a] != x ==> old_out.contains(#[trigger] out@[a]));
            }
        }
    }
    out
}

/// The supported (resolution, frame-rate set) combinations of one
/// frame-format kind, strictly ordered by resolution.
pub struct CompatibleFormatEntry {
    pub kind: FrameFormatKind,
    pub combos: Vec<ResolutionRates>,
}

/// A catalog entry is non-empty and strictly ordered by resolution.
pub open spec fn entry_well_formed(e: CompatibleFormatEntry) -> bool {
    e.combos@.len() > 0 && strictly_sorted_by_resolution(e.combos@)
}

/// The kinds and combination multisets that a sequence of per-kind query
/// results yields once kinds with no combinations are omitted, in query
/// order.
pub open spec fn compatible_catalog(results: Seq<(FrameFormatKind, Vec<ResolutionRates>)>) -> Seq<
    (FrameFormatKind, Multiset<ResolutionRates>),
>
    decreases results.len(),
{
    if results.len() == 0 {
        Seq::empty()
    } else {
        let rest = compatible_catalog(results.drop_first());
        if results.first().1@.len() > 0 {
            seq![(results.first().0, results.first().1@.to_multiset())] + rest
        } else {
            rest
        }
    }
}

/// Builds the compatible-format catalog from per-kind query results, in query
/// order: a kind with no combinations is omitted entirely, and each kept
/// kind's combinations are sorted by resolution. Each per-kind list comes
/// from a map keyed by resolution, so no two of its entries share one.
pub fn build_catalog(results: Vec<(FrameFormatKind, Vec<ResolutionRates>)>) -> (r: Vec<
    CompatibleFormatEntry,
>)
    requires
        forall|i: int| 0 <= i < results@.len() ==> distinct_resolutions(results@[i].1@),
    ensures
        r@.map_values(|e: CompatibleFormatEntry| (e.kind, e.combos@.to_multiset()))
            == compatible_catalog(results@),
        forall|i: int| 0 <= i < r@.len() ==> entry_well_formed(#[trigger] r@[i]),
{
    let mut rest = results;
    let mut out: Vec<CompatibleFormatEntry> = Vec::new();
    while rest.len() > 0
        invariant
            forall|i: int| 0 <= i < rest@.len() ==> distinct_resolutions(#[trigger] rest@[i].1@),
            compatible_catalog(results@) == out@.map_values(
                |e: CompatibleFormatEntry| (e.kind, e.combos@.to_multiset()),
            ) + compatible_catalog(rest@),
            forall|i: int| 0 <= i < out@.len() ==> entry_well_formed(#[trigger] out@[i]),
        decreases rest@.len(),
    {
        let ghost prev = rest@;
        let ghost old_out = out@;
        let (kind, combos) = rest.remove(0);
        proof {
            assert(prev.remove(0) =~= prev.drop_first());
        }
        if combos.len() > 0 {
            proof {
                assert(distinct_resolutions(prev[0].1@));
            }
            let sorted = sort_combos(combos);
            proof {
                assert(sorted@.len() == sorted@.to_multiset().len());
                assert(combos@.len() == combos@.to_multiset().len());
            }
            let entry = CompatibleFormatEntry { kind, combos: sorted };
            out.push(entry);
            proof {
                assert(entry_well_formed(entry));
                assert(out@.map_values(|e: CompatibleFormatEntry| (e.kind, e.combos@.to_multiset()))
                    =~= old_out.map_values(
                    |e: CompatibleFormatEntry| (e.kind, e.combos@.to_multiset()),
                ) + seq![(prev.first().0, prev.first().1@.to_multiset())]);
            }
        } else {
            proof {
                assert(out@.map_values(|e: CompatibleFormatEntry| (e.kind, e.combos@.to_multiset()))
                    =~= old_out.map_values(
                    |e: CompatibleFormatEntry| (e.kind, e.combos@.to_multiset()),
                ));
            }
        }
    }
    proof {
        assert(compatible_catalog(rest@) =~= Seq::empty());
        assert(out@.map_values(|e: CompatibleFormatEntry| (e.kind, e.combos@.to_multiset())) =~=
            compatible_catalog(results@));
    }
    out
}

/// A device as reported by the backend. Its identity is the index alone: two
/// descriptors are equal exactly when their indices are, whatever their
/// labels say.
pub struct DeviceDescriptor {
    pub index: IndexKind,
    pub label: String,
}

/// Descriptor equality: the index decides, the label does not.
pub open spec fn descriptor_eq(a: DeviceDescriptor, b: DeviceDescriptor) -> bool {
    index_eq(a.index, b.index)
}

impl PartialEq for DeviceDescriptor {
    fn eq(&self, other: &DeviceDescriptor) -> (r: bool) {
        self.index.same_selector(&other.index)
    }
}

impl vstd::std_specs::cmp::PartialEqSpecImpl for DeviceDescriptor {
    open spec fn obeys_eq_spec() -> bool {
        true
    }

    open spec fn eq_spec(&self, other: &DeviceDescriptor) -> bool {
        index_eq(self.index, other.index)
    }
}

/// The admissible values of one device control: a discrete range, a boolean
/// toggle, or an enumerated menu.
pub enum ControlDomain {
    DiscreteRange { min: i64, max: i64, step: i64 },
    Boolean,
    Menu { choices: Vec<i64> },
}

/// A read-only snapshot of one device control, taken at introspection time
/// and never mutated by this core.
pub struct Control {
    pub identifier: String,
    pub name: String,
    pub domain: ControlDomain,
    pub value: i64,
}

/// A snapshot is well formed when its current value is admissible: inside
/// the range, a boolean 0 or 1, or one of the menu choices.
pub open spec fn control_well_formed(c: Control) -> bool {
    match c.domain {
        ControlDomain::DiscreteRange { min, max, step } => min <= c.value <= max,
        ControlDomain::Boolean => c.value == 0 || c.value == 1,
        ControlDomain::Menu { choices } => choices@.contains(c.value),
    }
}

/// Whether a vector holds `x`.
fn contains_i64(v: &Vec<i64>, x: i64) -> (r: bool)
    ensures
        r == v@.contains(x),
{
    let mut i: usize = 0;
    while i < v.len()
        invariant
            i <= v@.len(),
            forall|k: int| 0 <= k < i ==> v@[k] != x,
        decreases v@.len() - i,
    {
        if v[i] == x {
            return true;
        }
        i = i + 1;
    }
    false
}

/// Decides control well-formedness, for snapshots arriving from a backend.
pub fn control_is_well_formed(c: &Control) -> (r: bool)
    ensures
        r == control_well_formed(*c),
{
    match &c.domain {
        ControlDomain::DiscreteRange { min, max, step: _ } => *min <= c.value && c.value <= *max,
        ControlDomain::Boolean => c.value == 0 || c.value == 1,
        ControlDomain::Menu { choices } => contains_i64(choices, c.value),
    }
}

} // verus!
