use vstd::prelude::*;
use itertools::Itertools;

use crate::model::{mentions, EnumDef, FieldDef, ModelType, Variant};
use crate::text::strs;

verus! {

/// A struct synthesized for an inline-record variant of a tagged union.
///
/// It carries the fields and comments of the variant at `variant_index`,
/// under the name `name` and with the generic parameters `generic_params`.
pub struct HoistedRecord {
    pub variant_index: usize,
    pub name: String,
    pub generic_params: Vec<String>,
}

/// The names of `gs` that occur in `t`, in the order of `gs`.
pub open spec fn picked(gs: Seq<Seq<char>>, t: ModelType) -> Seq<Seq<char>>
    decreases gs.len(),
{
    if gs.len() == 0 {
        Seq::empty()
    } else if mentions(t, gs.last()) {
        picked(gs.drop_last(), t).push(gs.last())
    } else {
        picked(gs.drop_last(), t)
    }
}

/// For each field in turn, the names of `gs` that its type mentions.
pub open spec fn candidate_generics(gs: Seq<Seq<char>>, fields: Seq<FieldDef>) -> Seq<Seq<char>>
    decreases fields.len(),
{
    if fields.len() == 0 {
        Seq::empty()
    } else {
        candidate_generics(gs, fields.drop_last()) + picked(gs, fields.last().ty)
    }
}

/// `s` with every element after its first occurrence removed.
pub open spec fn dedup(s: Seq<Seq<char>>) -> Seq<Seq<char>>
    decreases s.len(),
{
    if s.len() == 0 {
        Seq::empty()
    } else {
        let d = dedup(s.drop_last());
        if d.contains(s.last()) {
            d
        } else {
            d.push(s.last())
        }
    }
}

/// The generic parameters of an enclosing union that a record's fields use.
pub open spec fn referenced_generics(gs: Seq<Seq<char>>, fields: Seq<FieldDef>) -> Seq<Seq<char>> {
    dedup(candidate_generics(gs, fields))
}

/// The positions of the inline-record variants, in order.
pub open spec fn inline_positions(vs: Seq<Variant>) -> Seq<int>
    decreases vs.len(),
{
    if vs.len() == 0 {
        Seq::empty()
    } else if vs.last() is InlineRecord {
        inline_positions(vs.drop_last()).push(vs.len() - 1)
    } else {
        inline_positions(vs.drop_last())
    }
}

pub open spec fn record_fields(v: Variant) -> Seq<FieldDef> {
    match v {
        Variant::InlineRecord { fields, .. } => fields@,
        _ => Seq::empty(),
    }
}

pub open spec fn hoisted_name(enum_name: Seq<char>, variant_name: Seq<char>) -> Seq<char> {
    enum_name + variant_name + "Inner"@
}

/// `r` describes the record synthesized for the inline-record variant at `pos` of `e`.
pub open spec fn hoisted_for(e: EnumDef, pos: int, r: HoistedRecord) -> bool {
    match e {
        EnumDef::UnitEnum { .. } => false,
        EnumDef::TaggedUnion { shared, variants, .. } => {
            &&& r.variant_index == pos
            &&& 0 <= pos < variants@.len()
            &&& variants@[pos] is InlineRecord
            &&& r.name@ == hoisted_name(shared.id.original@, variants@[pos].spec_shared().id.original@)
            &&& strs(r.generic_params@) == referenced_generics(
                strs(shared.generic_params@),
                record_fields(variants@[pos]),
            )
        },
    }
}

/// The records synthesized for `e`: one per inline-record variant, in variant order.
pub open spec fn hoisting_of(e: EnumDef, rs: Seq<HoistedRecord>) -> bool {
    match e {
        EnumDef::UnitEnum { .. } => rs.len() == 0,
        EnumDef::TaggedUnion { variants, .. } => {
            &&& rs.len() == inline_positions(variants@).len()
            &&& forall|k: int|
                0 <= k < rs.len() ==> #[trigger] hoisted_for(e, inline_positions(variants@)[k], rs[k])
        },
    }
}

/// Relies on itertools::Itertools::unique: first occurrences only, in their order.
#[verifier::external_body]
fn unique_names(v: Vec<String>) -> (r: Vec<String>)
    ensures
        strs(r@) == dedup(strs(v@)),
{
    v.into_iter().unique().collect()
}

/// The generic parameters among `generics` that `fields` use, each once, in order of first use.
pub fn anonymous_struct_generics(generics: &Vec<String>, fields: &Vec<FieldDef>) -> (r: Vec<String>)
    ensures
        strs(r@) == referenced_generics(strs(generics@), fields@),
{
    let mut cands: Vec<String> = Vec::new();
    let mut i: usize = 0;
    while i < fields.len()
        invariant
            i <= fields@.len(),
            strs(cands@) == candidate_generics(strs(generics@), fields@.take(i as int)),
        decreases fields@.len() - i,
    {
        let ghost before = strs(cands@);
        let mut j: usize = 0;
        while j < generics.len()
            invariant
                i < fields@.len(),
                j <= generics@.len(),
                strs(cands@) == before + picked(strs(generics@).take(j as int), fields@[i as int].ty),
            decreases generics@.len() - j,
        {
            proof {
                assert(strs(generics@).take(j + 1).drop_last() =~= strs(generics@).take(j as int));
            }
            proof {
                assert(strs(generics@).take(j + 1).last() == generics@[j as int]@);
            }
            if fields[i].ty.contains_type(&generics[j]) {
                let ghost prev = cands@;
                cands.push(generics[j].clone());
                proof {
                    assert(strs(cands@) =~= strs(prev).push(generics@[j as int]@));
                    assert(strs(cands@) =~= before + picked(
                        strs(generics@).take(j + 1),
                        fields@[i as int].ty,
                    ));
                }
            }
            j = j + 1;
        }
        proof {
            assert(strs(generics@).take(generics@.len() as int) =~= strs(generics@));
            assert(fields@.take(i + 1).drop_last() =~= fields@.take(i as int));
        }
        i = i + 1;
    }
    proof {
        assert(fields@.take(fields@.len() as int) =~= fields@);
    }
    unique_names(cands)
}

/// Synthesizes the records for the inline-record variants of `e`, in variant order.
pub fn hoist_anonymous_structs(e: &EnumDef) -> (r: Vec<HoistedRecord>)
    ensures
        hoisting_of(*e, r@),
{
    let mut out: Vec<HoistedRecord> = Vec::new();
    match e {
        EnumDef::UnitEnum { .. } => {},
        EnumDef::TaggedUnion { shared, variants, .. } => {
            let mut i: usize = 0;
            while i < variants.len()
                invariant
                    *e == (EnumDef::TaggedUnion { shared: *shared, content_key: e->content_key, variants: *variants }),
                    i <= variants@.len(),
                    out@.len() == inline_positions(variants@.take(i as int)).len(),
                    forall|k: int| 0 <= k < out@.len() ==> #[trigger] hoisted_for(*e, inline_positions(variants@.take(i as int))[k], out@[k]),
                decreases variants@.len() - i,
            {
                proof {
                    assert(variants@.take(i + 1).drop_last() =~= variants@.take(i as int));
                }
                match &variants[i] {
                    Variant::InlineRecord { shared: vs, fields } => {
                        let mut name = shared.id.original.clone();
                        name.append(vs.id.original.as_str());
                        name.append("Inner");
                        let generic_params = anonymous_struct_generics(&shared.generic_params, fields);
                        out.push(HoistedRecord { variant_index: i, name, generic_params });
                    },
                    _ => {},
                }
                i = i + 1;
            }
            proof {
                assert(variants@.take(variants@.len() as int) =~= variants@);
            }
        },
    }
    out
}

proof fn lemma_dedup_contains(s: Seq<Seq<char>>)
    ensures
        forall|x: Seq<char>| #![trigger dedup(s).contains(x)] #![trigger s.contains(x)]
            dedup(s).contains(x) <==> s.contains(x),
        dedup(s).no_duplicates(),
    decreases s.len(),
{
    if s.len() > 0 {
        lemma_dedup_contains(s.drop_last());
        assert(s =~= s.drop_last().push(s.last()));
        assert forall|x: Seq<char>| dedup(s).contains(x) <==> s.contains(x) by {
            if s.contains(x) && x != s.last() {
                let i = choose|i: int| 0 <= i < s.len() && s[i] == x;
                assert(s.drop_last()[i] == x);
            }
            if s.drop_last().contains(x) {
                let i = choose|i: int| 0 <= i < s.drop_last().len() && s.drop_last()[i] == x;
                assert(s[i] == x);
            }
            if dedup(s.drop_last()).push(s.last()).contains(x) && x != s.last() {
                let i = choose|i: int| 0 <= i < dedup(s.drop_last()).len() + 1
                    && dedup(s.drop_last()).push(s.last())[i] == x;
                assert(dedup(s.drop_last())[i] == x);
            }
            if dedup(s.drop_last()).contains(x) {
                let i = choose|i: int| 0 <= i < dedup(s.drop_last()).len() && dedup(s.drop_last())[i] == x;
                assert(dedup(s.drop_last()).push(s.last())[i] == x);
            }
            assert(s[s.len() - 1] == s.last());
            assert(dedup(s.drop_last()).push(s.last())[dedup(s.drop_last()).len() as int] == s.last());
        }
    }
}

proof fn lemma_picked_contains(gs: Seq<Seq<char>>, t: ModelType)
    ensures
        forall|g: Seq<char>| #![trigger picked(gs, t).contains(g)]
            picked(gs, t).contains(g) <==> (gs.contains(g) && mentions(t, g)),
    decreases gs.len(),
{
    if gs.len() > 0 {
        lemma_picked_contains(gs.drop_last(), t);
        assert forall|g: Seq<char>| picked(gs, t).contains(g) <==> (gs.contains(g) && mentions(t, g)) by {
            let p = picked(gs.drop_last(), t);
            if gs.contains(g) && g != gs.last() {
                let i = choose|i: int| 0 <= i < gs.len() && gs[i] == g;
                assert(gs.drop_last()[i] == g);
            }
            if gs.drop_last().contains(g) {
                let i = choose|i: int| 0 <= i < gs.drop_last().len() && gs.drop_last()[i] == g;
                assert(gs[i] == g);
            }
            if p.push(gs.last()).contains(g) && g != gs.last() {
                let i = choose|i: int| 0 <= i < p.len() + 1 && p.push(gs.last())[i] == g;
                assert(p[i] == g);
            }
            if p.contains(g) {
                let i = choose|i: int| 0 <= i < p.len() && p[i] == g;
                assert(p.push(gs.last())[i] == g);
            }
            assert(gs[gs.len() - 1] == gs.last());
            assert(p.push(gs.last())[p.len() as int] == gs.last());
        }
    }
}

proof fn lemma_candidates_contains(gs: Seq<Seq<char>>, fields: Seq<FieldDef>)
    ensures
        forall|g: Seq<char>| #![trigger candidate_generics(gs, fields).contains(g)]
            candidate_generics(gs, fields).contains(g) <==> (gs.contains(g) && exists|i: int|
                0 <= i < fields.len() && mentions(#[trigger] fields[i].ty, g)),
    decreases fields.len(),
{
    if fields.len() > 0 {
        let init = fields.drop_last();
        lemma_candidates_contains(gs, init);
        lemma_picked_contains(gs, fields.last().ty);
        assert forall|g: Seq<char>|
            candidate_generics(gs, fields).contains(g) <==> (gs.contains(g) && exists|i: int|
                0 <= i < fields.len() && mentions(#[trigger] fields[i].ty, g)) by {
            let a = candidate_generics(gs, init);
            let b = picked(gs, fields.last().ty);
            assert(candidate_generics(gs, fields) == a + b);
            assert(fields.last() == fields[fields.len() - 1]);
            if (a + b).contains(g) {
                let k = choose|k: int| 0 <= k < (a + b).len() && (a + b)[k] == g;
                if k < a.len() {
                    assert(a[k] == g);
                    assert(a.contains(g));
                    assert(exists|i: int| 0 <= i < init.len() && mentions(#[trigger] init[i].ty, g));
                    let i = choose|i: int| 0 <= i < init.len() && mentions(#[trigger] init[i].ty, g);
                    assert(fields[i] == init[i]);
                } else {
                    assert(b[k - a.len()] == g);
                    assert(b.contains(g));
                    assert(mentions(fields[fields.len() - 1].ty, g));
                }
            }
            if gs.contains(g) && exists|i: int| 0 <= i < fields.len() && mentions(#[trigger] fields[i].ty, g) {
                let i = choose|i: int| 0 <= i < fields.len() && mentions(#[trigger] fields[i].ty, g);
                if i < init.len() {
                    assert(init[i] == fields[i]);
                    assert(a.contains(g));
                    let k = choose|k: int| 0 <= k < a.len() && a[k] == g;
                    assert((a + b)[k] == g);
                } else {
                    assert(b.contains(g));
                    let k = choose|k: int| 0 <= k < b.len() && b[k] == g;
                    assert((a + b)[a.len() + k] == g);
                }
            }
        }
    }
}

/// The generic parameters of a synthesized record are exactly those of the
/// enclosing union that some field of the record mentions, each listed once;
/// when no field mentions any of them, the list is empty.
pub proof fn lemma_hoisted_generics_exact(gs: Seq<Seq<char>>, fields: Seq<FieldDef>)
    ensures
        forall|g: Seq<char>| #![trigger referenced_generics(gs, fields).contains(g)]
            referenced_generics(gs, fields).contains(g) <==> (gs.contains(g) && exists|i: int|
                0 <= i < fields.len() && mentions(#[trigger] fields[i].ty, g)),
        referenced_generics(gs, fields).no_duplicates(),
        (forall|g: Seq<char>, i: int| gs.contains(g) && 0 <= i < fields.len() ==> !#[trigger] mentions(fields[i].ty, g))
            ==> referenced_generics(gs, fields).len() == 0,
{
    lemma_candidates_contains(gs, fields);
    lemma_dedup_contains(candidate_generics(gs, fields));
    let r = referenced_generics(gs, fields);
    if (forall|g: Seq<char>, i: int| gs.contains(g) && 0 <= i < fields.len() ==> !#[trigger] mentions(fields[i].ty, g)) && r.len() > 0 {
        let g = r[0];
        assert(r.contains(g));
        let i = choose|i: int| 0 <= i < fields.len() && mentions(#[trigger] fields[i].ty, g);
        assert(!mentions(fields[i].ty, g));
    }
}

/// Hoisting depends on the union alone: two runs over equal unions give
/// records with the same variant positions, names and generic parameters, in the same order.
pub proof fn lemma_hoisting_deterministic(e: EnumDef, r1: Seq<HoistedRecord>, r2: Seq<HoistedRecord>)
    requires
        hoisting_of(e, r1),
        hoisting_of(e, r2),
    ensures
        r1.len() == r2.len(),
        forall|k: int| 0 <= k < r1.len() ==> {
            &&& r1[k].variant_index == r2[k].variant_index
            &&& r1[k].name@ == r2[k].name@
            &&& strs(r1[k].generic_params@) == strs(r2[k].generic_params@)
        },
{
    match e {
        EnumDef::UnitEnum { .. } => {},
        EnumDef::TaggedUnion { variants, .. } => {
            assert forall|k: int| 0 <= k < r1.len() implies {
                &&& r1[k].variant_index == r2[k].variant_index
                &&& r1[k].name@ == r2[k].name@
                &&& strs(r1[k].generic_params@) == strs(r2[k].generic_params@)
            } by {
                assert(hoisted_for(e, inline_positions(variants@)[k], r1[k]));
                assert(hoisted_for(e, inline_positions(variants@)[k], r2[k]));
            }
        },
    }
}

/// A union none of whose variants is an inline record gets no synthesized records.
pub proof fn lemma_no_inline_records(vs: Seq<Variant>)
    requires
        forall|i: int| 0 <= i < vs.len() ==> !(#[trigger] vs[i] is InlineRecord),
    ensures
        inline_positions(vs).len() == 0,
    decreases vs.len(),
{
    if vs.len() > 0 {
        assert(!(vs[vs.len() - 1] is InlineRecord));
        assert forall|i: int| 0 <= i < vs.drop_last().len() implies !(#[trigger] vs.drop_last()[i] is InlineRecord) by {
            assert(vs.drop_last()[i] == vs[i]);
        }
        lemma_no_inline_records(vs.drop_last());
    }
}

} // verus!
