//! A value-level model of the builder protocol that the generated
//! declarations describe: one builder instance starts at the first stage,
//! supplies one required field per forwarding step, reaches the terminal
//! stage with every optional field absent, applies any sequence of setter
//! calls, and finalizes. The laws of that protocol are proved here.

use vstd::prelude::*;

verus! {

/// The terminal stage as first reached: every optional field absent.
pub open spec fn absent_all<V>(opt_names: Seq<Seq<char>>) -> Map<Seq<char>, Option<V>> {
    Map::new(|f: Seq<char>| opt_names.contains(f), |f: Seq<char>| None)
}

/// The optional-field values after a sequence of setter calls, each call
/// unconditionally overwriting one field with the wrapper value given
/// (present or absent).
pub open spec fn apply_setter_calls<V>(
    init: Map<Seq<char>, Option<V>>,
    calls: Seq<(Seq<char>, Option<V>)>,
) -> Map<Seq<char>, Option<V>>
    decreases calls.len(),
{
    if calls.len() == 0 {
        init
    } else {
        apply_setter_calls(init, calls.drop_last()).insert(calls.last().0, calls.last().1)
    }
}

/// The argument of the last call that wrote field `f`, if any call did.
pub open spec fn last_write<V>(calls: Seq<(Seq<char>, Option<V>)>, f: Seq<char>) -> Option<
    Option<V>,
>
    decreases calls.len(),
{
    if calls.len() == 0 {
        None
    } else if calls.last().0 == f {
        Some(calls.last().1)
    } else {
        last_write(calls.drop_last(), f)
    }
}

/// The required-field values accumulated along the builder chain, one
/// forwarding step per required field.
pub open spec fn chain_values<V>(req_names: Seq<Seq<char>>, req_vals: Seq<V>) -> Map<
    Seq<char>,
    V,
>
    decreases req_names.len(),
{
    if req_names.len() == 0 {
        Map::empty()
    } else {
        chain_values(req_names.drop_last(), req_vals.drop_last()).insert(
            req_names.last(),
            req_vals.last(),
        )
    }
}

/// Law of setter confluence: for every interleaving, ordering, and number
/// of optional-field setter calls on the terminal stage, the finalized
/// value of each optional field equals the argument of the last call that
/// set that field, or stays absent (its initial value) when no call did.
/// The outcome at one field depends on nothing but that field's own last
/// call.
pub proof fn lemma_setters_last_write_wins<V>(
    init: Map<Seq<char>, Option<V>>,
    calls: Seq<(Seq<char>, Option<V>)>,
    f: Seq<char>,
)
    requires
        init.contains_key(f),
    ensures
        apply_setter_calls(init, calls).contains_key(f),
        apply_setter_calls(init, calls)[f] == (match last_write(calls, f) {
            Some(v) => v,
            None => init[f],
        }),
    decreases calls.len(),
{
    if calls.len() > 0 {
        lemma_setters_last_write_wins(init, calls.drop_last(), f);
    }
}

/// Setter calls never reach outside the optional fields: the domain of
/// the terminal stage's values is unchanged by any sequence of calls that
/// each write an existing field.
pub proof fn lemma_setters_preserve_dom<V>(
    init: Map<Seq<char>, Option<V>>,
    calls: Seq<(Seq<char>, Option<V>)>,
)
    requires
        forall|c: int| 0 <= c < calls.len() ==> init.contains_key(#[trigger] calls[c].0),
    ensures
        apply_setter_calls(init, calls).dom() == init.dom(),
    decreases calls.len(),
{
    if calls.len() > 0 {
        assert(forall|c: int|
            0 <= c < calls.drop_last().len() ==> init.contains_key(
                #[trigger] calls.drop_last()[c].0,
            ));
        lemma_setters_preserve_dom(init, calls.drop_last());
        assert(calls[calls.len() - 1].0 == calls.last().0);
        assert(apply_setter_calls(init, calls).dom() =~= init.dom());
    }
}

/// Confluence across whole call sequences: two sequences of setter calls
/// that agree on each field's last write finalize to identical values,
/// whatever their interleaving.
pub proof fn lemma_setters_confluent<V>(
    init: Map<Seq<char>, Option<V>>,
    calls1: Seq<(Seq<char>, Option<V>)>,
    calls2: Seq<(Seq<char>, Option<V>)>,
)
    requires
        forall|c: int| 0 <= c < calls1.len() ==> init.contains_key(#[trigger] calls1[c].0),
        forall|c: int| 0 <= c < calls2.len() ==> init.contains_key(#[trigger] calls2[c].0),
        forall|f: Seq<char>|
            init.contains_key(f) ==> last_write(calls1, f) == last_write(calls2, f),
    ensures
        apply_setter_calls(init, calls1) == apply_setter_calls(init, calls2),
{
    lemma_setters_preserve_dom(init, calls1);
    lemma_setters_preserve_dom(init, calls2);
    assert forall|f: Seq<char>|
        apply_setter_calls(init, calls1).dom().contains(f) implies apply_setter_calls(
        init,
        calls1,
    )[f] == apply_setter_calls(init, calls2)[f] by {
        lemma_setters_last_write_wins(init, calls1, f);
        lemma_setters_last_write_wins(init, calls2, f);
    }
    assert(apply_setter_calls(init, calls1) =~= apply_setter_calls(init, calls2));
}

/// The chain records exactly the supplied required values: with pairwise
/// distinct required field names, the accumulated values map each name to
/// the value supplied for it, and nothing else.
pub proof fn lemma_chain_records_values<V>(req_names: Seq<Seq<char>>, req_vals: Seq<V>)
    requires
        req_names.len() == req_vals.len(),
        req_names.no_duplicates(),
    ensures
        chain_values(req_names, req_vals).dom() =~= req_names.to_set(),
        forall|i: int|
            0 <= i < req_names.len() ==> chain_values(req_names, req_vals).contains_key(
                #[trigger] req_names[i],
            ) && chain_values(req_names, req_vals)[req_names[i]] == req_vals[i],
    decreases req_names.len(),
{
    if req_names.len() > 0 {
        lemma_chain_records_values(req_names.drop_last(), req_vals.drop_last());
        assert(req_names.drop_last().to_set() =~= req_names.to_set().remove(req_names.last()))
            by {
            assert forall|f: Seq<char>|
                req_names.drop_last().to_set().contains(f) implies req_names.to_set().remove(
                req_names.last(),
            ).contains(f) by {
                let i = choose|i: int|
                    0 <= i < req_names.drop_last().len() && req_names.drop_last()[i] == f;
                assert(req_names[i] == f);
                assert(f != req_names.last());
            }
            assert forall|f: Seq<char>|
                req_names.to_set().remove(req_names.last()).contains(f)
                implies req_names.drop_last().to_set().contains(f) by {
                let i = choose|i: int| 0 <= i < req_names.len() && req_names[i] == f;
                assert(i < req_names.len() - 1);
                assert(req_names.drop_last()[i] == f);
            }
        }
        assert forall|i: int| 0 <= i < req_names.len() implies chain_values(
            req_names,
            req_vals,
        ).contains_key(#[trigger] req_names[i]) && chain_values(req_names, req_vals)[req_names[i]]
            == req_vals[i] by {
            if i < req_names.len() - 1 {
                assert(req_names[i] == req_names.drop_last()[i]);
                assert(req_names[i] != req_names.last());
            }
        }
    }
}

/// Round-trip law: invoking the chain with required values, then any
/// sequence of optional setter calls, then finalize, yields exactly the
/// record directly constructed from those values — each required field
/// holds the value supplied for it, and each optional field holds its
/// last-written value, or absent when it was never set.
pub proof fn lemma_round_trip<V>(
    req_names: Seq<Seq<char>>,
    req_vals: Seq<V>,
    opt_names: Seq<Seq<char>>,
    calls: Seq<(Seq<char>, Option<V>)>,
)
    requires
        req_names.len() == req_vals.len(),
        req_names.no_duplicates(),
        forall|c: int| 0 <= c < calls.len() ==> opt_names.contains(#[trigger] calls[c].0),
    ensures
        chain_values(req_names, req_vals).dom() =~= req_names.to_set(),
        forall|i: int|
            0 <= i < req_names.len() ==> chain_values(req_names, req_vals)[#[trigger] req_names[i]]
                == req_vals[i],
        apply_setter_calls(absent_all::<V>(opt_names), calls).dom() == absent_all::<V>(
            opt_names,
        ).dom(),
        forall|f: Seq<char>|
            opt_names.contains(f) ==> apply_setter_calls(absent_all::<V>(opt_names), calls)[f]
                == (match last_write(calls, f) {
                Some(v) => v,
                None => None::<V>,
            }),
{
    lemma_chain_records_values(req_names, req_vals);
    lemma_setters_preserve_dom(absent_all::<V>(opt_names), calls);
    assert forall|f: Seq<char>| opt_names.contains(f) implies apply_setter_calls(
        absent_all::<V>(opt_names),
        calls,
    )[f] == (match last_write(calls, f) {
        Some(v) => v,
        None => None::<V>,
    }) by {
        lemma_setters_last_write_wins(absent_all::<V>(opt_names), calls, f);
    }
}

/// A record with no fields at all: the factory reaches the terminal stage
/// directly, no setter exists, and finalize produces the unique
/// zero-field value.
pub proof fn lemma_zero_field_build<V>()
    ensures
        absent_all::<V>(Seq::empty()) == Map::<Seq<char>, Option<V>>::empty(),
        apply_setter_calls(absent_all::<V>(Seq::empty()), Seq::empty())
            == Map::<Seq<char>, Option<V>>::empty(),
        chain_values::<V>(Seq::empty(), Seq::empty()) == Map::<Seq<char>, V>::empty(),
{
    assert(absent_all::<V>(Seq::empty()) =~= Map::<Seq<char>, Option<V>>::empty());
}

} // verus!
