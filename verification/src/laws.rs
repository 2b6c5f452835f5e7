//! General properties of the query surface, proved once and for all over the
//! model of [`crate::model`].
//!
//! Each executable operation's contract equates its result to a spec
//! function of the declared alias lists and the token sequence, so the laws
//! here carry over to any chain of `build`, registration, `parse_args` and
//! query calls.

use vstd::prelude::*;

use crate::model::{
    spec_flag_query, spec_leftovers_query, spec_multiple_query, spec_parse, spec_single_query,
    ConfigView, StoreView,
};

verus! {

/// Unknown-alias safety: an alias that no registration ever mentioned
/// resolves in no table, so the three alias queries return their defaults —
/// `false`, the empty string and the empty list — whatever was parsed.
pub proof fn lemma_unknown_alias_defaults(cfg: ConfigView, st: StoreView, alias: Seq<char>)
    requires
        !cfg.flags.contains_key(alias),
        !cfg.singles.contains_key(alias),
        !cfg.multiples.contains_key(alias),
    ensures
        !spec_flag_query(cfg, st, alias),
        spec_single_query(cfg, st, alias) == Seq::<char>::empty(),
        spec_multiple_query(cfg, st, alias) == Seq::<Seq<char>>::empty(),
{
}

/// Alias equivalence for flags: two aliases of one canonical name answer the
/// flag query alike.
pub proof fn lemma_flag_alias_equivalence(
    cfg: ConfigView,
    st: StoreView,
    a1: Seq<char>,
    a2: Seq<char>,
)
    requires
        cfg.flags.contains_key(a1),
        cfg.flags.contains_key(a2),
        cfg.flags[a1] == cfg.flags[a2],
    ensures
        spec_flag_query(cfg, st, a1) == spec_flag_query(cfg, st, a2),
{
}

/// Alias equivalence for single-value options: two aliases of one canonical
/// name answer the single query alike.
pub proof fn lemma_single_alias_equivalence(
    cfg: ConfigView,
    st: StoreView,
    a1: Seq<char>,
    a2: Seq<char>,
)
    requires
        cfg.singles.contains_key(a1),
        cfg.singles.contains_key(a2),
        cfg.singles[a1] == cfg.singles[a2],
    ensures
        spec_single_query(cfg, st, a1) == spec_single_query(cfg, st, a2),
{
}

/// Alias equivalence for multiple-value options: two aliases of one
/// canonical name answer the multiple query alike.
pub proof fn lemma_multiple_alias_equivalence(
    cfg: ConfigView,
    st: StoreView,
    a1: Seq<char>,
    a2: Seq<char>,
)
    requires
        cfg.multiples.contains_key(a1),
        cfg.multiples.contains_key(a2),
        cfg.multiples[a1] == cfg.multiples[a2],
    ensures
        spec_multiple_query(cfg, st, a1) == spec_multiple_query(cfg, st, a2),
{
}

/// Idempotence of configure-and-parse: the parse pass and every query are
/// pure functions of the alias tables, the starting store and the token
/// sequence, so two independent runs over the same declarations and the same
/// input answer every query alike, field for field.
pub proof fn lemma_two_runs_agree(
    cfg1: ConfigView,
    cfg2: ConfigView,
    args1: Seq<Seq<char>>,
    args2: Seq<Seq<char>>,
    st1: StoreView,
    st2: StoreView,
    alias: Seq<char>,
)
    requires
        cfg1 == cfg2,
        args1 == args2,
        st1 == st2,
    ensures
        spec_parse(cfg1, args1, st1) == spec_parse(cfg2, args2, st2),
        spec_flag_query(cfg1, spec_parse(cfg1, args1, st1), alias) == spec_flag_query(
            cfg2,
            spec_parse(cfg2, args2, st2),
            alias,
        ),
        spec_single_query(cfg1, spec_parse(cfg1, args1, st1), alias) == spec_single_query(
            cfg2,
            spec_parse(cfg2, args2, st2),
            alias,
        ),
        spec_multiple_query(cfg1, spec_parse(cfg1, args1, st1), alias) == spec_multiple_query(
            cfg2,
            spec_parse(cfg2, args2, st2),
            alias,
        ),
        spec_leftovers_query(spec_parse(cfg1, args1, st1)) == spec_leftovers_query(
            spec_parse(cfg2, args2, st2),
        ),
{
}

} // verus!
