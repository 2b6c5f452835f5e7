//! The mathematical model of the parser.
//!
//! Tokens are modelled as `Seq<char>`, alias tables as
//! `Map<Seq<char>, Seq<char>>` from alias to canonical name, and the parse
//! result as a [`StoreView`].  The parsing algorithm itself is the spec
//! function [`parse_from`]; the executable code in the rest of the crate is
//! proved to compute exactly these functions.

use vstd::prelude::*;

verus! {

/// A token names an option when it begins with a dash.
pub open spec fn is_dashed(t: Seq<char>) -> bool {
    t.len() > 0 && t[0] == '-'
}

/// Strip exactly one leading dash, then a second one if one remains, so that
/// `-name` and `--name` both become `name`.  Further dashes stay part of the
/// name.  Only meaningful for a dashed token.
pub open spec fn normalize(t: Seq<char>) -> Seq<char> {
    let u = t.skip(1);
    if is_dashed(u) {
        u.skip(1)
    } else {
        u
    }
}

/// The first position at or after `i` holding a dashed token, or the length
/// of `args` if every token from `i` on is undashed.  The tokens in between
/// form the value run of a multi-value option.
pub open spec fn run_end(args: Seq<Seq<char>>, i: int) -> int
    decreases args.len() - i,
{
    if i < 0 || i >= args.len() {
        args.len() as int
    } else if is_dashed(args[i]) {
        i
    } else {
        run_end(args, i + 1)
    }
}

pub proof fn lemma_run_end_bounds(args: Seq<Seq<char>>, i: int)
    requires
        0 <= i <= args.len(),
    ensures
        i <= run_end(args, i) <= args.len(),
        forall|k: int| i <= k < run_end(args, i) ==> !is_dashed(args[k]),
        run_end(args, i) < args.len() ==> is_dashed(args[run_end(args, i)]),
    decreases args.len() - i,
{
    if i < args.len() && !is_dashed(args[i]) {
        lemma_run_end_bounds(args, i + 1);
    }
}

/// The three alias tables of a configuration registry, one per argument kind,
/// each mapping every declared alias to its canonical name.
#[verifier::ext_equal]
pub ghost struct ConfigView {
    pub flags: Map<Seq<char>, Seq<char>>,
    pub singles: Map<Seq<char>, Seq<char>>,
    pub multiples: Map<Seq<char>, Seq<char>>,
}

impl ConfigView {
    pub open spec fn empty() -> ConfigView {
        ConfigView {
            flags: Map::empty(),
            singles: Map::empty(),
            multiples: Map::empty(),
        }
    }
}

/// The result of a parse pass: the canonical flag names that were present,
/// the value each single-value option last received, and the value list of
/// each multi-value option.  Leftover tokens live in `multiples` under the
/// reserved canonical name [`leftovers_key`].
#[verifier::ext_equal]
pub ghost struct StoreView {
    pub flags: Set<Seq<char>>,
    pub singles: Map<Seq<char>, Seq<char>>,
    pub multiples: Map<Seq<char>, Seq<Seq<char>>>,
}

impl StoreView {
    pub open spec fn empty() -> StoreView {
        StoreView {
            flags: Set::empty(),
            singles: Map::empty(),
            multiples: Map::empty(),
        }
    }
}

/// The reserved canonical name under which leftover tokens accumulate: the
/// empty string.
pub open spec fn leftovers_key() -> Seq<char> {
    Seq::empty()
}

/// The parsing algorithm: the store that results from classifying the tokens
/// of `args` from position `i` on, starting from store `st`.
///
/// A dashed token is normalized and resolved against the flag table first,
/// then the single table, then the multiple table.  A flag match records the
/// canonical name; a single match consumes the next token as its value unless
/// that token is missing or dashed; a multiple match consumes the following
/// run of undashed tokens and appends it to the canonical name's list, which
/// is created even when the run is empty; an unmatched dashed token is
/// dropped.  An undashed token is appended to the leftovers list.
pub open spec fn parse_from(cfg: ConfigView, args: Seq<Seq<char>>, i: int, st: StoreView) -> StoreView
    decreases args.len() - i,
{
    if i < 0 || i >= args.len() {
        st
    } else {
        let tok = args[i];
        if is_dashed(tok) {
            let name = normalize(tok);
            if cfg.flags.contains_key(name) {
                let st2 = StoreView {
                    flags: st.flags.insert(cfg.flags[name]),
                    singles: st.singles,
                    multiples: st.multiples,
                };
                parse_from(cfg, args, i + 1, st2)
            } else if cfg.singles.contains_key(name) {
                if i + 1 < args.len() && !is_dashed(args[i + 1]) {
                    let st2 = StoreView {
                        flags: st.flags,
                        singles: st.singles.insert(cfg.singles[name], args[i + 1]),
                        multiples: st.multiples,
                    };
                    parse_from(cfg, args, i + 2, st2)
                } else {
                    parse_from(cfg, args, i + 1, st)
                }
            } else if cfg.multiples.contains_key(name) {
                let canon = cfg.multiples[name];
                let j = run_end(args, i + 1);
                let prior = if st.multiples.contains_key(canon) {
                    st.multiples[canon]
                } else {
                    Seq::empty()
                };
                let st2 = StoreView {
                    flags: st.flags,
                    singles: st.singles,
                    multiples: st.multiples.insert(canon, prior + args.subrange(i + 1, j)),
                };
                proof {
                    lemma_run_end_bounds(args, i + 1);
                }
                parse_from(cfg, args, j, st2)
            } else {
                parse_from(cfg, args, i + 1, st)
            }
        } else {
            let prior = if st.multiples.contains_key(leftovers_key()) {
                st.multiples[leftovers_key()]
            } else {
                Seq::empty()
            };
            let st2 = StoreView {
                flags: st.flags,
                singles: st.singles,
                multiples: st.multiples.insert(leftovers_key(), prior.push(tok)),
            };
            parse_from(cfg, args, i + 1, st2)
        }
    }
}

/// The whole parse pass over a token sequence.
pub open spec fn spec_parse(cfg: ConfigView, args: Seq<Seq<char>>, st: StoreView) -> StoreView {
    parse_from(cfg, args, 0, st)
}

/// What the flag query returns: whether the alias resolves in the flag table
/// and its canonical name was recorded as present.
pub open spec fn spec_flag_query(cfg: ConfigView, st: StoreView, alias: Seq<char>) -> bool {
    cfg.flags.contains_key(alias) && st.flags.contains(cfg.flags[alias])
}

/// What the single query returns: the stored value of the alias's canonical
/// name, or the empty string when the alias is unknown or the option unset.
pub open spec fn spec_single_query(cfg: ConfigView, st: StoreView, alias: Seq<char>) -> Seq<char> {
    if cfg.singles.contains_key(alias) && st.singles.contains_key(cfg.singles[alias]) {
        st.singles[cfg.singles[alias]]
    } else {
        Seq::empty()
    }
}

/// What the multiple query returns: the stored value list of the alias's
/// canonical name, or the empty list when the alias is unknown or the option
/// unset.
pub open spec fn spec_multiple_query(cfg: ConfigView, st: StoreView, alias: Seq<char>) -> Seq<Seq<char>> {
    if cfg.multiples.contains_key(alias) && st.multiples.contains_key(cfg.multiples[alias]) {
        st.multiples[cfg.multiples[alias]]
    } else {
        Seq::empty()
    }
}

/// What the leftovers query returns: the list stored under the reserved
/// canonical name, in encounter order, or the empty list.
pub open spec fn spec_leftovers_query(st: StoreView) -> Seq<Seq<char>> {
    if st.multiples.contains_key(leftovers_key()) {
        st.multiples[leftovers_key()]
    } else {
        Seq::empty()
    }
}

/// Split a spec string on `|` into its ordered alias tokens, scanning from
/// position `i` with `cur` the segment gathered so far.
pub open spec fn split_from(s: Seq<char>, i: int, cur: Seq<char>) -> Seq<Seq<char>>
    decreases s.len() - i,
{
    if i < 0 || i >= s.len() {
        seq![cur]
    } else if s[i] == '|' {
        seq![cur] + split_from(s, i + 1, Seq::empty())
    } else {
        split_from(s, i + 1, cur.push(s[i]))
    }
}

/// The alias tokens of one spec string: its segments between `|` delimiters.
pub open spec fn spec_split(s: Seq<char>) -> Seq<Seq<char>> {
    split_from(s, 0, Seq::empty())
}

/// A split never yields an empty token list: even the empty string splits
/// into one empty segment.
pub proof fn lemma_split_from_nonempty(s: Seq<char>, i: int, cur: Seq<char>)
    ensures
        split_from(s, i, cur).len() >= 1,
    decreases s.len() - i,
{
    if 0 <= i < s.len() {
        if s[i] == '|' {
            lemma_split_from_nonempty(s, i + 1, Seq::empty());
        } else {
            lemma_split_from_nonempty(s, i + 1, cur.push(s[i]));
        }
    }
}

/// Insert every token of `segs` into the alias table `m`, each mapped to
/// `canon`, in order (a later duplicate overwrites an earlier one).
pub open spec fn insert_aliases(
    m: Map<Seq<char>, Seq<char>>,
    segs: Seq<Seq<char>>,
    canon: Seq<char>,
) -> Map<Seq<char>, Seq<char>>
    decreases segs.len(),
{
    if segs.len() == 0 {
        m
    } else {
        insert_aliases(m, segs.drop_last(), canon).insert(segs.last(), canon)
    }
}

/// The effect of one spec string on an alias table: every token becomes an
/// alias of the first token.  A spec string with no tokens changes nothing
/// (unreachable, since a split always yields at least one token).
pub open spec fn declare_aliases(m: Map<Seq<char>, Seq<char>>, s: Seq<char>) -> Map<
    Seq<char>,
    Seq<char>,
> {
    let segs = spec_split(s);
    if segs.len() == 0 {
        m
    } else {
        insert_aliases(m, segs, segs[0])
    }
}

/// The effect of an ordered batch of spec strings on an alias table.
pub open spec fn declare_all_aliases(m: Map<Seq<char>, Seq<char>>, specs: Seq<Seq<char>>) -> Map<
    Seq<char>,
    Seq<char>,
>
    decreases specs.len(),
{
    if specs.len() == 0 {
        m
    } else {
        declare_aliases(declare_all_aliases(m, specs.drop_last()), specs.last())
    }
}

/// The effect of one spec string on a canonical-name set: the first token
/// joins the set.
pub open spec fn declare_name(ns: Set<Seq<char>>, s: Seq<char>) -> Set<Seq<char>> {
    let segs = spec_split(s);
    if segs.len() == 0 {
        ns
    } else {
        ns.insert(segs[0])
    }
}

/// The effect of an ordered batch of spec strings on a canonical-name set.
pub open spec fn declare_all_names(ns: Set<Seq<char>>, specs: Seq<Seq<char>>) -> Set<Seq<char>>
    decreases specs.len(),
{
    if specs.len() == 0 {
        ns
    } else {
        declare_name(declare_all_names(ns, specs.drop_last()), specs.last())
    }
}

/// The alias table drawn from parallel key and value rows, later rows
/// overwriting earlier ones.
pub open spec fn kv_map<V>(keys: Seq<Seq<char>>, vals: Seq<V>) -> Map<Seq<char>, V>
    decreases keys.len(),
{
    if keys.len() == 0 || vals.len() == 0 {
        Map::empty()
    } else {
        kv_map(keys.drop_last(), vals.drop_last()).insert(keys.last(), vals.last())
    }
}

/// The set of names in a row, ignoring order and repetition.
pub open spec fn name_set(names: Seq<Seq<char>>) -> Set<Seq<char>>
    decreases names.len(),
{
    if names.len() == 0 {
        Set::empty()
    } else {
        name_set(names.drop_last()).insert(names.last())
    }
}

/// Appending a row to parallel key and value rows inserts the pair into the
/// drawn map.
pub proof fn lemma_kv_map_push<V>(keys: Seq<Seq<char>>, vals: Seq<V>, k: Seq<char>, v: V)
    requires
        keys.len() == vals.len(),
    ensures
        kv_map(keys.push(k), vals.push(v)) == kv_map(keys, vals).insert(k, v),
{
    assert(keys.push(k).drop_last() =~= keys);
    assert(vals.push(v).drop_last() =~= vals);
}

/// Appending a name inserts it into the drawn set.
pub proof fn lemma_name_set_push(names: Seq<Seq<char>>, n: Seq<char>)
    ensures
        name_set(names.push(n)) == name_set(names).insert(n),
{
    assert(names.push(n).drop_last() =~= names);
}

/// Widening a token subrange by one position appends that token.
pub proof fn lemma_subrange_push(s: Seq<Seq<char>>, a: int, b: int)
    requires
        0 <= a <= b < s.len(),
    ensures
        s.subrange(a, b + 1) == s.subrange(a, b).push(s[b]),
{
    assert(s.subrange(a, b + 1) =~= s.subrange(a, b).push(s[b]));
}

/// Drawing one more row extends the drawn map by that row's pair.
pub proof fn lemma_kv_map_take_step<V>(keys: Seq<Seq<char>>, vals: Seq<V>, i: int)
    requires
        keys.len() == vals.len(),
        0 <= i < keys.len(),
    ensures
        kv_map(keys.take(i + 1), vals.take(i + 1)) == kv_map(keys.take(i), vals.take(i)).insert(
            keys[i],
            vals[i],
        ),
{
    assert(keys.take(i + 1).drop_last() =~= keys.take(i));
    assert(vals.take(i + 1).drop_last() =~= vals.take(i));
    assert(keys.take(i + 1).last() == keys[i]);
    assert(vals.take(i + 1).last() == vals[i]);
}

/// Drawing one more name extends the drawn set by that name.
pub proof fn lemma_name_set_take_step(names: Seq<Seq<char>>, i: int)
    requires
        0 <= i < names.len(),
    ensures
        name_set(names.take(i + 1)) == name_set(names.take(i)).insert(names[i]),
{
    assert(names.take(i + 1).drop_last() =~= names.take(i));
    assert(names.take(i + 1).last() == names[i]);
}

/// Inserting one more token extends the inserted prefix by that token.
pub proof fn lemma_insert_aliases_take_step(
    m: Map<Seq<char>, Seq<char>>,
    segs: Seq<Seq<char>>,
    canon: Seq<char>,
    j: int,
)
    requires
        0 <= j < segs.len(),
    ensures
        insert_aliases(m, segs.take(j + 1), canon) == insert_aliases(m, segs.take(j), canon).insert(
            segs[j],
            canon,
        ),
{
    assert(segs.take(j + 1).drop_last() =~= segs.take(j));
    assert(segs.take(j + 1).last() == segs[j]);
}

/// Declaring one more spec string applies its declaration to the table built
/// from the earlier ones.
pub proof fn lemma_declare_all_aliases_take_step(
    m: Map<Seq<char>, Seq<char>>,
    specs: Seq<Seq<char>>,
    i: int,
)
    requires
        0 <= i < specs.len(),
    ensures
        declare_all_aliases(m, specs.take(i + 1)) == declare_aliases(
            declare_all_aliases(m, specs.take(i)),
            specs[i],
        ),
{
    assert(specs.take(i + 1).drop_last() =~= specs.take(i));
    assert(specs.take(i + 1).last() == specs[i]);
}

/// Declaring one more spec string applies its declaration to the set built
/// from the earlier ones.
pub proof fn lemma_declare_all_names_take_step(ns: Set<Seq<char>>, specs: Seq<Seq<char>>, i: int)
    requires
        0 <= i < specs.len(),
    ensures
        declare_all_names(ns, specs.take(i + 1)) == declare_name(
            declare_all_names(ns, specs.take(i)),
            specs[i],
        ),
{
    assert(specs.take(i + 1).drop_last() =~= specs.take(i));
    assert(specs.take(i + 1).last() == specs[i]);
}

} // verus!
