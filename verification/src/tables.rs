//! Executable building blocks: string predicates, spec-string splitting, and
//! the alias and value tables.
//!
//! Tables are kept as parallel rows of keys and values, appended in
//! registration order; the row drawn as a map by [`kv_map`] makes a later row
//! for the same key overwrite an earlier one, which is exactly the declared
//! overwrite behaviour.  Lookups scan the rows and are proved to agree with
//! the drawn map.

use vstd::prelude::*;

use crate::model::{
    declare_aliases, declare_all_aliases, declare_all_names, declare_name, insert_aliases,
    is_dashed, kv_map, lemma_kv_map_push, lemma_name_set_push, lemma_split_from_nonempty,
    name_set, normalize, spec_split, split_from,
};

verus! {

/// Whether the token begins with a dash.
pub(crate) fn is_dashed_str(s: &str) -> (r: bool)
    ensures
        r == is_dashed(s@),
{
    if s.is_empty() {
        false
    } else {
        s.get_char(0) == '-'
    }
}

/// Strip one leading dash, and a second one if one remains.
pub(crate) fn strip_dashes(s: &str) -> (r: String)
    requires
        is_dashed(s@),
    ensures
        r@ == normalize(s@),
{
    let n = s.unicode_len();
    let rest = s.substring_char(1, n);
    proof {
        assert(rest@ =~= s@.skip(1));
    }
    if is_dashed_str(rest) {
        let n2 = rest.unicode_len();
        let rest2 = rest.substring_char(1, n2);
        proof {
            assert(rest2@ =~= s@.skip(1).skip(1));
        }
        String::from_str(rest2)
    } else {
        String::from_str(rest)
    }
}

/// Split a spec string on `|` into its alias tokens.
pub(crate) fn split_on_bar(s: &str) -> (segs: Vec<String>)
    ensures
        segs.deep_view() == spec_split(s@),
        segs.len() >= 1,
{
    let n = s.unicode_len();
    let mut segs: Vec<String> = Vec::new();
    let mut start: usize = 0;
    let mut i: usize = 0;
    proof {
        assert(segs.deep_view() =~= Seq::<Seq<char>>::empty());
        assert(s@.subrange(0, 0) =~= Seq::<char>::empty());
        assert(Seq::<Seq<char>>::empty() + split_from(s@, 0, Seq::empty())
            =~= split_from(s@, 0, Seq::empty()));
    }
    while i < n
        invariant
            start <= i <= n,
            n == s@.len(),
            segs.deep_view() + split_from(s@, i as int, s@.subrange(start as int, i as int))
                =~= spec_split(s@),
        decreases n - i,
    {
        if s.get_char(i) == '|' {
            let seg = String::from_str(s.substring_char(start, i));
            let ghost segv = seg@;
            let ghost old_dv = segs.deep_view();
            segs.push(seg);
            proof {
                assert(segs.deep_view() =~= old_dv.push(segv));
                assert(s@.subrange(i as int + 1, i as int + 1) =~= Seq::<char>::empty());
                assert(segs.deep_view() + split_from(s@, i as int + 1, Seq::empty())
                    =~= old_dv + split_from(s@, i as int, s@.subrange(start as int, i as int)));
            }
            start = i + 1;
        } else {
            proof {
                assert(s@.subrange(start as int, i as int + 1)
                    =~= s@.subrange(start as int, i as int).push(s@[i as int]));
            }
        }
        i = i + 1;
    }
    let last = String::from_str(s.substring_char(start, n));
    let ghost lastv = last@;
    let ghost old_dv = segs.deep_view();
    segs.push(last);
    proof {
        assert(segs.deep_view() =~= old_dv.push(lastv));
        assert(segs.deep_view() =~= old_dv + split_from(s@, n as int, s@.subrange(start as int, n as int)));
        lemma_split_from_nonempty(s@, 0, Seq::empty());
    }
    segs
}

/// Clone a row of strings, element for element.
pub(crate) fn clone_string_vec(v: &Vec<String>) -> (r: Vec<String>)
    ensures
        r@ == v@,
{
    let mut r: Vec<String> = Vec::new();
    let mut i: usize = 0;
    while i < v.len()
        invariant
            i <= v.len(),
            r@ =~= v@.subrange(0, i as int),
        decreases v.len() - i,
    {
        r.push(v[i].clone());
        proof {
            assert(r@ =~= v@.subrange(0, i as int + 1));
        }
        i = i + 1;
    }
    proof {
        assert(v@.subrange(0, v@.len() as int) =~= v@);
    }
    r
}

/// Look a key up in parallel key and value rows; the last matching row wins,
/// as in the drawn map.
pub(crate) fn assoc_lookup(keys: &Vec<String>, vals: &Vec<String>, key: &String) -> (r: Option<
    String,
>)
    requires
        keys@.len() == vals@.len(),
    ensures
        match r {
            Some(v) => kv_map(keys.deep_view(), vals.deep_view()).contains_key(key@) && v@
                == kv_map(keys.deep_view(), vals.deep_view())[key@],
            None => !kv_map(keys.deep_view(), vals.deep_view()).contains_key(key@),
        },
{
    let ghost kdv = keys.deep_view();
    let ghost vdv = vals.deep_view();
    let mut r: Option<String> = None;
    let mut i: usize = 0;
    while i < keys.len()
        invariant
            i <= keys@.len(),
            keys@.len() == vals@.len(),
            kdv == keys.deep_view(),
            vdv == vals.deep_view(),
            match r {
                Some(v) => kv_map(kdv.take(i as int), vdv.take(i as int)).contains_key(key@)
                    && v@ == kv_map(kdv.take(i as int), vdv.take(i as int))[key@],
                None => !kv_map(kdv.take(i as int), vdv.take(i as int)).contains_key(key@),
            },
        decreases keys@.len() - i,
    {
        proof {
            crate::model::lemma_kv_map_take_step(kdv, vdv, i as int);
        }
        if keys[i] == *key {
            r = Some(vals[i].clone());
        }
        i = i + 1;
    }
    proof {
        assert(kdv.take(keys@.len() as int) =~= kdv);
        assert(vdv.take(vals@.len() as int) =~= vdv);
    }
    r
}

/// Look a key up in parallel key and value-list rows; the last matching row
/// wins, as in the drawn map.  A found list is handed out as a copy.
pub(crate) fn assoc_lookup_lists(keys: &Vec<String>, vals: &Vec<Vec<String>>, key: &String) -> (r:
    Option<Vec<String>>)
    requires
        keys@.len() == vals@.len(),
    ensures
        match r {
            Some(v) => kv_map(keys.deep_view(), vals.deep_view()).contains_key(key@)
                && v.deep_view() == kv_map(keys.deep_view(), vals.deep_view())[key@],
            None => !kv_map(keys.deep_view(), vals.deep_view()).contains_key(key@),
        },
{
    let ghost kdv = keys.deep_view();
    let ghost vdv = vals.deep_view();
    let mut r: Option<Vec<String>> = None;
    let mut i: usize = 0;
    while i < keys.len()
        invariant
            i <= keys@.len(),
            keys@.len() == vals@.len(),
            kdv == keys.deep_view(),
            vdv == vals.deep_view(),
            match r {
                Some(v) => kv_map(kdv.take(i as int), vdv.take(i as int)).contains_key(key@)
                    && v.deep_view() == kv_map(kdv.take(i as int), vdv.take(i as int))[key@],
                None => !kv_map(kdv.take(i as int), vdv.take(i as int)).contains_key(key@),
            },
        decreases keys@.len() - i,
    {
        proof {
            crate::model::lemma_kv_map_take_step(kdv, vdv, i as int);
        }
        if keys[i] == *key {
            let found = clone_string_vec(&vals[i]);
            proof {
                assert(found.deep_view() =~= vdv[i as int]);
            }
            r = Some(found);
        }
        i = i + 1;
    }
    proof {
        assert(kdv.take(keys@.len() as int) =~= kdv);
        assert(vdv.take(vals@.len() as int) =~= vdv);
    }
    r
}

/// One argument kind's registry: its canonical names and its alias table.
#[derive(Clone, Debug)]
pub(crate) struct ConfigType {
    pub(crate) names: Vec<String>,
    pub(crate) alias_keys: Vec<String>,
    pub(crate) alias_vals: Vec<String>,
}

impl ConfigType {
    pub(crate) open spec fn wf(&self) -> bool {
        self.alias_keys@.len() == self.alias_vals@.len()
    }

    /// The alias table: alias to canonical name.
    pub(crate) open spec fn alias_map(&self) -> Map<Seq<char>, Seq<char>> {
        kv_map(self.alias_keys.deep_view(), self.alias_vals.deep_view())
    }

    /// The canonical names declared for this kind.
    pub(crate) open spec fn names(&self) -> Set<Seq<char>> {
        name_set(self.names.deep_view())
    }

    pub(crate) fn new() -> (r: Self)
        ensures
            r.wf(),
            r.alias_map() == Map::<Seq<char>, Seq<char>>::empty(),
            r.names() == Set::<Seq<char>>::empty(),
    {
        ConfigType { names: Vec::new(), alias_keys: Vec::new(), alias_vals: Vec::new() }
    }

    /// Register a batch of spec strings: each is split on `|`, its first
    /// token becomes a canonical name, and every token becomes an alias of
    /// it.  Later registrations overwrite earlier ones for the same alias.
    pub(crate) fn add_to_config(&mut self, arg_specs: Vec<&str>)
        requires
            old(self).wf(),
        ensures
            final(self).wf(),
            final(self).alias_map() == declare_all_aliases(
                old(self).alias_map(),
                arg_specs.deep_view(),
            ),
            final(self).names() == declare_all_names(old(self).names(), arg_specs.deep_view()),
    {
        let ghost m0 = self.alias_map();
        let ghost ns0 = self.names();
        let ghost specs_dv = arg_specs.deep_view();
        let mut idx: usize = 0;
        while idx < arg_specs.len()
            invariant
                self.wf(),
                idx <= arg_specs@.len(),
                specs_dv == arg_specs.deep_view(),
                self.alias_map() == declare_all_aliases(m0, specs_dv.take(idx as int)),
                self.names() == declare_all_names(ns0, specs_dv.take(idx as int)),
            decreases arg_specs@.len() - idx,
        {
            let ghost m_before = self.alias_map();
            let ghost ns_before = self.names();
            let arg_spec: &str = arg_specs[idx];
            proof {
                assert(arg_spec@ == specs_dv[idx as int]);
            }
            let segs = split_on_bar(arg_spec);
            if segs.len() == 0 {
                // Defensive no-op: a split always yields at least one token.
            } else {
                let ghost segs_dv = segs.deep_view();
                let ghost canon_v = segs_dv[0];
                let canon: String = segs[0].clone();
                let ghost names_before = self.names.deep_view();
                self.names.push(canon.clone());
                proof {
                    assert(self.names.deep_view() =~= names_before.push(canon_v));
                    lemma_name_set_push(names_before, canon_v);
                }
                let mut j: usize = 0;
                while j < segs.len()
                    invariant
                        self.wf(),
                        j <= segs@.len(),
                        segs_dv == segs.deep_view(),
                        canon_v == segs_dv[0],
                        canon@ == canon_v,
                        segs_dv.len() >= 1,
                        self.alias_map() == insert_aliases(m_before, segs_dv.take(j as int), canon_v),
                        self.names() == ns_before.insert(canon_v),
                    decreases segs@.len() - j,
                {
                    let ghost keys_before = self.alias_keys.deep_view();
                    let ghost vals_before = self.alias_vals.deep_view();
                    self.alias_keys.push(segs[j].clone());
                    self.alias_vals.push(canon.clone());
                    proof {
                        assert(self.alias_keys.deep_view() =~= keys_before.push(segs_dv[j as int]));
                        assert(self.alias_vals.deep_view() =~= vals_before.push(canon_v));
                        lemma_kv_map_push(keys_before, vals_before, segs_dv[j as int], canon_v);
                        crate::model::lemma_insert_aliases_take_step(
                            m_before,
                            segs_dv,
                            canon_v,
                            j as int,
                        );
                    }
                    j = j + 1;
                }
                proof {
                    assert(segs_dv.take(segs_dv.len() as int) =~= segs_dv);
                }
            }
            proof {
                assert(self.alias_map() == declare_aliases(m_before, specs_dv[idx as int]));
                assert(self.names() == declare_name(ns_before, specs_dv[idx as int]));
                crate::model::lemma_declare_all_aliases_take_step(m0, specs_dv, idx as int);
                crate::model::lemma_declare_all_names_take_step(ns0, specs_dv, idx as int);
            }
            idx = idx + 1;
        }
        proof {
            assert(specs_dv.take(specs_dv.len() as int) =~= specs_dv);
        }
    }

    /// Resolve an alias to its canonical name.
    pub(crate) fn lookup(&self, key: &String) -> (r: Option<String>)
        requires
            self.wf(),
        ensures
            match r {
                Some(canon) => self.alias_map().contains_key(key@) && canon@ == self.alias_map()[
                    key@
                ],
                None => !self.alias_map().contains_key(key@),
            },
    {
        assoc_lookup(&self.alias_keys, &self.alias_vals, key)
    }
}

/// The values store filled by a parse pass.
#[derive(Clone, Debug)]
pub(crate) struct Values {
    pub(crate) flags: Vec<String>,
    pub(crate) single_keys: Vec<String>,
    pub(crate) single_vals: Vec<String>,
    pub(crate) multi_keys: Vec<String>,
    pub(crate) multi_vals: Vec<Vec<String>>,
}

impl Values {
    pub(crate) open spec fn wf(&self) -> bool {
        self.single_keys@.len() == self.single_vals@.len() && self.multi_keys@.len()
            == self.multi_vals@.len()
    }

    pub(crate) open spec fn flag_set(&self) -> Set<Seq<char>> {
        name_set(self.flags.deep_view())
    }

    pub(crate) open spec fn singles_map(&self) -> Map<Seq<char>, Seq<char>> {
        kv_map(self.single_keys.deep_view(), self.single_vals.deep_view())
    }

    pub(crate) open spec fn multiples_map(&self) -> Map<Seq<char>, Seq<Seq<char>>> {
        kv_map(self.multi_keys.deep_view(), self.multi_vals.deep_view())
    }

    pub(crate) fn new() -> (r: Self)
        ensures
            r.wf(),
            r.flag_set() == Set::<Seq<char>>::empty(),
            r.singles_map() == Map::<Seq<char>, Seq<char>>::empty(),
            r.multiples_map() == Map::<Seq<char>, Seq<Seq<char>>>::empty(),
    {
        Values {
            flags: Vec::new(),
            single_keys: Vec::new(),
            single_vals: Vec::new(),
            multi_keys: Vec::new(),
            multi_vals: Vec::new(),
        }
    }

    /// Record a canonical flag name as present.
    pub(crate) fn record_flag(&mut self, canon: String)
        requires
            old(self).wf(),
        ensures
            final(self).wf(),
            final(self).flag_set() == old(self).flag_set().insert(canon@),
            final(self).singles_map() == old(self).singles_map(),
            final(self).multiples_map() == old(self).multiples_map(),
    {
        let ghost cv = canon@;
        let ghost before = self.flags.deep_view();
        self.flags.push(canon);
        proof {
            assert(self.flags.deep_view() =~= before.push(cv));
            lemma_name_set_push(before, cv);
        }
    }

    /// Whether a canonical flag name was recorded.
    pub(crate) fn flag_present(&self, canon: &String) -> (r: bool)
        ensures
            r == self.flag_set().contains(canon@),
    {
        let ghost fdv = self.flags.deep_view();
        let mut found = false;
        let mut i: usize = 0;
        while i < self.flags.len()
            invariant
                i <= self.flags@.len(),
                fdv == self.flags.deep_view(),
                found == name_set(fdv.take(i as int)).contains(canon@),
            decreases self.flags@.len() - i,
        {
            proof {
                crate::model::lemma_name_set_take_step(fdv, i as int);
            }
            if self.flags[i] == *canon {
                found = true;
            }
            i = i + 1;
        }
        proof {
            assert(fdv.take(self.flags@.len() as int) =~= fdv);
        }
        found
    }

    /// Store a single-value option's value, overwriting an earlier one.
    pub(crate) fn set_single(&mut self, canon: String, val: String)
        requires
            old(self).wf(),
        ensures
            final(self).wf(),
            final(self).flag_set() == old(self).flag_set(),
            final(self).singles_map() == old(self).singles_map().insert(canon@, val@),
            final(self).multiples_map() == old(self).multiples_map(),
    {
        let ghost keys_before = self.single_keys.deep_view();
        let ghost vals_before = self.single_vals.deep_view();
        let ghost cv = canon@;
        let ghost vv = val@;
        self.single_keys.push(canon);
        self.single_vals.push(val);
        proof {
            assert(self.single_keys.deep_view() =~= keys_before.push(cv));
            assert(self.single_vals.deep_view() =~= vals_before.push(vv));
            lemma_kv_map_push(keys_before, vals_before, cv, vv);
        }
    }

    /// The stored value of a canonical single name, if any.
    pub(crate) fn get_single_value(&self, canon: &String) -> (r: Option<String>)
        requires
            self.wf(),
        ensures
            match r {
                Some(v) => self.singles_map().contains_key(canon@) && v@ == self.singles_map()[
                    canon@
                ],
                None => !self.singles_map().contains_key(canon@),
            },
    {
        assoc_lookup(&self.single_keys, &self.single_vals, canon)
    }

    /// The stored value list of a canonical multiple name, if any, as a copy.
    pub(crate) fn get_multiple_values(&self, canon: &String) -> (r: Option<Vec<String>>)
        requires
            self.wf(),
        ensures
            match r {
                Some(v) => self.multiples_map().contains_key(canon@) && v.deep_view()
                    == self.multiples_map()[canon@],
                None => !self.multiples_map().contains_key(canon@),
            },
    {
        assoc_lookup_lists(&self.multi_keys, &self.multi_vals, canon)
    }

    /// Store a multiple-value option's whole list, overwriting an earlier one.
    pub(crate) fn put_multiple(&mut self, canon: String, list: Vec<String>)
        requires
            old(self).wf(),
        ensures
            final(self).wf(),
            final(self).flag_set() == old(self).flag_set(),
            final(self).singles_map() == old(self).singles_map(),
            final(self).multiples_map() == old(self).multiples_map().insert(
                canon@,
                list.deep_view(),
            ),
    {
        let ghost keys_before = self.multi_keys.deep_view();
        let ghost vals_before = self.multi_vals.deep_view();
        let ghost cv = canon@;
        let ghost lv = list.deep_view();
        self.multi_keys.push(canon);
        self.multi_vals.push(list);
        proof {
            assert(self.multi_keys.deep_view() =~= keys_before.push(cv));
            assert(self.multi_vals.deep_view() =~= vals_before.push(lv));
            lemma_kv_map_push(keys_before, vals_before, cv, lv);
        }
    }
}

} // verus!
