//! The parser itself: a configuration registry paired with a values store.
//!
//! A `Clappers` value is built once, configured by chained registration
//! calls, run once over a token sequence with [`Clappers::parse_args`], and
//! queried afterwards through read-only accessors.  Every contract is stated
//! over the views of [`crate::model`].

use vstd::prelude::*;

use crate::model::{
    declare_all_aliases, declare_all_names, leftovers_key, normalize, parse_from,
    run_end, spec_flag_query, spec_leftovers_query, spec_multiple_query, spec_parse,
    spec_single_query, ConfigView, StoreView,
};
use crate::tables::{is_dashed_str, strip_dashes, ConfigType, Values};

verus! {

/// The declared shape of acceptable arguments: one registry per kind.
#[derive(Clone, Debug)]
struct Config {
    flags: ConfigType,
    singles: ConfigType,
    multiples: ConfigType,
}

/// A command-line argument parser: the declared configuration and, once a
/// token sequence has been parsed, the values it produced.
#[derive(Clone, Debug)]
pub struct Clappers {
    config: Config,
    values: Values,
}

impl Clappers {
    /// The parser's internal tables are well formed.
    pub closed spec fn wf(&self) -> bool {
        self.config.flags.wf() && self.config.singles.wf() && self.config.multiples.wf()
            && self.values.wf()
    }

    /// The three alias tables, alias to canonical name.
    pub closed spec fn config_view(&self) -> ConfigView {
        ConfigView {
            flags: self.config.flags.alias_map(),
            singles: self.config.singles.alias_map(),
            multiples: self.config.multiples.alias_map(),
        }
    }

    /// The values store produced by parsing.
    pub closed spec fn store_view(&self) -> StoreView {
        StoreView {
            flags: self.values.flag_set(),
            singles: self.values.singles_map(),
            multiples: self.values.multiples_map(),
        }
    }

    /// The canonical names declared for flags.
    pub closed spec fn flag_names(&self) -> Set<Seq<char>> {
        self.config.flags.names()
    }

    /// The canonical names declared for single-value options.
    pub closed spec fn single_names(&self) -> Set<Seq<char>> {
        self.config.singles.names()
    }

    /// The canonical names declared for multiple-value options.
    pub closed spec fn multiple_names(&self) -> Set<Seq<char>> {
        self.config.multiples.names()
    }

    /// Build an empty parser, ready to be configured by chaining the
    /// registration calls and then run with [`Clappers::parse_args`].
    pub fn build() -> (r: Self)
        ensures
            r.wf(),
            r.config_view() == ConfigView::empty(),
            r.store_view() == StoreView::empty(),
            r.flag_names() == Set::<Seq<char>>::empty(),
            r.single_names() == Set::<Seq<char>>::empty(),
            r.multiple_names() == Set::<Seq<char>>::empty(),
    {
        Clappers {
            config: Config {
                flags: ConfigType::new(),
                singles: ConfigType::new(),
                multiples: ConfigType::new(),
            },
            values: Values::new(),
        }
    }

    /// Declare flag arguments: each spec string is a `|`-separated alias
    /// list, its first alias the canonical name.
    pub fn add_flags(self, arg_specs: Vec<&str>) -> (r: Self)
        requires
            self.wf(),
        ensures
            r.wf(),
            r.config_view() == (ConfigView {
                flags: declare_all_aliases(self.config_view().flags, arg_specs.deep_view()),
                singles: self.config_view().singles,
                multiples: self.config_view().multiples,
            }),
            r.flag_names() == declare_all_names(self.flag_names(), arg_specs.deep_view()),
            r.single_names() == self.single_names(),
            r.multiple_names() == self.multiple_names(),
            r.store_view() == self.store_view(),
    {
        let mut this = self;
        this.config.flags.add_to_config(arg_specs);
        this
    }

    /// Declare flag arguments; the older name of [`Clappers::add_flags`].
    pub fn flags(self, argument_specs: Vec<&str>) -> (r: Self)
        requires
            self.wf(),
        ensures
            r.wf(),
            r.config_view() == (ConfigView {
                flags: declare_all_aliases(self.config_view().flags, argument_specs.deep_view()),
                singles: self.config_view().singles,
                multiples: self.config_view().multiples,
            }),
            r.flag_names() == declare_all_names(self.flag_names(), argument_specs.deep_view()),
            r.single_names() == self.single_names(),
            r.multiple_names() == self.multiple_names(),
            r.store_view() == self.store_view(),
    {
        self.add_flags(argument_specs)
    }

    /// Declare single-value arguments.
    pub fn add_singles(self, arg_specs: Vec<&str>) -> (r: Self)
        requires
            self.wf(),
        ensures
            r.wf(),
            r.config_view() == (ConfigView {
                flags: self.config_view().flags,
                singles: declare_all_aliases(self.config_view().singles, arg_specs.deep_view()),
                multiples: self.config_view().multiples,
            }),
            r.single_names() == declare_all_names(self.single_names(), arg_specs.deep_view()),
            r.flag_names() == self.flag_names(),
            r.multiple_names() == self.multiple_names(),
            r.store_view() == self.store_view(),
    {
        let mut this = self;
        this.config.singles.add_to_config(arg_specs);
        this
    }

    /// Declare single-value arguments; the older name of
    /// [`Clappers::add_singles`].
    pub fn singles(self, argument_specs: Vec<&str>) -> (r: Self)
        requires
            self.wf(),
        ensures
            r.wf(),
            r.config_view() == (ConfigView {
                flags: self.config_view().flags,
                singles: declare_all_aliases(
                    self.config_view().singles,
                    argument_specs.deep_view(),
                ),
                multiples: self.config_view().multiples,
            }),
            r.single_names() == declare_all_names(self.single_names(), argument_specs.deep_view()),
            r.flag_names() == self.flag_names(),
            r.multiple_names() == self.multiple_names(),
            r.store_view() == self.store_view(),
    {
        self.add_singles(argument_specs)
    }

    /// Declare multiple-value arguments.
    pub fn add_multiples(self, arg_specs: Vec<&str>) -> (r: Self)
        requires
            self.wf(),
        ensures
            r.wf(),
            r.config_view() == (ConfigView {
                flags: self.config_view().flags,
                singles: self.config_view().singles,
                multiples: declare_all_aliases(
                    self.config_view().multiples,
                    arg_specs.deep_view(),
                ),
            }),
            r.multiple_names() == declare_all_names(self.multiple_names(), arg_specs.deep_view()),
            r.flag_names() == self.flag_names(),
            r.single_names() == self.single_names(),
            r.store_view() == self.store_view(),
    {
        let mut this = self;
        this.config.multiples.add_to_config(arg_specs);
        this
    }

    /// Declare multiple-value arguments; the older name of
    /// [`Clappers::add_multiples`].
    pub fn multiples(self, argument_specs: Vec<&str>) -> (r: Self)
        requires
            self.wf(),
        ensures
            r.wf(),
            r.config_view() == (ConfigView {
                flags: self.config_view().flags,
                singles: self.config_view().singles,
                multiples: declare_all_aliases(
                    self.config_view().multiples,
                    argument_specs.deep_view(),
                ),
            }),
            r.multiple_names() == declare_all_names(
                self.multiple_names(),
                argument_specs.deep_view(),
            ),
            r.flag_names() == self.flag_names(),
            r.single_names() == self.single_names(),
            r.store_view() == self.store_view(),
    {
        self.add_multiples(argument_specs)
    }

    /// Run the parse pass over a raw token sequence (the program name already
    /// removed) and return the parser holding the resulting values store.
    ///
    /// The store is exactly [`spec_parse`] of the configured alias tables and
    /// the token sequence; the configuration itself is left unchanged.
    #[verifier::loop_isolation(false)]
    pub fn parse_args(self, args: Vec<String>) -> (r: Self)
        requires
            self.wf(),
        ensures
            r.wf(),
            r.config_view() == self.config_view(),
            r.flag_names() == self.flag_names(),
            r.single_names() == self.single_names(),
            r.multiple_names() == self.multiple_names(),
            r.store_view() == spec_parse(self.config_view(), args.deep_view(), self.store_view()),
    {
        let mut this = self;
        let ghost cfg0 = this.config_view();
        let ghost st0 = this.store_view();
        let ghost config0 = this.config;
        let ghost argsv = args.deep_view();
        let mut i: usize = 0;
        while i < args.len()
            invariant
                this.wf(),
                i <= args@.len(),
                argsv == args.deep_view(),
                argsv.len() == args@.len(),
                this.config == config0,
                this.config_view() == cfg0,
                parse_from(cfg0, argsv, i as int, this.store_view()) == parse_from(
                    cfg0,
                    argsv,
                    0,
                    st0,
                ),
            decreases args@.len() - i,
        {
            let ghost st_entry = this.store_view();
            let ghost i_entry = i as int;
            let tok_dashed = is_dashed_str(args[i].as_str());
            proof {
                assert(argsv[i as int] == args@[i as int]@);
            }
            if tok_dashed {
                let name = strip_dashes(args[i].as_str());
                let ghost namev = name@;
                proof {
                    assert(namev == normalize(argsv[i as int]));
                }
                match this.config.flags.lookup(&name) {
                    Some(canon) => {
                        this.values.record_flag(canon);
                        proof {
                            let st2 = StoreView {
                                flags: st_entry.flags.insert(cfg0.flags[namev]),
                                singles: st_entry.singles,
                                multiples: st_entry.multiples,
                            };
                            assert(this.store_view() == st2);
                            assert(parse_from(cfg0, argsv, i_entry, st_entry) == parse_from(
                                cfg0,
                                argsv,
                                i_entry + 1,
                                st2,
                            ));
                        }
                        i = i + 1;
                    },
                    None => match this.config.singles.lookup(&name) {
                        Some(canon) => {
                            if i + 1 < args.len() {
                                let next_dashed = is_dashed_str(args[i + 1].as_str());
                                proof {
                                    assert(argsv[i as int + 1] == args@[i as int + 1]@);
                                }
                                if next_dashed {
                                    proof {
                                        assert(parse_from(cfg0, argsv, i_entry, st_entry)
                                            == parse_from(cfg0, argsv, i_entry + 1, st_entry));
                                    }
                                    i = i + 1;
                                } else {
                                    let val = args[i + 1].clone();
                                    this.values.set_single(canon, val);
                                    proof {
                                        let st2 = StoreView {
                                            flags: st_entry.flags,
                                            singles: st_entry.singles.insert(
                                                cfg0.singles[namev],
                                                argsv[i_entry + 1],
                                            ),
                                            multiples: st_entry.multiples,
                                        };
                                        assert(this.store_view() == st2);
                                        assert(parse_from(cfg0, argsv, i_entry, st_entry)
                                            == parse_from(cfg0, argsv, i_entry + 2, st2));
                                    }
                                    i = i + 2;
                                }
                            } else {
                                proof {
                                    assert(parse_from(cfg0, argsv, i_entry, st_entry)
                                        == parse_from(cfg0, argsv, i_entry + 1, st_entry));
                                }
                                i = i + 1;
                            }
                        },
                        None => match this.config.multiples.lookup(&name) {
                            Some(canon) => {
                                let ghost canonv = canon@;
                                let prior = this.values.get_multiple_values(&canon);
                                let ghost priorv = if st_entry.multiples.contains_key(canonv) {
                                    st_entry.multiples[canonv]
                                } else {
                                    Seq::empty()
                                };
                                let mut list = match prior {
                                    Some(l) => l,
                                    None => Vec::new(),
                                };
                                proof {
                                    assert(list.deep_view() =~= priorv);
                                }
                                i = i + 1;
                                while i < args.len() && !is_dashed_str(args[i].as_str())
                                    invariant
                                        i_entry + 1 <= i as int <= args@.len(),
                                        argsv == args.deep_view(),
                                        argsv.len() == args@.len(),
                                        run_end(argsv, i as int) == run_end(argsv, i_entry + 1),
                                        list.deep_view() =~= priorv + argsv.subrange(
                                            i_entry + 1,
                                            i as int,
                                        ),
                                    decreases args@.len() - i,
                                {
                                    proof {
                                        assert(argsv[i as int] == args@[i as int]@);
                                    }
                                    let ghost list_dv = list.deep_view();
                                    list.push(args[i].clone());
                                    proof {
                                        assert(list.deep_view() =~= list_dv.push(argsv[i as int]));
                                        crate::model::lemma_subrange_push(
                                            argsv,
                                            i_entry + 1,
                                            i as int,
                                        );
                                        assert((priorv + argsv.subrange(i_entry + 1, i as int)).push(
                                            argsv[i as int],
                                        ) =~= priorv + argsv.subrange(i_entry + 1, i as int).push(
                                            argsv[i as int],
                                        ));
                                        assert(list.deep_view() =~= priorv + argsv.subrange(
                                            i_entry + 1,
                                            i as int + 1,
                                        ));
                                    }
                                    i = i + 1;
                                }
                                proof {
                                    if i < args.len() {
                                        assert(argsv[i as int] == args@[i as int]@);
                                    }
                                    assert(run_end(argsv, i as int) == i as int);
                                }
                                this.values.put_multiple(canon, list);
                                proof {
                                    let j = run_end(argsv, i_entry + 1);
                                    let st2 = StoreView {
                                        flags: st_entry.flags,
                                        singles: st_entry.singles,
                                        multiples: st_entry.multiples.insert(
                                            cfg0.multiples[namev],
                                            priorv + argsv.subrange(i_entry + 1, j),
                                        ),
                                    };
                                    assert(this.store_view() == st2);
                                    assert(parse_from(cfg0, argsv, i_entry, st_entry)
                                        == parse_from(cfg0, argsv, j, st2));
                                }
                            },
                            None => {
                                proof {
                                    assert(parse_from(cfg0, argsv, i_entry, st_entry)
                                        == parse_from(cfg0, argsv, i_entry + 1, st_entry));
                                }
                                i = i + 1;
                            },
                        },
                    },
                }
            } else {
                let empty_key = String::new();
                let prior = this.values.get_multiple_values(&empty_key);
                let ghost priorv = if st_entry.multiples.contains_key(leftovers_key()) {
                    st_entry.multiples[leftovers_key()]
                } else {
                    Seq::empty()
                };
                let mut list = match prior {
                    Some(l) => l,
                    None => Vec::new(),
                };
                proof {
                    assert(list.deep_view() =~= priorv);
                }
                let ghost list_dv = list.deep_view();
                list.push(args[i].clone());
                proof {
                    assert(list.deep_view() =~= list_dv.push(argsv[i_entry]));
                }
                this.values.put_multiple(empty_key, list);
                proof {
                    let st2 = StoreView {
                        flags: st_entry.flags,
                        singles: st_entry.singles,
                        multiples: st_entry.multiples.insert(
                            leftovers_key(),
                            priorv.push(argsv[i_entry]),
                        ),
                    };
                    assert(this.store_view() == st2);
                    assert(parse_from(cfg0, argsv, i_entry, st_entry) == parse_from(
                        cfg0,
                        argsv,
                        i_entry + 1,
                        st2,
                    ));
                }
                i = i + 1;
            }
        }
        this
    }

    /// Whether the flag any of whose aliases is `argument` was supplied.
    /// `false` when the alias is unknown or the flag was absent.
    pub fn get_flag(&self, argument: &str) -> (r: bool)
        requires
            self.wf(),
        ensures
            r == spec_flag_query(self.config_view(), self.store_view(), argument@),
    {
        let key = String::from_str(argument);
        match self.config.flags.lookup(&key) {
            Some(canon) => self.values.flag_present(&canon),
            None => false,
        }
    }

    /// The value supplied for the single-value option any of whose aliases
    /// is `argument`.  The empty string when the alias is unknown or no value
    /// was supplied.
    pub fn get_single(&self, argument: &str) -> (r: String)
        requires
            self.wf(),
        ensures
            r@ == spec_single_query(self.config_view(), self.store_view(), argument@),
    {
        let key = String::from_str(argument);
        match self.config.singles.lookup(&key) {
            Some(canon) => match self.values.get_single_value(&canon) {
                Some(v) => v,
                None => String::new(),
            },
            None => String::new(),
        }
    }

    /// The values supplied for the multiple-value option any of whose
    /// aliases is `argument`, in encounter order.  Empty when the alias is
    /// unknown or no value was supplied.
    pub fn get_multiple(&self, argument: &str) -> (r: Vec<String>)
        requires
            self.wf(),
        ensures
            r.deep_view() == spec_multiple_query(self.config_view(), self.store_view(), argument@),
    {
        let key = String::from_str(argument);
        match self.config.multiples.lookup(&key) {
            Some(canon) => match self.values.get_multiple_values(&canon) {
                Some(v) => v,
                None => {
                    let r: Vec<String> = Vec::new();
                    proof {
                        assert(r.deep_view() =~= Seq::<Seq<char>>::empty());
                    }
                    r
                },
            },
            None => {
                let r: Vec<String> = Vec::new();
                proof {
                    assert(r.deep_view() =~= Seq::<Seq<char>>::empty());
                }
                r
            },
        }
    }

    /// The tokens that were not consumed as part of any recognized option,
    /// in encounter order: the list stored under the reserved empty canonical
    /// name.
    pub fn get_leftovers(&self) -> (r: Vec<String>)
        requires
            self.wf(),
        ensures
            r.deep_view() == spec_leftovers_query(self.store_view()),
    {
        let empty_key = String::new();
        match self.values.get_multiple_values(&empty_key) {
            Some(v) => v,
            None => {
                let r: Vec<String> = Vec::new();
                proof {
                    assert(r.deep_view() =~= Seq::<Seq<char>>::empty());
                }
                r
            },
        }
    }
}

} // verus!
