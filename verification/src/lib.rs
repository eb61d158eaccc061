//! A declarative command-line framework: a tokenizer that turns raw process
//! arguments into an order-independent argument map, occurrence-accumulation
//! rules deciding whether a repeated flag becomes a list, a count, or an
//! error, and a typed coercion layer converting raw tokens into strongly
//! typed values with a uniform error taxonomy.

pub mod args_map;
pub mod dispatch;
pub mod from_args;
pub mod numparse;
pub mod schema;
pub mod strutil;

use vstd::prelude::*;

verus! {

/// The raw, untyped result of parsing one argument key's occurrences.
#[derive(Debug, PartialEq)]
pub enum ArgsItem {
    /// Key seen exactly once with an attached value.
    String(String),
    /// Key seen multiple times with attached values.
    Many(Vec<String>),
    /// Key seen exactly once with no attached value (boolean flag).
    Present,
    /// Key seen multiple times, none with an attached value.
    PresentTimes(usize),
}

/// Mathematical model of an `ArgsItem`.
pub enum ItemModel {
    Str(Seq<char>),
    Many(Seq<Seq<char>>),
    Present,
    PresentTimes(nat),
}

impl View for ArgsItem {
    type V = ItemModel;

    open spec fn view(&self) -> ItemModel {
        match self {
            ArgsItem::String(s) => ItemModel::Str(s@),
            ArgsItem::Many(vs) => ItemModel::Many(vs.deep_view()),
            ArgsItem::Present => ItemModel::Present,
            ArgsItem::PresentTimes(n) => ItemModel::PresentTimes(*n as nat),
        }
    }
}

impl DeepView for ArgsItem {
    type V = ItemModel;

    open spec fn deep_view(&self) -> ItemModel {
        self.view()
    }
}

/// The occurrence-accumulation rule: how one more occurrence of a key,
/// with or without an attached value, changes the key's item. Once a key
/// has ever carried a value, later valueless occurrences are recorded as
/// empty strings inside `Many`, never dropped.
pub open spec fn spec_fold_occurrence(cur: Option<ItemModel>, value: Option<Seq<char>>) -> ItemModel {
    match cur {
        None => match value {
            Some(v) => ItemModel::Str(v),
            None => ItemModel::Present,
        },
        Some(ItemModel::Str(a)) => match value {
            Some(v) => ItemModel::Many(seq![a, v]),
            None => ItemModel::Many(seq![a, Seq::<char>::empty()]),
        },
        Some(ItemModel::Present) => match value {
            Some(v) => ItemModel::Many(seq![Seq::<char>::empty(), v]),
            None => ItemModel::PresentTimes(2),
        },
        Some(ItemModel::PresentTimes(n)) => match value {
            Some(v) => ItemModel::Many(Seq::new(n, |i: int| Seq::<char>::empty()).push(v)),
            None => ItemModel::PresentTimes((n + 1) as nat),
        },
        Some(ItemModel::Many(list)) => match value {
            Some(v) => ItemModel::Many(list.push(v)),
            None => ItemModel::Many(list.push(Seq::<char>::empty())),
        },
    }
}

/// True unless the item is a flag count already at the machine limit,
/// the one state one more valueless occurrence could not record.
pub open spec fn can_fold_more(cur: Option<ItemModel>) -> bool {
    match cur {
        Some(ItemModel::PresentTimes(n)) => n < usize::MAX,
        _ => true,
    }
}

/// Folds one occurrence of a key into the key's current item, following
/// the transition table.
pub fn fold_occurrence(cur: Option<ArgsItem>, value: Option<String>) -> (r: ArgsItem)
    requires
        can_fold_more(cur.deep_view()),
    ensures
        r@ == spec_fold_occurrence(cur.deep_view(), value.deep_view()),
{
    match cur {
        None => match value {
            Some(v) => ArgsItem::String(v),
            None => ArgsItem::Present,
        },
        Some(ArgsItem::String(a)) => {
            let v = match value {
                Some(v) => v,
                None => String::new(),
            };
            let mut vs: Vec<String> = Vec::new();
            vs.push(a);
            vs.push(v);
            proof {
                assert(vs.deep_view() =~= seq![vs@[0]@, vs@[1]@]);
            }
            ArgsItem::Many(vs)
        },
        Some(ArgsItem::Present) => match value {
            Some(v) => {
                let mut vs: Vec<String> = Vec::new();
                vs.push(String::new());
                vs.push(v);
                proof {
                    assert(vs.deep_view() =~= seq![Seq::<char>::empty(), vs@[1]@]);
                }
                ArgsItem::Many(vs)
            },
            None => ArgsItem::PresentTimes(2),
        },
        Some(ArgsItem::PresentTimes(n)) => match value {
            Some(v) => {
                let mut vs: Vec<String> = Vec::new();
                let mut j: usize = 0;
                while j < n
                    invariant
                        0 <= j <= n,
                        vs@.len() == j,
                        forall|i: int| 0 <= i < j ==> (#[trigger] vs@[i])@ == Seq::<char>::empty(),
                    decreases n - j,
                {
                    vs.push(String::new());
                    j = j + 1;
                }
                vs.push(v);
                proof {
                    assert(vs.deep_view() =~= Seq::new(
                        n as nat,
                        |i: int| Seq::<char>::empty(),
                    ).push(vs@[n as int]@));
                }
                ArgsItem::Many(vs)
            },
            None => ArgsItem::PresentTimes(n + 1),
        },
        Some(ArgsItem::Many(mut list)) => {
            let v = match value {
                Some(v) => v,
                None => String::new(),
            };
            let ghost prev = list.deep_view();
            list.push(v);
            proof {
                assert(list.deep_view() =~= prev.push(list@[list@.len() - 1]@));
            }
            ArgsItem::Many(list)
        },
    }
}

/// Looks a key up in a model map, as an optional item.
pub open spec fn map_lookup(m: Map<Seq<char>, ItemModel>, k: Seq<char>) -> Option<ItemModel> {
    if m.contains_key(k) {
        Some(m[k])
    } else {
        None
    }
}

/// Folds a run of occurrences, front to back, into an optional item.
pub open spec fn spec_fold_all(cur: Option<ItemModel>, occs: Seq<Option<Seq<char>>>) -> Option<
    ItemModel,
>
    decreases occs.len(),
{
    if occs.len() == 0 {
        cur
    } else {
        spec_fold_all(Some(spec_fold_occurrence(cur, occs[0])), occs.skip(1))
    }
}

/// A flag consumes the following token as its value only when that token
/// exists and does not begin with a dash.
pub open spec fn spec_takes_lookahead(tokens: Seq<Seq<char>>, i: int) -> bool {
    i + 1 < tokens.len() && !(tokens[i + 1].len() > 0 && tokens[i + 1][0] == '-')
}

/// One tokenizer step: what token `i` contributes (`None` for a bare
/// dash, else a key with an optional attached value) and where the next
/// step starts.
pub open spec fn spec_token_step(tokens: Seq<Seq<char>>, i: int) -> (
    Option<(Seq<char>, Option<Seq<char>>)>,
    int,
)
    recommends
        0 <= i < tokens.len(),
{
    let t = tokens[i];
    if t.len() >= 2 && t[0] == '-' && t[1] == '-' {
        if spec_takes_lookahead(tokens, i) {
            (Some((t.skip(2), Some(tokens[i + 1]))), i + 2)
        } else {
            (Some((t.skip(2), None)), i + 1)
        }
    } else if t.len() >= 1 && t[0] == '-' {
        if t.len() == 1 {
            (None, i + 1)
        } else if t.len() == 2 {
            if spec_takes_lookahead(tokens, i) {
                (Some((seq![t[1]], Some(tokens[i + 1]))), i + 2)
            } else {
                (Some((seq![t[1]], None)), i + 1)
            }
        } else {
            (Some((seq![t[1]], Some(t.skip(2)))), i + 1)
        }
    } else {
        (Some((Seq::empty(), Some(t))), i + 1)
    }
}

/// The map after tokenizing from position `i` onward, starting from `m`.
pub open spec fn spec_tokenize_from(
    tokens: Seq<Seq<char>>,
    i: int,
    m: Map<Seq<char>, ItemModel>,
) -> Map<Seq<char>, ItemModel>
    decreases tokens.len() - i,
{
    if i < 0 || i >= tokens.len() {
        m
    } else {
        let (occ, next) = spec_token_step(tokens, i);
        let m2 = match occ {
            Some((k, v)) => m.insert(k, spec_fold_occurrence(map_lookup(m, k), v)),
            None => m,
        };
        spec_tokenize_from(tokens, next, m2)
    }
}

/// The argument map denoted by a raw token sequence.
pub open spec fn spec_tokenize(tokens: Seq<Seq<char>>) -> Map<Seq<char>, ItemModel> {
    spec_tokenize_from(tokens, 0, Map::empty())
}

/// Bound kept on flag counts while tokenizing: a count never exceeds the
/// number of tokens folded so far.
pub open spec fn count_bound(item: ItemModel, bound: int) -> bool {
    match item {
        ItemModel::PresentTimes(c) => c <= bound,
        _ => true,
    }
}

/// The value token consumed by a flag standing at position `i`.
fn flag_value(args: &Vec<String>, i: usize) -> (r: Option<String>)
    requires
        i < args@.len(),
    ensures
        spec_takes_lookahead(args.deep_view(), i as int) ==> (r matches Some(v) && v@
            == args.deep_view()[i + 1]),
        !spec_takes_lookahead(args.deep_view(), i as int) ==> r is None,
{
    let n = args.len();
    if n - i > 1 {
        let nxt = args[i + 1].as_str();
        let nn = nxt.unicode_len();
        proof {
            assert(args.deep_view()[i + 1] == args@[i + 1]@);
        }
        if nn == 0 || nxt.get_char(0) != '-' {
            return Some(args[i + 1].clone());
        }
    }
    None
}

/// Turns a raw argument sequence into the argument map, applying the
/// occurrence-accumulation rules; the result is a pure function of the
/// input, so tokenizing the same sequence twice gives the same map.
pub fn parse_args(args: Vec<String>) -> (r: args_map::ArgsMap)
    ensures
        r.wf(),
        r@ == spec_tokenize(args.deep_view()),
{
    let ghost toks = args.deep_view();
    let mut collection = args_map::ArgsMap::new();
    let n = args.len();
    let mut i: usize = 0;
    while i < n
        invariant
            0 <= i <= n,
            n == args@.len(),
            toks == args.deep_view(),
            toks.len() == n,
            collection.wf(),
            spec_tokenize_from(toks, i as int, collection@) == spec_tokenize(toks),
            forall|k: Seq<char>| collection@.contains_key(k) ==> count_bound(
                #[trigger] collection@[k],
                i as int,
            ),
            i == 0 ==> collection@ == Map::<Seq<char>, ItemModel>::empty(),
        decreases n - i,
    {
        proof {
            assert(toks[i as int] == args@[i as int]@);
        }
        let s = args[i].as_str();
        let sn = s.unicode_len();
        let ghost m0 = collection@;
        let ghost step_spec = spec_token_step(toks, i as int);
        let mut step: usize = 1;
        if sn >= 2 && s.get_char(0) == '-' && s.get_char(1) == '-' {
            let key = String::from_str(s.substring_char(2, sn));
            proof {
                assert(key@ =~= toks[i as int].skip(2));
            }
            let value = flag_value(&args, i);
            if value.is_some() {
                step = 2;
            }
            proof {
                assert(step_spec == (Some((key@, value.deep_view())), i + step));
                assert(can_fold_more(map_lookup(m0, key@)));
            }
            collection.insert_occurrence(key, value);
        } else if sn >= 1 && s.get_char(0) == '-' {
            if sn == 1 {
                proof {
                    assert(step_spec == (None::<(Seq<char>, Option<Seq<char>>)>, i + 1));
                }
            } else if sn == 2 {
                let key = String::from_str(s.substring_char(1, 2));
                proof {
                    assert(key@ =~= seq![toks[i as int][1]]);
                }
                let value = flag_value(&args, i);
                if value.is_some() {
                    step = 2;
                }
                proof {
                    assert(step_spec == (Some((key@, value.deep_view())), i + step));
                    assert(can_fold_more(map_lookup(m0, key@)));
                }
                collection.insert_occurrence(key, value);
            } else {
                let key = String::from_str(s.substring_char(1, 2));
                let value = Some(String::from_str(s.substring_char(2, sn)));
                proof {
                    assert(key@ =~= seq![toks[i as int][1]]);
                    assert(value.deep_view() matches Some(v) && v =~= toks[i as int].skip(2));
                    assert(step_spec == (Some((key@, value.deep_view())), i + 1));
                    assert(can_fold_more(map_lookup(m0, key@)));
                }
                collection.insert_occurrence(key, value);
            }
        } else {
            let key = String::new();
            let value = Some(args[i].clone());
            proof {
                assert(key@ =~= Seq::<char>::empty());
                assert(step_spec == (Some((key@, value.deep_view())), i + 1));
                assert(can_fold_more(map_lookup(m0, key@)));
            }
            collection.insert_occurrence(key, value);
        }
        proof {
            let (occ, next) = step_spec;
            assert(next == i + step);
            let m2 = match occ {
                Some((k, v)) => m0.insert(k, spec_fold_occurrence(map_lookup(m0, k), v)),
                None => m0,
            };
            assert(collection@ == m2);
            assert(spec_tokenize_from(toks, i as int, m0) == spec_tokenize_from(toks, next, m2));
            assert forall|k: Seq<char>| collection@.contains_key(k) implies count_bound(
                #[trigger] collection@[k],
                (i + step) as int,
            ) by {
                match occ {
                    Some((kk, v)) => {
                        if k == kk {
                            match map_lookup(m0, kk) {
                                Some(ItemModel::Present) => {
                                    assert(m0.contains_key(kk));
                                    assert(i != 0);
                                },
                                _ => {},
                            }
                        } else {
                            assert(m0.contains_key(k) && m0[k] == collection@[k]);
                        }
                    },
                    None => {},
                }
            }
        }
        i = i + step;
    }
    proof {
        assert(spec_tokenize_from(toks, n as int, collection@) == collection@);
    }
    collection
}

/// Occurrence folding is associative: folding a whole run of occurrences
/// one at a time gives the same item as folding a first batch and then
/// folding the remainder into its result.
pub proof fn lemma_fold_occurrences_associative(
    cur: Option<ItemModel>,
    xs: Seq<Option<Seq<char>>>,
    ys: Seq<Option<Seq<char>>>,
)
    ensures
        spec_fold_all(cur, xs + ys) == spec_fold_all(spec_fold_all(cur, xs), ys),
    decreases xs.len(),
{
    if xs.len() == 0 {
        assert(xs + ys =~= ys);
    } else {
        assert((xs + ys)[0] == xs[0]);
        assert((xs + ys).skip(1) =~= xs.skip(1) + ys);
        lemma_fold_occurrences_associative(
            Some(spec_fold_occurrence(cur, xs[0])),
            xs.skip(1),
            ys,
        );
    }
}

} // verus!
