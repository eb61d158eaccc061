//! The dispatcher: selects a command by the first raw argument, binds the
//! remaining tokens against the command's schema in declaration order
//! through the coercion layer, and decides between invoking the handler
//! and rendering help.

use vstd::prelude::*;
use vstd::string::*;
use crate::ArgsItem;
use crate::ItemModel;
use crate::args_map::ArgsMap;
use crate::from_args::Error;
use crate::from_args::ErrorModel;
use crate::from_args::FromArgsItem;
use crate::from_args::opt_item_model;
use crate::from_args::spec_with_name;
use crate::from_args::impls::ArgPath;
use crate::map_lookup;
use crate::parse_args;
use crate::schema::DocData;
use crate::schema::DocDataModel;
use crate::spec_tokenize;
use crate::strutil::spec_split_commas;
use crate::strutil::split_commas;
use crate::strutil::str_eq;

verus! {

/// The base type an argument is coerced to.
#[derive(Debug, Clone, Copy, PartialEq, Eq, Structural)]
pub enum BaseType {
    Text,
    Unsigned,
    Signed,
    Truth,
    PathLike,
}

/// How the base type is wrapped: required as is, optional, or a list.
#[derive(Debug, Clone, Copy, PartialEq, Eq, Structural)]
pub enum Modifier {
    Required,
    Optional,
    ListOf,
}

/// One typed, bound leaf value.
#[derive(Debug, PartialEq)]
pub enum LeafValue {
    Text(String),
    Unsigned(u64),
    Signed(i64),
    Truth(bool),
    PathVal(ArgPath),
}

/// Model of a leaf value.
pub enum LeafModel {
    Text(Seq<char>),
    Unsigned(u64),
    Signed(i64),
    Truth(bool),
    PathVal(Seq<char>),
}

impl View for LeafValue {
    type V = LeafModel;

    open spec fn view(&self) -> LeafModel {
        match self {
            LeafValue::Text(s) => LeafModel::Text(s@),
            LeafValue::Unsigned(v) => LeafModel::Unsigned(*v),
            LeafValue::Signed(v) => LeafModel::Signed(*v),
            LeafValue::Truth(b) => LeafModel::Truth(*b),
            LeafValue::PathVal(p) => LeafModel::PathVal(p@),
        }
    }
}

impl DeepView for LeafValue {
    type V = LeafModel;

    open spec fn deep_view(&self) -> LeafModel {
        self.view()
    }
}

/// A bound argument value: one leaf, a list of leaves, or an optional
/// leaf.
#[derive(Debug, PartialEq)]
pub enum ArgValue {
    Single(LeafValue),
    ListVal(Vec<LeafValue>),
    OptionalVal(Option<LeafValue>),
}

/// Model of a bound argument value.
pub enum ValueModel {
    Single(LeafModel),
    ListVal(Seq<LeafModel>),
    OptionalVal(Option<LeafModel>),
}

impl View for ArgValue {
    type V = ValueModel;

    open spec fn view(&self) -> ValueModel {
        match self {
            ArgValue::Single(v) => ValueModel::Single(v@),
            ArgValue::ListVal(vs) => ValueModel::ListVal(vs.deep_view()),
            ArgValue::OptionalVal(v) => ValueModel::OptionalVal(v.deep_view()),
        }
    }
}

impl DeepView for ArgValue {
    type V = ValueModel;

    open spec fn deep_view(&self) -> ValueModel {
        self.view()
    }
}

/// One schema entry: the argument's metadata and its target type.
#[derive(Debug, PartialEq)]
pub struct ArgSpec {
    pub doc: DocData,
    pub base: BaseType,
    pub modifier: Modifier,
}

/// Model of a schema entry.
pub struct ArgSpecModel {
    pub doc: DocDataModel,
    pub base: BaseType,
    pub modifier: Modifier,
}

impl View for ArgSpec {
    type V = ArgSpecModel;

    open spec fn view(&self) -> ArgSpecModel {
        ArgSpecModel { doc: self.doc@, base: self.base, modifier: self.modifier }
    }
}

impl DeepView for ArgSpec {
    type V = ArgSpecModel;

    open spec fn deep_view(&self) -> ArgSpecModel {
        self.view()
    }
}

/// A command's schema: its name, its help text, and its arguments in
/// declaration order.
#[derive(Debug, PartialEq)]
pub struct CommandSchema {
    pub name: String,
    pub help: String,
    pub args: Vec<ArgSpec>,
}

/// Model of a command's schema.
pub struct CommandModel {
    pub name: Seq<char>,
    pub help: Seq<char>,
    pub args: Seq<ArgSpecModel>,
}

impl View for CommandSchema {
    type V = CommandModel;

    open spec fn view(&self) -> CommandModel {
        CommandModel { name: self.name@, help: self.help@, args: self.args.deep_view() }
    }
}

impl DeepView for CommandSchema {
    type V = CommandModel;

    open spec fn deep_view(&self) -> CommandModel {
        self.view()
    }
}

/// What a leaf coercion returns: the base type's own conversion.
pub open spec fn spec_coerce_leaf(base: BaseType, item: Option<ItemModel>) -> Result<
    LeafModel,
    ErrorModel,
> {
    match base {
        BaseType::Text => match <String as FromArgsItem>::spec_from(item) {
            Ok(s) => Ok(LeafModel::Text(s)),
            Err(e) => Err(e),
        },
        BaseType::Unsigned => match <u64 as FromArgsItem>::spec_from(item) {
            Ok(v) => Ok(LeafModel::Unsigned(v)),
            Err(e) => Err(e),
        },
        BaseType::Signed => match <i64 as FromArgsItem>::spec_from(item) {
            Ok(v) => Ok(LeafModel::Signed(v)),
            Err(e) => Err(e),
        },
        BaseType::Truth => match <bool as FromArgsItem>::spec_from(item) {
            Ok(b) => Ok(LeafModel::Truth(b)),
            Err(e) => Err(e),
        },
        BaseType::PathLike => match <ArgPath as FromArgsItem>::spec_from(item) {
            Ok(p) => Ok(LeafModel::PathVal(p)),
            Err(e) => Err(e),
        },
    }
}

/// Converts one optional raw item into a leaf value of the base type.
fn coerce_leaf(base: BaseType, item: Option<&ArgsItem>) -> (r: Result<LeafValue, Error>)
    ensures
        (match r {
            Ok(v) => spec_coerce_leaf(base, opt_item_model(item)) == Ok::<LeafModel, ErrorModel>(
                v@,
            ),
            Err(e) => spec_coerce_leaf(base, opt_item_model(item)) == Err::<
                LeafModel,
                ErrorModel,
            >(e@),
        }),
{
    match base {
        BaseType::Text => match <String as FromArgsItem>::from_args_item(item) {
            Ok(s) => Ok(LeafValue::Text(s)),
            Err(e) => Err(e),
        },
        BaseType::Unsigned => match <u64 as FromArgsItem>::from_args_item(item) {
            Ok(v) => Ok(LeafValue::Unsigned(v)),
            Err(e) => Err(e),
        },
        BaseType::Signed => match <i64 as FromArgsItem>::from_args_item(item) {
            Ok(v) => Ok(LeafValue::Signed(v)),
            Err(e) => Err(e),
        },
        BaseType::Truth => match <bool as FromArgsItem>::from_args_item(item) {
            Ok(b) => Ok(LeafValue::Truth(b)),
            Err(e) => Err(e),
        },
        BaseType::PathLike => match <ArgPath as FromArgsItem>::from_args_item(item) {
            Ok(p) => Ok(LeafValue::PathVal(p)),
            Err(e) => Err(e),
        },
    }
}

/// Coerces each segment to a leaf of the base type, keeping the first
/// failure.
pub open spec fn spec_coerce_leaf_each(base: BaseType, segs: Seq<Seq<char>>) -> Result<
    Seq<LeafModel>,
    ErrorModel,
>
    decreases segs.len(),
{
    if segs.len() == 0 {
        Ok(Seq::empty())
    } else {
        match spec_coerce_leaf(base, Some(ItemModel::Str(segs[0]))) {
            Err(e) => Err(e),
            Ok(v) => match spec_coerce_leaf_each(base, segs.skip(1)) {
                Ok(vs) => Ok(seq![v] + vs),
                Err(e) => Err(e),
            },
        }
    }
}

fn coerce_leaf_each(base: BaseType, segs: &Vec<String>) -> (r: Result<Vec<LeafValue>, Error>)
    ensures
        (match r {
            Ok(vs) => spec_coerce_leaf_each(base, segs.deep_view()) == Ok::<
                Seq<LeafModel>,
                ErrorModel,
            >(vs.deep_view()),
            Err(e) => spec_coerce_leaf_each(base, segs.deep_view()) == Err::<
                Seq<LeafModel>,
                ErrorModel,
            >(e@),
        }),
{
    let ghost full = segs.deep_view();
    let mut out: Vec<LeafValue> = Vec::new();
    let n = segs.len();
    let mut j: usize = 0;
    proof {
        assert(full.skip(0) =~= full);
        assert(out.deep_view() =~= Seq::<LeafModel>::empty());
        match spec_coerce_leaf_each(base, full) {
            Ok(vs) => {
                assert(out.deep_view() + vs =~= vs);
            },
            Err(_) => {},
        }
    }
    while j < n
        invariant
            0 <= j <= n,
            n == segs@.len(),
            full == segs.deep_view(),
            full.len() == n,
            (match spec_coerce_leaf_each(base, full.skip(j as int)) {
                Ok(vs) => spec_coerce_leaf_each(base, full) == Ok::<Seq<LeafModel>, ErrorModel>(
                    out.deep_view() + vs,
                ),
                Err(e) => spec_coerce_leaf_each(base, full) == Err::<Seq<LeafModel>, ErrorModel>(
                    e,
                ),
            }),
        decreases n - j,
    {
        let tmp = ArgsItem::String(segs[j].clone());
        proof {
            assert(full[j as int] == segs@[j as int]@);
            assert(full.skip(j as int)[0] == full[j as int]);
            assert(full.skip(j as int).skip(1) =~= full.skip(j as int + 1));
        }
        match coerce_leaf(base, Some(&tmp)) {
            Ok(v) => {
                let ghost pre = out.deep_view();
                out.push(v);
                proof {
                    assert(out.deep_view() =~= pre.push(out@[out@.len() - 1]@));
                    match spec_coerce_leaf_each(base, full.skip(j as int + 1)) {
                        Ok(vs) => {
                            assert(pre.push(out@[out@.len() - 1]@) + vs =~= pre + (seq![
                                out@[out@.len() - 1]@,
                            ] + vs));
                        },
                        Err(_) => {},
                    }
                }
            },
            Err(e) => {
                return Err(e);
            },
        }
        j = j + 1;
    }
    proof {
        assert(full.skip(n as int) =~= Seq::<Seq<char>>::empty());
        match spec_coerce_leaf_each(base, full.skip(n as int)) {
            Ok(vs) => {
                assert(out.deep_view() + vs =~= out.deep_view());
            },
            Err(_) => {},
        }
    }
    Ok(out)
}

/// What binding one argument returns: the base coercion, wrapped by the
/// modifier exactly as the optional and list conversions wrap it.
pub open spec fn spec_coerce_value(
    base: BaseType,
    modifier: Modifier,
    item: Option<ItemModel>,
) -> Result<ValueModel, ErrorModel> {
    match modifier {
        Modifier::Required => match spec_coerce_leaf(base, item) {
            Ok(v) => Ok(ValueModel::Single(v)),
            Err(e) => Err(e),
        },
        Modifier::Optional => match item {
            None => Ok(ValueModel::OptionalVal(None)),
            Some(m) => match spec_coerce_leaf(base, Some(m)) {
                Ok(v) => Ok(ValueModel::OptionalVal(Some(v))),
                Err(e) => Err(e),
            },
        },
        Modifier::ListOf => match item {
            Some(ItemModel::Str(s)) => match spec_coerce_leaf_each(base, spec_split_commas(s)) {
                Ok(vs) => Ok(ValueModel::ListVal(vs)),
                Err(e) => Err(e),
            },
            Some(ItemModel::Present) => Err(ErrorModel::InvalidType {
                arg: "string"@,
                expected: "list"@,
                found: "flag"@,
            }),
            Some(ItemModel::Many(list)) => match spec_coerce_leaf_each(base, list) {
                Ok(vs) => Ok(ValueModel::ListVal(vs)),
                Err(e) => Err(e),
            },
            Some(ItemModel::PresentTimes(_)) => Err(ErrorModel::InvalidType {
                arg: "string"@,
                expected: "list"@,
                found: "flag "@,
            }),
            None => Err(ErrorModel::NotFound("string"@)),
        },
    }
}

/// Converts one optional raw item into a bound value of the entry's
/// target type.
fn coerce_value(base: BaseType, modifier: Modifier, item: Option<&ArgsItem>) -> (r: Result<
    ArgValue,
    Error,
>)
    ensures
        (match r {
            Ok(v) => spec_coerce_value(base, modifier, opt_item_model(item)) == Ok::<
                ValueModel,
                ErrorModel,
            >(v@),
            Err(e) => spec_coerce_value(base, modifier, opt_item_model(item)) == Err::<
                ValueModel,
                ErrorModel,
            >(e@),
        }),
{
    match modifier {
        Modifier::Required => match coerce_leaf(base, item) {
            Ok(v) => Ok(ArgValue::Single(v)),
            Err(e) => Err(e),
        },
        Modifier::Optional => match item {
            None => Ok(ArgValue::OptionalVal(None)),
            Some(it) => match coerce_leaf(base, Some(it)) {
                Ok(v) => Ok(ArgValue::OptionalVal(Some(v))),
                Err(e) => Err(e),
            },
        },
        Modifier::ListOf => match item {
            Some(ArgsItem::String(s)) => {
                let segs = split_commas(s.as_str());
                match coerce_leaf_each(base, &segs) {
                    Ok(vs) => Ok(ArgValue::ListVal(vs)),
                    Err(e) => Err(e),
                }
            },
            Some(ArgsItem::Present) => Err(Error::InvalidType {
                arg: String::from_str("string"),
                expected: String::from_str("list"),
                found: String::from_str("flag"),
            }),
            Some(ArgsItem::Many(list)) => match coerce_leaf_each(base, list) {
                Ok(vs) => Ok(ArgValue::ListVal(vs)),
                Err(e) => Err(e),
            },
            Some(ArgsItem::PresentTimes(_)) => Err(Error::InvalidType {
                arg: String::from_str("string"),
                expected: String::from_str("list"),
                found: String::from_str("flag "),
            }),
            None => Err(Error::NotFound(String::from_str("string"))),
        },
    }
}

/// Which key an entry reads: the positional sentinel reads the empty
/// key; any other entry reads its long key, falling back to its short
/// key when the long one is absent.
pub open spec fn spec_resolve(m: Map<Seq<char>, ItemModel>, doc: DocDataModel) -> Option<
    ItemModel,
> {
    if doc.long == "input"@ {
        map_lookup(m, Seq::empty())
    } else {
        match map_lookup(m, doc.long) {
            Some(it) => Some(it),
            None => match doc.short {
                Some(s) => map_lookup(m, s),
                None => None,
            },
        }
    }
}

/// Pulls the entry's item out of the argument map.
fn resolve<'a>(m: &'a ArgsMap, doc: &DocData) -> (r: Option<&'a ArgsItem>)
    requires
        m.wf(),
    ensures
        opt_item_model(r) == spec_resolve(m@, doc@),
{
    if str_eq(doc.long.as_str(), "input") {
        let r = m.get("");
        proof {
            reveal_strlit("");
            assert(""@ =~= Seq::<char>::empty());
        }
        r
    } else {
        let r = m.get(doc.long.as_str());
        if r.is_some() {
            r
        } else {
            match &doc.short {
                Some(s) => m.get(s.as_str()),
                None => None,
            }
        }
    }
}


/// Binding a command's arguments in declaration order: the first failing
/// argument aborts binding, annotated with that argument's long name and
/// the command's name.
pub open spec fn spec_bind_args(
    m: Map<Seq<char>, ItemModel>,
    args: Seq<ArgSpecModel>,
    cmd: Seq<char>,
) -> Result<Seq<ValueModel>, (Seq<char>, ErrorModel)>
    decreases args.len(),
{
    if args.len() == 0 {
        Ok(Seq::empty())
    } else {
        match spec_coerce_value(args[0].base, args[0].modifier, spec_resolve(m, args[0].doc)) {
            Err(e) => Err((cmd, spec_with_name(e, args[0].doc.long))),
            Ok(v) => match spec_bind_args(m, args.skip(1), cmd) {
                Ok(vs) => Ok(seq![v] + vs),
                Err(p) => Err(p),
            },
        }
    }
}

/// Binds every argument of the command from the tokenized map, or stops
/// at the first failure with the command's name and the annotated error.
pub fn bind_command(schema: &CommandSchema, m: &ArgsMap) -> (r: Result<
    Vec<ArgValue>,
    (String, Error),
>)
    requires
        m.wf(),
    ensures
        (match r {
            Ok(vs) => spec_bind_args(m@, schema@.args, schema@.name) == Ok::<
                Seq<ValueModel>,
                (Seq<char>, ErrorModel),
            >(vs.deep_view()),
            Err(p) => spec_bind_args(m@, schema@.args, schema@.name) == Err::<
                Seq<ValueModel>,
                (Seq<char>, ErrorModel),
            >((p.0@, p.1@)),
        }),
{
    let ghost full = schema.args.deep_view();
    let ghost cmd = schema.name@;
    let mut out: Vec<ArgValue> = Vec::new();
    let n = schema.args.len();
    let mut j: usize = 0;
    proof {
        assert(full.skip(0) =~= full);
        assert(out.deep_view() =~= Seq::<ValueModel>::empty());
        match spec_bind_args(m@, full, cmd) {
            Ok(vs) => {
                assert(out.deep_view() + vs =~= vs);
            },
            Err(_) => {},
        }
    }
    while j < n
        invariant
            0 <= j <= n,
            m.wf(),
            n == schema.args@.len(),
            full == schema.args.deep_view(),
            cmd == schema.name@,
            full.len() == n,
            (match spec_bind_args(m@, full.skip(j as int), cmd) {
                Ok(vs) => spec_bind_args(m@, full, cmd) == Ok::<
                    Seq<ValueModel>,
                    (Seq<char>, ErrorModel),
                >(out.deep_view() + vs),
                Err(p) => spec_bind_args(m@, full, cmd) == Err::<
                    Seq<ValueModel>,
                    (Seq<char>, ErrorModel),
                >(p),
            }),
        decreases n - j,
    {
        let entry = &schema.args[j];
        proof {
            assert(full[j as int] == schema.args@[j as int]@);
            assert(full.skip(j as int)[0] == full[j as int]);
            assert(full.skip(j as int).skip(1) =~= full.skip(j as int + 1));
        }
        let item = resolve(m, &entry.doc);
        match coerce_value(entry.base, entry.modifier, item) {
            Ok(v) => {
                let ghost pre = out.deep_view();
                out.push(v);
                proof {
                    assert(out.deep_view() =~= pre.push(out@[out@.len() - 1]@));
                    match spec_bind_args(m@, full.skip(j as int + 1), cmd) {
                        Ok(vs) => {
                            assert(pre.push(out@[out@.len() - 1]@) + vs =~= pre + (seq![
                                out@[out@.len() - 1]@,
                            ] + vs));
                        },
                        Err(_) => {},
                    }
                }
            },
            Err(e) => {
                return Err((schema.name.clone(), e.with_name(entry.doc.long.as_str())));
            },
        }
        j = j + 1;
    }
    proof {
        assert(full.skip(n as int) =~= Seq::<ArgSpecModel>::empty());
        match spec_bind_args(m@, full.skip(n as int), cmd) {
            Ok(vs) => {
                assert(out.deep_view() + vs =~= out.deep_view());
            },
            Err(_) => {},
        }
    }
    Ok(out)
}

/// Index of the first command with the given name, or the number of
/// commands when none matches.
pub open spec fn spec_find_command(cmds: Seq<CommandModel>, name: Seq<char>) -> int
    decreases cmds.len(),
{
    if cmds.len() == 0 {
        0
    } else if cmds[0].name == name {
        0
    } else {
        1 + spec_find_command(cmds.skip(1), name)
    }
}

proof fn lemma_find_command_none(cmds: Seq<CommandModel>, name: Seq<char>)
    requires
        forall|j: int| 0 <= j < cmds.len() ==> (#[trigger] cmds[j]).name != name,
    ensures
        spec_find_command(cmds, name) == cmds.len(),
    decreases cmds.len(),
{
    if cmds.len() > 0 {
        lemma_find_command_none(cmds.skip(1), name);
    }
}

proof fn lemma_find_command_at(cmds: Seq<CommandModel>, name: Seq<char>, k: int)
    requires
        0 <= k <= cmds.len(),
        forall|j: int| 0 <= j < k ==> (#[trigger] cmds[j]).name != name,
        k < cmds.len() ==> cmds[k].name == name,
    ensures
        spec_find_command(cmds, name) == k,
    decreases k,
{
    if k == 0 {
        if cmds.len() > 0 && cmds[0].name != name {
            lemma_find_command_none(cmds.skip(1), name);
        }
    } else {
        assert(cmds[0].name != name);
        lemma_find_command_at(cmds.skip(1), name, k - 1);
    }
}

/// What a run decides: invoke a command with its bound values, or render
/// help, possibly for one command and possibly with an error.
#[derive(Debug, PartialEq)]
pub enum DispatchOutcome {
    Invoke { index: usize, values: Vec<ArgValue> },
    RenderHelp { command: Option<String>, error: Option<Error> },
}

/// Model of a dispatch outcome.
pub enum OutcomeModel {
    Invoke { index: int, values: Seq<ValueModel> },
    RenderHelp { command: Option<Seq<char>>, error: Option<ErrorModel> },
}

impl View for DispatchOutcome {
    type V = OutcomeModel;

    open spec fn view(&self) -> OutcomeModel {
        match self {
            DispatchOutcome::Invoke { index, values } => OutcomeModel::Invoke {
                index: *index as int,
                values: values.deep_view(),
            },
            DispatchOutcome::RenderHelp { command, error } => OutcomeModel::RenderHelp {
                command: command.deep_view(),
                error: error.deep_view(),
            },
        }
    }
}

/// The whole pipeline's decision on a raw argument vector: no first
/// argument is a fatal missing command; a help flag anywhere, or the
/// help command, renders help; an unrecognized command name is its own
/// error; otherwise the named command's arguments are bound and the
/// command is invoked only when every argument bound.
pub open spec fn spec_dispatch(cmds: Seq<CommandModel>, argv: Seq<Seq<char>>) -> OutcomeModel {
    if argv.len() == 0 {
        OutcomeModel::RenderHelp { command: None, error: Some(ErrorModel::NoCommand) }
    } else {
        let name = argv[0];
        let m = spec_tokenize(argv.skip(1));
        if map_lookup(m, "help"@) is Some || map_lookup(m, "h"@) is Some {
            OutcomeModel::RenderHelp { command: Some(name), error: None }
        } else if name == "help"@ || name == "--help"@ || name == "-h"@ {
            match <Option<String> as FromArgsItem>::spec_from(map_lookup(m, Seq::empty())) {
                Ok(c) => OutcomeModel::RenderHelp { command: c, error: None },
                Err(e) => OutcomeModel::RenderHelp {
                    command: Some("help"@),
                    error: Some(spec_with_name(e, "input"@)),
                },
            }
        } else {
            let idx = spec_find_command(cmds, name);
            if idx == cmds.len() {
                OutcomeModel::RenderHelp {
                    command: None,
                    error: Some(ErrorModel::UnknownCommand(name)),
                }
            } else {
                match spec_bind_args(m, cmds[idx].args, cmds[idx].name) {
                    Ok(vs) => OutcomeModel::Invoke { index: idx, values: vs },
                    Err(p) => OutcomeModel::RenderHelp {
                        command: Some(p.0),
                        error: Some(p.1),
                    },
                }
            }
        }
    }
}

/// Runs the tokenize-and-bind pipeline on a raw argument vector.
pub fn dispatch(cmds: &Vec<CommandSchema>, argv: &Vec<String>) -> (r: DispatchOutcome)
    ensures
        r@ == spec_dispatch(cmds.deep_view(), argv.deep_view()),
{
    let ghost cmodels = cmds.deep_view();
    let ghost toks = argv.deep_view();
    let n = argv.len();
    if n == 0 {
        return DispatchOutcome::RenderHelp { command: None, error: Some(Error::NoCommand) };
    }
    proof {
        assert(toks[0] == argv@[0]@);
    }
    let name = argv[0].clone();
    let mut rest: Vec<String> = Vec::new();
    let mut i: usize = 1;
    proof {
        assert(rest.deep_view() =~= toks.subrange(1, 1));
    }
    while i < n
        invariant
            1 <= i <= n,
            n == argv@.len(),
            toks == argv.deep_view(),
            rest.deep_view() == toks.subrange(1, i as int),
        decreases n - i,
    {
        proof {
            assert(toks[i as int] == argv@[i as int]@);
        }
        let ghost pre = rest.deep_view();
        rest.push(argv[i].clone());
        proof {
            assert(rest.deep_view() =~= pre.push(rest@[rest@.len() - 1]@));
            assert(rest.deep_view() =~= toks.subrange(1, i + 1));
        }
        i = i + 1;
    }
    proof {
        assert(toks.subrange(1, n as int) =~= toks.skip(1));
    }
    let m = parse_args(rest);
    if m.get("help").is_some() || m.get("h").is_some() {
        return DispatchOutcome::RenderHelp { command: Some(name), error: None };
    }
    if str_eq(name.as_str(), "help") || str_eq(name.as_str(), "--help") || str_eq(
        name.as_str(),
        "-h",
    ) {
        proof {
            reveal_strlit("");
            assert(""@ =~= Seq::<char>::empty());
        }
        match <Option<String> as FromArgsItem>::from_args_item(m.get("")) {
            Ok(c) => {
                return DispatchOutcome::RenderHelp { command: c, error: None };
            },
            Err(e) => {
                return DispatchOutcome::RenderHelp {
                    command: Some(String::from_str("help")),
                    error: Some(e.with_name("input")),
                };
            },
        }
    }
    let nc = cmds.len();
    let mut idx: usize = 0;
    while idx < nc && !str_eq(cmds[idx].name.as_str(), name.as_str())
        invariant
            0 <= idx <= nc,
            nc == cmds@.len(),
            cmodels == cmds.deep_view(),
            name@ == toks[0],
            toks == argv.deep_view(),
            forall|j: int| 0 <= j < idx ==> (#[trigger] cmodels[j]).name != name@,
        decreases nc - idx,
    {
        proof {
            assert(cmodels[idx as int] == cmds@[idx as int]@);
        }
        idx = idx + 1;
    }
    proof {
        if idx < nc {
            assert(cmodels[idx as int] == cmds@[idx as int]@);
        }
        lemma_find_command_at(cmodels, name@, idx as int);
    }
    if idx == nc {
        return DispatchOutcome::RenderHelp {
            command: None,
            error: Some(Error::UnknownCommand(name)),
        };
    }
    proof {
        assert(cmodels[idx as int] == cmds@[idx as int]@);
    }
    match bind_command(&cmds[idx], &m) {
        Ok(vs) => DispatchOutcome::Invoke { index: idx, values: vs },
        Err(p) => DispatchOutcome::RenderHelp { command: Some(p.0), error: Some(p.1) },
    }
}


/// The type name a schema entry shows in help tables.
pub open spec fn spec_type_label(base: BaseType) -> Seq<char> {
    match base {
        BaseType::Text => "String"@,
        BaseType::Unsigned => "u64"@,
        BaseType::Signed => "i64"@,
        BaseType::Truth => "bool"@,
        BaseType::PathLike => "ArgPath"@,
    }
}

/// The human description a schema entry shows in help tables.
pub open spec fn spec_type_desc(base: BaseType) -> Seq<char> {
    match base {
        BaseType::Text => "<string>"@,
        BaseType::Unsigned => "<positive number>"@,
        BaseType::Signed => "<number>"@,
        BaseType::Truth => "<true|false>"@,
        BaseType::PathLike => "<path>"@,
    }
}

/// The modifier tag a schema entry shows in help tables.
pub open spec fn spec_type_extra(base: BaseType, modifier: Modifier) -> Seq<char> {
    match modifier {
        Modifier::Required => if base is Truth {
            "flag"@
        } else {
            ""@
        },
        Modifier::Optional => "optional"@,
        Modifier::ListOf => "list"@,
    }
}

fn base_label(base: BaseType) -> (r: &'static str)
    ensures
        r@ == spec_type_label(base),
{
    match base {
        BaseType::Text => "String",
        BaseType::Unsigned => "u64",
        BaseType::Signed => "i64",
        BaseType::Truth => "bool",
        BaseType::PathLike => "ArgPath",
    }
}

fn base_desc(base: BaseType) -> (r: &'static str)
    ensures
        r@ == spec_type_desc(base),
{
    match base {
        BaseType::Text => "<string>",
        BaseType::Unsigned => "<positive number>",
        BaseType::Signed => "<number>",
        BaseType::Truth => "<true|false>",
        BaseType::PathLike => "<path>",
    }
}

fn extra_label(base: BaseType, modifier: Modifier) -> (r: &'static str)
    ensures
        r@ == spec_type_extra(base, modifier),
{
    match modifier {
        Modifier::Required => match base {
            BaseType::Truth => "flag",
            _ => "",
        },
        Modifier::Optional => "optional",
        Modifier::ListOf => "list",
    }
}

/// The six cells one schema entry contributes to its command's help
/// table: long name, short alias, type name, type description, modifier
/// tag, and description.
pub open spec fn spec_help_row(a: ArgSpecModel) -> Seq<Seq<char>> {
    seq![
        if a.doc.long == "input"@ {
            "input"@
        } else {
            "--"@ + a.doc.long
        },
        match a.doc.short {
            Some(s) => "--"@ + s,
            None => Seq::empty(),
        },
        spec_type_label(a.base),
        spec_type_desc(a.base),
        spec_type_extra(a.base, a.modifier),
        a.doc.docs,
    ]
}

/// Builds the rows of one command's argument table, one row of six
/// cells per schema entry in declaration order.
pub fn command_help_rows(cmd: &CommandSchema) -> (r: Vec<Vec<String>>)
    ensures
        r.deep_view().len() == cmd@.args.len(),
        forall|i: int| 0 <= i < cmd@.args.len() ==> r.deep_view()[i] == spec_help_row(
            #[trigger] cmd@.args[i],
        ),
{
    let ghost args = cmd.args.deep_view();
    let mut rows: Vec<Vec<String>> = Vec::new();
    let n = cmd.args.len();
    let mut i: usize = 0;
    while i < n
        invariant
            0 <= i <= n,
            n == cmd.args@.len(),
            args == cmd.args.deep_view(),
            rows.deep_view().len() == i,
            forall|j: int| 0 <= j < i ==> rows.deep_view()[j] == spec_help_row(
                #[trigger] args[j],
            ),
        decreases n - i,
    {
        let entry = &cmd.args[i];
        proof {
            assert(args[i as int] == cmd.args@[i as int]@);
        }
        let mut row: Vec<String> = Vec::new();
        let long_cell = if str_eq(entry.doc.long.as_str(), "input") {
            String::from_str("input")
        } else {
            String::from_str("--").concat(entry.doc.long.as_str())
        };
        row.push(long_cell);
        let short_cell = match &entry.doc.short {
            Some(s) => String::from_str("--").concat(s.as_str()),
            None => String::new(),
        };
        row.push(short_cell);
        row.push(String::from_str(base_label(entry.base)));
        row.push(String::from_str(base_desc(entry.base)));
        row.push(String::from_str(extra_label(entry.base, entry.modifier)));
        row.push(entry.doc.docs.clone());
        proof {
            assert(row.deep_view() =~= spec_help_row(args[i as int]));
        }
        let ghost pre = rows.deep_view();
        rows.push(row);
        proof {
            assert(rows.deep_view() =~= pre.push(rows@[rows@.len() - 1].deep_view()));
        }
        i = i + 1;
    }
    rows
}

/// Builds the rows of the command overview table: each command's name
/// and help text, in order.
pub fn overview_rows(cmds: &Vec<CommandSchema>) -> (r: Vec<(String, String)>)
    ensures
        r.deep_view().len() == cmds.deep_view().len(),
        forall|i: int| 0 <= i < cmds.deep_view().len() ==> r.deep_view()[i] == ((
            #[trigger] cmds.deep_view()[i]).name, cmds.deep_view()[i].help),
{
    let ghost models = cmds.deep_view();
    let mut rows: Vec<(String, String)> = Vec::new();
    let n = cmds.len();
    let mut i: usize = 0;
    while i < n
        invariant
            0 <= i <= n,
            n == cmds@.len(),
            models == cmds.deep_view(),
            rows.deep_view().len() == i,
            forall|j: int| 0 <= j < i ==> rows.deep_view()[j] == ((#[trigger] models[j]).name,
            models[j].help),
        decreases n - i,
    {
        proof {
            assert(models[i as int] == cmds@[i as int]@);
        }
        let ghost pre = rows.deep_view();
        rows.push((cmds[i].name.clone(), cmds[i].help.clone()));
        proof {
            assert(rows.deep_view() =~= pre.push(rows@[rows@.len() - 1].deep_view()));
        }
        i = i + 1;
    }
    rows
}


/// Whether binding one schema entry from the tokenized map fails.
pub open spec fn spec_entry_fails(m: Map<Seq<char>, ItemModel>, a: ArgSpecModel) -> bool {
    spec_coerce_value(a.base, a.modifier, spec_resolve(m, a.doc)) is Err
}

/// The error that binding one schema entry gives.
pub open spec fn spec_entry_err(m: Map<Seq<char>, ItemModel>, a: ArgSpecModel) -> ErrorModel
    recommends
        spec_entry_fails(m, a),
{
    match spec_coerce_value(a.base, a.modifier, spec_resolve(m, a.doc)) {
        Err(e) => e,
        Ok(_) => ErrorModel::NoCommand,
    }
}

/// Binding is all-or-nothing: it succeeds exactly when every argument
/// of the schema binds.
pub proof fn lemma_bind_all_or_nothing(
    m: Map<Seq<char>, ItemModel>,
    args: Seq<ArgSpecModel>,
    cmd: Seq<char>,
)
    ensures
        (spec_bind_args(m, args, cmd) is Ok) <==> (forall|j: int|
            0 <= j < args.len() ==> !spec_entry_fails(m, #[trigger] args[j])),
    decreases args.len(),
{
    if args.len() > 0 {
        lemma_bind_all_or_nothing(m, args.skip(1), cmd);
        if spec_bind_args(m, args, cmd) is Ok {
            assert forall|j: int|
                0 <= j < args.len() implies !spec_entry_fails(m, #[trigger] args[j]) by {
                if j > 0 {
                    assert(!spec_entry_fails(m, args.skip(1)[j - 1]));
                }
            }
        }
        if forall|j: int| 0 <= j < args.len() ==> !spec_entry_fails(m, #[trigger] args[j]) {
            assert forall|j: int|
                0 <= j < args.skip(1).len() implies !spec_entry_fails(
                m,
                #[trigger] args.skip(1)[j],
            ) by {
                assert(args.skip(1)[j] == args[j + 1]);
            }
            assert(!spec_entry_fails(m, args[0]));
        }
    }
}

/// Binding stops at the first failing argument in declaration order and
/// reports the command's name together with exactly that argument's
/// long name.
pub proof fn lemma_bind_first_error(
    m: Map<Seq<char>, ItemModel>,
    args: Seq<ArgSpecModel>,
    cmd: Seq<char>,
    i: int,
)
    requires
        0 <= i < args.len(),
        spec_entry_fails(m, args[i]),
        forall|j: int| 0 <= j < i ==> !spec_entry_fails(m, #[trigger] args[j]),
    ensures
        spec_bind_args(m, args, cmd) == Err::<Seq<ValueModel>, (Seq<char>, ErrorModel)>(
            (cmd, spec_with_name(spec_entry_err(m, args[i]), args[i].doc.long)),
        ),
    decreases i,
{
    if i == 0 {
    } else {
        assert(!spec_entry_fails(m, args[0]));
        assert forall|j: int|
            0 <= j < i - 1 implies !spec_entry_fails(m, #[trigger] args.skip(1)[j]) by {
            assert(args.skip(1)[j] == args[j + 1]);
        }
        assert(args.skip(1)[i - 1] == args[i]);
        lemma_bind_first_error(m, args.skip(1), cmd, i - 1);
    }
}

} // verus!
