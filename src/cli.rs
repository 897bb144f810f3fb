//! Command-line arguments: each one classified as a flag or a positional
//! argument, then all of them folded into a command, its sub-arguments and a
//! table of flags.
use vstd::prelude::*;

use crate::text::{find_char, find_from};

verus! {

/// One classified command-line argument.
#[derive(Clone, Debug)]
pub enum ParsedArg {
    /// `--key`, `--key=value` or `-key`.
    Flag { key: String, value: Option<String> },
    /// Anything that does not start with `-`.
    Argument(String),
}

/// The mathematical content of a `ParsedArg`.
pub enum ArgView {
    Flag { key: Seq<char>, value: Option<Seq<char>> },
    Argument(Seq<char>),
}

pub open spec fn opt_view(o: Option<String>) -> Option<Seq<char>> {
    match o {
        Some(s) => Some(s@),
        None => None,
    }
}

impl View for ParsedArg {
    type V = ArgView;

    open spec fn view(&self) -> ArgView {
        match self {
            ParsedArg::Flag { key, value } => ArgView::Flag { key: key@, value: opt_view(*value) },
            ParsedArg::Argument(a) => ArgView::Argument(a@),
        }
    }
}

/// How one argument is classified. A long flag `--key=value` carries the
/// text after its first `=` as its value, and `--key` the empty text; only a
/// short flag `-key` carries no value.
pub open spec fn classify(s: Seq<char>) -> ArgView {
    if s.len() >= 2 && s[0] == '-' && s[1] == '-' {
        let body = s.skip(2);
        match find_from(body, '=', 0) {
            Some(k) => ArgView::Flag { key: body.take(k), value: Some(body.skip(k + 1)) },
            None => ArgView::Flag { key: body, value: Some(Seq::empty()) },
        }
    } else if s.len() >= 1 && s[0] == '-' {
        ArgView::Flag { key: s.skip(1), value: None }
    } else {
        ArgView::Argument(s)
    }
}

pub open spec fn classify_all(args: Seq<Seq<char>>) -> Seq<ArgView> {
    args.map_values(|a: Seq<char>| classify(a))
}

/// The flag table after the arguments `args`, a later flag replacing an
/// earlier one of the same key.
pub open spec fn flags_of(args: Seq<ArgView>) -> Map<Seq<char>, Option<Seq<char>>>
    decreases args.len(),
{
    if args.len() == 0 {
        Map::empty()
    } else {
        let m = flags_of(args.drop_last());
        match args.last() {
            ArgView::Flag { key, value } => m.insert(key, value),
            ArgView::Argument(_) => m,
        }
    }
}

/// The positional arguments among `args`, in order.
pub open spec fn positionals_of(args: Seq<ArgView>) -> Seq<Seq<char>>
    decreases args.len(),
{
    if args.len() == 0 {
        Seq::empty()
    } else {
        let p = positionals_of(args.drop_last());
        match args.last() {
            ArgView::Flag { .. } => p,
            ArgView::Argument(a) => p.push(a),
        }
    }
}

/// The table of the entries `e`, a later entry replacing an earlier one of
/// the same key.
pub open spec fn entries_map(e: Seq<(String, Option<String>)>) -> Map<
    Seq<char>,
    Option<Seq<char>>,
>
    decreases e.len(),
{
    if e.len() == 0 {
        Map::empty()
    } else {
        entries_map(e.drop_last()).insert(e.last().0@, opt_view(e.last().1))
    }
}

/// Flags by key, each with its value if it has one.
#[derive(Clone, Debug)]
pub struct Flags {
    pub entries: Vec<(String, Option<String>)>,
}

impl View for Flags {
    type V = Map<Seq<char>, Option<Seq<char>>>;

    open spec fn view(&self) -> Map<Seq<char>, Option<Seq<char>>> {
        entries_map(self.entries@)
    }
}

/// The parsed command line.
#[derive(Clone, Debug)]
pub struct Cli {
    pub command: Option<String>,
    pub sub_commands: Vec<String>,
    pub flags: Flags,
}

/// The mathematical content of a `Cli`.
pub struct CliView {
    pub command: Option<Seq<char>>,
    pub sub_commands: Seq<Seq<char>>,
    pub flags: Map<Seq<char>, Option<Seq<char>>>,
}

impl View for Cli {
    type V = CliView;

    open spec fn view(&self) -> CliView {
        CliView {
            command: opt_view(self.command),
            sub_commands: self.sub_commands@.map_values(|s: String| s@),
            flags: self.flags@,
        }
    }
}

/// The command line that the classified arguments `args` make: the first
/// positional argument is the command, the others follow it in order.
pub open spec fn cli_of(args: Seq<ArgView>) -> CliView {
    let p = positionals_of(args);
    CliView {
        command: if p.len() == 0 {
            None
        } else {
            Some(p[0])
        },
        sub_commands: if p.len() == 0 {
            Seq::empty()
        } else {
            p.skip(1)
        },
        flags: flags_of(args),
    }
}

/// The arguments after the program's own name.
pub open spec fn program_args(args: Seq<String>) -> Seq<Seq<char>> {
    if args.len() == 0 {
        Seq::empty()
    } else {
        args.skip(1).map_values(|s: String| s@)
    }
}

/// Whether `s` starts with `-`, as every flag does.
pub open spec fn starts_with_dash(s: Seq<char>) -> bool {
    s.len() > 0 && s[0] == '-'
}

/// A long flag `--k=v` whose key `k` holds no `=` is classified with key
/// `k` and value `v`.
pub proof fn lemma_long_flag(k: Seq<char>, v: Seq<char>)
    requires
        !k.contains('='),
    ensures
        classify(seq!['-', '-'] + k + seq!['='] + v) == (ArgView::Flag { key: k, value: Some(v) }),
{
    let s = seq!['-', '-'] + k + seq!['='] + v;
    let body = s.skip(2);
    assert(body =~= k + seq!['='] + v);
    assert forall|j: int| 0 <= j < k.len() implies body[j] != '=' by {
        assert(body[j] == k[j]);
    }
    lemma_long_flag_scan(body, k.len() as int, k.len() as int);
    assert(body.take(k.len() as int) =~= k);
    assert(body.skip(k.len() + 1 as int) =~= v);
}

proof fn lemma_long_flag_scan(body: Seq<char>, n: int, i: int)
    requires
        0 <= i <= n < body.len(),
        body[n] == '=',
        forall|j: int| 0 <= j < n ==> body[j] != '=',
    ensures
        find_from(body, '=', n - i) == Some(n),
    decreases i,
{
    if i > 0 {
        lemma_long_flag_scan(body, n, i - 1);
    }
}

/// A short flag `-x` is classified with key `x` and no value, where `x`
/// does not itself start with `-`.
pub proof fn lemma_short_flag(x: Seq<char>)
    requires
        !starts_with_dash(x),
    ensures
        classify(seq!['-'] + x) == (ArgView::Flag { key: x, value: None }),
{
    assert((seq!['-'] + x).skip(1) =~= x);
}

/// Text that does not start with `-` is a positional argument, unchanged.
pub proof fn lemma_positional(s: Seq<char>)
    requires
        !starts_with_dash(s),
    ensures
        classify(s) == ArgView::Argument(s),
{
}

proof fn lemma_positionals_of_arguments(args: Seq<Seq<char>>)
    requires
        forall|i: int| 0 <= i < args.len() ==> !starts_with_dash(#[trigger] args[i]),
    ensures
        positionals_of(classify_all(args)) == args,
        flags_of(classify_all(args)) == Map::<Seq<char>, Option<Seq<char>>>::empty(),
    decreases args.len(),
{
    if args.len() > 0 {
        lemma_positionals_of_arguments(args.drop_last());
        assert(classify_all(args).drop_last() =~= classify_all(args.drop_last()));
        lemma_positional(args.last());
        assert(args.drop_last().push(args.last()) =~= args);
    }
}

/// Positional arguments `a, b, c, ...` make the command `a` with the
/// sub-arguments `b, c, ...` in order, and no flags; none make no command.
pub proof fn lemma_positionals_in_order(args: Seq<Seq<char>>)
    requires
        forall|i: int| 0 <= i < args.len() ==> !starts_with_dash(#[trigger] args[i]),
    ensures
        args.len() > 0 ==> cli_of(classify_all(args)).command == Some(args[0]),
        args.len() > 0 ==> cli_of(classify_all(args)).sub_commands == args.skip(1),
        args.len() == 0 ==> cli_of(classify_all(args)).command is None,
        args.len() == 0 ==> cli_of(classify_all(args)).sub_commands.len() == 0,
        cli_of(classify_all(args)).flags == Map::<Seq<char>, Option<Seq<char>>>::empty(),
{
    lemma_positionals_of_arguments(args);
}

proof fn lemma_entries_map_update(
    e: Seq<(String, Option<String>)>,
    j: int,
    x: (String, Option<String>),
)
    requires
        0 <= j < e.len(),
        e[j].0@ == x.0@,
        forall|i: int| j < i < e.len() ==> (#[trigger] e[i]).0@ != x.0@,
    ensures
        entries_map(e.update(j, x)) == entries_map(e).insert(x.0@, opt_view(x.1)),
    decreases e.len(),
{
    let u = e.update(j, x);
    if j == e.len() - 1 {
        assert(u.drop_last() =~= e.drop_last());
        assert(entries_map(u) =~= entries_map(e).insert(x.0@, opt_view(x.1)));
    } else {
        assert(u.drop_last() =~= e.drop_last().update(j, x));
        lemma_entries_map_update(e.drop_last(), j, x);
        assert(e.last() == e[e.len() - 1]);
        assert(entries_map(u) =~= entries_map(e).insert(x.0@, opt_view(x.1)));
    }
}

proof fn lemma_entries_map_last(e: Seq<(String, Option<String>)>, j: int, k: Seq<char>)
    requires
        0 <= j < e.len(),
        e[j].0@ == k,
        forall|i: int| j < i < e.len() ==> (#[trigger] e[i]).0@ != k,
    ensures
        entries_map(e).contains_key(k),
        entries_map(e)[k] == opt_view(e[j].1),
    decreases e.len(),
{
    if j < e.len() - 1 {
        lemma_entries_map_last(e.drop_last(), j, k);
        assert(e.last() == e[e.len() - 1]);
    }
}

proof fn lemma_entries_map_absent(e: Seq<(String, Option<String>)>, k: Seq<char>)
    requires
        forall|i: int| 0 <= i < e.len() ==> (#[trigger] e[i]).0@ != k,
    ensures
        !entries_map(e).contains_key(k),
    decreases e.len(),
{
    if e.len() > 0 {
        lemma_entries_map_absent(e.drop_last(), k);
        assert(e.last() == e[e.len() - 1]);
    }
}

fn clone_opt(o: &Option<String>) -> (r: Option<String>)
    ensures
        opt_view(r) == opt_view(*o),
{
    match o {
        Some(s) => Some(s.clone()),
        None => None,
    }
}

impl Flags {
    /// An empty table.
    pub fn new() -> (r: Flags)
        ensures
            r@ == Map::<Seq<char>, Option<Seq<char>>>::empty(),
    {
        Flags { entries: Vec::new() }
    }

    /// The index of the last entry of `key`, if there is one.
    fn last_index_of(&self, key: &String) -> (r: Option<usize>)
        ensures
            match r {
                Some(j) => j < self.entries@.len() && self.entries@[j as int].0@ == key@
                    && forall|i: int|
                    j < i < self.entries@.len() ==> (#[trigger] self.entries@[i]).0@ != key@,
                None => forall|i: int|
                    0 <= i < self.entries@.len() ==> (#[trigger] self.entries@[i]).0@ != key@,
            },
    {
        let mut i: usize = self.entries.len();
        while i > 0
            invariant
                i <= self.entries@.len(),
                forall|k: int|
                    i <= k < self.entries@.len() ==> (#[trigger] self.entries@[k]).0@ != key@,
            decreases i,
        {
            if self.entries[i - 1].0 == *key {
                return Some(i - 1);
            }
            i = i - 1;
        }
        None
    }

    /// Sets `key` to `value`, replacing what it had.
    pub fn insert(&mut self, key: String, value: Option<String>)
        ensures
            final(self)@ == old(self)@.insert(key@, opt_view(value)),
    {
        let ghost k = key@;
        let ghost v = opt_view(value);
        match self.last_index_of(&key) {
            Some(j) => {
                proof {
                    lemma_entries_map_update(self.entries@, j as int, (key, value));
                }
                self.entries.set(j, (key, value));
            },
            None => {
                let ghost before = self.entries@;
                self.entries.push((key, value));
                assert(self.entries@.drop_last() =~= before);
            },
        }
    }

    /// Whether `key` is in the table.
    pub fn contains_key(&self, key: &str) -> (r: bool)
        ensures
            r == self@.contains_key(key@),
    {
        let k = String::from_str(key);
        match self.last_index_of(&k) {
            Some(j) => {
                proof {
                    lemma_entries_map_last(self.entries@, j as int, key@);
                }
                true
            },
            None => {
                proof {
                    lemma_entries_map_absent(self.entries@, key@);
                }
                false
            },
        }
    }

    /// What `key` holds: `None` where it is absent, `Some(None)` where it
    /// is a flag without a value.
    pub fn get(&self, key: &str) -> (r: Option<Option<String>>)
        ensures
            match r {
                Some(v) => self@.contains_key(key@) && self@[key@] == opt_view(v),
                None => !self@.contains_key(key@),
            },
    {
        let k = String::from_str(key);
        match self.last_index_of(&k) {
            Some(j) => {
                proof {
                    lemma_entries_map_last(self.entries@, j as int, key@);
                }
                Some(clone_opt(&self.entries[j].1))
            },
            None => {
                proof {
                    lemma_entries_map_absent(self.entries@, key@);
                }
                None
            },
        }
    }
}

pub open spec fn arg_views(args: Seq<ParsedArg>) -> Seq<ArgView> {
    args.map_values(|a: ParsedArg| a@)
}

pub open spec fn string_views(v: Seq<String>) -> Seq<Seq<char>> {
    v.map_values(|s: String| s@)
}

impl Cli {
    /// Folds classified arguments, in order, into a command line: flags go
    /// to the table (a later one of a key replacing an earlier one), and
    /// positional arguments make the command and its sub-arguments.
    pub fn parse(tokens: &Vec<ParsedArg>) -> (r: Cli)
        ensures
            r@ == cli_of(arg_views(tokens@)),
    {
        let mut flags = Flags::new();
        let mut positionals: Vec<String> = Vec::new();
        let mut i: usize = 0;
        assert(arg_views(tokens@.take(0)) =~= Seq::<ArgView>::empty());
        while i < tokens.len()
            invariant
                i <= tokens@.len(),
                flags@ == flags_of(arg_views(tokens@.take(i as int))),
                string_views(positionals@) == positionals_of(arg_views(tokens@.take(i as int))),
            decreases tokens@.len() - i,
        {
            let ghost before = arg_views(tokens@.take(i as int));
            assert(arg_views(tokens@.take(i + 1)).drop_last() =~= before);
            assert(arg_views(tokens@.take(i + 1)).last() == tokens@[i as int]@);
            match &tokens[i] {
                ParsedArg::Flag { key, value } => {
                    flags.insert(key.clone(), clone_opt(value));
                },
                ParsedArg::Argument(a) => {
                    let ghost p = positionals@;
                    positionals.push(a.clone());
                    assert(string_views(positionals@) =~= string_views(p).push(a@));
                },
            }
            i = i + 1;
        }
        assert(tokens@.take(tokens@.len() as int) =~= tokens@);
        let ghost p = string_views(positionals@);
        let command = if positionals.len() > 0 {
            Some(positionals[0].clone())
        } else {
            None
        };
        let mut sub_commands: Vec<String> = Vec::new();
        let mut j: usize = 1;
        while j < positionals.len()
            invariant
                1 <= j,
                p == string_views(positionals@),
                positionals@.len() > 0 ==> j <= positionals@.len(),
                positionals@.len() == 0 ==> sub_commands@.len() == 0,
                positionals@.len() > 0 ==> string_views(sub_commands@) =~= p.subrange(1, j as int),
            decreases positionals@.len() - j,
        {
            let ghost before = sub_commands@;
            sub_commands.push(positionals[j].clone());
            assert(string_views(sub_commands@) =~= string_views(before).push(p[j as int]));
            j = j + 1;
        }
        let r = Cli { command, sub_commands, flags };
        assert(r@.sub_commands =~= cli_of(arg_views(tokens@)).sub_commands);
        r
    }
}

/// Reads the process arguments `args`, whose first one is the program's own
/// name and is passed over.
pub fn init(args: &Vec<String>) -> (r: Cli)
    ensures
        r@ == cli_of(classify_all(program_args(args@))),
{
    let mut tokens: Vec<ParsedArg> = Vec::new();
    let mut i: usize = 1;
    while i < args.len()
        invariant
            1 <= i,
            args@.len() > 0 ==> i <= args@.len(),
            tokens@.len() == if args@.len() == 0 { 0 } else { i - 1 },
            forall|k: int|
                0 <= k < tokens@.len() ==> (#[trigger] tokens@[k])@ == classify(args@[k + 1]@),
        decreases args@.len() - i,
    {
        tokens.push(ParsedArg::classify(args[i].as_str()));
        i = i + 1;
    }
    assert(arg_views(tokens@) =~= classify_all(program_args(args@)));
    Cli::parse(&tokens)
}

impl ParsedArg {
    /// Classifies one argument: `--key[=value]` and `-key` are flags, any
    /// other text is a positional argument. A long flag keeps the text after
    /// its first `=` as its value, which is empty where there is no `=`; a
    /// short flag has no value.
    pub fn classify(s: &str) -> (r: ParsedArg)
        ensures
            r@ == classify(s@),
    {
        let n = s.unicode_len();
        if n >= 2 && s.get_char(0) == '-' && s.get_char(1) == '-' {
            let body = s.substring_char(2, n);
            assert(body@ =~= s@.skip(2));
            match find_char(body, '=') {
                Some(k) => {
                    let m = body.unicode_len();
                    let key = body.substring_char(0, k);
                    let value = body.substring_char(k + 1, m);
                    assert(key@ =~= body@.take(k as int));
                    assert(value@ =~= body@.skip(k + 1));
                    ParsedArg::Flag {
                        key: String::from_str(key),
                        value: Some(String::from_str(value)),
                    }
                },
                None => ParsedArg::Flag { key: String::from_str(body), value: Some(String::new()) },
            }
        } else if n >= 1 && s.get_char(0) == '-' {
            let key = s.substring_char(1, n);
            assert(key@ =~= s@.skip(1));
            ParsedArg::Flag { key: String::from_str(key), value: None }
        } else {
            ParsedArg::Argument(String::from_str(s))
        }
    }
}

} // verus!
