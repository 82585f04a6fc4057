use vstd::prelude::*;

use crate::text::same_text;

verus! {

/// The command line: `trello <command> ...`.
#[derive(Debug)]
pub struct Cli {
    pub command: Commands,
}

/// The top-level commands.
#[derive(Debug)]
pub enum Commands {
    /// Save API credentials to the config file.
    Login { api_key: Option<String>, api_token: Option<String> },
    /// Manage cards.
    Card { command: CardCommands },
    /// Manage lists.
    List { command: ListCommands },
}

/// The commands on cards.
#[derive(Debug)]
pub enum CardCommands {
    /// Create a card in a list given by identifier or by name.
    Create {
        list: String,
        name: String,
        description: Option<String>,
        position: String,
        board: Option<String>,
    },
    /// Update a card's description, labels, comments or archived state.
    Update {
        card_id: String,
        description: Option<String>,
        label: Vec<String>,
        clear_label: Vec<String>,
        comment: Option<String>,
        archive: bool,
        restore: bool,
    },
    /// Change a card's position.
    Move { card_id: String, position: String },
    /// Find cards whose name matches a pattern.
    Find { pattern: String, board: Option<String>, list: Option<String>, json: bool },
    /// Show a card in detail.
    Show { card_id: String, json: bool, comments: bool },
}

/// The commands on lists.
#[derive(Debug)]
pub enum ListCommands {
    /// Change a list's position.
    Move { list_id: String, position: String },
}

/// What went wrong reading the command line.
#[derive(PartialEq, Eq, Structural, Debug, Clone, Copy)]
pub enum CliErrorKind {
    /// No command, or an incomplete one, was given.
    MissingCommand,
    /// The command word is not one of the known commands.
    UnknownCommand,
    /// An option that the command does not have.
    UnknownArgument,
    /// An option that takes a value came last, or before another option.
    MissingValue,
    /// A single-valued option or a switch was given twice.
    RepeatedArgument,
    /// Fewer positional arguments than the command needs.
    MissingArgument,
    /// More positional arguments than the command takes.
    UnexpectedArgument,
}

/// A command-line error: its kind and the argument it concerns (empty where none).
#[derive(Debug)]
pub struct CliError {
    pub kind: CliErrorKind,
    pub token: String,
}

/// The command that the leading words name.
#[derive(PartialEq, Eq, Structural, Debug, Clone, Copy)]
pub enum Sub {
    Login,
    CardCreate,
    CardUpdate,
    CardMove,
    CardFind,
    CardShow,
    ListMove,
}

/// What one argument is to a command: one of its single-valued options, one of its
/// repeatable options, one of its switches, a positional argument, or unknown.
#[derive(PartialEq, Eq, Structural, Debug, Clone, Copy)]
pub enum ArgKind {
    Value0,
    Value1,
    Value2,
    Multi0,
    Multi1,
    Flag0,
    Flag1,
    Positional,
    Unknown,
}

/// Whether an argument has the shape of an option: a dash and at least one more character.
pub open spec fn option_like(tok: Seq<char>) -> bool {
    tok.len() >= 2 && tok[0] == '-'
}

/// The options of each command, by short and long name.
pub open spec fn kind_of(sub: Sub, tok: Seq<char>) -> ArgKind {
    if !option_like(tok) {
        ArgKind::Positional
    } else {
        match sub {
            Sub::Login => if tok == "--api-key"@ {
                ArgKind::Value0
            } else if tok == "--api-token"@ {
                ArgKind::Value1
            } else {
                ArgKind::Unknown
            },
            Sub::CardCreate => if tok == "-d"@ || tok == "--description"@ {
                ArgKind::Value0
            } else if tok == "-p"@ || tok == "--position"@ {
                ArgKind::Value1
            } else if tok == "-b"@ || tok == "--board"@ {
                ArgKind::Value2
            } else {
                ArgKind::Unknown
            },
            Sub::CardUpdate => if tok == "-d"@ || tok == "--description"@ {
                ArgKind::Value0
            } else if tok == "-c"@ || tok == "--comment"@ {
                ArgKind::Value1
            } else if tok == "-l"@ || tok == "--label"@ {
                ArgKind::Multi0
            } else if tok == "--clear-label"@ {
                ArgKind::Multi1
            } else if tok == "-a"@ || tok == "--archive"@ {
                ArgKind::Flag0
            } else if tok == "-r"@ || tok == "--restore"@ {
                ArgKind::Flag1
            } else {
                ArgKind::Unknown
            },
            Sub::CardFind => if tok == "-b"@ || tok == "--board"@ {
                ArgKind::Value0
            } else if tok == "-l"@ || tok == "--list"@ {
                ArgKind::Value1
            } else if tok == "--json"@ {
                ArgKind::Flag0
            } else {
                ArgKind::Unknown
            },
            Sub::CardShow => if tok == "--json"@ {
                ArgKind::Flag0
            } else if tok == "--comments"@ {
                ArgKind::Flag1
            } else {
                ArgKind::Unknown
            },
            Sub::CardMove | Sub::ListMove => ArgKind::Unknown,
        }
    }
}

/// The arguments of a command as read so far.
pub struct ArgsModel {
    pub v0: Option<Seq<char>>,
    pub v1: Option<Seq<char>>,
    pub v2: Option<Seq<char>>,
    pub m0: Seq<Seq<char>>,
    pub m1: Seq<Seq<char>>,
    pub f0: bool,
    pub f1: bool,
    pub pos: Seq<Seq<char>>,
}

/// Nothing read yet.
pub open spec fn no_args() -> ArgsModel {
    ArgsModel {
        v0: None,
        v1: None,
        v2: None,
        m0: Seq::empty(),
        m1: Seq::empty(),
        f0: false,
        f1: false,
        pos: Seq::empty(),
    }
}

/// Whether a switch was already given.
pub open spec fn flag_given(a: ArgsModel, k: ArgKind) -> bool {
    if k == ArgKind::Flag0 {
        a.f0
    } else {
        a.f1
    }
}

/// Whether a single-valued option was already given.
pub open spec fn value_given(a: ArgsModel, k: ArgKind) -> bool {
    match k {
        ArgKind::Value0 => a.v0 is Some,
        ArgKind::Value1 => a.v1 is Some,
        ArgKind::Value2 => a.v2 is Some,
        _ => false,
    }
}

/// The arguments with a switch turned on.
pub open spec fn with_flag(a: ArgsModel, k: ArgKind) -> ArgsModel {
    if k == ArgKind::Flag0 {
        ArgsModel { f0: true, ..a }
    } else {
        ArgsModel { f1: true, ..a }
    }
}

/// The arguments with one more option value.
pub open spec fn with_value(a: ArgsModel, k: ArgKind, v: Seq<char>) -> ArgsModel {
    match k {
        ArgKind::Value0 => ArgsModel { v0: Some(v), ..a },
        ArgKind::Value1 => ArgsModel { v1: Some(v), ..a },
        ArgKind::Value2 => ArgsModel { v2: Some(v), ..a },
        ArgKind::Multi0 => ArgsModel { m0: a.m0.push(v), ..a },
        _ => ArgsModel { m1: a.m1.push(v), ..a },
    }
}

/// Whether `p` is where the first `=` of a long option `--name=value` stands.
pub open spec fn long_value_at(tok: Seq<char>, p: int) -> bool {
    2 <= p < tok.len() && tok[0] == '-' && tok[1] == '-' && tok[p] == '=' && forall|j: int|
        2 <= j < p ==> #[trigger] tok[j] != '='
}

/// An option with its value in the same argument: `--name=value`, or a short
/// option followed directly by its value (`-dvalue`). Gives the option's name and
/// the value.
pub open spec fn attached(tok: Seq<char>) -> Option<(Seq<char>, Seq<char>)> {
    if exists|p: int| long_value_at(tok, p) {
        let p = choose|p: int| long_value_at(tok, p);
        Some((tok.subrange(0, p), tok.subrange(p + 1, tok.len() as int)))
    } else if tok.len() > 2 && tok[0] == '-' && tok[1] != '-' {
        Some((tok.subrange(0, 2), tok.subrange(2, tok.len() as int)))
    } else {
        None
    }
}

/// Whether an option takes a value.
pub open spec fn takes_value(k: ArgKind) -> bool {
    k == ArgKind::Value0 || k == ArgKind::Value1 || k == ArgKind::Value2 || k == ArgKind::Multi0
        || k == ArgKind::Multi1
}

/// Reads a command's arguments from left to right. A value option takes the value
/// attached to it (`--name=value`, `-dvalue`), or else the next argument, unless
/// there is none or it has the shape of an option. A switch takes no value.
pub open spec fn scan(sub: Sub, toks: Seq<Seq<char>>, a: ArgsModel) -> Result<ArgsModel, (CliErrorKind, Seq<char>)>
    decreases toks.len(),
{
    if toks.len() == 0 {
        Ok(a)
    } else if attached(toks[0]) is Some {
        let tok = toks[0];
        let (name, v) = attached(tok)->Some_0;
        let k = kind_of(sub, name);
        if !takes_value(k) {
            Err((CliErrorKind::UnknownArgument, tok))
        } else if value_given(a, k) {
            Err((CliErrorKind::RepeatedArgument, tok))
        } else {
            scan(sub, toks.drop_first(), with_value(a, k, v))
        }
    } else {
        let tok = toks[0];
        let k = kind_of(sub, tok);
        if k == ArgKind::Positional {
            scan(sub, toks.drop_first(), ArgsModel { pos: a.pos.push(tok), ..a })
        } else if k == ArgKind::Unknown {
            Err((CliErrorKind::UnknownArgument, tok))
        } else if k == ArgKind::Flag0 || k == ArgKind::Flag1 {
            if flag_given(a, k) {
                Err((CliErrorKind::RepeatedArgument, tok))
            } else {
                scan(sub, toks.drop_first(), with_flag(a, k))
            }
        } else if toks.len() < 2 || option_like(toks[1]) {
            Err((CliErrorKind::MissingValue, tok))
        } else if value_given(a, k) {
            Err((CliErrorKind::RepeatedArgument, tok))
        } else {
            scan(sub, toks.subrange(2, toks.len() as int), with_value(a, k, toks[1]))
        }
    }
}

/// The command that the leading words name, and where its own arguments start.
pub open spec fn sub_at(toks: Seq<Seq<char>>) -> Result<(Sub, int), (CliErrorKind, Seq<char>)> {
    if toks.len() < 2 {
        Err((CliErrorKind::MissingCommand, Seq::empty()))
    } else if toks[1] == "login"@ {
        Ok((Sub::Login, 2))
    } else if toks[1] == "card"@ {
        if toks.len() < 3 {
            Err((CliErrorKind::MissingCommand, Seq::empty()))
        } else if toks[2] == "create"@ {
            Ok((Sub::CardCreate, 3))
        } else if toks[2] == "update"@ {
            Ok((Sub::CardUpdate, 3))
        } else if toks[2] == "move"@ {
            Ok((Sub::CardMove, 3))
        } else if toks[2] == "find"@ {
            Ok((Sub::CardFind, 3))
        } else if toks[2] == "show"@ {
            Ok((Sub::CardShow, 3))
        } else {
            Err((CliErrorKind::UnknownCommand, toks[2]))
        }
    } else if toks[1] == "list"@ {
        if toks.len() < 3 {
            Err((CliErrorKind::MissingCommand, Seq::empty()))
        } else if toks[2] == "move"@ {
            Ok((Sub::ListMove, 3))
        } else {
            Err((CliErrorKind::UnknownCommand, toks[2]))
        }
    } else {
        Err((CliErrorKind::UnknownCommand, toks[1]))
    }
}

/// How many positional arguments each command takes.
pub open spec fn positionals(sub: Sub) -> nat {
    match sub {
        Sub::Login => 0,
        Sub::CardCreate | Sub::CardMove | Sub::ListMove => 2,
        _ => 1,
    }
}

/// The text of an optional string.
pub open spec fn opt_text(o: Option<String>) -> Option<Seq<char>> {
    match o {
        Some(s) => Some(s@),
        None => None,
    }
}

/// The texts of a sequence of strings.
pub open spec fn all_texts(v: Seq<String>) -> Seq<Seq<char>> {
    v.map_values(|s: String| s@)
}

/// The command that `cli` holds is `sub` with the arguments `a`; an absent
/// position for a new card means the bottom of the list.
pub open spec fn built(sub: Sub, a: ArgsModel, cli: Cli) -> bool {
    match cli.command {
        Commands::Login { api_key, api_token } => sub == Sub::Login && opt_text(api_key) == a.v0
            && opt_text(api_token) == a.v1,
        Commands::Card { command } => match command {
            CardCommands::Create { list, name, description, position, board } => sub
                == Sub::CardCreate && list@ == a.pos[0] && name@ == a.pos[1] && opt_text(
                description,
            ) == a.v0 && position@ == (match a.v1 {
                Some(p) => p,
                None => "bottom"@,
            }) && opt_text(board) == a.v2,
            CardCommands::Update {
                card_id,
                description,
                label,
                clear_label,
                comment,
                archive,
                restore,
            } => sub == Sub::CardUpdate && card_id@ == a.pos[0] && opt_text(description) == a.v0
                && opt_text(comment) == a.v1 && all_texts(label@) == a.m0 && all_texts(
                clear_label@,
            ) == a.m1 && archive == a.f0 && restore == a.f1,
            CardCommands::Move { card_id, position } => sub == Sub::CardMove && card_id@
                == a.pos[0] && position@ == a.pos[1],
            CardCommands::Find { pattern, board, list, json } => sub == Sub::CardFind && pattern@
                == a.pos[0] && opt_text(board) == a.v0 && opt_text(list) == a.v1 && json == a.f0,
            CardCommands::Show { card_id, json, comments } => sub == Sub::CardShow && card_id@
                == a.pos[0] && json == a.f0 && comments == a.f1,
        },
        Commands::List { command } => match command {
            ListCommands::Move { list_id, position } => sub == Sub::ListMove && list_id@ == a.pos[0]
                && position@ == a.pos[1],
        },
    }
}

/// The result is the error of this kind about this argument.
pub open spec fn fails_with(r: Result<Cli, CliError>, kind: CliErrorKind, tok: Seq<char>) -> bool {
    r is Err && r->Err_0.kind == kind && r->Err_0.token@ == tok
}

/// The texts of the arguments.
pub open spec fn arg_texts(args: Seq<&str>) -> Seq<Seq<char>> {
    args.map_values(|s: &str| s@)
}

/// What reading the arguments (the program name first) gives.
pub open spec fn cli_outcome(toks: Seq<Seq<char>>, r: Result<Cli, CliError>) -> bool {
    match sub_at(toks) {
        Err((k, t)) => fails_with(r, k, t),
        Ok((sub, start)) => match scan(sub, toks.subrange(start, toks.len() as int), no_args()) {
            Err((k, t)) => fails_with(r, k, t),
            Ok(a) => if a.pos.len() < positionals(sub) {
                fails_with(r, CliErrorKind::MissingArgument, Seq::empty())
            } else if a.pos.len() > positionals(sub) {
                fails_with(r, CliErrorKind::UnexpectedArgument, a.pos[positionals(sub) as int])
            } else {
                r is Ok && built(sub, a, r->Ok_0)
            },
        },
    }
}

fn is_option_like(tok: &str) -> (r: bool)
    ensures
        r == option_like(tok@),
{
    tok.unicode_len() >= 2 && tok.get_char(0) == '-'
}

fn either(tok: &str, short: &str, long: &str) -> (r: bool)
    ensures
        r == (tok@ == short@ || tok@ == long@),
{
    same_text(tok, short) || same_text(tok, long)
}

/// What one argument is to the command `sub`.
pub fn arg_kind(sub: Sub, tok: &str) -> (r: ArgKind)
    ensures
        r == kind_of(sub, tok@),
{
    if !is_option_like(tok) {
        return ArgKind::Positional;
    }
    match sub {
        Sub::Login => if same_text(tok, "--api-key") {
            ArgKind::Value0
        } else if same_text(tok, "--api-token") {
            ArgKind::Value1
        } else {
            ArgKind::Unknown
        },
        Sub::CardCreate => if either(tok, "-d", "--description") {
            ArgKind::Value0
        } else if either(tok, "-p", "--position") {
            ArgKind::Value1
        } else if either(tok, "-b", "--board") {
            ArgKind::Value2
        } else {
            ArgKind::Unknown
        },
        Sub::CardUpdate => if either(tok, "-d", "--description") {
            ArgKind::Value0
        } else if either(tok, "-c", "--comment") {
            ArgKind::Value1
        } else if either(tok, "-l", "--label") {
            ArgKind::Multi0
        } else if same_text(tok, "--clear-label") {
            ArgKind::Multi1
        } else if either(tok, "-a", "--archive") {
            ArgKind::Flag0
        } else if either(tok, "-r", "--restore") {
            ArgKind::Flag1
        } else {
            ArgKind::Unknown
        },
        Sub::CardFind => if either(tok, "-b", "--board") {
            ArgKind::Value0
        } else if either(tok, "-l", "--list") {
            ArgKind::Value1
        } else if same_text(tok, "--json") {
            ArgKind::Flag0
        } else {
            ArgKind::Unknown
        },
        Sub::CardShow => if same_text(tok, "--json") {
            ArgKind::Flag0
        } else if same_text(tok, "--comments") {
            ArgKind::Flag1
        } else {
            ArgKind::Unknown
        },
        Sub::CardMove | Sub::ListMove => ArgKind::Unknown,
    }
}

fn attached_value(tok: &str) -> (r: Option<(String, String)>)
    ensures
        match attached(tok@) {
            Some((name, v)) => r is Some && r->Some_0.0@ == name && r->Some_0.1@ == v,
            None => r is None,
        },
{
    let n = tok.unicode_len();
    if n >= 3 && tok.get_char(0) == '-' && tok.get_char(1) == '-' {
        let mut p: usize = 2;
        while p < n
            invariant
                n == tok@.len(),
                2 <= p <= n,
                tok@[0] == '-' && tok@[1] == '-',
                forall|j: int| 2 <= j < p ==> #[trigger] tok@[j] != '=',
            decreases n - p,
        {
            if tok.get_char(p) == '=' {
                proof {
                    assert(long_value_at(tok@, p as int));
                    assert forall|q: int| long_value_at(tok@, q) implies q == p by {
                        if q < p {
                            assert(tok@[q] != '=');
                        } else if q > p {
                            assert(tok@[p as int] != '=');
                        }
                    }
                }
                let name = String::from_str(tok.substring_char(0, p));
                let v = String::from_str(tok.substring_char(p + 1, n));
                return Some((name, v));
            }
            p = p + 1;
        }
        assert(!exists|q: int| long_value_at(tok@, q)) by {
            assert forall|q: int| !long_value_at(tok@, q) by {
                if 2 <= q < n && long_value_at(tok@, q) {
                    assert(tok@[q] != '=');
                }
            }
        }
        return None;
    }
    assert(!exists|q: int| long_value_at(tok@, q));
    if n > 2 && tok.get_char(0) == '-' && tok.get_char(1) != '-' {
        let name = String::from_str(tok.substring_char(0, 2));
        let v = String::from_str(tok.substring_char(2, n));
        Some((name, v))
    } else {
        None
    }
}

/// Records the value `v` of the value option `k`; false where a single-valued
/// option already has one.
fn set_value(a: &mut Args, k: ArgKind, v: &str) -> (ok: bool)
    requires
        takes_value(k),
    ensures
        ok == !value_given(old(a).model(), k),
        ok ==> final(a).model() == with_value(old(a).model(), k, v@),
{
    match k {
        ArgKind::Value0 => {
            if a.v0.is_some() {
                return false;
            }
            a.v0 = Some(String::from_str(v));
        },
        ArgKind::Value1 => {
            if a.v1.is_some() {
                return false;
            }
            a.v1 = Some(String::from_str(v));
        },
        ArgKind::Value2 => {
            if a.v2.is_some() {
                return false;
            }
            a.v2 = Some(String::from_str(v));
        },
        ArgKind::Multi0 => push_text(&mut a.m0, v),
        _ => push_text(&mut a.m1, v),
    }
    true
}

/// The arguments of a command as read so far.
struct Args {
    v0: Option<String>,
    v1: Option<String>,
    v2: Option<String>,
    m0: Vec<String>,
    m1: Vec<String>,
    f0: bool,
    f1: bool,
    pos: Vec<String>,
}

impl Args {
    spec fn model(&self) -> ArgsModel {
        ArgsModel {
            v0: opt_text(self.v0),
            v1: opt_text(self.v1),
            v2: opt_text(self.v2),
            m0: all_texts(self.m0@),
            m1: all_texts(self.m1@),
            f0: self.f0,
            f1: self.f1,
            pos: all_texts(self.pos@),
        }
    }
}

fn push_text(v: &mut Vec<String>, s: &str)
    ensures
        all_texts(final(v)@) == all_texts(old(v)@).push(s@),
        final(v)@.len() == old(v)@.len() + 1,
{
    v.push(String::from_str(s));
    assert(all_texts(v@) =~= all_texts(old(v)@).push(s@));
}

fn error(kind: CliErrorKind, tok: &str) -> (r: Result<Cli, CliError>)
    ensures
        fails_with(r, kind, tok@),
{
    Err(CliError { kind, token: String::from_str(tok) })
}

fn no_token_error(kind: CliErrorKind) -> (r: Result<Cli, CliError>)
    ensures
        fails_with(r, kind, Seq::empty()),
{
    let r = Err(CliError { kind, token: String::new() });
    r
}

fn take(o: &Option<String>) -> (r: Option<String>)
    ensures
        opt_text(r) == opt_text(*o),
{
    match o {
        Some(s) => Some(s.clone()),
        None => None,
    }
}

fn copy_all(v: &Vec<String>) -> (r: Vec<String>)
    ensures
        all_texts(r@) == all_texts(v@),
{
    let mut out: Vec<String> = Vec::new();
    let mut i: usize = 0;
    while i < v.len()
        invariant
            0 <= i <= v@.len(),
            out@ == v@.subrange(0, i as int),
        decreases v@.len() - i,
    {
        out.push(v[i].clone());
        assert(out@ =~= v@.subrange(0, i + 1));
        i = i + 1;
    }
    assert(out@ =~= v@);
    out
}

fn build(sub: Sub, a: &Args) -> (r: Cli)
    requires
        a.pos@.len() == positionals(sub),
    ensures
        built(sub, a.model(), r),
{
    proof {
        assert forall|j: int| 0 <= j < a.pos@.len() implies #[trigger] a.model().pos[j] == a.pos@[j]@ by {}
    }
    match sub {
        Sub::Login => Cli { command: Commands::Login { api_key: take(&a.v0), api_token: take(&a.v1) } },
        Sub::CardCreate => {
            let position = match &a.v1 {
                Some(p) => p.clone(),
                None => String::from_str("bottom"),
            };
            Cli {
                command: Commands::Card {
                    command: CardCommands::Create {
                        list: a.pos[0].clone(),
                        name: a.pos[1].clone(),
                        description: take(&a.v0),
                        position,
                        board: take(&a.v2),
                    },
                },
            }
        },
        Sub::CardUpdate => Cli {
            command: Commands::Card {
                command: CardCommands::Update {
                    card_id: a.pos[0].clone(),
                    description: take(&a.v0),
                    label: copy_all(&a.m0),
                    clear_label: copy_all(&a.m1),
                    comment: take(&a.v1),
                    archive: a.f0,
                    restore: a.f1,
                },
            },
        },
        Sub::CardMove => Cli {
            command: Commands::Card {
                command: CardCommands::Move { card_id: a.pos[0].clone(), position: a.pos[1].clone() },
            },
        },
        Sub::CardFind => Cli {
            command: Commands::Card {
                command: CardCommands::Find {
                    pattern: a.pos[0].clone(),
                    board: take(&a.v0),
                    list: take(&a.v1),
                    json: a.f0,
                },
            },
        },
        Sub::CardShow => Cli {
            command: Commands::Card {
                command: CardCommands::Show { card_id: a.pos[0].clone(), json: a.f0, comments: a.f1 },
            },
        },
        Sub::ListMove => Cli {
            command: Commands::List {
                command: ListCommands::Move { list_id: a.pos[0].clone(), position: a.pos[1].clone() },
            },
        },
    }
}

fn command_at(args: &[&str]) -> (r: Result<(Sub, usize), (CliErrorKind, usize)>)
    ensures
        match sub_at(arg_texts(args@)) {
            Ok((sub, start)) => r == Ok::<(Sub, usize), (CliErrorKind, usize)>((sub, start as usize)),
            Err((k, t)) => r is Err && r->Err_0.0 == k && (r->Err_0.1 < args@.len() ==> t
                == args@[r->Err_0.1 as int]@) && (r->Err_0.1 >= args@.len() ==> t == Seq::<char>::empty()),
        },
{
    let n = args.len();
    let ghost toks = arg_texts(args@);
    if n < 2 {
        return Err((CliErrorKind::MissingCommand, n));
    }
    assert(toks[1] == args@[1]@);
    if same_text(args[1], "login") {
        Ok((Sub::Login, 2))
    } else if same_text(args[1], "card") {
        if n < 3 {
            return Err((CliErrorKind::MissingCommand, n));
        }
        assert(toks[2] == args@[2]@);
        let w = args[2];
        if same_text(w, "create") {
            Ok((Sub::CardCreate, 3))
        } else if same_text(w, "update") {
            Ok((Sub::CardUpdate, 3))
        } else if same_text(w, "move") {
            Ok((Sub::CardMove, 3))
        } else if same_text(w, "find") {
            Ok((Sub::CardFind, 3))
        } else if same_text(w, "show") {
            Ok((Sub::CardShow, 3))
        } else {
            Err((CliErrorKind::UnknownCommand, 2))
        }
    } else if same_text(args[1], "list") {
        if n < 3 {
            return Err((CliErrorKind::MissingCommand, n));
        }
        assert(toks[2] == args@[2]@);
        if same_text(args[2], "move") {
            Ok((Sub::ListMove, 3))
        } else {
            Err((CliErrorKind::UnknownCommand, 2))
        }
    } else {
        Err((CliErrorKind::UnknownCommand, 1))
    }
}

impl Cli {
    /// Reads a command line, the program name first: the command words, then the
    /// command's options and positional arguments in any order. An option's value
    /// is the argument after it (`-d text`, `--description text`); a repeatable
    /// option (`-l`, `--clear-label`) collects its values in order.
    pub fn try_parse_from(args: &[&str]) -> (r: Result<Cli, CliError>)
        ensures
            cli_outcome(arg_texts(args@), r),
    {
        let ghost toks = arg_texts(args@);
        let (sub, start) = match command_at(args) {
            Ok(found) => found,
            Err((kind, at)) => {
                if at < args.len() {
                    return error(kind, args[at]);
                } else {
                    return no_token_error(kind);
                }
            },
        };
        let n = args.len();
        assert(sub_at(toks) == Ok::<(Sub, int), (CliErrorKind, Seq<char>)>((sub, start as int)));
        let mut a = Args {
            v0: None,
            v1: None,
            v2: None,
            m0: Vec::new(),
            m1: Vec::new(),
            f0: false,
            f1: false,
            pos: Vec::new(),
        };
        proof {
            assert(a.model().m0 =~= Seq::<Seq<char>>::empty());
            assert(a.model().m1 =~= Seq::<Seq<char>>::empty());
            assert(a.model().pos =~= Seq::<Seq<char>>::empty());
        }
        let mut i: usize = start;
        while i < n
            invariant
                n == args@.len(),
                toks == arg_texts(args@),
                sub_at(toks) == Ok::<(Sub, int), (CliErrorKind, Seq<char>)>((sub, start as int)),
                start <= i <= n,
                scan(sub, toks.subrange(start as int, n as int), no_args()) == scan(
                    sub,
                    toks.subrange(i as int, n as int),
                    a.model(),
                ),
            decreases n - i,
        {
            let tok = args[i];
            let ghost rest = toks.subrange(i as int, n as int);
            assert(rest[0] == tok@);
            assert(rest.drop_first() =~= toks.subrange(i + 1, n as int));
            let ghost before = a.model();
            if let Some((name, v)) = attached_value(tok) {
                let k = arg_kind(sub, name.as_str());
                let valued = k == ArgKind::Value0 || k == ArgKind::Value1 || k == ArgKind::Value2
                    || k == ArgKind::Multi0 || k == ArgKind::Multi1;
                if !valued {
                    return error(CliErrorKind::UnknownArgument, tok);
                }
                if !set_value(&mut a, k, v.as_str()) {
                    return error(CliErrorKind::RepeatedArgument, tok);
                }
                i = i + 1;
                continue;
            }
            let k = arg_kind(sub, tok);
            if k == ArgKind::Positional {
                push_text(&mut a.pos, tok);
                i = i + 1;
            } else if k == ArgKind::Unknown {
                return error(CliErrorKind::UnknownArgument, tok);
            } else if k == ArgKind::Flag0 || k == ArgKind::Flag1 {
                if (k == ArgKind::Flag0 && a.f0) || (k == ArgKind::Flag1 && a.f1) {
                    return error(CliErrorKind::RepeatedArgument, tok);
                }
                if k == ArgKind::Flag0 {
                    a.f0 = true;
                } else {
                    a.f1 = true;
                }
                assert(a.model() == with_flag(before, k));
                i = i + 1;
            } else {
                if i + 1 >= n || is_option_like(args[i + 1]) {
                    return error(CliErrorKind::MissingValue, tok);
                }
                assert(rest[1] == args@[i + 1]@);
                assert(rest.subrange(2, rest.len() as int) =~= toks.subrange(i + 2, n as int));
                let v = args[i + 1];
                if !set_value(&mut a, k, v) {
                    return error(CliErrorKind::RepeatedArgument, tok);
                }
                i = i + 2;
            }
        }
        assert(toks.subrange(n as int, n as int) =~= Seq::<Seq<char>>::empty());
        let want: usize = match sub {
            Sub::Login => 0,
            Sub::CardCreate | Sub::CardMove | Sub::ListMove => 2,
            _ => 1,
        };
        if a.pos.len() < want {
            return no_token_error(CliErrorKind::MissingArgument);
        }
        if a.pos.len() > want {
            return error(CliErrorKind::UnexpectedArgument, a.pos[want].as_str());
        }
        Ok(build(sub, &a))
    }
}

} // verus!
