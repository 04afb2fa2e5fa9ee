//! The command line: `--uri`, `--user`, `--output`, `--start-date` and `--help`.

use vstd::prelude::*;
use vstd::string::*;
use crate::date::{Date, date_from_text, parse_date};
use crate::text::{push_str, str_eq};

verus! {

/// Why the command line was refused.
#[derive(Debug)]
pub enum ArgParseError {
    MissingUri,
    MissingUser,
    MissingOutput,
    MissingDate,
    InvalidDate(chrono::ParseError),
    InvalidArg(String),
}

/// The model of an [`ArgParseError`]; the date error's detail is left out.
pub enum ArgErrorModel {
    MissingUri,
    MissingUser,
    MissingOutput,
    MissingDate,
    InvalidDate,
    InvalidArg(Seq<char>),
}

impl View for ArgParseError {
    type V = ArgErrorModel;

    open spec fn view(&self) -> ArgErrorModel {
        match self {
            ArgParseError::MissingUri => ArgErrorModel::MissingUri,
            ArgParseError::MissingUser => ArgErrorModel::MissingUser,
            ArgParseError::MissingOutput => ArgErrorModel::MissingOutput,
            ArgParseError::MissingDate => ArgErrorModel::MissingDate,
            ArgParseError::InvalidDate(_) => ArgErrorModel::InvalidDate,
            ArgParseError::InvalidArg(s) => ArgErrorModel::InvalidArg(s@),
        }
    }
}

impl ArgParseError {
    /// The one-line description of the error.
    pub open spec fn description(&self) -> Seq<char> {
        match self {
            ArgParseError::MissingUri => "missing uri"@,
            ArgParseError::MissingUser => "missing user"@,
            ArgParseError::MissingOutput => "missing output"@,
            ArgParseError::MissingDate => "missing date"@,
            ArgParseError::InvalidDate(_) => "invalid date"@,
            ArgParseError::InvalidArg(s) => "invalid arg: "@ + s@,
        }
    }

    /// The one-line description of the error, as text.
    pub fn message(&self) -> (r: String)
        ensures
            r@ == self.description(),
    {
        match self {
            ArgParseError::MissingUri => String::from_str("missing uri"),
            ArgParseError::MissingUser => String::from_str("missing user"),
            ArgParseError::MissingOutput => String::from_str("missing output"),
            ArgParseError::MissingDate => String::from_str("missing date"),
            ArgParseError::InvalidDate(_) => String::from_str("invalid date"),
            ArgParseError::InvalidArg(s) => {
                let mut r = String::from_str("invalid arg: ");
                push_str(&mut r, s.as_str());
                r
            },
        }
    }
}

/// The settings of a run: the Jira instance, the display name whose comments
/// are gathered, the output folder and the first day of interest.
pub struct Args {
    pub uri: String,
    pub user: String,
    pub output: String,
    pub start_date: Date,
}

/// The model of [`Args`].
pub struct ArgsModel {
    pub uri: Seq<char>,
    pub user: Seq<char>,
    pub output: Seq<char>,
    pub start_date: (int, int, int),
}

impl View for Args {
    type V = ArgsModel;

    open spec fn view(&self) -> ArgsModel {
        ArgsModel {
            uri: self.uri@,
            user: self.user@,
            output: self.output@,
            start_date: self.start_date.ymd(),
        }
    }
}

/// What the command line asks for: the usage text, or a run.
pub enum ArgsCommand {
    ShowHelp,
    Run(Args),
}

/// The model of what a command line yields.
pub enum CommandModel {
    ShowHelp,
    Run(ArgsModel),
    Refused(ArgErrorModel),
}

pub open spec fn command_view(r: Result<ArgsCommand, ArgParseError>) -> CommandModel {
    match r {
        Ok(ArgsCommand::ShowHelp) => CommandModel::ShowHelp,
        Ok(ArgsCommand::Run(a)) => CommandModel::Run(a@),
        Err(e) => CommandModel::Refused(e@),
    }
}

/// The options seen so far while the command line is read.
pub struct ArgsDraft {
    pub uri: Option<String>,
    pub user: Option<String>,
    pub output: Option<String>,
    pub start_date: Option<Date>,
}

/// The model of an [`ArgsDraft`].
pub struct DraftModel {
    pub uri: Option<Seq<char>>,
    pub user: Option<Seq<char>>,
    pub output: Option<Seq<char>>,
    pub start_date: Option<(int, int, int)>,
}

pub open spec fn string_option_view(o: Option<String>) -> Option<Seq<char>> {
    match o {
        Some(s) => Some(s@),
        None => None,
    }
}

impl View for ArgsDraft {
    type V = DraftModel;

    open spec fn view(&self) -> DraftModel {
        DraftModel {
            uri: string_option_view(self.uri),
            user: string_option_view(self.user),
            output: string_option_view(self.output),
            start_date: match self.start_date {
                Some(d) => Some(d.ymd()),
                None => None,
            },
        }
    }
}

/// The draft before any option is read.
pub open spec fn empty_draft() -> DraftModel {
    DraftModel { uri: None, user: None, output: None, start_date: None }
}

/// The outcome of a fully read command line: the first option missing, in
/// the order uri, user, output, start date, or the run.
pub open spec fn finish_model(d: DraftModel) -> CommandModel {
    match (d.uri, d.user, d.output, d.start_date) {
        (None, _, _, _) => CommandModel::Refused(ArgErrorModel::MissingUri),
        (Some(_), None, _, _) => CommandModel::Refused(ArgErrorModel::MissingUser),
        (Some(_), Some(_), None, _) => CommandModel::Refused(ArgErrorModel::MissingOutput),
        (Some(_), Some(_), Some(_), None) => CommandModel::Refused(ArgErrorModel::MissingDate),
        (Some(uri), Some(user), Some(output), Some(date)) => CommandModel::Run(
            ArgsModel { uri, user, output, start_date: date },
        ),
    }
}

/// Reads the options `args` (the program name already skipped) on top of
/// the draft `d`. Each value option takes the next argument as its value and
/// a later occurrence replaces an earlier one; `--user`, `--uri` and
/// `--output` as the very last argument clear their option, while a trailing
/// `--start-date` changes nothing. `--help` stops reading at once. A start date
/// that `chrono` cannot read, or an unknown argument, refuses the line there.
pub open spec fn scan_args(args: Seq<Seq<char>>, d: DraftModel) -> CommandModel
    decreases args.len(),
{
    if args.len() == 0 {
        finish_model(d)
    } else {
        let item = args[0];
        let rest = args.drop_first();
        let value: Option<Seq<char>> = if rest.len() == 0 {
            None
        } else {
            Some(rest[0])
        };
        let after = if rest.len() == 0 {
            rest
        } else {
            rest.drop_first()
        };
        if item == "--help"@ {
            CommandModel::ShowHelp
        } else if item == "--user"@ {
            scan_args(after, DraftModel { user: value, ..d })
        } else if item == "--uri"@ {
            scan_args(after, DraftModel { uri: value, ..d })
        } else if item == "--output"@ {
            scan_args(after, DraftModel { output: value, ..d })
        } else if item == "--start-date"@ {
            match value {
                None => scan_args(after, d),
                Some(text) => match date_from_text(text) {
                    Some(date) => scan_args(after, DraftModel { start_date: Some(date), ..d }),
                    None => CommandModel::Refused(ArgErrorModel::InvalidDate),
                },
            }
        } else {
            CommandModel::Refused(ArgErrorModel::InvalidArg(item))
        }
    }
}

/// What a whole command line yields; its first argument is the program name.
pub open spec fn command_line(args: Seq<Seq<char>>) -> CommandModel {
    if args.len() == 0 {
        scan_args(args, empty_draft())
    } else {
        scan_args(args.drop_first(), empty_draft())
    }
}

impl ArgsDraft {
    /// A draft with no option set.
    pub fn new() -> (r: ArgsDraft)
        ensures
            r@ == empty_draft(),
    {
        ArgsDraft { uri: None, user: None, output: None, start_date: None }
    }

    /// Records the outcome of reading a `--start-date` value: a date replaces
    /// the start date; a parse error refuses the command line, carrying that
    /// error.
    pub fn take_start_date(&mut self, parsed: Result<Date, chrono::ParseError>) -> (r: Result<
        (),
        ArgParseError,
    >)
        ensures
            match parsed {
                Ok(d) => r is Ok && final(self)@ == (DraftModel {
                    start_date: Some(d.ymd()),
                    ..old(self)@
                }),
                Err(pe) => r == Err::<(), ArgParseError>(ArgParseError::InvalidDate(pe))
                    && final(self)@ == old(self)@,
            },
    {
        match parsed {
            Ok(d) => {
                self.start_date = Some(d);
                Ok(())
            },
            Err(e) => Err(ArgParseError::InvalidDate(e)),
        }
    }

    /// The settings once every argument is read, or the first missing option.
    pub fn finish(self) -> (r: Result<ArgsCommand, ArgParseError>)
        ensures
            command_view(r) == finish_model(self@),
    {
        match (self.uri, self.user, self.output, self.start_date) {
            (None, _, _, _) => Err(ArgParseError::MissingUri),
            (Some(_), None, _, _) => Err(ArgParseError::MissingUser),
            (Some(_), Some(_), None, _) => Err(ArgParseError::MissingOutput),
            (Some(_), Some(_), Some(_), None) => Err(ArgParseError::MissingDate),
            (Some(uri), Some(user), Some(output), Some(start_date)) => Ok(
                ArgsCommand::Run(Args { uri, user, output, start_date }),
            ),
        }
    }
}

pub open spec fn args_view(args: Seq<String>) -> Seq<Seq<char>> {
    args.map_values(|s: String| s@)
}

impl Args {
    /// Reads a command line whose first argument is the program name.
    pub fn from_iter(args: &Vec<String>) -> (r: Result<ArgsCommand, ArgParseError>)
        ensures
            command_view(r) == command_line(args_view(args@)),
    {
        let ghost all = args_view(args@);
        let n = args.len();
        let mut i: usize = if n == 0 {
            0
        } else {
            1
        };
        let mut draft = ArgsDraft::new();
        assert(all.skip(i as int) =~= if n == 0 { all } else { all.drop_first() });
        while i < n
            invariant
                n == args@.len(),
                all == args_view(args@),
                i <= n,
                command_line(all) == scan_args(all.skip(i as int), draft@),
            decreases n - i,
        {
            let item = args[i].as_str();
            let ghost rest = all.skip(i + 1);
            assert(all.skip(i as int).drop_first() =~= rest);
            assert(all.skip(i as int)[0] == item@);
            i = i + 1;
            if i < n {
                assert(rest[0] == args@[i as int]@);
                assert(rest.drop_first() =~= all.skip(i + 1));
            } else {
                assert(rest.len() == 0);
            }
            if str_eq(item, "--help") {
                return Ok(ArgsCommand::ShowHelp);
            } else if str_eq(item, "--user") {
                if i < n {
                    draft.user = Some(args[i].clone());
                    i = i + 1;
                } else {
                    draft.user = None;
                }
            } else if str_eq(item, "--uri") {
                if i < n {
                    draft.uri = Some(args[i].clone());
                    i = i + 1;
                } else {
                    draft.uri = None;
                }
            } else if str_eq(item, "--output") {
                if i < n {
                    draft.output = Some(args[i].clone());
                    i = i + 1;
                } else {
                    draft.output = None;
                }
            } else if str_eq(item, "--start-date") {
                if i < n {
                    let parsed = parse_date(args[i].as_str());
                    match draft.take_start_date(parsed) {
                        Ok(()) => {},
                        Err(e) => {
                            return Err(e);
                        },
                    }
                    i = i + 1;
                }
            } else {
                return Err(ArgParseError::InvalidArg(String::from_str(item)));
            }
        }
        assert(all.skip(i as int).len() == 0);
        draft.finish()
    }

    /// The usage text for a program called `process_name`.
    pub open spec fn help_model(process_name: Seq<char>) -> Seq<char> {
        "Usage:\n"@ + process_name + " [opts]\n\nExample:\n"@ + process_name
            + " --uri https://my-jira-instance.atlassian.net --user \"Display Name\" --output output_folder\n\nOptions:\n--uri          Uri to jira instance\n--user         Display name to filter results with\n--output       Where to output the processed data\n--start-date   Initial date in form of YYYY-MM-DD\n"@
    }

    /// The usage text for a program called `process_name`.
    pub fn help(process_name: &str) -> (r: String)
        ensures
            r@ == Self::help_model(process_name@),
    {
        let mut r = String::from_str("Usage:\n");
        push_str(&mut r, process_name);
        push_str(&mut r, " [opts]\n\nExample:\n");
        push_str(&mut r, process_name);
        push_str(
            &mut r,
            " --uri https://my-jira-instance.atlassian.net --user \"Display Name\" --output output_folder\n\nOptions:\n--uri          Uri to jira instance\n--user         Display name to filter results with\n--output       Where to output the processed data\n--start-date   Initial date in form of YYYY-MM-DD\n",
        );
        r
    }
}

/// Whether a text is the name of an option that takes a value.
pub open spec fn is_value_option(o: Seq<char>) -> bool {
    o == "--uri"@ || o == "--user"@ || o == "--output"@ || o == "--start-date"@
}

/// Options given as (name, value) pairs, each name an option that takes a
/// value and no name given twice.
pub open spec fn distinct_value_options(pairs: Seq<(Seq<char>, Seq<char>)>) -> bool {
    &&& forall|i: int| 0 <= i < pairs.len() ==> is_value_option(#[trigger] pairs[i].0)
    &&& forall|i: int, j: int|
        0 <= i < j < pairs.len() ==> #[trigger] pairs[i].0 != #[trigger] pairs[j].0
}

/// The arguments that spell out option pairs, each name followed by its value.
pub open spec fn pairs_as_args(pairs: Seq<(Seq<char>, Seq<char>)>) -> Seq<Seq<char>>
    decreases pairs.len(),
{
    if pairs.len() == 0 {
        seq![]
    } else {
        seq![pairs[0].0, pairs[0].1] + pairs_as_args(pairs.drop_first())
    }
}

/// The value given to option `name` in `pairs`: that of its first pair.
pub open spec fn value_of(pairs: Seq<(Seq<char>, Seq<char>)>, name: Seq<char>) -> Option<Seq<char>>
    decreases pairs.len(),
{
    if pairs.len() == 0 {
        None
    } else if pairs[0].0 == name {
        Some(pairs[0].1)
    } else {
        value_of(pairs.drop_first(), name)
    }
}

/// What option pairs make of the draft `d`: each option given replaces the
/// draft's value; a start date that cannot be read refuses the line.
pub open spec fn pairs_outcome(pairs: Seq<(Seq<char>, Seq<char>)>, d: DraftModel) -> CommandModel {
    let keep = |o: Option<Seq<char>>, old: Option<Seq<char>>|
        match o {
            Some(v) => Some(v),
            None => old,
        };
    let draft = DraftModel {
        uri: keep(value_of(pairs, "--uri"@), d.uri),
        user: keep(value_of(pairs, "--user"@), d.user),
        output: keep(value_of(pairs, "--output"@), d.output),
        start_date: d.start_date,
    };
    match value_of(pairs, "--start-date"@) {
        None => finish_model(draft),
        Some(text) => match date_from_text(text) {
            None => CommandModel::Refused(ArgErrorModel::InvalidDate),
            Some(date) => finish_model(DraftModel { start_date: Some(date), ..draft }),
        },
    }
}

proof fn option_names_differ()
    ensures
        "--uri"@ != "--user"@,
        "--uri"@ != "--output"@,
        "--uri"@ != "--start-date"@,
        "--user"@ != "--output"@,
        "--user"@ != "--start-date"@,
        "--output"@ != "--start-date"@,
        "--help"@ != "--uri"@,
        "--help"@ != "--user"@,
        "--help"@ != "--output"@,
        "--help"@ != "--start-date"@,
{
    reveal_strlit("--uri");
    reveal_strlit("--user");
    reveal_strlit("--output");
    reveal_strlit("--start-date");
    reveal_strlit("--help");
    assert("--uri"@[3] != "--user"@[3]);
    assert("--uri"@[3] != "--output"@[3]);
    assert("--uri"@[3] != "--start-date"@[3]);
    assert("--user"@[3] != "--output"@[3]);
    assert("--user"@[3] != "--start-date"@[3]);
    assert("--output"@[3] != "--start-date"@[3]);
    assert("--help"@[2] != "--uri"@[2]);
    assert("--help"@[2] != "--user"@[2]);
    assert("--help"@[2] != "--output"@[2]);
    assert("--help"@[2] != "--start-date"@[2]);
}

proof fn scan_pairs(pairs: Seq<(Seq<char>, Seq<char>)>, d: DraftModel)
    requires
        distinct_value_options(pairs),
    ensures
        scan_args(pairs_as_args(pairs), d) == pairs_outcome(pairs, d),
    decreases pairs.len(),
{
    option_names_differ();
    if pairs.len() == 0 {
        assert(pairs_as_args(pairs) =~= seq![]);
    } else {
        let rest = pairs.drop_first();
        let (name, value) = pairs[0];
        let args = pairs_as_args(pairs);
        assert(is_value_option(pairs[0].0));
        assert forall|i: int| 0 <= i < rest.len() implies rest[i].0 != name by {
            assert(pairs[0].0 != pairs[i + 1].0);
        }
        assert(distinct_value_options(rest)) by {
            assert forall|i: int| 0 <= i < rest.len() implies is_value_option(#[trigger] rest[i].0) by {
                assert(rest[i] == pairs[i + 1]);
            }
            assert forall|i: int, j: int| 0 <= i < j < rest.len() implies #[trigger] rest[i].0
                != #[trigger] rest[j].0 by {
                assert(pairs[i + 1].0 != pairs[j + 1].0);
            }
        }
        assert(args[0] == name);
        assert(args.drop_first()[0] == value);
        assert(args.drop_first().drop_first() =~= pairs_as_args(rest));
        let nd = if name == "--uri"@ {
            DraftModel { uri: Some(value), ..d }
        } else if name == "--user"@ {
            DraftModel { user: Some(value), ..d }
        } else if name == "--output"@ {
            DraftModel { output: Some(value), ..d }
        } else {
            d
        };
        scan_pairs(rest, nd);
        assert(value_of(rest, name) is None) by {
            lemma_value_of_absent(rest, name);
        }
        if name == "--start-date"@ {
            match date_from_text(value) {
                Some(date) => {
                    scan_pairs(rest, DraftModel { start_date: Some(date), ..d });
                },
                None => {},
            }
        }
    }
}

proof fn lemma_value_of_absent(pairs: Seq<(Seq<char>, Seq<char>)>, name: Seq<char>)
    requires
        forall|i: int| 0 <= i < pairs.len() ==> pairs[i].0 != name,
    ensures
        value_of(pairs, name) is None,
    decreases pairs.len(),
{
    if pairs.len() > 0 {
        assert(pairs[0].0 != name);
        lemma_value_of_absent(pairs.drop_first(), name);
    }
}

proof fn lemma_value_of_member(pairs: Seq<(Seq<char>, Seq<char>)>, name: Seq<char>)
    requires
        distinct_value_options(pairs),
    ensures
        forall|v: Seq<char>| value_of(pairs, name) == Some(v) <==> pairs.contains((name, v)),
    decreases pairs.len(),
{
    if pairs.len() > 0 {
        let rest = pairs.drop_first();
        assert(distinct_value_options(rest)) by {
            assert forall|i: int| 0 <= i < rest.len() implies is_value_option(#[trigger] rest[i].0) by {
                assert(rest[i] == pairs[i + 1]);
            }
            assert forall|i: int, j: int| 0 <= i < j < rest.len() implies #[trigger] rest[i].0
                != #[trigger] rest[j].0 by {
                assert(pairs[i + 1].0 != pairs[j + 1].0);
            }
        }
        lemma_value_of_member(rest, name);
        assert forall|v: Seq<char>| value_of(pairs, name) == Some(v) <==> pairs.contains(
            (name, v),
        ) by {
            if pairs.contains((name, v)) {
                let k = choose|k: int| 0 <= k < pairs.len() && pairs[k] == (name, v);
                if k > 0 {
                    assert(rest[k - 1] == pairs[k]);
                    assert(rest.contains((name, v)));
                    if pairs[0].0 == name {
                        assert(pairs[0].0 != pairs[k].0);
                    }
                    assert(value_of(rest, name) == Some(v));
                }
            }
            if value_of(pairs, name) == Some(v) {
                if pairs[0].0 == name {
                    assert(pairs[0] == (name, v));
                } else {
                    assert(value_of(rest, name) == Some(v));
                    assert(rest.contains((name, v)));
                    let k = choose|k: int| 0 <= k < rest.len() && rest[k] == (name, v);
                    assert(pairs[k + 1] == (name, v));
                }
            }
        }
    }
}

/// The order of the options does not matter: two command lines whose options
/// are the same (name, value) pairs, each name an option that takes a value
/// and given once, yield the same outcome.
pub proof fn option_order_does_not_matter(
    program: Seq<char>,
    pairs1: Seq<(Seq<char>, Seq<char>)>,
    pairs2: Seq<(Seq<char>, Seq<char>)>,
)
    requires
        distinct_value_options(pairs1),
        distinct_value_options(pairs2),
        forall|p: (Seq<char>, Seq<char>)| pairs1.contains(p) <==> pairs2.contains(p),
    ensures
        command_line(seq![program] + pairs_as_args(pairs1)) == command_line(
            seq![program] + pairs_as_args(pairs2),
        ),
{
    assert((seq![program] + pairs_as_args(pairs1)).drop_first() =~= pairs_as_args(pairs1));
    assert((seq![program] + pairs_as_args(pairs2)).drop_first() =~= pairs_as_args(pairs2));
    scan_pairs(pairs1, empty_draft());
    scan_pairs(pairs2, empty_draft());
    assert forall|name: Seq<char>| value_of(pairs1, name) == value_of(pairs2, name) by {
        lemma_value_of_member(pairs1, name);
        lemma_value_of_member(pairs2, name);
        match value_of(pairs1, name) {
            Some(v) => {
                assert(pairs2.contains((name, v)));
            },
            None => {
                match value_of(pairs2, name) {
                    Some(w) => {
                        assert(pairs1.contains((name, w)));
                    },
                    None => {},
                }
            },
        }
    }
    assert(value_of(pairs1, "--uri"@) == value_of(pairs2, "--uri"@));
    assert(value_of(pairs1, "--user"@) == value_of(pairs2, "--user"@));
    assert(value_of(pairs1, "--output"@) == value_of(pairs2, "--output"@));
    assert(value_of(pairs1, "--start-date"@) == value_of(pairs2, "--start-date"@));
}

/// Whether option pairs are all options that take a value, each start date
/// among them one that `chrono` reads.
pub open spec fn accepted_pairs(pairs: Seq<(Seq<char>, Seq<char>)>) -> bool {
    forall|i: int|
        0 <= i < pairs.len() ==> is_value_option(#[trigger] pairs[i].0) && (pairs[i].0
            == "--start-date"@ ==> date_from_text(pairs[i].1) is Some)
}

proof fn help_after_pairs(
    pairs: Seq<(Seq<char>, Seq<char>)>,
    rest: Seq<Seq<char>>,
    d: DraftModel,
)
    requires
        accepted_pairs(pairs),
    ensures
        scan_args(pairs_as_args(pairs) + seq!["--help"@] + rest, d) == CommandModel::ShowHelp,
    decreases pairs.len(),
{
    option_names_differ();
    let args = pairs_as_args(pairs) + seq!["--help"@] + rest;
    if pairs.len() == 0 {
        assert(pairs_as_args(pairs) =~= seq![]);
        assert(args[0] == "--help"@);
    } else {
        let tail = pairs.drop_first();
        let (name, value) = pairs[0];
        assert(is_value_option(pairs[0].0));
        assert(accepted_pairs(tail)) by {
            assert forall|i: int| 0 <= i < tail.len() implies is_value_option(#[trigger] tail[i].0)
                && (tail[i].0 == "--start-date"@ ==> date_from_text(tail[i].1) is Some) by {
                assert(tail[i] == pairs[i + 1]);
            }
        }
        let inner = pairs_as_args(tail) + seq!["--help"@] + rest;
        assert(args =~= seq![name, value] + inner);
        assert(args[0] == name);
        assert(args.drop_first()[0] == value);
        assert(args.drop_first().drop_first() =~= inner);
        help_after_pairs(tail, rest, DraftModel { uri: Some(value), ..d });
        help_after_pairs(tail, rest, DraftModel { user: Some(value), ..d });
        help_after_pairs(tail, rest, DraftModel { output: Some(value), ..d });
        if name == "--start-date"@ {
            let date = date_from_text(value).unwrap();
            help_after_pairs(tail, rest, DraftModel { start_date: Some(date), ..d });
        }
    }
}

/// `--help` asks for the usage text wherever it stands after the program
/// name, also as the very last argument and whatever follows it, as long as
/// the options before it are accepted ones, each with its value.
pub proof fn help_wins_after_accepted_options(
    program: Seq<char>,
    pairs: Seq<(Seq<char>, Seq<char>)>,
    rest: Seq<Seq<char>>,
)
    requires
        accepted_pairs(pairs),
    ensures
        command_line(seq![program] + pairs_as_args(pairs) + seq!["--help"@] + rest)
            == CommandModel::ShowHelp,
{
    let line = seq![program] + pairs_as_args(pairs) + seq!["--help"@] + rest;
    assert(line.drop_first() =~= pairs_as_args(pairs) + seq!["--help"@] + rest);
    help_after_pairs(pairs, rest, empty_draft());
}

/// A command line that gives each of the four options once, with its value,
/// runs with exactly those values, whatever their order; its start date is
/// the one `chrono` reads from the given text.
pub proof fn given_options_are_used(program: Seq<char>, pairs: Seq<(Seq<char>, Seq<char>)>)
    requires
        distinct_value_options(pairs),
        accepted_pairs(pairs),
        value_of(pairs, "--uri"@) is Some,
        value_of(pairs, "--user"@) is Some,
        value_of(pairs, "--output"@) is Some,
        value_of(pairs, "--start-date"@) is Some,
    ensures
        pairs.contains(("--uri"@, value_of(pairs, "--uri"@).unwrap())),
        pairs.contains(("--user"@, value_of(pairs, "--user"@).unwrap())),
        pairs.contains(("--output"@, value_of(pairs, "--output"@).unwrap())),
        pairs.contains(("--start-date"@, value_of(pairs, "--start-date"@).unwrap())),
        command_line(seq![program] + pairs_as_args(pairs)) == CommandModel::Run(
            ArgsModel {
                uri: value_of(pairs, "--uri"@).unwrap(),
                user: value_of(pairs, "--user"@).unwrap(),
                output: value_of(pairs, "--output"@).unwrap(),
                start_date: date_from_text(value_of(pairs, "--start-date"@).unwrap()).unwrap(),
            },
        ),
{
    lemma_value_of_member(pairs, "--uri"@);
    lemma_value_of_member(pairs, "--user"@);
    lemma_value_of_member(pairs, "--output"@);
    lemma_value_of_member(pairs, "--start-date"@);
    let text = value_of(pairs, "--start-date"@).unwrap();
    assert(pairs.contains(("--start-date"@, text)));
    let k = choose|k: int| 0 <= k < pairs.len() && pairs[k] == ("--start-date"@, text);
    assert(is_value_option(pairs[k].0));
    assert(date_from_text(pairs[k].1) is Some);
    let line = seq![program] + pairs_as_args(pairs);
    assert(line.drop_first() =~= pairs_as_args(pairs));
    scan_pairs(pairs, empty_draft());
}

}
