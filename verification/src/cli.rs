//! The headless command line: how the arguments are read, which
//! configuration keys are secrets, and the plain and JSON output it prints.
use crate::config::Config;
use crate::text::{append_str, chars_of, lower_seq, lowered, owned, push_char, str_eq, trim};
use crate::app_state::TranslationEngine;
use crate::translation_config::{
    effective_keys, CustomApiConfig, DeepLStrategy, LlmConfig, TranslationConfig,
};
use vstd::prelude::*;

verus! {

/// How the process should go on after the command line was handled.
#[derive(Debug, Clone, Copy, PartialEq, Eq, Structural)]
pub enum CliOutcome {
    /// The command ran; exit with this code.
    Done(i32),
    /// No arguments: start the GUI.
    Gui,
}

/// The exit outcome of a command's result: 0 on success, 1 on error.
pub fn outcome_of<T>(result: &Result<T, String>) -> (r: CliOutcome)
    ensures
        r == match result {
            Ok(_) => CliOutcome::Done(0),
            Err(_) => CliOutcome::Done(1),
        },
{
    match result {
        Ok(_) => CliOutcome::Done(0),
        Err(_) => CliOutcome::Done(1),
    }
}

/// A command line split into the global `--json` flag, the command and its
/// arguments.
pub struct Invocation {
    pub json: bool,
    pub command: String,
    pub args: Vec<String>,
}

/// `argv` without the `--json` flags, as character sequences.
pub open spec fn without_json(argv: Seq<Seq<char>>) -> Seq<Seq<char>> {
    argv.filter(|a: Seq<char>| a != "--json"@)
}

pub open spec fn views(v: Seq<String>) -> Seq<Seq<char>> {
    v.map_values(|s: String| s@)
}

/// Some argument is not `--json`.
pub open spec fn names_command(argv: Seq<Seq<char>>) -> bool {
    exists|i: int| 0 <= i < argv.len() && argv[i] != "--json"@
}

/// Whether some argument is not `--json`, so that a command is named.
pub fn has_command(argv: &Vec<String>) -> (r: bool)
    ensures
        r == names_command(views(argv@)),
{
    let ghost src = views(argv@);
    let mut i: usize = 0;
    while i < argv.len()
        invariant
            src == views(argv@),
            i <= argv@.len(),
            forall|k: int| 0 <= k < i ==> src[k] == "--json"@,
        decreases argv@.len() - i,
    {
        assert(argv@[i as int]@ == src[i as int]);
        if !str_eq(argv[i].as_str(), "--json") {
            return true;
        }
        i = i + 1;
    }
    false
}

/// Splits the arguments after the program name. No arguments means the GUI
/// (`None`); otherwise `--json` may stand anywhere and the first other
/// argument is the command.
pub fn split_invocation(argv: Vec<String>) -> (r: Option<Invocation>)
    requires
        argv@.len() > 0 ==> names_command(views(argv@)),
    ensures
        argv@.len() == 0 <==> r is None,
        r matches Some(inv) ==> {
            &&& inv.json == views(argv@).contains("--json"@)
            &&& seq![inv.command@] + views(inv.args@) == without_json(views(argv@))
        },
{
    if argv.len() == 0 {
        return None;
    }
    let ghost src = views(argv@);
    let ghost pred = |a: Seq<char>| a != "--json"@;
    let mut json = false;
    let mut rest: Vec<String> = Vec::new();
    let mut i: usize = 0;
    let n = argv.len();
    let mut argv = argv;
    let ghost orig = argv@;
    while i < n
        invariant
            n == orig.len(),
            argv@ == orig,
            src == views(orig),
            i <= n,
            pred == (|a: Seq<char>| a != "--json"@),
            views(rest@) == src.take(i as int).filter(pred),
            json == exists|k: int| 0 <= k < i && src[k] == "--json"@,
            rest@.len() > 0 <==> exists|k: int| 0 <= k < i && src[k] != "--json"@,
            argv@.len() > 0 ==> names_command(src),
        decreases n - i,
    {
        let a = argv[i].clone();
        assert(a@ == src[i as int]);
        proof {
            assert(src.take(i + 1).drop_last() =~= src.take(i as int));
            reveal_with_fuel(Seq::<Seq<char>>::filter, 1);
        }
        if str_eq(a.as_str(), "--json") {
            json = true;
        } else {
            rest.push(a);
            assert(views(rest@) =~= views(rest@).drop_last().push(a@));
        }
        i = i + 1;
    }
    assert(src.take(n as int) =~= src);
    let command = rest.remove(0);
    assert(seq![command@] + views(rest@) =~= without_json(src));
    Some(Invocation { json, command, args: rest })
}

/// The commands of the command line.
#[derive(Debug, Clone, Copy, PartialEq, Eq, Structural)]
pub enum CliCommand {
    Help,
    Translate,
    FileTrans,
    ListEngines,
    ListLangs,
    Config,
    ConfigPath,
}

/// The command a name stands for.
pub open spec fn command_named(name: Seq<char>) -> Option<CliCommand> {
    if name == "-h"@ || name == "--help"@ || name == "help"@ {
        Some(CliCommand::Help)
    } else if name == "translate"@ {
        Some(CliCommand::Translate)
    } else if name == "file-trans"@ {
        Some(CliCommand::FileTrans)
    } else if name == "list-engines"@ {
        Some(CliCommand::ListEngines)
    } else if name == "list-langs"@ {
        Some(CliCommand::ListLangs)
    } else if name == "config"@ {
        Some(CliCommand::Config)
    } else if name == "config-path"@ {
        Some(CliCommand::ConfigPath)
    } else {
        None
    }
}

/// The command named `name`, or the error for an unknown one.
pub fn classify_command(name: &str) -> (r: Result<CliCommand, String>)
    ensures
        match r {
            Ok(c) => command_named(name@) == Some(c),
            Err(m) => command_named(name@) is None && m@ == "알 수 없는 명령: "@ + name@,
        },
{
    if str_eq(name, "-h") || str_eq(name, "--help") || str_eq(name, "help") {
        Ok(CliCommand::Help)
    } else if str_eq(name, "translate") {
        Ok(CliCommand::Translate)
    } else if str_eq(name, "file-trans") {
        Ok(CliCommand::FileTrans)
    } else if str_eq(name, "list-engines") {
        Ok(CliCommand::ListEngines)
    } else if str_eq(name, "list-langs") {
        Ok(CliCommand::ListLangs)
    } else if str_eq(name, "config") {
        Ok(CliCommand::Config)
    } else if str_eq(name, "config-path") {
        Ok(CliCommand::ConfigPath)
    } else {
        let mut m = owned("알 수 없는 명령: ");
        append_str(&mut m, name);
        Err(m)
    }
}

/// The error for an option given without its value.
pub open spec fn missing_value(name: Seq<char>) -> Seq<char> {
    name + " 뒤에 값이 필요합니다."@
}

/// The error for an unknown option.
pub open spec fn unknown_option(a: Seq<char>) -> Seq<char> {
    "알 수 없는 옵션: "@ + a
}

/// Takes the value after the option at `*i` and moves past both.
pub fn get_value(args: &Vec<String>, i: &mut usize, name: &str) -> (r: Result<String, String>)
    ensures
        *old(i) + 1 < args@.len() ==> (r matches Ok(v) && v@ == args@[*old(i) + 1]@ && *final(i)
            == *old(i) + 2),
        *old(i) + 1 >= args@.len() ==> (r matches Err(m) && m@ == missing_value(name@)
            && *final(i) == *old(i)),
{
    if *i < args.len() && *i + 1 < args.len() {
        let v = args[*i + 1].clone();
        *i = *i + 2;
        Ok(v)
    } else {
        let mut m = owned(name);
        append_str(&mut m, " 뒤에 값이 필요합니다.");
        Err(m)
    }
}

/// `a` looks like an option (`--...`).
pub open spec fn is_option(a: Seq<char>) -> bool {
    a.len() >= 2 && a[0] == '-' && a[1] == '-'
}

fn looks_like_option(a: &str) -> (r: bool)
    ensures
        r == is_option(a@),
{
    let v = chars_of(a);
    v.len() >= 2 && v[0] == '-' && v[1] == '-'
}

/// The arguments of `translate`.
pub struct TranslateArgs {
    pub text: Option<String>,
    pub engine: Option<String>,
    pub from: Option<String>,
    pub to: Option<String>,
    pub use_stdin: bool,
}

/// [`TranslateArgs`] as character sequences.
pub struct TranslateArgsView {
    pub text: Option<Seq<char>>,
    pub engine: Option<Seq<char>>,
    pub from: Option<Seq<char>>,
    pub to: Option<Seq<char>>,
    pub use_stdin: bool,
}

pub open spec fn opt_seq(s: Option<String>) -> Option<Seq<char>> {
    match s {
        Some(t) => Some(t@),
        None => None,
    }
}

impl View for TranslateArgs {
    type V = TranslateArgsView;

    open spec fn view(&self) -> TranslateArgsView {
        TranslateArgsView {
            text: opt_seq(self.text),
            engine: opt_seq(self.engine),
            from: opt_seq(self.from),
            to: opt_seq(self.to),
            use_stdin: self.use_stdin,
        }
    }
}

/// Reads the `translate` arguments from position `i` on, into `acc`:
/// `--engine`, `--from` and `--to` take a value, `--stdin` is a flag, any
/// other option is an error, and at most one text may be given.
pub open spec fn translate_parse(args: Seq<Seq<char>>, i: int, acc: TranslateArgsView) -> Result<
    TranslateArgsView,
    Seq<char>,
>
    decreases args.len() - i,
{
    if i < 0 || i >= args.len() {
        Ok(acc)
    } else {
        let a = args[i];
        if a == "--engine"@ || a == "--from"@ || a == "--to"@ {
            if i + 1 < args.len() {
                let v = Some(args[i + 1]);
                translate_parse(
                    args,
                    i + 2,
                    if a == "--engine"@ {
                        TranslateArgsView { engine: v, ..acc }
                    } else if a == "--from"@ {
                        TranslateArgsView { from: v, ..acc }
                    } else {
                        TranslateArgsView { to: v, ..acc }
                    },
                )
            } else {
                Err(missing_value(a))
            }
        } else if a == "--stdin"@ {
            translate_parse(args, i + 1, TranslateArgsView { use_stdin: true, ..acc })
        } else if is_option(a) {
            Err(unknown_option(a))
        } else if acc.text is None {
            translate_parse(args, i + 1, TranslateArgsView { text: Some(a), ..acc })
        } else {
            Err("translate 는 위치 인자로 텍스트를 하나만 받습니다."@)
        }
    }
}

pub open spec fn no_translate_args() -> TranslateArgsView {
    TranslateArgsView { text: None, engine: None, from: None, to: None, use_stdin: false }
}

fn err_with(prefix: &str, tail: &str) -> (r: String)
    ensures
        r@ == prefix@ + tail@,
{
    let mut m = owned(prefix);
    append_str(&mut m, tail);
    m
}

/// Reads the arguments of `translate`.
pub fn parse_translate_args(args: &Vec<String>) -> (r: Result<TranslateArgs, String>)
    ensures
        match (r, translate_parse(views(args@), 0, no_translate_args())) {
            (Ok(t), Ok(v)) => t@ == v,
            (Err(m), Err(e)) => m@ == e,
            _ => false,
        },
{
    let ghost av = views(args@);
    let mut acc = TranslateArgs { text: None, engine: None, from: None, to: None, use_stdin: false };
    let mut i: usize = 0;
    while i < args.len()
        invariant
            av == views(args@),
            i <= args@.len(),
            translate_parse(av, 0, no_translate_args()) == translate_parse(av, i as int, acc@),
        decreases args@.len() - i,
    {
        let a = args[i].as_str();
        assert(a@ == av[i as int]);
        if str_eq(a, "--engine") || str_eq(a, "--from") || str_eq(a, "--to") {
            let is_engine = str_eq(a, "--engine");
            let is_from = str_eq(a, "--from");
            let ghost i0 = i;
            match get_value(args, &mut i, a) {
                Ok(v) => {
                    assert(v@ == av[i0 + 1]);
                    if is_engine {
                        acc.engine = Some(v);
                    } else if is_from {
                        acc.from = Some(v);
                    } else {
                        acc.to = Some(v);
                    }
                },
                Err(m) => {
                    return Err(m);
                },
            }
        } else if str_eq(a, "--stdin") {
            acc.use_stdin = true;
            i = i + 1;
        } else if looks_like_option(a) {
            return Err(err_with("알 수 없는 옵션: ", a));
        } else if acc.text.is_none() {
            acc.text = Some(args[i].clone());
            i = i + 1;
        } else {
            return Err(owned("translate 는 위치 인자로 텍스트를 하나만 받습니다."));
        }
    }
    Ok(acc)
}

/// How `file-trans` writes each line.
#[derive(Debug, Clone, Copy, PartialEq, Eq, Structural)]
pub enum WriteType {
    /// The translation only.
    Only,
    /// The original, then the translation.
    Both,
    /// The original, the translation and an empty line.
    BothNl,
}

/// The format named by `--format` (`only` when absent).
pub fn parse_write_type(s: Option<&str>) -> (r: Result<WriteType, String>)
    ensures
        match s {
            None => r == Ok::<WriteType, String>(WriteType::Only),
            Some(f) => if f@ == "only"@ {
                r == Ok::<WriteType, String>(WriteType::Only)
            } else if f@ == "both"@ {
                r == Ok::<WriteType, String>(WriteType::Both)
            } else if f@ == "both-nl"@ {
                r == Ok::<WriteType, String>(WriteType::BothNl)
            } else {
                r matches Err(m) && m@ == "알 수 없는 --format: "@ + f@
                    + " (only|both|both-nl 중 하나)"@
            },
        },
{
    match s {
        None => Ok(WriteType::Only),
        Some(f) => {
            if str_eq(f, "only") {
                Ok(WriteType::Only)
            } else if str_eq(f, "both") {
                Ok(WriteType::Both)
            } else if str_eq(f, "both-nl") {
                Ok(WriteType::BothNl)
            } else {
                let mut m = err_with("알 수 없는 --format: ", f);
                append_str(&mut m, " (only|both|both-nl 중 하나)");
                Err(m)
            }
        },
    }
}

/// The arguments of `file-trans`, before the required ones are checked.
pub struct FileTransArgs {
    pub input: Option<String>,
    pub output: Option<String>,
    pub engine: Option<String>,
    pub from: Option<String>,
    pub to: Option<String>,
    pub format: Option<String>,
    pub no_trans_linefeed: bool,
}

pub struct FileTransArgsView {
    pub input: Option<Seq<char>>,
    pub output: Option<Seq<char>>,
    pub engine: Option<Seq<char>>,
    pub from: Option<Seq<char>>,
    pub to: Option<Seq<char>>,
    pub format: Option<Seq<char>>,
    pub no_trans_linefeed: bool,
}

impl View for FileTransArgs {
    type V = FileTransArgsView;

    open spec fn view(&self) -> FileTransArgsView {
        FileTransArgsView {
            input: opt_seq(self.input),
            output: opt_seq(self.output),
            engine: opt_seq(self.engine),
            from: opt_seq(self.from),
            to: opt_seq(self.to),
            format: opt_seq(self.format),
            no_trans_linefeed: self.no_trans_linefeed,
        }
    }
}

pub open spec fn is_file_trans_value_option(a: Seq<char>) -> bool {
    a == "--in"@ || a == "--out"@ || a == "--engine"@ || a == "--from"@ || a == "--to"@ || a
        == "--format"@
}

/// `acc` with the value `v` of option `a`.
pub open spec fn file_trans_with(acc: FileTransArgsView, a: Seq<char>, v: Seq<char>) -> FileTransArgsView {
    if a == "--in"@ {
        FileTransArgsView { input: Some(v), ..acc }
    } else if a == "--out"@ {
        FileTransArgsView { output: Some(v), ..acc }
    } else if a == "--engine"@ {
        FileTransArgsView { engine: Some(v), ..acc }
    } else if a == "--from"@ {
        FileTransArgsView { from: Some(v), ..acc }
    } else if a == "--to"@ {
        FileTransArgsView { to: Some(v), ..acc }
    } else {
        FileTransArgsView { format: Some(v), ..acc }
    }
}

/// Reads the `file-trans` arguments from position `i` on: six options take
/// a value, `--no-trans-linefeed` is a flag, anything else is an error.
pub open spec fn file_trans_parse(args: Seq<Seq<char>>, i: int, acc: FileTransArgsView) -> Result<
    FileTransArgsView,
    Seq<char>,
>
    decreases args.len() - i,
{
    if i < 0 || i >= args.len() {
        Ok(acc)
    } else {
        let a = args[i];
        if is_file_trans_value_option(a) {
            if i + 1 < args.len() {
                file_trans_parse(args, i + 2, file_trans_with(acc, a, args[i + 1]))
            } else {
                Err(missing_value(a))
            }
        } else if a == "--no-trans-linefeed"@ {
            file_trans_parse(args, i + 1, FileTransArgsView { no_trans_linefeed: true, ..acc })
        } else {
            Err(unknown_option(a))
        }
    }
}

pub open spec fn no_file_trans_args() -> FileTransArgsView {
    FileTransArgsView {
        input: None,
        output: None,
        engine: None,
        from: None,
        to: None,
        format: None,
        no_trans_linefeed: false,
    }
}

/// Reads the arguments of `file-trans`.
pub fn parse_file_trans_args(args: &Vec<String>) -> (r: Result<FileTransArgs, String>)
    ensures
        match (r, file_trans_parse(views(args@), 0, no_file_trans_args())) {
            (Ok(t), Ok(v)) => t@ == v,
            (Err(m), Err(e)) => m@ == e,
            _ => false,
        },
{
    let ghost av = views(args@);
    let mut acc = FileTransArgs {
        input: None,
        output: None,
        engine: None,
        from: None,
        to: None,
        format: None,
        no_trans_linefeed: false,
    };
    let mut i: usize = 0;
    while i < args.len()
        invariant
            av == views(args@),
            i <= args@.len(),
            file_trans_parse(av, 0, no_file_trans_args()) == file_trans_parse(av, i as int, acc@),
        decreases args@.len() - i,
    {
        let a = args[i].as_str();
        assert(a@ == av[i as int]);
        if str_eq(a, "--in") || str_eq(a, "--out") || str_eq(a, "--engine") || str_eq(a, "--from")
            || str_eq(a, "--to") || str_eq(a, "--format") {
            let ghost i0 = i;
            let which_in = str_eq(a, "--in");
            let which_out = str_eq(a, "--out");
            let which_engine = str_eq(a, "--engine");
            let which_from = str_eq(a, "--from");
            let which_to = str_eq(a, "--to");
            match get_value(args, &mut i, a) {
                Ok(v) => {
                    assert(v@ == av[i0 + 1]);
                    if which_in {
                        acc.input = Some(v);
                    } else if which_out {
                        acc.output = Some(v);
                    } else if which_engine {
                        acc.engine = Some(v);
                    } else if which_from {
                        acc.from = Some(v);
                    } else if which_to {
                        acc.to = Some(v);
                    } else {
                        acc.format = Some(v);
                    }
                },
                Err(m) => {
                    return Err(m);
                },
            }
        } else if str_eq(a, "--no-trans-linefeed") {
            acc.no_trans_linefeed = true;
            i = i + 1;
        } else {
            return Err(err_with("알 수 없는 옵션: ", a));
        }
    }
    Ok(acc)
}

/// A checked `file-trans` request.
pub struct FileTransPlan {
    pub input: String,
    pub output: String,
    pub engine: Option<String>,
    pub from: Option<String>,
    pub to: Option<String>,
    pub write_type: WriteType,
    pub no_trans_linefeed: bool,
}

/// Checks the required `--in` and `--out` and the format, in that order.
pub fn plan_file_trans(args: FileTransArgs) -> (r: Result<FileTransPlan, String>)
    ensures
        args.input is None ==> (r matches Err(m) && m@ == "--in <FILE> 이 필요합니다."@),
        args.input is Some && args.output is None ==> (r matches Err(m) && m@
            == "--out <FILE> 이 필요합니다."@),
        args.input is Some && args.output is Some ==> match r {
            Ok(p) => {
                &&& Some(p.input) == args.input
                &&& Some(p.output) == args.output
                &&& p.engine == args.engine
                &&& p.from == args.from
                &&& p.to == args.to
                &&& p.no_trans_linefeed == args.no_trans_linefeed
                &&& match args.format {
                    None => p.write_type == WriteType::Only,
                    Some(f) => f@ == "only"@ && p.write_type == WriteType::Only || f@ == "both"@
                        && p.write_type == WriteType::Both || f@ == "both-nl"@ && p.write_type
                        == WriteType::BothNl,
                }
            },
            Err(m) => args.format matches Some(f) && f@ != "only"@ && f@ != "both"@ && f@
                != "both-nl"@ && m@ == "알 수 없는 --format: "@ + f@ + " (only|both|both-nl 중 하나)"@,
        },
{
    let FileTransArgs { input, output, engine, from, to, format, no_trans_linefeed } = args;
    let input = match input {
        Some(p) => p,
        None => {
            return Err(owned("--in <FILE> 이 필요합니다."));
        },
    };
    let output = match output {
        Some(p) => p,
        None => {
            return Err(owned("--out <FILE> 이 필요합니다."));
        },
    };
    let write_type = match &format {
        Some(f) => parse_write_type(Some(f.as_str())),
        None => parse_write_type(None),
    };
    match write_type {
        Ok(write_type) => Ok(FileTransPlan { input, output, engine, from, to, write_type, no_trans_linefeed }),
        Err(m) => Err(m),
    }
}

/// Whether a line of the input is sent to the translator: empty lines are
/// kept, and with `no_trans_linefeed` so are white-space-only lines.
pub fn needs_translation(line: &str, no_trans_linefeed: bool) -> (r: bool)
    ensures
        r == !(line@.len() == 0 || (no_trans_linefeed && trim(line@).len() == 0)),
{
    if line.is_empty() {
        return false;
    }
    if no_trans_linefeed {
        let t = crate::text::trimmed(line);
        if t.as_str().is_empty() {
            return false;
        }
    }
    true
}

/// What `file-trans` writes for one line.
pub open spec fn line_output(
    original: Seq<char>,
    translated: Seq<char>,
    write_type: WriteType,
    is_last: bool,
) -> Seq<char> {
    match write_type {
        WriteType::Only => translated + seq!['\n'],
        WriteType::Both => original + seq!['\n'] + translated + if is_last {
            Seq::<char>::empty()
        } else {
            seq!['\n']
        },
        WriteType::BothNl => original + seq!['\n'] + translated + seq!['\n'] + if is_last {
            Seq::<char>::empty()
        } else {
            seq!['\n']
        },
    }
}

/// Appends the output of one line to `out`.
pub fn write_line(
    out: &mut String,
    original: &str,
    translated: &str,
    write_type: WriteType,
    is_last: bool,
)
    ensures
        final(out)@ == old(out)@ + line_output(original@, translated@, write_type, is_last),
{
    match write_type {
        WriteType::Only => {
            append_str(out, translated);
            push_char(out, '\n');
        },
        WriteType::Both => {
            append_str(out, original);
            push_char(out, '\n');
            append_str(out, translated);
            if !is_last {
                push_char(out, '\n');
            }
        },
        WriteType::BothNl => {
            append_str(out, original);
            push_char(out, '\n');
            append_str(out, translated);
            push_char(out, '\n');
            if !is_last {
                push_char(out, '\n');
            }
        },
    }
    assert(final(out)@ =~= old(out)@ + line_output(original@, translated@, write_type, is_last));
}

/// The output for the first `n` lines of a translated file.
pub open spec fn file_output(
    originals: Seq<Seq<char>>,
    translations: Seq<Seq<char>>,
    write_type: WriteType,
    n: int,
) -> Seq<char>
    decreases n,
{
    if n <= 0 {
        Seq::empty()
    } else {
        file_output(originals, translations, write_type, n - 1) + line_output(
            originals[n - 1],
            translations[n - 1],
            write_type,
            n - 1 == originals.len() - 1,
        )
    }
}

/// The text of a translated file (after its byte order mark): every line
/// written by [`write_line`], the last one marked as last.
pub fn render_translated_file(
    originals: &Vec<String>,
    translations: &Vec<String>,
    write_type: WriteType,
) -> (r: String)
    requires
        originals@.len() == translations@.len(),
    ensures
        r@ == file_output(views(originals@), views(translations@), write_type, originals@.len() as int),
{
    let n = originals.len();
    let last_idx = if n == 0 {
        0
    } else {
        n - 1
    };
    let mut out = String::new();
    let mut i: usize = 0;
    while i < n
        invariant
            n == originals@.len(),
            n == translations@.len(),
            last_idx == if n == 0 {
                0
            } else {
                n - 1
            },
            i <= n,
            out@ == file_output(views(originals@), views(translations@), write_type, i as int),
        decreases n - i,
    {
        write_line(
            &mut out,
            originals[i].as_str(),
            translations[i].as_str(),
            write_type,
            i == last_idx,
        );
        i = i + 1;
    }
    out
}

/// A value of a one-line JSON object.
pub enum JsonVal<'a> {
    Str(&'a str),
    Bool(bool),
    Num(i64),
}

/// The character of a hexadecimal digit `d < 16`, lower case.
pub open spec fn hex_digit(d: int) -> char {
    if d < 10 {
        ((d + 48) as u32) as char
    } else {
        ((d - 10 + 97) as u32) as char
    }
}

/// The JSON escape of one character: quote, backslash and the usual control
/// characters get their short escapes, other control characters `\u00XX`.
pub open spec fn escape_char(c: char) -> Seq<char> {
    if c == '"' {
        seq!['\\', '"']
    } else if c == '\\' {
        seq!['\\', '\\']
    } else if c == '\n' {
        seq!['\\', 'n']
    } else if c == '\r' {
        seq!['\\', 'r']
    } else if c == '\t' {
        seq!['\\', 't']
    } else if (c as u32) < 0x20 {
        seq!['\\', 'u', '0', '0', hex_digit((c as u32) as int / 16), hex_digit((c as u32) as int % 16)]
    } else {
        seq![c]
    }
}

/// The JSON string escape of `s`.
pub open spec fn json_escape(s: Seq<char>) -> Seq<char>
    decreases s.len(),
{
    if s.len() == 0 {
        Seq::empty()
    } else {
        json_escape(s.drop_last()) + escape_char(s.last())
    }
}

/// The value of a hexadecimal digit, in either case.
pub open spec fn hex_value(c: char) -> Option<int> {
    if '0' <= c && c <= '9' {
        Some(c as int - 48)
    } else if 'a' <= c && c <= 'f' {
        Some(c as int - 87)
    } else if 'A' <= c && c <= 'F' {
        Some(c as int - 55)
    } else {
        None
    }
}

/// The character of a two-character escape `\e` in a JSON string.
pub open spec fn short_escape(e: char) -> Option<char> {
    if e == '"' {
        Some('"')
    } else if e == '\\' {
        Some('\\')
    } else if e == '/' {
        Some('/')
    } else if e == 'b' {
        Some('\x08')
    } else if e == 'f' {
        Some('\x0C')
    } else if e == 'n' {
        Some('\n')
    } else if e == 'r' {
        Some('\r')
    } else if e == 't' {
        Some('\t')
    } else {
        None
    }
}

/// `c` in front of the decoded rest, if the rest decodes.
pub open spec fn prepend(c: char, rest: Option<Seq<char>>) -> Option<Seq<char>> {
    match rest {
        Some(r) => Some(seq![c] + r),
        None => None,
    }
}

/// The characters that the body `t` of a JSON string (RFC 8259, section 7)
/// stands for: none when it holds an unescaped quote or control character or
/// a malformed escape. (A `\u` escape of a UTF-16 surrogate is refused too.)
pub open spec fn json_unescape(t: Seq<char>) -> Option<Seq<char>>
    decreases t.len(),
{
    if t.len() == 0 {
        Some(Seq::empty())
    } else if t[0] == '"' || (t[0] as u32) < 0x20 {
        None
    } else if t[0] != '\\' {
        prepend(t[0], json_unescape(t.skip(1)))
    } else if t.len() < 2 {
        None
    } else {
        match short_escape(t[1]) {
            Some(c) => prepend(c, json_unescape(t.skip(2))),
            None => if t[1] == 'u' && t.len() >= 6 && hex_value(t[2]) is Some && hex_value(t[3]) is Some
                && hex_value(t[4]) is Some && hex_value(t[5]) is Some {
                let code = hex_value(t[2])->0 * 4096 + hex_value(t[3])->0 * 256 + hex_value(t[4])->0
                    * 16 + hex_value(t[5])->0;
                if 0xD800 <= code && code < 0xE000 {
                    None
                } else {
                    prepend(code as char, json_unescape(t.skip(6)))
                }
            } else {
                None
            },
        }
    }
}

proof fn lemma_escape_concat(a: Seq<char>, b: Seq<char>)
    ensures
        json_escape(a + b) == json_escape(a) + json_escape(b),
    decreases b.len(),
{
    if b.len() == 0 {
        assert(a + b =~= a);
        assert(json_escape(a) + json_escape(b) =~= json_escape(a));
    } else {
        assert((a + b).drop_last() =~= a + b.drop_last());
        assert((a + b).last() == b.last());
        lemma_escape_concat(a, b.drop_last());
        assert(json_escape(a + b) =~= json_escape(a) + json_escape(b));
    }
}

proof fn lemma_hex_digit_value(d: int)
    requires
        0 <= d < 16,
    ensures
        hex_value(hex_digit(d)) == Some(d),
        hex_digit(d) as u32 >= 0x20,
        hex_digit(d) != '"' && hex_digit(d) != '\\',
{
}

proof fn lemma_escape_char_decodes(c: char, t: Seq<char>)
    ensures
        json_unescape(escape_char(c) + t) == prepend(c, json_unescape(t)),
        forall|k: int|
            0 <= k < escape_char(c).len() ==> (#[trigger] escape_char(c)[k]) as u32 >= 0x20,
{
    let e = escape_char(c);
    let u = e + t;
    if c == '"' || c == '\\' || c == '\n' || c == '\r' || c == '\t' {
        assert(u[0] == '\\');
        assert(u.skip(2) =~= t);
    } else if (c as u32) < 0x20 {
        let v = c as u32;
        lemma_hex_digit_value(v as int / 16);
        lemma_hex_digit_value(v as int % 16);
        assert(u[0] == '\\' && u[1] == 'u' && u[2] == '0' && u[3] == '0');
        assert(u.skip(6) =~= t);
        let code = hex_value(u[2])->0 * 4096 + hex_value(u[3])->0 * 256 + hex_value(u[4])->0 * 16
            + hex_value(u[5])->0;
        assert(code == v as int);
        assert((code as char) as u32 == v);
        assert(code as char == c);
    } else {
        assert(u[0] == c);
        assert(u.skip(1) =~= t);
    }
}

/// The JSON escape writes a valid JSON string body that reads back as the
/// original text: it holds no control character (nor an unescaped quote or a
/// lone backslash), and decoding it gives `s` again.
pub proof fn lemma_json_escape_round_trip(s: Seq<char>)
    ensures
        json_unescape(json_escape(s)) == Some(s),
        forall|k: int| 0 <= k < json_escape(s).len() ==> (#[trigger] json_escape(s)[k]) as u32 >= 0x20,
    decreases s.len(),
{
    if s.len() > 0 {
        let c = s[0];
        let rest = s.drop_first();
        assert(s =~= seq![c] + rest);
        lemma_escape_concat(seq![c], rest);
        assert(seq![c].drop_last() =~= Seq::<char>::empty());
        assert(seq![c].last() == c);
        assert(json_escape(Seq::<char>::empty()) == Seq::<char>::empty());
        assert(json_escape(seq![c]) == json_escape(seq![c].drop_last()) + escape_char(c));
        assert(json_escape(seq![c]) =~= escape_char(c));
        lemma_json_escape_round_trip(rest);
        lemma_escape_char_decodes(c, json_escape(rest));
        assert(seq![c] + rest =~= s);
        let e = json_escape(s);
        assert(e =~= escape_char(c) + json_escape(rest));
        assert forall|k: int| 0 <= k < e.len() implies (#[trigger] e[k]) as u32 >= 0x20 by {
            if k < escape_char(c).len() {
                assert(e[k] == escape_char(c)[k]);
            } else {
                assert(e[k] == json_escape(rest)[k - escape_char(c).len()]);
            }
        }
    }
}

fn hex_char(d: u32) -> (r: char)
    requires
        d < 16,
    ensures
        r == hex_digit(d as int),
{
    if d < 10 {
        ((d + 48) as u8) as char
    } else {
        ((d - 10 + 97) as u8) as char
    }
}

/// Appends the JSON escape of `s` to `out`.
pub fn json_escape_into(out: &mut String, s: &str)
    ensures
        final(out)@ == old(out)@ + json_escape(s@),
{
    let v = chars_of(s);
    let mut i: usize = 0;
    while i < v.len()
        invariant
            v@ == s@,
            i <= v@.len(),
            out@ == old(out)@ + json_escape(v@.take(i as int)),
        decreases v@.len() - i,
    {
        let c = v[i];
        let ghost before = out@;
        if c == '"' {
            push_char(out, '\\');
            push_char(out, '"');
        } else if c == '\\' {
            push_char(out, '\\');
            push_char(out, '\\');
        } else if c == '\n' {
            push_char(out, '\\');
            push_char(out, 'n');
        } else if c == '\r' {
            push_char(out, '\\');
            push_char(out, 'r');
        } else if c == '\t' {
            push_char(out, '\\');
            push_char(out, 't');
        } else if (c as u32) < 0x20 {
            let u = c as u32;
            push_char(out, '\\');
            push_char(out, 'u');
            push_char(out, '0');
            push_char(out, '0');
            push_char(out, hex_char(u / 16));
            push_char(out, hex_char(u % 16));
        } else {
            push_char(out, c);
        }
        assert(out@ =~= before + escape_char(c));
        assert(v@.take(i + 1).drop_last() =~= v@.take(i as int));
        i = i + 1;
    }
    assert(v@.take(v@.len() as int) =~= v@);
}

/// The decimal digits of `n`.
pub open spec fn digits_of(n: nat) -> Seq<char>
    decreases n,
{
    if n < 10 {
        seq![((n + 48) as u32) as char]
    } else {
        digits_of(n / 10).push((((n % 10) + 48) as u32) as char)
    }
}

/// The decimal representation of `n`, with a minus sign when negative.
pub open spec fn decimal(n: int) -> Seq<char> {
    if n < 0 {
        seq!['-'] + digits_of((-n) as nat)
    } else {
        digits_of(n as nat)
    }
}

/// Appends the decimal digits of `n` to `out`.
pub fn push_digits(out: &mut String, n: u64)
    ensures
        final(out)@ == old(out)@ + digits_of(n as nat),
    decreases n,
{
    if n >= 10 {
        push_digits(out, n / 10);
    }
    let d = (n % 10) as u32;
    push_char(out, ((d + 48) as u8) as char);
    assert(final(out)@ =~= old(out)@ + digits_of(n as nat));
}

/// Appends the decimal representation of `n` to `out`.
pub fn push_decimal(out: &mut String, n: i64)
    ensures
        final(out)@ == old(out)@ + decimal(n as int),
{
    if n < 0 {
        push_char(out, '-');
        let magnitude: u64 = (-(n as i128)) as u64;
        push_digits(out, magnitude);
        assert(final(out)@ =~= old(out)@ + decimal(n as int));
    } else {
        push_digits(out, n as u64);
    }
}

/// A value as JSON text.
pub open spec fn json_value(v: JsonVal) -> Seq<char> {
    match v {
        JsonVal::Str(s) => seq!['"'] + json_escape(s@) + seq!['"'],
        JsonVal::Bool(b) => if b {
            "true"@
        } else {
            "false"@
        },
        JsonVal::Num(n) => decimal(n as int),
    }
}

/// The members of a JSON object for the first `n` entries, comma-separated;
/// keys are written as given.
pub open spec fn json_members(entries: Seq<(&str, JsonVal)>, n: int) -> Seq<char>
    decreases n,
{
    if n <= 0 {
        Seq::empty()
    } else {
        json_members(entries, n - 1) + (if n > 1 {
            seq![',']
        } else {
            Seq::<char>::empty()
        }) + seq!['"'] + entries[n - 1].0@ + seq!['"', ':'] + json_value(entries[n - 1].1)
    }
}

/// One line of JSON holding the given members in order.
pub fn json_object(entries: &[(&str, JsonVal)]) -> (r: String)
    ensures
        r@ == seq!['{'] + json_members(entries@, entries@.len() as int) + seq!['}'],
{
    let mut s = String::new();
    push_char(&mut s, '{');
    let mut i: usize = 0;
    while i < entries.len()
        invariant
            i <= entries@.len(),
            s@ == seq!['{'] + json_members(entries@, i as int),
        decreases entries@.len() - i,
    {
        let ghost before = s@;
        if i > 0 {
            push_char(&mut s, ',');
        }
        let (k, v) = &entries[i];
        push_char(&mut s, '"');
        append_str(&mut s, k);
        push_char(&mut s, '"');
        push_char(&mut s, ':');
        match v {
            JsonVal::Str(value) => {
                push_char(&mut s, '"');
                json_escape_into(&mut s, value);
                push_char(&mut s, '"');
            },
            JsonVal::Bool(b) => {
                if *b {
                    append_str(&mut s, "true");
                } else {
                    append_str(&mut s, "false");
                }
            },
            JsonVal::Num(n) => {
                push_decimal(&mut s, *n);
            },
        }
        assert(s@ =~= seq!['{'] + json_members(entries@, i + 1));
        i = i + 1;
    }
    push_char(&mut s, '}');
    s
}

/// The configuration keys that hold credentials: their values are never
/// printed unless asked for and never taken from the command line.
pub open spec fn sensitive_key(key: Seq<char>) -> bool {
    ||| key == "translation.deepl_api_key"@
    ||| key == "translation.deepl_keys"@
    ||| key == "translation.papago_client_id"@
    ||| key == "translation.papago_client_secret"@
    ||| key == "translation.llm.api_key"@
    ||| key == "translation.custom.api_key"@
    ||| key == "translation.custom_apis"@
    ||| (key.len() >= "translation.custom_apis."@.len() && key.take(
        "translation.custom_apis."@.len() as int,
    ) == "translation.custom_apis."@)
}

/// Whether `key` names a credential (or the custom API list, which holds
/// keys).
pub fn is_sensitive_key(key: &str) -> (r: bool)
    ensures
        r == sensitive_key(key@),
{
    str_eq(key, "translation.deepl_api_key") || str_eq(key, "translation.deepl_keys") || str_eq(
        key,
        "translation.papago_client_id",
    ) || str_eq(key, "translation.papago_client_secret") || str_eq(key, "translation.llm.api_key")
        || str_eq(key, "translation.custom.api_key") || str_eq(key, "translation.custom_apis")
        || crate::text::has_prefix(key, "translation.custom_apis.")
}

/// The mask shown in place of a secret.
pub open spec fn mask() -> Seq<char> {
    "***"@
}

fn masked() -> (r: String)
    ensures
        r@ == mask(),
{
    owned("***")
}

fn redact_keys(keys: &mut Vec<String>)
    ensures
        final(keys)@.len() == old(keys)@.len(),
        forall|i: int| 0 <= i < final(keys)@.len() ==> #[trigger] final(keys)@[i]@ == mask(),
{
    let n = keys.len();
    let mut i: usize = 0;
    while i < n
        invariant
            n == keys@.len(),
            i <= n,
            forall|k: int| 0 <= k < i ==> #[trigger] keys@[k]@ == mask(),
        decreases n - i,
    {
        keys.set(i, masked());
        i = i + 1;
    }
}

fn redact_api(api: &mut CustomApiConfig)
    ensures
        final(api).api_key@ == mask(),
        *final(api) == (CustomApiConfig { api_key: final(api).api_key, ..*old(api) }),
{
    api.api_key = masked();
}

fn redact_apis(apis: &mut Vec<CustomApiConfig>)
    ensures
        final(apis)@.len() == old(apis)@.len(),
        forall|i: int|
            0 <= i < final(apis)@.len() ==> (#[trigger] final(apis)@[i]).api_key@ == mask()
                && final(apis)@[i] == (CustomApiConfig {
                api_key: final(apis)@[i].api_key,
                ..old(apis)@[i]
            }),
{
    let n = apis.len();
    let ghost orig = apis@;
    let mut i: usize = 0;
    while i < n
        invariant
            n == apis@.len(),
            n == orig.len(),
            i <= n,
            forall|k: int| i <= k < n ==> #[trigger] apis@[k] == orig[k],
            forall|k: int|
                0 <= k < i ==> (#[trigger] apis@[k]).api_key@ == mask() && apis@[k]
                    == (CustomApiConfig { api_key: apis@[k].api_key, ..orig[k] }),
        decreases n - i,
    {
        let mut api = apis.remove(i);
        redact_api(&mut api);
        apis.insert(i, api);
        i = i + 1;
    }
}

fn redact_llm(llm: &mut LlmConfig)
    ensures
        final(llm).api_key@ == mask(),
        *final(llm) == (LlmConfig { api_key: final(llm).api_key, ..*old(llm) }),
{
    llm.api_key = masked();
}

fn redact_translation(t: &mut TranslationConfig)
    ensures
        final(t).deepl_api_key@ == mask(),
        final(t).papago_client_id@ == mask(),
        final(t).papago_client_secret@ == mask(),
        final(t).deepl_keys@.len() == old(t).deepl_keys@.len(),
        forall|i: int|
            0 <= i < final(t).deepl_keys@.len() ==> #[trigger] final(t).deepl_keys@[i]@ == mask(),
        final(t).llm.api_key@ == mask(),
        final(t).llm == (LlmConfig { api_key: final(t).llm.api_key, ..old(t).llm }),
        final(t).custom.api_key@ == mask(),
        final(t).custom == (CustomApiConfig { api_key: final(t).custom.api_key, ..old(t).custom }),
        final(t).custom_apis@.len() == old(t).custom_apis@.len(),
        forall|i: int|
            0 <= i < final(t).custom_apis@.len() ==> (#[trigger] final(t).custom_apis@[i]).api_key@
                == mask() && final(t).custom_apis@[i] == (CustomApiConfig {
                api_key: final(t).custom_apis@[i].api_key,
                ..old(t).custom_apis@[i]
            }),
        *final(t) == (TranslationConfig {
            deepl_api_key: final(t).deepl_api_key,
            deepl_keys: final(t).deepl_keys,
            papago_client_id: final(t).papago_client_id,
            papago_client_secret: final(t).papago_client_secret,
            llm: final(t).llm,
            custom: final(t).custom,
            custom_apis: final(t).custom_apis,
            ..*old(t)
        }),
{
    t.deepl_api_key = masked();
    redact_keys(&mut t.deepl_keys);
    t.papago_client_id = masked();
    t.papago_client_secret = masked();
    redact_llm(&mut t.llm);
    redact_api(&mut t.custom);
    redact_apis(&mut t.custom_apis);
}

/// Masks every credential of the settings: the DeepL keys, the Papago
/// client id and secret, the LLM key and the keys of all custom APIs.
/// Nothing else changes.
pub fn redact_config(config: &mut Config)
    ensures
        final(config).translation.deepl_api_key@ == mask(),
        final(config).translation.papago_client_id@ == mask(),
        final(config).translation.papago_client_secret@ == mask(),
        final(config).translation.deepl_keys@.len() == old(config).translation.deepl_keys@.len(),
        forall|i: int|
            0 <= i < final(config).translation.deepl_keys@.len()
                ==> #[trigger] final(config).translation.deepl_keys@[i]@ == mask(),
        final(config).translation.llm.api_key@ == mask(),
        final(config).translation.llm == (LlmConfig {
            api_key: final(config).translation.llm.api_key,
            ..old(config).translation.llm
        }),
        final(config).translation.custom.api_key@ == mask(),
        final(config).translation.custom == (CustomApiConfig {
            api_key: final(config).translation.custom.api_key,
            ..old(config).translation.custom
        }),
        final(config).translation.custom_apis@.len() == old(config).translation.custom_apis@.len(),
        forall|i: int|
            0 <= i < final(config).translation.custom_apis@.len()
                ==> (#[trigger] final(config).translation.custom_apis@[i]).api_key@ == mask()
                && final(config).translation.custom_apis@[i] == (CustomApiConfig {
                api_key: final(config).translation.custom_apis@[i].api_key,
                ..old(config).translation.custom_apis@[i]
            }),
        final(config).translation == (TranslationConfig {
            deepl_api_key: final(config).translation.deepl_api_key,
            deepl_keys: final(config).translation.deepl_keys,
            papago_client_id: final(config).translation.papago_client_id,
            papago_client_secret: final(config).translation.papago_client_secret,
            llm: final(config).translation.llm,
            custom: final(config).translation.custom,
            custom_apis: final(config).translation.custom_apis,
            ..old(config).translation
        }),
        *final(config) == (Config { translation: final(config).translation, ..*old(config) }),
{
    redact_translation(&mut config.translation);
}

/// The kind of the value a configuration key holds.
#[derive(Debug, Clone, Copy, PartialEq, Eq, Structural)]
pub enum ValueKind {
    Bool,
    Integer,
    Float,
    Text,
    Null,
    /// An array or an object.
    Compound,
}

/// A command-line value converted to the kind of the value it replaces.
#[derive(Debug, Clone, PartialEq, Eq)]
pub enum Coerced {
    Bool(bool),
    Integer(i64),
    Text(String),
}

pub open spec fn is_ascii_digit(c: char) -> bool {
    '0' <= c && c <= '9'
}

/// The value of the decimal digits `s`.
pub open spec fn digits_value(s: Seq<char>) -> int
    decreases s.len(),
{
    if s.len() == 0 {
        0
    } else {
        digits_value(s.drop_last()) * 10 + ((s.last() as u32) - 48)
    }
}

/// All characters of `s` are ASCII digits.
pub open spec fn all_digits(s: Seq<char>) -> bool {
    forall|k: int| 0 <= k < s.len() ==> is_ascii_digit(#[trigger] s[k])
}

/// `s` without a leading sign.
pub open spec fn unsigned_part(s: Seq<char>) -> Seq<char> {
    if s.len() > 0 && (s[0] == '-' || s[0] == '+') {
        s.drop_first()
    } else {
        s
    }
}

/// The `i64` a string spells the way Rust's integer parser reads it: an
/// optional `+` or `-`, then one or more ASCII digits, and a value in range.
pub open spec fn parse_i64_spec(s: Seq<char>) -> Option<i64> {
    let body = unsigned_part(s);
    let v = if s.len() > 0 && s[0] == '-' {
        -digits_value(body)
    } else {
        digits_value(body)
    };
    if body.len() == 0 || !all_digits(body) {
        None
    } else if i64::MIN <= v <= i64::MAX {
        Some(v as i64)
    } else {
        None
    }
}

proof fn lemma_digits_value_grows(s: Seq<char>, t: Seq<char>)
    requires
        forall|k: int| 0 <= k < (s + t).len() ==> is_ascii_digit(#[trigger] (s + t)[k]),
    ensures
        digits_value(s + t) >= digits_value(s),
        digits_value(s) >= 0,
    decreases t.len(),
{
    if t.len() == 0 {
        assert(s + t =~= s);
        lemma_digits_nonneg(s);
    } else {
        assert((s + t).drop_last() =~= s + t.drop_last());
        assert forall|k: int| 0 <= k < (s + t.drop_last()).len() implies is_ascii_digit(
            #[trigger] (s + t.drop_last())[k],
        ) by {
            assert((s + t.drop_last())[k] == (s + t)[k]);
        }
        lemma_digits_value_grows(s, t.drop_last());
        assert(is_ascii_digit((s + t)[(s + t).len() - 1]));
    }
}

proof fn lemma_digits_nonneg(s: Seq<char>)
    requires
        forall|k: int| 0 <= k < s.len() ==> is_ascii_digit(#[trigger] s[k]),
    ensures
        digits_value(s) >= 0,
    decreases s.len(),
{
    if s.len() > 0 {
        assert forall|k: int| 0 <= k < s.drop_last().len() implies is_ascii_digit(
            #[trigger] s.drop_last()[k],
        ) by {
            assert(s.drop_last()[k] == s[k]);
        }
        lemma_digits_nonneg(s.drop_last());
        assert(is_ascii_digit(s[s.len() - 1]));
    }
}

/// Parses an `i64` as Rust's integer parser does.
pub fn parse_i64(raw: &str) -> (r: Option<i64>)
    ensures
        r == parse_i64_spec(raw@),
{
    let v = chars_of(raw);
    let n = v.len();
    let neg = n > 0 && v[0] == '-';
    let start: usize = if n > 0 && (v[0] == '-' || v[0] == '+') {
        1
    } else {
        0
    };
    let ghost body = unsigned_part(v@);
    assert(body =~= v@.subrange(start as int, n as int));
    if start == n {
        return None;
    }
    // The magnitude allowed: 2^63 for a negative number, 2^63 - 1 otherwise.
    let limit: u64 = if neg {
        0x8000_0000_0000_0000
    } else {
        0x7FFF_FFFF_FFFF_FFFF
    };
    let mut acc: u64 = 0;
    let mut over = false;
    let mut i: usize = start;
    while i < n
        invariant
            v@ == raw@,
            n == v@.len(),
            start <= i <= n,
            limit >= 0x7FFF_FFFF_FFFF_FFFFu64,
            neg ==> limit == 0x8000_0000_0000_0000u64,
            !neg ==> limit == 0x7FFF_FFFF_FFFF_FFFFu64,
            body == v@.subrange(start as int, n as int),
            body == unsigned_part(raw@),
            neg == (raw@.len() > 0 && raw@[0] == '-'),
            forall|k: int| start <= k < i ==> is_ascii_digit(#[trigger] v@[k]),
            !over ==> acc as int == digits_value(v@.subrange(start as int, i as int)),
            !over ==> acc <= limit,
            over ==> digits_value(v@.subrange(start as int, i as int)) > limit,
        decreases n - i,
    {
        let c = v[i];
        if !('0' <= c && c <= '9') {
            assert(body[i - start] == c);
            assert(!is_ascii_digit(body[(i - start) as int]));
            assert(!all_digits(body));
            return None;
        }
        let d = (c as u32 - 48) as u64;
        let ghost pre = v@.subrange(start as int, i as int);
        let ghost next = v@.subrange(start as int, i + 1);
        assert(next.drop_last() =~= pre);
        proof {
            assert forall|k: int| 0 <= k < next.len() implies is_ascii_digit(#[trigger] next[k]) by {
                assert(next[k] == v@[start + k]);
            }
        }
        if over {
            proof {
                lemma_digits_value_grows(pre, seq![c]);
                assert(pre + seq![c] =~= next);
            }
        } else if acc > (limit - d) / 10 {
            proof {
                lemma_digits_value_grows(pre, seq![c]);
                assert(pre + seq![c] =~= next);
                assert(digits_value(next) == acc * 10 + d);
                assert(acc * 10 + d > limit) by (nonlinear_arith)
                    requires
                        acc > (limit - d) / 10,
                        d <= 9,
                        limit >= 9,
                ;
            }
            over = true;
        } else {
            proof {
                assert(acc * 10 + d <= limit) by (nonlinear_arith)
                    requires
                        acc <= (limit - d) / 10,
                        d <= 9,
                        limit >= 9,
                ;
            }
            acc = acc * 10 + d;
        }
        i = i + 1;
    }
    assert(v@.subrange(start as int, n as int) == body);
    if over {
        return None;
    }
    if neg {
        if acc == 0x8000_0000_0000_0000 {
            Some(i64::MIN)
        } else {
            Some(-(acc as i64))
        }
    } else {
        Some(acc as i64)
    }
}

/// The words read as `true` and `false`, in any ASCII case.
pub open spec fn bool_word(raw: Seq<char>) -> Option<bool> {
    let w = lower_seq(raw);
    if w == "true"@ || w == "1"@ || w == "yes"@ || w == "on"@ {
        Some(true)
    } else if w == "false"@ || w == "0"@ || w == "no"@ || w == "off"@ {
        Some(false)
    } else {
        None
    }
}

fn chars_match(v: &Vec<char>, w: &str) -> (r: bool)
    ensures
        r == (v@ == w@),
{
    let wv = chars_of(w);
    crate::text::chars_eq(v, &wv)
}

/// Converts `raw` to the kind of the value it replaces: booleans from the
/// usual words, integers as Rust parses them, text as it is; arrays and
/// objects cannot be set. Floating-point values are converted by the caller.
pub fn coerce_value(existing: ValueKind, raw: &str) -> (r: Result<Coerced, String>)
    requires
        existing != ValueKind::Float,
    ensures
        match existing {
            ValueKind::Bool => match bool_word(raw@) {
                Some(b) => r == Ok::<Coerced, String>(Coerced::Bool(b)),
                None => r matches Err(m) && m@ == "bool 값으로 변환할 수 없습니다: "@ + raw@,
            },
            ValueKind::Integer => match parse_i64_spec(raw@) {
                Some(n) => r == Ok::<Coerced, String>(Coerced::Integer(n)),
                None => r matches Err(m) && m@ == "정수로 변환할 수 없습니다: "@ + raw@,
            },
            ValueKind::Text | ValueKind::Null => r matches Ok(Coerced::Text(t)) && t@ == raw@,
            _ => r matches Err(m) && m@
                == "배열/객체 필드는 CLI 에서 직접 수정할 수 없습니다. config.toml 을 직접 편집하세요."@,
        },
{
    match existing {
        ValueKind::Bool => {
            let w = lowered(&chars_of(raw));
            if chars_match(&w, "true") || chars_match(&w, "1") || chars_match(&w, "yes")
                || chars_match(&w, "on") {
                Ok(Coerced::Bool(true))
            } else if chars_match(&w, "false") || chars_match(&w, "0") || chars_match(&w, "no")
                || chars_match(&w, "off") {
                Ok(Coerced::Bool(false))
            } else {
                Err(err_with("bool 값으로 변환할 수 없습니다: ", raw))
            }
        },
        ValueKind::Integer => match parse_i64(raw) {
            Some(n) => Ok(Coerced::Integer(n)),
            None => Err(err_with("정수로 변환할 수 없습니다: ", raw)),
        },
        ValueKind::Text | ValueKind::Null => Ok(Coerced::Text(owned(raw))),
        _ => Err(
            owned(
                "배열/객체 필드는 CLI 에서 직접 수정할 수 없습니다. config.toml 을 직접 편집하세요.",
            ),
        ),
    }
}

/// Reads the arguments of `list-langs` from position `i` on: only
/// `--engine` with a value is known.
pub open spec fn list_langs_parse(args: Seq<Seq<char>>, i: int, engine: Option<Seq<char>>) -> Result<
    Option<Seq<char>>,
    Seq<char>,
>
    decreases args.len() - i,
{
    if i < 0 || i >= args.len() {
        Ok(engine)
    } else if args[i] == "--engine"@ {
        if i + 1 < args.len() {
            list_langs_parse(args, i + 2, Some(args[i + 1]))
        } else {
            Err(missing_value(args[i]))
        }
    } else {
        Err(unknown_option(args[i]))
    }
}

/// Reads the arguments of `list-langs`: the engine asked for, if any.
pub fn parse_list_langs_args(args: &Vec<String>) -> (r: Result<Option<String>, String>)
    ensures
        match (r, list_langs_parse(views(args@), 0, None)) {
            (Ok(e), Ok(v)) => opt_seq(e) == v,
            (Err(m), Err(e)) => m@ == e,
            _ => false,
        },
{
    let ghost av = views(args@);
    let mut engine: Option<String> = None;
    let mut i: usize = 0;
    while i < args.len()
        invariant
            av == views(args@),
            i <= args@.len(),
            list_langs_parse(av, 0, None) == list_langs_parse(av, i as int, opt_seq(engine)),
        decreases args@.len() - i,
    {
        let a = args[i].as_str();
        assert(a@ == av[i as int]);
        if str_eq(a, "--engine") {
            let ghost i0 = i;
            match get_value(args, &mut i, "--engine") {
                Ok(v) => {
                    assert(v@ == av[i0 + 1]);
                    engine = Some(v);
                },
                Err(m) => {
                    return Err(m);
                },
            }
        } else {
            return Err(err_with("알 수 없는 옵션: ", a));
        }
    }
    Ok(engine)
}

/// A `config` subcommand.
pub enum ConfigCommand {
    Show,
    Get { key: String },
    Update { key: String, value: String },
}

/// Reads `config <show|get KEY|set KEY VALUE>`; further arguments are ignored.
pub fn parse_config_command(args: &Vec<String>) -> (r: Result<ConfigCommand, String>)
    ensures
        args@.len() == 0 ==> (r matches Err(m) && m@ == "config <show|get|set> ... 형식으로 호출하세요."@),
        args@.len() > 0 ==> {
            let sub = args@[0]@;
            if sub == "show"@ {
                r matches Ok(ConfigCommand::Show)
            } else if sub == "get"@ {
                if args@.len() > 1 {
                    r matches Ok(ConfigCommand::Get { key }) && key@ == args@[1]@
                } else {
                    r matches Err(m) && m@ == "config get <KEY> — 점 경로 키가 필요합니다."@
                }
            } else if sub == "set"@ {
                if args@.len() > 2 {
                    r matches Ok(ConfigCommand::Update { key, value }) && key@ == args@[1]@ && value@
                        == args@[2]@
                } else if args@.len() > 1 {
                    r matches Err(m) && m@ == "config set <KEY> <VALUE> — 값이 필요합니다."@
                } else {
                    r matches Err(m) && m@ == "config set <KEY> <VALUE> — 키가 필요합니다."@
                }
            } else {
                r matches Err(m) && m@ == "알 수 없는 config 서브커맨드: "@ + sub
            }
        },
{
    if args.len() == 0 {
        return Err(owned("config <show|get|set> ... 형식으로 호출하세요."));
    }
    let sub = args[0].as_str();
    if str_eq(sub, "show") {
        Ok(ConfigCommand::Show)
    } else if str_eq(sub, "get") {
        if args.len() > 1 {
            Ok(ConfigCommand::Get { key: args[1].clone() })
        } else {
            Err(owned("config get <KEY> — 점 경로 키가 필요합니다."))
        }
    } else if str_eq(sub, "set") {
        if args.len() > 2 {
            Ok(ConfigCommand::Update { key: args[1].clone(), value: args[2].clone() })
        } else if args.len() > 1 {
            Err(owned("config set <KEY> <VALUE> — 값이 필요합니다."))
        } else {
            Err(owned("config set <KEY> <VALUE> — 키가 필요합니다."))
        }
    } else {
        Err(err_with("알 수 없는 config 서브커맨드: ", sub))
    }
}

/// `s` without its trailing carriage returns and line feeds.
pub open spec fn trim_line_ends(s: Seq<char>) -> Seq<char>
    decreases s.len(),
{
    if s.len() > 0 && (s.last() == '\r' || s.last() == '\n') {
        trim_line_ends(s.drop_last())
    } else {
        s
    }
}

/// The text to translate: the argument (or what stdin gave), without
/// trailing line breaks; missing and empty texts are errors.
pub fn resolve_text(text: Option<String>) -> (r: Result<String, String>)
    ensures
        match text {
            None => r matches Err(m) && m@ == "번역할 텍스트가 필요합니다. (텍스트 인자 또는 --stdin)"@,
            Some(t) => if trim_line_ends(t@).len() == 0 {
                r matches Err(m) && m@ == "빈 텍스트는 번역할 수 없습니다."@
            } else {
                r matches Ok(s) && s@ == trim_line_ends(t@)
            },
        },
{
    let t = match text {
        Some(t) => t,
        None => {
            return Err(owned("번역할 텍스트가 필요합니다. (텍스트 인자 또는 --stdin)"));
        },
    };
    let (s, n) = strip_line_ends(t.as_str());
    if n == 0 {
        return Err(owned("빈 텍스트는 번역할 수 없습니다."));
    }
    Ok(s)
}

/// `t` without its trailing line breaks, and its length in characters.
pub fn strip_line_ends(t: &str) -> (r: (String, usize))
    ensures
        r.0@ == trim_line_ends(t@),
        r.1 == r.0@.len(),
{
    let v = chars_of(t);
    let mut end = v.len();
    assert(v@.take(v@.len() as int) =~= v@);
    while end > 0 && (v[end - 1] == '\r' || v[end - 1] == '\n')
        invariant
            end <= v@.len(),
            v@ == t@,
            trim_line_ends(t@) == trim_line_ends(v@.take(end as int)),
        decreases end,
    {
        assert(v@.take(end as int).drop_last() =~= v@.take(end - 1));
        end = end - 1;
    }
    assert(trim_line_ends(v@.take(end as int)) == v@.take(end as int));
    (crate::text::string_from_chars(&v, 0, end), end)
}

/// `config set-secret` takes the credential keys other than the DeepL key
/// list.
pub fn check_secret_key(key: &str) -> (r: Result<(), String>)
    ensures
        r is Ok <==> (sensitive_key(key@) && key@ != "translation.deepl_keys"@),
        r matches Err(m) ==> m@ == "set-secret으로 설정할 수 없는 키입니다: "@ + key@,
{
    if !is_sensitive_key(key) || str_eq(key, "translation.deepl_keys") {
        return Err(err_with("set-secret으로 설정할 수 없는 키입니다: ", key));
    }
    Ok(())
}

/// `config set` refuses credential keys: secrets must not stand in the
/// process arguments.
pub fn check_plain_key(key: &str) -> (r: Result<(), String>)
    ensures
        r is Ok <==> !sensitive_key(key@),
        r matches Err(m) ==> m@
            == "비밀값은 명령행 인자에 둘 수 없습니다. `config set-secret <key>`를 사용하세요."@,
{
    if is_sensitive_key(key) {
        return Err(
            owned("비밀값은 명령행 인자에 둘 수 없습니다. `config set-secret <key>`를 사용하세요."),
        );
    }
    Ok(())
}

/// `config get` shows a credential as the mask unless asked to reveal it.
pub fn masks_value(key: &str, reveal: bool) -> (r: bool)
    ensures
        r == (sensitive_key(key@) && !reveal),
{
    is_sensitive_key(key) && !reveal
}

/// A secret as typed at the prompt, or as read from stdin (`piped`), where
/// trailing line breaks are dropped; an empty secret is refused.
pub fn accept_secret(raw: &str, piped: bool) -> (r: Result<String, String>)
    ensures
        ({
            let s = if piped {
                trim_line_ends(raw@)
            } else {
                raw@
            };
            &&& s.len() == 0 ==> (r matches Err(m) && m@ == "빈 비밀값은 저장하지 않습니다."@)
            &&& s.len() > 0 ==> (r matches Ok(t) && t@ == s)
        }),
{
    let (s, n) = if piped {
        strip_line_ends(raw)
    } else {
        let v = chars_of(raw);
        (owned(raw), v.len())
    };
    if n == 0 {
        return Err(owned("빈 비밀값은 저장하지 않습니다."));
    }
    Ok(s)
}

/// `--reveal-secrets` or `--reveal-secret`.
pub open spec fn reveal_flag(a: Seq<char>) -> bool {
    a == "--reveal-secrets"@ || a == "--reveal-secret"@
}

/// The `config` arguments without the reveal flags, and whether one was given
/// (anywhere among them).
pub fn split_reveal_flags(args: &Vec<String>) -> (r: (bool, Vec<String>))
    ensures
        r.0 == exists|i: int| 0 <= i < args@.len() && reveal_flag(#[trigger] args@[i]@),
        views(r.1@) == views(args@).filter(|a: Seq<char>| !reveal_flag(a)),
{
    let ghost src = views(args@);
    let ghost pred = |a: Seq<char>| !reveal_flag(a);
    let mut shown = false;
    let mut rest: Vec<String> = Vec::new();
    let mut i: usize = 0;
    proof {
        assert(src.take(0) =~= Seq::<Seq<char>>::empty());
        reveal_with_fuel(Seq::<Seq<char>>::filter, 1);
    }
    while i < args.len()
        invariant
            src == views(args@),
            i <= args@.len(),
            pred == (|a: Seq<char>| !reveal_flag(a)),
            views(rest@) == src.take(i as int).filter(pred),
            shown == exists|k: int| 0 <= k < i && reveal_flag(#[trigger] args@[k]@),
        decreases args@.len() - i,
    {
        assert(args@[i as int]@ == src[i as int]);
        proof {
            assert(src.take(i + 1).drop_last() =~= src.take(i as int));
            reveal_with_fuel(Seq::<Seq<char>>::filter, 1);
        }
        if str_eq(args[i].as_str(), "--reveal-secrets") || str_eq(args[i].as_str(), "--reveal-secret") {
            shown = true;
        } else {
            let a = owned(args[i].as_str());
            rest.push(a);
            assert(views(rest@) =~= views(rest@).drop_last().push(a@));
        }
        i = i + 1;
    }
    assert(src.take(args@.len() as int) =~= src);
    (shown, rest)
}

/// What an engine needs to sign its requests.
#[derive(Debug, Clone, PartialEq, Eq)]
pub enum EngineCredentials {
    /// The engine needs no key.
    NoKey,
    /// The DeepL keys to use, and how to spread requests over them.
    DeepL { keys: Vec<String>, strategy: DeepLStrategy },
    Papago { client_id: String, client_secret: String },
    /// The LLM settings carry the key.
    Llm,
}

/// Whether `engine` lacks a key it needs: DeepL without any effective key,
/// Papago without its client id or secret, the LLM without its API key.
pub open spec fn missing_key(engine: TranslationEngine, t: TranslationConfig) -> bool {
    match engine {
        TranslationEngine::DeepL => effective_keys(
            t.deepl_keys@.map_values(|k: String| k@),
            t.deepl_api_key@,
        ).len() == 0,
        TranslationEngine::Papago => t.papago_client_id@.len() == 0
            || t.papago_client_secret@.len() == 0,
        TranslationEngine::Llm => t.llm.api_key@.len() == 0,
        _ => false,
    }
}

/// The message for a missing key of `engine`.
pub open spec fn missing_key_message(engine: TranslationEngine) -> Seq<char> {
    match engine {
        TranslationEngine::DeepL => "DeepL API 키가 설정되지 않았습니다. config set translation.deepl_api_key <KEY>"@,
        TranslationEngine::Papago => "Papago client_id/client_secret 가 설정되지 않았습니다."@,
        _ => "LLM api_key 가 설정되지 않았습니다."@,
    }
}

/// The credentials a command-line translation with `engine` signs with; an
/// error when a needed key is not configured. EzTrans and Google need none,
/// nor do the translation server and the custom APIs, whose keys are
/// optional parts of their own settings.
pub fn build_credentials(engine: TranslationEngine, config: &Config) -> (r: Result<
    EngineCredentials,
    String,
>)
    ensures
        missing_key(engine, config.translation) ==> (r matches Err(m) && m@ == missing_key_message(
            engine,
        )),
        !missing_key(engine, config.translation) ==> match engine {
            TranslationEngine::DeepL => r matches Ok(EngineCredentials::DeepL { keys, strategy })
                && keys@.map_values(|k: String| k@) == effective_keys(
                config.translation.deepl_keys@.map_values(|k: String| k@),
                config.translation.deepl_api_key@,
            ) && strategy == config.translation.deepl_strategy_spec(),
            TranslationEngine::Papago => r matches Ok(
                EngineCredentials::Papago { client_id, client_secret },
            ) && client_id@ == config.translation.papago_client_id@ && client_secret@
                == config.translation.papago_client_secret@,
            TranslationEngine::Llm => r == Ok::<EngineCredentials, String>(EngineCredentials::Llm),
            _ => r == Ok::<EngineCredentials, String>(EngineCredentials::NoKey),
        },
{
    let t = &config.translation;
    match engine {
        TranslationEngine::DeepL => {
            let keys = t.deepl_effective_keys();
            if keys.len() == 0 {
                return Err(
                    owned(
                        "DeepL API 키가 설정되지 않았습니다. config set translation.deepl_api_key <KEY>",
                    ),
                );
            }
            Ok(EngineCredentials::DeepL { keys, strategy: t.deepl_strategy() })
        },
        TranslationEngine::Papago => {
            if chars_of(t.papago_client_id.as_str()).len() == 0 || chars_of(
                t.papago_client_secret.as_str(),
            ).len() == 0 {
                return Err(owned("Papago client_id/client_secret 가 설정되지 않았습니다."));
            }
            Ok(
                EngineCredentials::Papago {
                    client_id: owned(t.papago_client_id.as_str()),
                    client_secret: owned(t.papago_client_secret.as_str()),
                },
            )
        },
        TranslationEngine::Llm => {
            if chars_of(t.llm.api_key.as_str()).len() == 0 {
                return Err(owned("LLM api_key 가 설정되지 않았습니다."));
            }
            Ok(EngineCredentials::Llm)
        },
        _ => Ok(EngineCredentials::NoKey),
    }
}

} // verus!
