//! The Layout Tools and Open command lines. Each reads the arguments its
//! binary was given, without the program name; the caller supplies them.
use vstd::prelude::*;

use crate::arrange::{arrangement_named, Arrangement};
use crate::label::opt_view;
use crate::layout::string_views;
use crate::text::{blank, is_blank, owned, push_str, same_text};

verus! {

/// Command, positional words, and the pane and tab flags.
pub struct WordsModel {
    pub command: Option<Seq<char>>,
    pub positional: Seq<Seq<char>>,
    pub pane: Option<Seq<char>>,
    pub tab: Option<Seq<char>>,
    pub git_root: bool,
}

pub open spec fn words_start() -> WordsModel {
    WordsModel { command: None, positional: seq![], pane: None, tab: None, git_root: false }
}

/// The word after position `i`, consumed by a flag that takes a value.
pub open spec fn value_after(a: Seq<Seq<char>>, i: int) -> Option<Seq<char>> {
    if i + 1 < a.len() { Some(a[i + 1]) } else { None }
}

pub open spec fn index_after(a: Seq<Seq<char>>, i: int) -> int {
    if i + 1 < a.len() { i + 2 } else { i + 1 }
}

/// The rest of a word taken as the command or a positional word.
pub open spec fn take_word(m: WordsModel, w: Seq<char>) -> WordsModel {
    if m.command is None {
        WordsModel { command: Some(w), ..m }
    } else {
        WordsModel { positional: m.positional.push(w), ..m }
    }
}

/// Layout Tools: `--pane` and `--tab` take a value; the first other word is
/// the command.
pub open spec fn tool_words(a: Seq<Seq<char>>, i: int, m: WordsModel) -> WordsModel
    decreases a.len() - i,
{
    if i < 0 || i >= a.len() {
        m
    } else if a[i] == "--pane"@ {
        tool_words(a, index_after(a, i), WordsModel { pane: value_after(a, i), ..m })
    } else if a[i] == "--tab"@ {
        tool_words(a, index_after(a, i), WordsModel { tab: value_after(a, i), ..m })
    } else {
        tool_words(a, i + 1, take_word(m, a[i]))
    }
}

/// Open: `--pane` takes a value and `--git-root` is a switch.
pub open spec fn open_words(a: Seq<Seq<char>>, i: int, m: WordsModel) -> WordsModel
    decreases a.len() - i,
{
    if i < 0 || i >= a.len() {
        m
    } else if a[i] == "--pane"@ {
        open_words(a, index_after(a, i), WordsModel { pane: value_after(a, i), ..m })
    } else if a[i] == "--git-root"@ {
        open_words(a, i + 1, WordsModel { git_root: true, ..m })
    } else {
        open_words(a, i + 1, take_word(m, a[i]))
    }
}

/// A parsed command line; with no command word the picker runs.
#[derive(Debug)]
pub struct Words {
    pub command: String,
    pub positional: Vec<String>,
    pub pane: Option<String>,
    pub tab: Option<String>,
    pub git_root: bool,
}

impl Words {
    pub open spec fn model(&self) -> WordsModel {
        WordsModel {
            command: Some(self.command@),
            positional: string_views(self.positional@),
            pane: opt_view(self.pane),
            tab: opt_view(self.tab),
            git_root: self.git_root,
        }
    }
}

/// The words read in full, with `ui` standing in for a missing command.
pub open spec fn finished(m: WordsModel) -> WordsModel {
    WordsModel {
        command: Some(
            match m.command {
                Some(c) => c,
                None => "ui"@,
            },
        ),
        ..m
    }
}

fn value_at(args: &[String], i: usize) -> (r: Option<String>)
    requires
        i < args@.len(),
    ensures
        opt_view(r) == value_after(string_views(args@), i as int),
{
    if args.len() - i > 1 {
        Some(args[i + 1].clone())
    } else {
        None
    }
}

fn take(command: &mut Option<String>, positional: &mut Vec<String>, word: &String)
    ensures
        ({
            let before = WordsModel {
                command: opt_view(*old(command)),
                positional: string_views(old(positional)@),
                pane: None,
                tab: None,
                git_root: false,
            };
            let after = take_word(before, word@);
            &&& opt_view(*final(command)) == after.command
            &&& string_views(final(positional)@) == after.positional
        }),
{
    if command.is_none() {
        *command = Some(word.clone());
    } else {
        let ghost p = positional@;
        positional.push(word.clone());
        proof {
            assert(string_views(positional@) =~= string_views(p).push(word@));
        }
    }
}

impl Words {
    /// Read a Layout Tools command line.
    pub fn tool_args(args: &[String]) -> (r: Words)
        ensures
            r.model() == finished(tool_words(string_views(args@), 0, words_start())),
            !r.git_root,
    {
        let ghost a = string_views(args@);
        let mut command: Option<String> = None;
        let mut positional: Vec<String> = Vec::new();
        let mut pane: Option<String> = None;
        let mut tab: Option<String> = None;
        let mut i: usize = 0;
        proof {
            assert(string_views(positional@) =~= Seq::<Seq<char>>::empty());
        }
        while i < args.len()
            invariant
                a == string_views(args@),
                i <= args@.len(),
                tool_words(a, 0, words_start()) == tool_words(a, i as int, WordsModel {
                    command: opt_view(command),
                    positional: string_views(positional@),
                    pane: opt_view(pane),
                    tab: opt_view(tab),
                    git_root: false,
                }),
            decreases args@.len() - i,
        {
            let arg = args[i].as_str();
            assert(a[i as int] == arg@);
            if same_text(arg, "--pane") {
                pane = value_at(args, i);
                i = if args.len() - i > 1 { i + 2 } else { i + 1 };
            } else if same_text(arg, "--tab") {
                tab = value_at(args, i);
                i = if args.len() - i > 1 { i + 2 } else { i + 1 };
            } else {
                take(&mut command, &mut positional, &args[i]);
                i = i + 1;
            }
        }
        let command = match command {
            Some(c) => c,
            None => owned("ui"),
        };
        Words { command, positional, pane, tab, git_root: false }
    }

    /// Read an Open command line.
    pub fn open_args(args: &[String]) -> (r: Words)
        ensures
            r.model() == finished(open_words(string_views(args@), 0, words_start())),
            r.tab is None,
    {
        let ghost a = string_views(args@);
        let mut command: Option<String> = None;
        let mut positional: Vec<String> = Vec::new();
        let mut pane: Option<String> = None;
        let mut git_root = false;
        let mut i: usize = 0;
        proof {
            assert(string_views(positional@) =~= Seq::<Seq<char>>::empty());
        }
        while i < args.len()
            invariant
                a == string_views(args@),
                i <= args@.len(),
                open_words(a, 0, words_start()) == open_words(a, i as int, WordsModel {
                    command: opt_view(command),
                    positional: string_views(positional@),
                    pane: opt_view(pane),
                    tab: None,
                    git_root,
                }),
            decreases args@.len() - i,
        {
            let arg = args[i].as_str();
            assert(a[i as int] == arg@);
            if same_text(arg, "--pane") {
                pane = value_at(args, i);
                i = if args.len() - i > 1 { i + 2 } else { i + 1 };
            } else if same_text(arg, "--git-root") {
                git_root = true;
                i = i + 1;
            } else {
                take(&mut command, &mut positional, &args[i]);
                i = i + 1;
            }
        }
        let command = match command {
            Some(c) => c,
            None => owned("ui"),
        };
        Words { command, positional, pane, tab: None, git_root }
    }
}

/// The arrangement an `arrange` command names, or why there is none.
pub open spec fn arrangement_arg_of(positional: Seq<Seq<char>>) -> Result<Arrangement, Seq<char>> {
    if positional.len() == 0 {
        Err("arrange needs a layout name"@)
    } else {
        match arrangement_named(positional[0]) {
            Some(x) => Ok(x),
            None => Err("unknown layout `"@ + positional[0] + "`"@),
        }
    }
}

/// The arrangement named by the first positional word of `arrange`.
pub fn arrangement_arg(positional: &[String]) -> (r: Result<Arrangement, String>)
    ensures
        match arrangement_arg_of(string_views(positional@)) {
            Ok(x) => r == Ok::<Arrangement, String>(x),
            Err(e) => r is Err && r->Err_0@ == e,
        },
{
    if positional.len() == 0 {
        return Err(owned("arrange needs a layout name"));
    }
    let raw = positional[0].as_str();
    match Arrangement::parse(raw) {
        Some(x) => Ok(x),
        None => {
            let mut msg = owned("unknown layout `");
            push_str(&mut msg, raw);
            push_str(&mut msg, "`");
            Err(msg)
        },
    }
}

/// The pane Open acts on when one is named: `--pane`, else the one the
/// launcher handed on, unless what is there is blank.
pub open spec fn named_pane(flag: Option<Seq<char>>, launcher: Option<Seq<char>>) -> Option<Seq<char>> {
    let picked = match flag {
        Some(f) => Some(f),
        None => launcher,
    };
    match picked {
        Some(p) => if blank(p) { None } else { Some(p) },
        None => None,
    }
}

/// The pane Open was asked to act on; `launcher` is `OPEN_SOURCE_PANE`.
pub fn explicit_pane(flag: Option<&str>, launcher: Option<&str>) -> (r: Option<String>)
    ensures
        opt_view(r) == named_pane(
            match flag { Some(f) => Some(f@), None => None },
            match launcher { Some(l) => Some(l@), None => None },
        ),
{
    let picked = match flag {
        Some(f) => Some(f),
        None => launcher,
    };
    match picked {
        Some(p) => if is_blank(p) { None } else { Some(owned(p)) },
        None => None,
    }
}

/// The Navigator's scope argument: the word after the command, falling back
/// to Panes when it is missing or unknown.
pub fn scope_arg(args: &[String]) -> (r: crate::navigator::Scope)
    ensures
        r == (if args@.len() > 1 {
            match crate::navigator::scope_named(args@[1]@) {
                Some(s) => s,
                None => crate::navigator::Scope::Panes,
            }
        } else {
            crate::navigator::Scope::Panes
        }),
{
    if args.len() > 1 {
        match crate::navigator::Scope::parse(args[1].as_str()) {
            Some(s) => s,
            None => crate::navigator::Scope::Panes,
        }
    } else {
        crate::navigator::Scope::Panes
    }
}

} // verus!
