//! The Open plugin: which directory a pane means, and the command lines that
//! open it.
//!
//! A target is a command line with `{dir}`, `{name}` and `{parent}` in it.
//! Whether a program is installed, what `HOME` is and what git reports are
//! read by the caller and handed in.
use vstd::prelude::*;

use crate::label::opt_view;
use crate::layout::string_views;
use crate::menu::{replace, replace_all, Menu};
use crate::model::Pane;
use crate::term::Row;
use crate::text::{blank, concat, is_blank, owned, push_str, trim};

verus! {

/// The Open plugin's id.
pub const PLUGIN_ID: &'static str = "open";

// ---------------------------------------------------------------------------
// Directories
// ---------------------------------------------------------------------------

/// The directory a pane is working in: the foreground program's when it
/// reports one, else the shell's.
pub open spec fn pane_dir_of(p: Pane) -> Option<Seq<char>> {
    let fg = match p.foreground_cwd {
        Some(s) => if blank(s@) { None } else { Some(s@) },
        None => None,
    };
    let raw = match fg {
        Some(x) => Some(x),
        None => match p.cwd {
            Some(s) => Some(s@),
            None => None,
        },
    };
    match raw {
        Some(x) => if blank(x) { None } else { Some(x) },
        None => None,
    }
}

/// The directory a pane is working in. A pane that reports none is an
/// error, not a guess.
pub fn pane_dir(pane: &Pane) -> (r: Result<String, String>)
    ensures
        match pane_dir_of(*pane) {
            Some(d) => r is Ok && r->Ok_0@ == d,
            None => r is Err && r->Err_0@ == "Herdr does not report a working directory for this pane"@,
        },
{
    let fg = match &pane.foreground_cwd {
        Some(s) => if is_blank(s.as_str()) { None } else { Some(s.clone()) },
        None => None,
    };
    let raw = match fg {
        Some(x) => Some(x),
        None => match &pane.cwd {
            Some(s) => Some(s.clone()),
            None => None,
        },
    };
    match raw {
        Some(x) => {
            if is_blank(x.as_str()) {
                Err(owned("Herdr does not report a working directory for this pane"))
            } else {
                Ok(x)
            }
        },
        None => Err(owned("Herdr does not report a working directory for this pane")),
    }
}

/// The repository root git printed for `dir`, when it is a root other than
/// `dir` itself: offering the same path twice would be noise. `output` is
/// what `git rev-parse --show-toplevel` wrote, when it succeeded.
pub fn git_root_from(output: Option<&str>, dir: &str) -> (r: Option<String>)
    ensures
        match output {
            Some(o) => {
                let root = trim(o@);
                if root != dir@ && root.len() > 0 { r is Some && r->0@ == root } else { r is None }
            },
            None => r is None,
        },
{
    match output {
        Some(o) => {
            let root = crate::text::trimmed(o);
            if !crate::text::same_text(root.as_str(), dir) && crate::text::chars_of(root.as_str()).len() > 0 {
                Some(root)
            } else {
                None
            }
        },
        None => None,
    }
}

pub open spec fn tilde_of(path: Seq<char>, home: Option<Seq<char>>) -> Seq<char> {
    match home {
        Some(h) => if h.len() > 0 && h.len() <= path.len() && path.take(h.len() as int) == h {
            seq!['~'] + path.skip(h.len() as int)
        } else {
            path
        },
        None => path,
    }
}

/// A path written the way a person writes it: the home directory as `~`.
/// `home` is the value of `HOME`, when it is set.
pub fn tilde(path: &str, home: Option<&str>) -> (r: String)
    ensures
        r@ == tilde_of(path@, match home { Some(h) => Some(h@), None => None }),
{
    let h = match home {
        Some(h) => h,
        None => return owned(path),
    };
    let p = crate::text::chars_of(path);
    let hs = crate::text::chars_of(h);
    if hs.len() == 0 || hs.len() > p.len() {
        return owned(path);
    }
    let mut i: usize = 0;
    while i < hs.len()
        invariant
            p@ == path@,
            hs@ == h@,
            home == Some(h),
            hs@.len() > 0,
            hs@.len() <= p@.len(),
            i <= hs@.len(),
            forall|k: int| 0 <= k < i ==> p@[k] == hs@[k],
        decreases hs@.len() - i,
    {
        if p[i] != hs[i] {
            proof {
                assert(path@.take(h@.len() as int)[i as int] != h@[i as int]);
                assert(path@.take(h@.len() as int) != h@);
            }
            return owned(path);
        }
        i = i + 1;
    }
    proof {
        assert(path@.take(h@.len() as int) =~= h@);
    }
    let mut out = String::new();
    crate::text::push_char(&mut out, '~');
    let rest = crate::text::string_of_range(&p, hs.len(), p.len());
    push_str(&mut out, rest.as_str());
    proof {
        assert(p@.subrange(hs@.len() as int, p@.len() as int) =~= path@.skip(h@.len() as int));
        assert(out@ =~= seq!['~'] + path@.skip(h@.len() as int));
    }
    out
}

// ---------------------------------------------------------------------------
// Paths, through std
// ---------------------------------------------------------------------------

/// What `Path::file_name` gives for a path, as text.
pub uninterp spec fn file_name_of(p: Seq<char>) -> Option<Seq<char>>;

/// Calls `std::path::Path::file_name`; the contract names the result for
/// the path given and states nothing of std's path grammar.
#[verifier::external_body]
fn path_file_name(p: &str) -> (r: Option<String>)
    ensures
        opt_view(r) == file_name_of(p@),
{
    match std::path::Path::new(p).file_name() {
        Some(n) => Some(n.to_string_lossy().into_owned()),
        None => None,
    }
}

/// What `Path::parent` gives for a path, as text.
pub uninterp spec fn parent_of(p: Seq<char>) -> Option<Seq<char>>;

/// Calls `std::path::Path::parent`; the contract names the result for the
/// path given and states nothing of std's path grammar.
#[verifier::external_body]
fn path_parent(p: &str) -> (r: Option<String>)
    ensures
        opt_view(r) == parent_of(p@),
{
    match std::path::Path::new(p).parent() {
        Some(q) => Some(q.display().to_string()),
        None => None,
    }
}

// ---------------------------------------------------------------------------
// Targets
// ---------------------------------------------------------------------------

/// One entry in the picker: a title and the command line behind it.
#[derive(Debug, Clone, PartialEq, Eq)]
pub struct Target {
    /// Stable name used on the command line and by the manifest actions.
    pub id: String,
    pub title: String,
    /// argv, with `{dir}`, `{name}` and `{parent}` filled in per run.
    pub command: Vec<String>,
    /// Single character that picks this row in the menu.
    pub hotkey: Option<String>,
    pub description: Option<String>,
    /// Program whose presence decides whether the target is offered;
    /// defaults to the first word of `command`.
    pub requires: Option<String>,
}

fn copy_opt(o: &Option<String>) -> (r: Option<String>)
    ensures
        r == *o,
{
    match o {
        Some(s) => Some(s.clone()),
        None => None,
    }
}

/// The program a target needs: `requires`, else the command's first word,
/// unless that is blank.
pub open spec fn required_of(t: Target) -> Option<Seq<char>> {
    let raw = match t.requires {
        Some(r) => Some(r@),
        None => if t.command@.len() > 0 { Some(t.command@[0]@) } else { None },
    };
    match raw {
        Some(x) => if blank(x) { None } else { Some(x) },
        None => None,
    }
}

/// Every placeholder of a command word filled in.
pub open spec fn filled(part: Seq<char>, dir: Seq<char>, name: Seq<char>, parent: Seq<char>) -> Seq<char> {
    replace_all(replace_all(replace_all(part, "{dir}"@, dir), "{name}"@, name), "{parent}"@, parent)
}

/// The name and parent a directory contributes: its last component and what
/// contains it, each falling back to the whole path.
pub open spec fn name_for(dir: Seq<char>) -> Seq<char> {
    match file_name_of(dir) {
        Some(n) => n,
        None => dir,
    }
}

pub open spec fn parent_for(dir: Seq<char>) -> Seq<char> {
    match parent_of(dir) {
        Some(p) => p,
        None => dir,
    }
}

/// Two targets that say the same thing.
pub open spec fn same_target(a: Target, b: Target) -> bool {
    &&& a.id@ == b.id@
    &&& a.title@ == b.title@
    &&& string_views(a.command@) == string_views(b.command@)
    &&& opt_view(a.hotkey) == opt_view(b.hotkey)
    &&& opt_view(a.description) == opt_view(b.description)
    &&& opt_view(a.requires) == opt_view(b.requires)
}

impl Target {
    /// An exact copy.
    pub fn duplicate(&self) -> (r: Target)
        ensures
            same_target(r, *self),
    {
        Target {
            id: self.id.clone(),
            title: self.title.clone(),
            command: crate::place::copy_strings(self.command.as_slice()),
            hotkey: copy_opt(&self.hotkey),
            description: copy_opt(&self.description),
            requires: copy_opt(&self.requires),
        }
    }

    /// The program whose presence decides whether this target is offered.
    pub fn required_program(&self) -> (r: Option<&str>)
        ensures
            match required_of(*self) {
                Some(x) => r is Some && r->0@ == x,
                None => r is None,
            },
    {
        let raw: Option<&str> = match &self.requires {
            Some(r) => Some(r.as_str()),
            None => if self.command.len() > 0 { Some(self.command[0].as_str()) } else { None },
        };
        match raw {
            Some(x) => if is_blank(x) { None } else { Some(x) },
            None => None,
        }
    }

    /// The command line for `dir`, placeholders filled in. The path travels
    /// as its own argument, so it is never read as shell syntax.
    pub fn argv(&self, dir: &str) -> (r: Vec<String>)
        ensures
            string_views(r@) == string_views(self.command@).map_values(
                |part: Seq<char>| filled(part, dir@, name_for(dir@), parent_for(dir@)),
            ),
    {
        let name = match path_file_name(dir) {
            Some(n) => n,
            None => owned(dir),
        };
        let parent = match path_parent(dir) {
            Some(p) => p,
            None => owned(dir),
        };
        let ghost f = |part: Seq<char>| filled(part, dir@, name_for(dir@), parent_for(dir@));
        let mut out: Vec<String> = Vec::new();
        let mut i: usize = 0;
        while i < self.command.len()
            invariant
                i <= self.command@.len(),
                name@ == name_for(dir@),
                parent@ == parent_for(dir@),
                f == |part: Seq<char>| filled(part, dir@, name_for(dir@), parent_for(dir@)),
                string_views(out@) == string_views(self.command@).take(i as int).map_values(f),
            decreases self.command@.len() - i,
        {
            let a = replace(self.command[i].as_str(), "{dir}", dir);
            let b = replace(a.as_str(), "{name}", name.as_str());
            let c = replace(b.as_str(), "{parent}", parent.as_str());
            let ghost prev = out@;
            out.push(c);
            proof {
                assert(string_views(out@) =~= string_views(prev).push(f(self.command@[i as int]@)));
                assert(string_views(self.command@).take(i + 1).map_values(f)
                    =~= string_views(self.command@).take(i as int).map_values(f).push(f(self.command@[i as int]@)));
            }
            i = i + 1;
        }
        proof {
            assert(string_views(self.command@).take(self.command@.len() as int) =~= string_views(self.command@));
        }
        out
    }
}

fn strings(parts: &[&str]) -> (r: Vec<String>)
    ensures
        r@.len() == parts@.len(),
        forall|i: int| 0 <= i < parts@.len() ==> (#[trigger] r@[i])@ == parts@[i]@,
{
    let mut out: Vec<String> = Vec::new();
    let mut i: usize = 0;
    while i < parts.len()
        invariant
            i <= parts@.len(),
            out@.len() == i,
            forall|k: int| 0 <= k < i ==> (#[trigger] out@[k])@ == parts@[k]@,
        decreases parts@.len() - i,
    {
        out.push(owned(parts[i]));
        i = i + 1;
    }
    out
}

fn target(id: &str, title: &str, hotkey: &str, command: &[&str]) -> (r: Target)
    ensures
        r.id@ == id@,
        r.title@ == title@,
        r.command@.len() == command@.len(),
        forall|i: int| 0 <= i < command@.len() ==> (#[trigger] r.command@[i])@ == command@[i]@,
        r.hotkey is Some && r.hotkey->0@ == hotkey@,
        r.description is None,
        r.requires is None,
{
    Target {
        id: owned(id),
        title: owned(title),
        command: strings(command),
        hotkey: Some(owned(hotkey)),
        description: None,
        requires: None,
    }
}

/// The clipboard script for a clipboard program: the path arrives as `$1`.
pub open spec fn clipboard_script(clipboard: Seq<char>) -> Seq<char> {
    if clipboard == "xclip"@ {
        "printf %s \"$1\" | xclip -selection clipboard"@
    } else if clipboard == "xsel"@ {
        "printf %s \"$1\" | xsel --clipboard --input"@
    } else {
        "printf %s \"$1\" | "@ + clipboard
    }
}

/// The clipboard target for clipboard program `c`.
pub open spec fn is_copy_target(t: Target, c: Seq<char>) -> bool {
    &&& t.id@ == "copy-path"@
    &&& t.title@ == "Copy Path"@
    &&& string_views(t.command@) == seq!["sh"@, "-c"@, clipboard_script(c), "sh"@, "{dir}"@]
    &&& t.hotkey is Some && t.hotkey->0@ == "c"@
    &&& t.description is None
    &&& t.requires is Some && t.requires->0@ == c
}

/// The built-in list: file manager, editor, and the clipboard target when
/// there is a clipboard program.
pub open spec fn is_builtin(r: Seq<Target>, macos: bool, clipboard: Option<Seq<char>>) -> bool {
    &&& r.len() == if clipboard is Some { 3nat } else { 2nat }
    &&& r[0].id@ == "finder"@
    &&& r[0].title@ == if macos { "Reveal in Finder"@ } else { "Open in File Manager"@ }
    &&& string_views(r[0].command@) == seq![if macos { "open"@ } else { "xdg-open"@ }, "{dir}"@]
    &&& r[0].hotkey is Some && r[0].hotkey->0@ == "f"@
    &&& r[0].description is None && r[0].requires is None
    &&& r[1].id@ == "editor"@
    &&& r[1].title@ == "Open in VS Code"@
    &&& string_views(r[1].command@) == seq!["code"@, "{dir}"@]
    &&& r[1].hotkey is Some && r[1].hotkey->0@ == "e"@
    &&& r[1].description is None && r[1].requires is None
    &&& clipboard matches Some(c) ==> is_copy_target(r[2], c)
}

/// Put the path on the system clipboard through `clipboard`, when there is
/// one. The pipeline goes through `sh -c` with the path passed as `$1`
/// rather than written into the script.
pub fn copy_target(clipboard: Option<&str>) -> (r: Option<Target>)
    ensures
        match clipboard {
            Some(c) => r matches Some(t) && is_copy_target(t, c@),
            None => r is None,
        },
{
    let c = match clipboard {
        Some(c) => c,
        None => return None,
    };
    let script = if crate::text::same_text(c, "xclip") {
        owned("printf %s \"$1\" | xclip -selection clipboard")
    } else if crate::text::same_text(c, "xsel") {
        owned("printf %s \"$1\" | xsel --clipboard --input")
    } else {
        concat("printf %s \"$1\" | ", c)
    };
    let command = vec![owned("sh"), owned("-c"), script, owned("sh"), owned("{dir}")];
    proof {
        assert(string_views(command@) =~= seq!["sh"@, "-c"@, clipboard_script(c@), "sh"@, "{dir}"@]);
    }
    Some(Target {
        id: owned("copy-path"),
        title: owned("Copy Path"),
        command,
        hotkey: Some(owned("c")),
        description: None,
        requires: Some(owned(c)),
    })
}

/// The clipboard program to use: `pbcopy` on macOS, else the first of
/// `wl-copy`, `xclip`, `xsel` that is installed. `installed[i]` says whether
/// the i-th of those three is on `PATH`.
pub fn clipboard_for(macos: bool, installed: [bool; 3]) -> (r: Option<&'static str>)
    ensures
        macos ==> r is Some && r->0@ == "pbcopy"@,
        !macos && installed[0] ==> r is Some && r->0@ == "wl-copy"@,
        !macos && !installed[0] && installed[1] ==> r is Some && r->0@ == "xclip"@,
        !macos && !installed[0] && !installed[1] && installed[2] ==> r is Some && r->0@ == "xsel"@,
        !macos && !installed[0] && !installed[1] && !installed[2] ==> r is None,
{
    if macos {
        Some("pbcopy")
    } else if installed[0] {
        Some("wl-copy")
    } else if installed[1] {
        Some("xclip")
    } else if installed[2] {
        Some("xsel")
    } else {
        None
    }
}

/// The list someone gets before they have configured anything: the file
/// manager, the editor, and the path as text when a clipboard exists.
pub fn builtin(macos: bool, clipboard: Option<&str>) -> (r: Vec<Target>)
    ensures
        is_builtin(r@, macos, match clipboard { Some(c) => Some(c@), None => None }),
{
    let file_manager = if macos {
        target("finder", "Reveal in Finder", "f", &["open", "{dir}"])
    } else {
        target("finder", "Open in File Manager", "f", &["xdg-open", "{dir}"])
    };
    let editor = target("editor", "Open in VS Code", "e", &["code", "{dir}"]);
    proof {
        assert(string_views(file_manager.command@) =~= seq![if macos { "open"@ } else { "xdg-open"@ }, "{dir}"@]);
        assert(string_views(editor.command@) =~= seq!["code"@, "{dir}"@]);
    }
    let mut targets = vec![file_manager, editor];
    match copy_target(clipboard) {
        Some(copy) => targets.push(copy),
        None => {},
    }
    targets
}

/// The Open plugin's settings.
#[derive(Debug, PartialEq, Eq)]
pub struct Config {
    /// Start on the repository root rather than the pane's own directory,
    /// when the pane is inside a repository.
    pub prefer_git_root: bool,
    /// Replaces the built-in list entirely when present.
    pub target: Vec<Target>,
}

pub open spec fn ids_of(targets: Seq<Target>) -> Seq<Seq<char>> {
    targets.map_values(|t: Target| t.id@)
}

/// First target at or after `i` with id `id`.
pub open spec fn target_from(targets: Seq<Target>, id: Seq<char>, i: int) -> Option<int>
    decreases targets.len() - i,
{
    if 0 <= i < targets.len() {
        if targets[i].id@ == id {
            Some(i)
        } else {
            target_from(targets, id, i + 1)
        }
    } else {
        None
    }
}

pub open spec fn available_upto(targets: Seq<Target>, installed: Seq<bool>, n: int) -> Seq<Target>
    decreases n,
{
    if n <= 0 {
        seq![]
    } else if installed[n - 1] {
        available_upto(targets, installed, n - 1).push(targets[n - 1])
    } else {
        available_upto(targets, installed, n - 1)
    }
}

impl Config {
    /// Settings with nothing configured: the built-in targets.
    pub fn with_builtin(macos: bool, clipboard: Option<&str>) -> (r: Config)
        ensures
            !r.prefer_git_root,
            is_builtin(r.target@, macos, match clipboard { Some(c) => Some(c@), None => None }),
    {
        Config { prefer_git_root: false, target: builtin(macos, clipboard) }
    }

    /// Targets that can actually run here, in configured order.
    /// `installed[i]` says whether the i-th target's program is installed.
    pub fn available(&self, installed: &[bool]) -> (r: Vec<Target>)
        requires
            installed@.len() == self.target@.len(),
        ensures
            r@.len() == available_upto(self.target@, installed@, self.target@.len() as int).len(),
            forall|k: int| 0 <= k < r@.len() ==> same_target(#[trigger] r@[k],
                available_upto(self.target@, installed@, self.target@.len() as int)[k]),
    {
        let mut out: Vec<Target> = Vec::new();
        let mut i: usize = 0;
        while i < self.target.len()
            invariant
                installed@.len() == self.target@.len(),
                i <= self.target@.len(),
                out@.len() == available_upto(self.target@, installed@, i as int).len(),
                forall|k: int| 0 <= k < out@.len() ==> same_target(#[trigger] out@[k],
                    available_upto(self.target@, installed@, i as int)[k]),
            decreases self.target@.len() - i,
        {
            if installed[i] {
                out.push(self.target[i].duplicate());
            }
            i = i + 1;
        }
        out
    }

    /// A target by id, whether or not it is installed, with the reason when
    /// it cannot be used. `installed` is as for [`Config::available`].
    pub fn find(&self, id: &str, installed: &[bool]) -> (r: Result<&Target, String>)
        requires
            installed@.len() == self.target@.len(),
        ensures
            match target_from(self.target@, id@, 0) {
                None => r is Err && r->Err_0@ == "no target called `"@ + id@ + "`. Configured: "@
                    + crate::ops::joined(ids_of(self.target@), ", "@),
                Some(k) => if installed@[k] {
                    r == Ok::<&Target, String>(&self.target@[k])
                } else {
                    r is Err && r->Err_0@ == "`"@ + self.target@[k].id@ + "` needs `"@
                        + match required_of(self.target@[k]) { Some(p) => p, None => "?"@ }
                        + "`, which is not on PATH"@
                },
            },
    {
        let mut i: usize = 0;
        while i < self.target.len()
            invariant
                i <= self.target@.len(),
                installed@.len() == self.target@.len(),
                target_from(self.target@, id@, 0) == target_from(self.target@, id@, i as int),
            decreases self.target@.len() - i,
        {
            if crate::text::same_text(self.target[i].id.as_str(), id) {
                let t = &self.target[i];
                if installed[i] {
                    return Ok(t);
                }
                let mut msg = owned("`");
                push_str(&mut msg, t.id.as_str());
                push_str(&mut msg, "` needs `");
                match t.required_program() {
                    Some(p) => push_str(&mut msg, p),
                    None => push_str(&mut msg, "?"),
                }
                push_str(&mut msg, "`, which is not on PATH");
                return Err(msg);
            }
            i = i + 1;
        }
        let mut ids: Vec<String> = Vec::new();
        let mut k: usize = 0;
        while k < self.target.len()
            invariant
                k <= self.target@.len(),
                string_views(ids@) == ids_of(self.target@).take(k as int),
            decreases self.target@.len() - k,
        {
            let ghost prev = ids@;
            ids.push(self.target[k].id.clone());
            proof {
                assert(string_views(ids@) =~= string_views(prev).push(self.target@[k as int].id@));
                assert(ids_of(self.target@).take(k + 1) =~= ids_of(self.target@).take(k as int).push(self.target@[k as int].id@));
            }
            k = k + 1;
        }
        proof {
            assert(ids_of(self.target@).take(self.target@.len() as int) =~= ids_of(self.target@));
        }
        let mut msg = owned("no target called `");
        push_str(&mut msg, id);
        push_str(&mut msg, "`. Configured: ");
        let list = crate::ops::join(&ids, ", ");
        push_str(&mut msg, list.as_str());
        Err(msg)
    }
}

// ---------------------------------------------------------------------------
// The menu
// ---------------------------------------------------------------------------

/// The key line: `g` is only advertised when there is a git root to switch
/// to. This menu takes no query, so `q` closes it.
pub open spec fn footer_text(has_root: bool) -> Seq<char> {
    if has_root {
        "↑↓ move · Enter open · g git root · q / Esc cancel"@
    } else {
        "↑↓ move · Enter open · q / Esc cancel"@
    }
}

pub fn footer(has_root: bool) -> (r: &'static str)
    ensures
        r@ == footer_text(has_root),
{
    if has_root {
        "↑↓ move · Enter open · g git root · q / Esc cancel"
    } else {
        "↑↓ move · Enter open · q / Esc cancel"
    }
}

/// The directory the rows act on: the repository root while it is chosen
/// and exists, else the pane's own directory.
pub fn chosen_dir(cwd: &str, root: Option<&str>, using_root: bool) -> (r: String)
    ensures
        r@ == match root {
            Some(x) => if using_root { x@ } else { cwd@ },
            None => cwd@,
        },
{
    match root {
        Some(x) => if using_root { owned(x) } else { owned(cwd) },
        None => owned(cwd),
    }
}

/// The Open menu for `chosen`: one row per target that can run, then a note
/// naming the pane. `home` is the value of `HOME`.
pub fn build(
    pane: &Pane,
    targets: &[Target],
    chosen: &str,
    has_root: bool,
    using_root: bool,
    home: Option<&str>,
) -> (r: Menu<Target>)
    ensures
        r.wf(),
        r.screen.title@ == "Open"@,
        r.screen.subtitle is Some && r.screen.subtitle->0@ == tilde_of(chosen@, match home { Some(h) => Some(h@), None => None })
            + if using_root { " · repository root"@ } else { seq![] },
        r.screen.footer is Some && r.screen.footer->0@ == footer_text(has_root),
        r.values@.len() == targets@.len() + 2,
        forall|i: int| 0 <= i < targets@.len() ==> (#[trigger] r.values@[i]) is Some && same_target(r.values@[i]->0, targets@[i]),
        forall|i: int| 0 <= i < targets@.len() ==> (#[trigger] r.screen.rows@[i]).primary == targets@[i].title,
        r.values@[targets@.len() as int] is None,
        r.values@[targets@.len() + 1int] is None,
        r.screen.rows@[targets@.len() + 1int].primary@ == "from "@ + crate::label::compact_of(*pane),
{
    let mut subtitle = tilde(chosen, home);
    if using_root {
        push_str(&mut subtitle, " · repository root");
    }
    let mut menu: Menu<Target> = Menu::new("Open").subtitle(subtitle.as_str()).footer(footer(has_root));
    let mut i: usize = 0;
    while i < targets.len()
        invariant
            i <= targets@.len(),
            menu.wf(),
            menu.screen.title@ == "Open"@,
            menu.screen.subtitle is Some && menu.screen.subtitle->0@ == subtitle@,
            menu.screen.footer is Some && menu.screen.footer->0@ == footer_text(has_root),
            menu.values@.len() == i,
            forall|k: int| 0 <= k < i ==> (#[trigger] menu.values@[k]) is Some && same_target(menu.values@[k]->0, targets@[k]),
            forall|k: int| 0 <= k < i ==> (#[trigger] menu.screen.rows@[k]).primary == targets@[k].title,
        decreases targets@.len() - i,
    {
        let t = &targets[i];
        let mut row = Row::item(t.title.as_str());
        match &t.hotkey {
            Some(h) => row = row.hotkey(h.as_str()),
            None => {},
        }
        match &t.description {
            Some(d) => row = row.secondary(d.as_str()),
            None => {},
        }
        row.primary = t.title.clone();
        menu.item(row, t.duplicate());
        i = i + 1;
    }
    menu.row(Row::separator());
    let mut note = owned("from ");
    let name = crate::label::pane_compact(pane);
    push_str(&mut note, name.as_str());
    menu.row(Row::note(note.as_str()));
    menu
}

} // verus!
