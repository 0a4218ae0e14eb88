//! Undoing the last Move / Extract / Merge / Swap.
//!
//! The record says where the moved panes were, so the same restore that ends
//! a Gather puts them back. Swap is its own inverse and records only the two
//! panes. One level deep: the record is spent by the undo.
use vstd::prelude::*;

use crate::ops::Verb;
use crate::place::Origin;
use crate::text::{owned, push_str};

verus! {

/// How to reverse the operation that was just performed.
#[derive(Debug)]
pub struct Record {
    /// What was done, for the message shown when offering the undo.
    pub verb: String,
    /// What it acted on, e.g. the pane or tab name.
    pub subject: String,
    /// Where the moved panes were beforehand.
    pub origins: Vec<Origin>,
    /// For Swap: the two panes, which only need swapping back.
    pub swap: Option<(String, String)>,
    /// Tabs the operation created, so an undo can clear away what is left.
    pub created_tabs: Vec<String>,
    pub unix_ms: u64,
}

pub open spec fn describe_spec(verb: Seq<char>, subject: Seq<char>) -> Seq<char> {
    if subject.len() == 0 {
        verb
    } else {
        verb + " "@ + subject
    }
}

impl Record {
    /// A short description of what undoing this would do.
    pub fn describe(&self) -> (r: String)
        ensures
            r@ == describe_spec(self.verb@, self.subject@),
    {
        if self.subject.as_str().unicode_len() == 0 {
            proof {
                assert(self.subject@.len() == 0);
            }
            self.verb.clone()
        } else {
            let mut out = self.verb.clone();
            push_str(&mut out, " ");
            push_str(&mut out, self.subject.as_str());
            out
        }
    }

    /// Whether there is anything to reverse. A record with neither origins
    /// nor a swap is not offered.
    pub fn offered(&self) -> (r: bool)
        ensures
            r == (self.origins@.len() > 0 || self.swap is Some),
    {
        self.origins.len() > 0 || self.swap.is_some()
    }
}

/// Build the record for an operation that is about to run, from where its
/// panes are now and the time. Swap is its own inverse, so a swap record
/// keeps no origins.
pub fn capture(verb: Verb, subject: &str, origins: Vec<Origin>, swap: Option<(String, String)>, unix_ms: u64) -> (r: Record)
    ensures
        r.verb@ == crate::ops::verb_label(verb),
        r.subject@ == subject@,
        swap is Some ==> r.origins@.len() == 0,
        swap is None ==> r.origins@ == origins@,
        r.swap == swap,
        r.created_tabs@.len() == 0,
        r.unix_ms == unix_ms,
{
    let kept = match &swap {
        Some(_) => Vec::new(),
        None => origins,
    };
    Record {
        verb: owned(verb.label()),
        subject: owned(subject),
        origins: kept,
        swap,
        created_tabs: Vec::new(),
        unix_ms,
    }
}

pub open spec fn gone_message(pane: Seq<char>) -> Seq<char> {
    "\""@ + pane + "\" is gone, so that swap cannot be undone."@
}

/// Whether a recorded swap can be reversed, given the tab each of its two
/// panes is in now (`None` when the pane could not be read).
pub fn swap_undo_check(a: &str, b: &str, tab_a: Option<&str>, tab_b: Option<&str>) -> (r: Result<(), String>)
    ensures
        tab_a is None ==> r is Err && r->Err_0@ == gone_message(a@),
        tab_a is Some && tab_b is None ==> r is Err && r->Err_0@ == gone_message(b@),
        tab_a is Some && tab_b is Some && tab_a->0@ != tab_b->0@ ==> r is Err && r->Err_0@
            == "Those panes are no longer in the same tab, so the swap cannot be undone."@,
        tab_a is Some && tab_b is Some && tab_a->0@ == tab_b->0@ ==> r is Ok,
{
    let ta = match tab_a {
        Some(t) => t,
        None => {
            let mut msg = owned("\"");
            push_str(&mut msg, a);
            push_str(&mut msg, "\" is gone, so that swap cannot be undone.");
            return Err(msg);
        },
    };
    let tb = match tab_b {
        Some(t) => t,
        None => {
            let mut msg = owned("\"");
            push_str(&mut msg, b);
            push_str(&mut msg, "\" is gone, so that swap cannot be undone.");
            return Err(msg);
        },
    };
    if !crate::text::same_text(ta, tb) {
        return Err(owned("Those panes are no longer in the same tab, so the swap cannot be undone."));
    }
    Ok(())
}

/// The headline an undo reports.
pub fn undid(record: &Record) -> (r: String)
    ensures
        r@ == "Undid "@ + describe_spec(record.verb@, record.subject@),
{
    let mut out = owned("Undid ");
    let d = record.describe();
    push_str(&mut out, d.as_str());
    out
}

/// First origin at or after `i` that was focused.
pub open spec fn focused_origin_from(o: Seq<Origin>, i: int) -> Option<int>
    decreases o.len() - i,
{
    if 0 <= i < o.len() {
        if o[i].focused {
            Some(i)
        } else {
            focused_origin_from(o, i + 1)
        }
    } else {
        None
    }
}

/// The pane that had focus before the operation, to give it focus back.
pub fn focused_origin(origins: &Vec<Origin>) -> (r: Option<&Origin>)
    ensures
        match focused_origin_from(origins@, 0) {
            Some(k) => r == Some(&origins@[k]),
            None => r is None,
        },
{
    let mut i: usize = 0;
    while i < origins.len()
        invariant
            i <= origins@.len(),
            focused_origin_from(origins@, 0) == focused_origin_from(origins@, i as int),
        decreases origins@.len() - i,
    {
        if origins[i].focused {
            return Some(&origins[i]);
        }
        i = i + 1;
    }
    None
}

pub open spec fn emptied(tabs: Seq<Seq<char>>, counts: Seq<Option<u32>>) -> Seq<Seq<char>>
    decreases tabs.len(),
{
    if tabs.len() == 0 || counts.len() != tabs.len() {
        seq![]
    } else if counts.last() == Some(0u32) {
        emptied(tabs.drop_last(), counts.drop_last()).push(tabs.last())
    } else {
        emptied(tabs.drop_last(), counts.drop_last())
    }
}

/// The created tabs to close once their panes have gone home: those that
/// still exist and now hold no pane. `counts[i]` is the pane count read for
/// `created[i]`, `None` when the tab could not be read.
pub fn tabs_to_close(created: &Vec<String>, counts: &Vec<Option<u32>>) -> (r: Vec<String>)
    requires
        created@.len() == counts@.len(),
    ensures
        crate::layout::string_views(r@) == emptied(crate::layout::string_views(created@), counts@),
{
    let ghost t = crate::layout::string_views(created@);
    let mut out: Vec<String> = Vec::new();
    let mut i: usize = 0;
    while i < created.len()
        invariant
            i <= created@.len(),
            created@.len() == counts@.len(),
            t == crate::layout::string_views(created@),
            crate::layout::string_views(out@) == emptied(t.take(i as int), counts@.take(i as int)),
        decreases created@.len() - i,
    {
        proof {
            assert(t.take(i + 1).drop_last() =~= t.take(i as int));
            assert(counts@.take(i + 1).drop_last() =~= counts@.take(i as int));
        }
        if counts[i] == Some(0u32) {
            let ghost prev = out@;
            out.push(created[i].clone());
            proof {
                assert(crate::layout::string_views(out@) =~= crate::layout::string_views(prev).push(created@[i as int]@));
            }
        }
        i = i + 1;
    }
    proof {
        assert(t.take(t.len() as int) =~= t);
        assert(counts@.take(counts@.len() as int) =~= counts@);
    }
    out
}

} // verus!
