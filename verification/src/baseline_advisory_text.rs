//! The advisory a review surface states for each loaded baseline that earned
//! one: what went stale, in the same words the job summary uses, and a remedy
//! that names the run rather than any one way of saving a baseline.
use vstd::prelude::*;
use crate::text::{char_uppercase, chars_of, decimal, join_strings, join_with, push_decimal, push_str, str_eq, string_views_of, uppercase_of};

verus! {

/// What a baseline's staleness object says, member by member.
pub struct BaselineStaleness {
    pub warning: Option<String>,
    pub gate_trips: Option<bool>,
    pub baseline_entries: Option<u64>,
    pub stale_entries: Option<u64>,
    pub unrecognised_format: Option<bool>,
    pub saved_by: Option<String>,
}

/// `value` with its first character uppercased, the rest left alone.
pub open spec fn capitalized(value: Seq<char>) -> Seq<char> {
    if value.len() == 0 {
        Seq::empty()
    } else {
        char_uppercase(value[0]) + value.drop_first()
    }
}

/// Uppercase the first character, leaving the rest alone, so `dead-code`
/// reads as `Dead-code`.
pub fn capitalize(value: &str) -> (r: String)
    ensures
        r@ == capitalized(value@),
{
    let v = chars_of(value);
    if v.len() == 0 {
        return String::new();
    }
    let mut r = uppercase_of(v[0]);
    let ghost head = r@;
    let mut i: usize = 1;
    while i < v.len()
        invariant
            1 <= i <= v@.len(),
            r@ == head + v@.subrange(1, i as int),
        decreases v@.len() - i,
    {
        r.push(v[i]);
        i = i + 1;
        assert(r@ =~= head + v@.subrange(1, i as int));
    }
    assert(v@.subrange(1, v@.len() as int) =~= v@.drop_first());
    r
}

/// What a sentence calls the baseline it is about: `Baseline` on a
/// single-analysis envelope, `<Analysis> baseline` on a multi-section one.
pub open spec fn subject_text(analysis: Option<Seq<char>>) -> Seq<char> {
    match analysis {
        None => "Baseline"@,
        Some(a) => capitalized(a) + " baseline"@,
    }
}

/// What a sentence calls the baseline it is about.
pub fn subject(analysis: Option<&str>) -> (r: String)
    ensures
        r@ == subject_text(match analysis {
            Some(a) => Some(a@),
            None => None,
        }),
{
    match analysis {
        None => {
            let mut r = String::new();
            push_str(&mut r, "Baseline");
            assert(r@ =~= "Baseline"@);
            r
        },
        Some(a) => {
            let mut r = capitalize(a);
            push_str(&mut r, " baseline");
            r
        },
    }
}

/// A command-shaped token: non-empty, lowercase ASCII letters and `-` only.
pub open spec fn command_token(s: Seq<char>) -> bool {
    s.len() > 0 && forall|i: int| 0 <= i < s.len() ==> (('a' <= #[trigger] s[i] && s[i] <= 'z') || s[i] == '-')
}

/// The command that saved a foreign baseline, when `saved_by` names one; any
/// other text renders nothing, so no unexpected text is quoted into markdown.
pub open spec fn saved_by_text(s: BaselineStaleness) -> Option<Seq<char>> {
    match s.saved_by {
        Some(t) => if command_token(t@) {
            Some(t@)
        } else {
            None
        },
        None => None,
    }
}

fn is_command_token(t: &str) -> (r: bool)
    ensures
        r == command_token(t@),
{
    let v = chars_of(t);
    if v.len() == 0 {
        return false;
    }
    let mut i: usize = 0;
    while i < v.len()
        invariant
            i <= v@.len(),
            v@ == t@,
            forall|k: int| 0 <= k < i ==> (('a' <= #[trigger] v@[k] && v@[k] <= 'z') || v@[k] == '-'),
        decreases v@.len() - i,
    {
        let c = v[i];
        if !(('a' <= c && c <= 'z') || c == '-') {
            return false;
        }
        i = i + 1;
    }
    true
}

/// The one sentence a loaded baseline earns, if any: a foreign or empty file
/// first, then a partially stale or entirely unmatched baseline, then stale
/// entries the staleness rule counted; otherwise nothing.
pub open spec fn advisory_text(s: BaselineStaleness, analysis: Option<Seq<char>>) -> Option<Seq<char>> {
    let subject = subject_text(analysis);
    let entries = decimal(match s.baseline_entries { Some(n) => n as nat, None => 0 });
    let stale = decimal(match s.stale_entries { Some(n) => n as nat, None => 0 });
    let warning = match s.warning { Some(w) => w@, None => "none"@ };
    if s.unrecognised_format == Some(true) {
        match saved_by_text(s) {
            Some(writer) => Some(
                "**"@ + subject + " recognises nothing.** `fallow "@ + writer
                    + "` saved this baseline, so this command reads nothing from it and it suppresses nothing."@,
            ),
            None => Some(
                "**"@ + subject
                    + " recognises nothing.** The baseline has no entries this command recognises. It may be a baseline saved by another command, or an empty file. Either way it suppresses nothing."@,
            ),
        }
    } else if warning == "partial"@ {
        Some(
            "**"@ + subject + " is partially stale.** "@ + stale + " of "@ + entries
                + " saved entries matched nothing this run, so the baseline protects less than what was saved. Re-save it from a whole-project run."@,
        )
    } else if warning == "zero-overlap"@ {
        Some(
            "**"@ + subject + " matched nothing.** All "@ + entries
                + " saved entries went unmatched. Paths may have changed, or the baseline was saved elsewhere. Re-save it from a whole-project run."@,
        )
    } else if s.gate_trips == Some(true) {
        Some(
            "**"@ + subject + " has stale entries.** "@ + stale + " of "@ + entries
                + " saved entries matched nothing this run. The project may be clean, or the baseline may no longer describe it."@,
        )
    } else {
        None
    }
}

/// The sentence one loaded baseline earns, if any; `analysis` names its
/// section on a multi-section envelope.
pub fn advisory_sentence(s: &BaselineStaleness, analysis: Option<&str>) -> (r: Option<String>)
    ensures
        match r {
            Some(m) => advisory_text(*s, match analysis { Some(a) => Some(a@), None => None }) == Some(m@),
            None => advisory_text(*s, match analysis { Some(a) => Some(a@), None => None }) is None,
        },
{
    let subject = subject(analysis);
    let entries: u64 = match s.baseline_entries { Some(n) => n, None => 0 };
    let stale: u64 = match s.stale_entries { Some(n) => n, None => 0 };
    let unrecognised = match s.unrecognised_format { Some(b) => b, None => false };
    if unrecognised {
        let mut m = String::new();
        push_str(&mut m, "**");
        push_str(&mut m, subject.as_str());
        let writer = match &s.saved_by {
            Some(t) => if is_command_token(t.as_str()) { Some(t) } else { None },
            None => None,
        };
        match writer {
            Some(w) => {
                push_str(&mut m, " recognises nothing.** `fallow ");
                push_str(&mut m, w.as_str());
                push_str(&mut m, "` saved this baseline, so this command reads nothing from it and it suppresses nothing.");
            },
            None => {
                push_str(
                    &mut m,
                    " recognises nothing.** The baseline has no entries this command recognises. It may be a baseline saved by another command, or an empty file. Either way it suppresses nothing.",
                );
            },
        }
        return Some(m);
    }
    let partial = match &s.warning { Some(w) => str_eq(w.as_str(), "partial"), None => false };
    let zero = match &s.warning { Some(w) => str_eq(w.as_str(), "zero-overlap"), None => false };
    proof {
        reveal_strlit("none");
        reveal_strlit("partial");
        reveal_strlit("zero-overlap");
        assert("none"@ != "partial"@) by { assert("none"@[0] != "partial"@[0]); }
        assert("none"@ != "zero-overlap"@) by { assert("none"@[0] != "zero-overlap"@[0]); }
    }
    let trips = match s.gate_trips { Some(b) => b, None => false };
    if partial {
        let mut m = String::new();
        push_str(&mut m, "**");
        push_str(&mut m, subject.as_str());
        push_str(&mut m, " is partially stale.** ");
        push_decimal(&mut m, stale);
        push_str(&mut m, " of ");
        push_decimal(&mut m, entries);
        push_str(&mut m, " saved entries matched nothing this run, so the baseline protects less than what was saved. Re-save it from a whole-project run.");
        Some(m)
    } else if zero {
        let mut m = String::new();
        push_str(&mut m, "**");
        push_str(&mut m, subject.as_str());
        push_str(&mut m, " matched nothing.** All ");
        push_decimal(&mut m, entries);
        push_str(&mut m, " saved entries went unmatched. Paths may have changed, or the baseline was saved elsewhere. Re-save it from a whole-project run.");
        Some(m)
    } else if trips {
        let mut m = String::new();
        push_str(&mut m, "**");
        push_str(&mut m, subject.as_str());
        push_str(&mut m, " has stale entries.** ");
        push_decimal(&mut m, stale);
        push_str(&mut m, " of ");
        push_decimal(&mut m, entries);
        push_str(&mut m, " saved entries matched nothing this run. The project may be clean, or the baseline may no longer describe it.");
        Some(m)
    } else {
        None
    }
}

/// One loaded baseline and the section it belongs to, if the envelope has
/// several.
pub struct BaselineSite {
    pub staleness: BaselineStaleness,
    pub analysis: Option<String>,
}

/// The sentences the sites earn, in order.
pub open spec fn site_sentences(sites: Seq<BaselineSite>) -> Seq<Seq<char>>
    decreases sites.len(),
{
    if sites.len() == 0 {
        Seq::empty()
    } else {
        let last = sites.last();
        match advisory_text(last.staleness, match last.analysis { Some(a) => Some(a@), None => None }) {
            Some(s) => site_sentences(sites.drop_last()).push(s),
            None => site_sentences(sites.drop_last()),
        }
    }
}

/// The saved envelope's advisory line: every earned sentence, joined by a
/// space, or `None` when no site earned one.
pub open spec fn saved_line(sites: Seq<BaselineSite>) -> Option<Seq<char>> {
    if site_sentences(sites).len() == 0 {
        None
    } else {
        Some(join_with(site_sentences(sites), " "@))
    }
}

/// A live run's advisory line for the staleness object it holds, if any.
pub open spec fn live_line(staleness: Option<BaselineStaleness>) -> Option<Seq<char>> {
    match staleness {
        None => None,
        Some(s) => advisory_text(s, None),
    }
}

/// The text of an optional string.
pub open spec fn line_text(r: Option<String>) -> Option<Seq<char>> {
    match r {
        Some(m) => Some(m@),
        None => None,
    }
}

/// The advisory for every loaded baseline that earned one, one sentence per
/// site, or `None` when none did.
pub fn advisory_line(sites: &Vec<BaselineSite>) -> (r: Option<String>)
    ensures
        line_text(r) == saved_line(sites@),
{
    let ghost ss = sites@;
    let mut sentences: Vec<String> = Vec::new();
    let mut i: usize = 0;
    assert(ss.take(0) =~= Seq::<BaselineSite>::empty());
    while i < sites.len()
        invariant
            ss == sites@,
            i <= ss.len(),
            string_views_of(sentences@) == site_sentences(ss.take(i as int)),
        decreases ss.len() - i,
    {
        let ghost t = ss.take(i as int + 1);
        proof {
            assert(t.drop_last() =~= ss.take(i as int));
            assert(t.last() == ss[i as int]);
        }
        let site = &sites[i];
        let analysis = match &site.analysis {
            Some(a) => Some(a.as_str()),
            None => None,
        };
        if let Some(m) = advisory_sentence(&site.staleness, analysis) {
            sentences.push(m);
        }
        assert(string_views_of(sentences@) =~= site_sentences(t));
        i = i + 1;
    }
    assert(ss.take(ss.len() as int) =~= ss);
    if sentences.len() == 0 {
        return None;
    }
    Some(join_strings(&sentences, " "))
}

/// The advisory for a live run that holds one staleness object: the same
/// sentence the saved envelope's unlabelled root site earns.
pub fn advisory_line_for_staleness(staleness: Option<&BaselineStaleness>) -> (r: Option<String>)
    ensures
        line_text(r) == live_line(
            match staleness {
                Some(s) => Some(*s),
                None => None,
            },
        ),
{
    match staleness {
        None => None,
        Some(s) => advisory_sentence(s, None),
    }
}

/// The live and the saved path render one baseline alike, whatever its
/// staleness: the saved line of an envelope whose only site is that
/// baseline, unlabelled, is the live line for it; and a live run without a
/// baseline says nothing.
pub proof fn law_live_and_saved_advisories_agree(s: BaselineStaleness)
    ensures
        live_line(Some(s)) == saved_line(seq![BaselineSite { staleness: s, analysis: None }]),
        live_line(None) is None,
{
    let site = BaselineSite { staleness: s, analysis: None };
    let q = seq![site];
    assert(q.len() == 1);
    assert(q.drop_last() =~= Seq::<BaselineSite>::empty());
    assert(q.last() == site);
    assert(site_sentences(Seq::<BaselineSite>::empty()) == Seq::<Seq<char>>::empty());
    match advisory_text(s, None) {
        Some(t) => {
            assert(site_sentences(q) == site_sentences(q.drop_last()).push(t));
            assert(site_sentences(q) =~= seq![t]);
            assert(join_with(seq![t], " "@) == seq![t][0]);
        },
        None => {
            assert(site_sentences(q) == site_sentences(q.drop_last()));
        },
    }
}

} // verus!
