//! Metric labels: what a client or the upstream says is reduced to values that
//! are safe to print and few enough to count.
use vstd::hash_set::StringHashSet;
use vstd::prelude::*;

use crate::text::{chars_of, str_eq};

verus! {

/// Distinct model labels that are kept; later ones are counted together.
pub const MODEL_LABEL_CAP: usize = 256;

/// The longest label.
pub const LABEL_LEN_CAP: usize = 64;

/// A character that is inert in metric exposition, logs and terminals.
pub open spec fn safe_char(c: char) -> bool {
    ||| 'a' <= c <= 'z'
    ||| 'A' <= c <= 'Z'
    ||| '0' <= c <= '9'
    ||| c == '.'
    ||| c == '_'
    ||| c == '-'
    ||| c == '/'
    ||| c == ':'
}

/// The safe characters of a text, in order.
pub open spec fn safe_chars(s: Seq<char>) -> Seq<char>
    decreases s.len(),
{
    if s.len() == 0 {
        s
    } else if safe_char(s.last()) {
        safe_chars(s.drop_last()).push(s.last())
    } else {
        safe_chars(s.drop_last())
    }
}

/// `s` cut to at most `n` characters.
pub open spec fn cut_to(s: Seq<char>, n: int) -> Seq<char> {
    if s.len() <= n {
        s
    } else {
        s.take(n)
    }
}

/// The label of a text: its first safe characters, or `none`.
pub open spec fn sanitized(s: Seq<char>) -> Seq<char> {
    let kept = cut_to(safe_chars(s), LABEL_LEN_CAP as int);
    if kept.len() == 0 {
        "none"@
    } else {
        kept
    }
}

/// The paths that are labelled by name.
pub open spec fn known_path(path: Seq<char>) -> bool {
    ||| path == "/v1/chat/completions"@
    ||| path == "/v1/completions"@
    ||| path == "/v1/embeddings"@
    ||| path == "/v1/models"@
    ||| path == "/v1/rankings"@
}

/// The label of a request path.
pub open spec fn path_label(path: Seq<char>) -> Seq<char> {
    if known_path(path) {
        path
    } else {
        "other"@
    }
}

/// The ways of finishing that are labelled by name.
pub open spec fn known_finish(raw: Seq<char>) -> bool {
    ||| raw == "stop"@
    ||| raw == "length"@
    ||| raw == "tool_calls"@
    ||| raw == "content_filter"@
    ||| raw == "function_call"@
}

/// The label of a finish reason.
pub open spec fn finish_reason_label(raw: Seq<char>) -> Seq<char> {
    if known_finish(raw) {
        raw
    } else {
        "other"@
    }
}

fn is_safe_char(c: char) -> (r: bool)
    ensures
        r == safe_char(c),
{
    ('a' <= c && c <= 'z') || ('A' <= c && c <= 'Z') || ('0' <= c && c <= '9') || c == '.' || c
        == '_' || c == '-' || c == '/' || c == ':'
}

/// Reduces an arbitrary text to a safe label: a conservative set of characters
/// (which model names use), everything else dropped, and the length capped.
pub fn sanitize_label(raw: &str) -> (r: String)
    ensures
        r@ == sanitized(raw@),
{
    let chars = chars_of(raw);
    let mut out = String::new();
    let mut n: usize = 0;
    let mut i: usize = 0;
    assert(chars@.take(0) =~= Seq::empty());
    while i < chars.len()
        invariant
            i <= chars@.len(),
            n == out@.len(),
            out@ == cut_to(safe_chars(chars@.take(i as int)), LABEL_LEN_CAP as int),
            n <= LABEL_LEN_CAP,
            n < LABEL_LEN_CAP ==> out@ == safe_chars(chars@.take(i as int)),
        decreases chars.len() - i,
    {
        let c = chars[i];
        assert(chars@.take(i + 1).drop_last() =~= chars@.take(i as int));
        let ghost before = safe_chars(chars@.take(i as int));
        if is_safe_char(c) {
            if n < LABEL_LEN_CAP {
                out.push(c);
                n += 1;
            } else {
                assert(cut_to(before.push(c), LABEL_LEN_CAP as int) =~= cut_to(
                    before,
                    LABEL_LEN_CAP as int,
                ));
            }
        }
        i += 1;
    }
    assert(chars@.take(i as int) =~= raw@);
    if n == 0 {
        "none".to_owned()
    } else {
        out
    }
}

/// The labels that have been given out.
pub struct LabelSet {
    labels: StringHashSet,
}

impl View for LabelSet {
    type V = Set<Seq<char>>;

    closed spec fn view(&self) -> Set<Seq<char>> {
        self.labels@
    }
}

impl LabelSet {
    /// Finitely many labels have been given out.
    pub open spec fn wf(&self) -> bool {
        self@.finite()
    }

    pub fn new() -> (r: LabelSet)
        ensures
            r.wf(),
            r@ == Set::<Seq<char>>::empty(),
    {
        LabelSet { labels: StringHashSet::new() }
    }

    /// Whether the label has been given out.
    pub fn contains(&self, label: &str) -> (r: bool)
        ensures
            r == self@.contains(label@),
    {
        self.labels.contains(label)
    }

    /// Adds a label.
    pub fn insert(&mut self, label: String)
        requires
            old(self).wf(),
        ensures
            final(self).wf(),
            final(self)@ == old(self)@.insert(label@),
    {
        self.labels.insert(label);
    }

    /// How many labels have been given out.
    pub fn len(&self) -> (r: usize)
        requires
            self.wf(),
        ensures
            r == self@.len(),
    {
        self.labels.len()
    }
}

/// The label given for `s`, and the labels given out after it.
pub open spec fn bounded(seen: Set<Seq<char>>, s: Seq<char>, cap: nat) -> (
    Seq<char>,
    Set<Seq<char>>,
) {
    if seen.contains(s) {
        (s, seen)
    } else if seen.len() < cap {
        (s, seen.insert(s))
    } else {
        ("other"@, seen)
    }
}

/// Gives `s` as a label if it was given before or there is room under `cap`
/// (and records it), else `other`.
pub fn bounded_label(seen: &mut LabelSet, s: String, cap: usize) -> (r: String)
    requires
        old(seen).wf(),
    ensures
        final(seen).wf(),
        (r@, final(seen)@) == bounded(old(seen)@, s@, cap as nat),
{
    if seen.contains(s.as_str()) {
        s
    } else if seen.len() < cap {
        seen.insert(s.clone());
        s
    } else {
        "other".to_owned()
    }
}

/// The label of a model name: made safe, and bounded in number.
pub fn label_model(seen: &mut LabelSet, raw: &str) -> (r: String)
    requires
        old(seen).wf(),
    ensures
        final(seen).wf(),
        (r@, final(seen)@) == bounded(old(seen)@, sanitized(raw@), MODEL_LABEL_CAP as nat),
{
    bounded_label(seen, sanitize_label(raw), MODEL_LABEL_CAP)
}

/// The label of a request path: a known endpoint, or `other`.
pub fn label_path(path: &str) -> (r: String)
    ensures
        r@ == path_label(path@),
{
    if str_eq(path, "/v1/chat/completions") || str_eq(path, "/v1/completions") || str_eq(
        path,
        "/v1/embeddings",
    ) || str_eq(path, "/v1/models") || str_eq(path, "/v1/rankings") {
        path.to_owned()
    } else {
        "other".to_owned()
    }
}

/// The label of a finish reason: a known one, or `other`.
pub fn finish_label(raw: &str) -> (r: String)
    ensures
        r@ == finish_reason_label(raw@),
{
    if str_eq(raw, "stop") || str_eq(raw, "length") || str_eq(raw, "tool_calls") || str_eq(
        raw,
        "content_filter",
    ) || str_eq(raw, "function_call") {
        raw.to_owned()
    } else {
        "other".to_owned()
    }
}

// ---------------------------------------------------------------------------
// Laws
// ---------------------------------------------------------------------------
proof fn safe_chars_are_safe(s: Seq<char>)
    ensures
        forall|i: int| 0 <= i < safe_chars(s).len() ==> safe_char(#[trigger] safe_chars(s)[i]),
    decreases s.len(),
{
    if s.len() > 0 {
        safe_chars_are_safe(s.drop_last());
        let rest = safe_chars(s.drop_last());
        assert forall|i: int| 0 <= i < safe_chars(s).len() implies safe_char(
            #[trigger] safe_chars(s)[i],
        ) by {
            if i < rest.len() {
                assert(safe_char(rest[i]));
                assert(safe_chars(s)[i] == rest[i]);
            }
        }
    }
}

/// A label is never empty, never long, and made of safe characters only.
pub proof fn labels_are_safe(raw: Seq<char>)
    ensures
        0 < sanitized(raw).len() <= LABEL_LEN_CAP,
        forall|i: int| 0 <= i < sanitized(raw).len() ==> safe_char(#[trigger] sanitized(raw)[i]),
{
    safe_chars_are_safe(raw);
    reveal_strlit("none");
}

proof fn all_safe_is_kept(s: Seq<char>)
    requires
        forall|i: int| 0 <= i < s.len() ==> safe_char(#[trigger] s[i]),
    ensures
        safe_chars(s) == s,
    decreases s.len(),
{
    if s.len() > 0 {
        assert(safe_char(s[s.len() - 1]));
        assert(forall|i: int| 0 <= i < s.drop_last().len() ==> s.drop_last()[i] == s[i]);
        all_safe_is_kept(s.drop_last());
        assert(s.drop_last().push(s.last()) =~= s);
    }
}

/// Making a label safe twice is making it safe once.
pub proof fn a_safe_label_stays(raw: Seq<char>)
    ensures
        sanitized(sanitized(raw)) == sanitized(raw),
{
    labels_are_safe(raw);
    all_safe_is_kept(sanitized(raw));
}

/// However many labels are asked for, no more than `cap` are kept, none that
/// was kept is lost, and what is given is a kept label or `other`.
pub proof fn labels_stay_few(seen: Set<Seq<char>>, s: Seq<char>, cap: nat)
    requires
        seen.finite(),
        seen.len() <= cap,
    ensures
        bounded(seen, s, cap).1.finite(),
        bounded(seen, s, cap).1.len() <= cap,
        seen.subset_of(bounded(seen, s, cap).1),
        bounded(seen, s, cap).1.contains(bounded(seen, s, cap).0) || bounded(seen, s, cap).0
            == "other"@,
        bounded(bounded(seen, s, cap).1, s, cap) == bounded(seen, s, cap),
{
}

/// A character that stays in a label, by its code point: a letter, a digit, or
/// one of `.` `_` `-` `/` `:`.
pub open spec fn stays(c: char) -> bool {
    ||| 97 <= c as int <= 122
    ||| 65 <= c as int <= 90
    ||| 48 <= c as int <= 57
    ||| c as int == 46
    ||| c as int == 95
    ||| c as int == 45
    ||| c as int == 47
    ||| c as int == 58
}

proof fn safe_chars_are_those_that_stay(s: Seq<char>)
    ensures
        safe_chars(s) == s.filter(|c: char| stays(c)),
    decreases s.len(),
{
    reveal(Seq::filter);
    if s.len() > 0 {
        safe_chars_are_those_that_stay(s.drop_last());
    }
}

/// A label is what stays of a text, in order, cut to 64 characters; a text of
/// which nothing stays is labelled `none`.
pub proof fn a_label_is_what_stays(raw: &str, r: String)
    requires
        call_ensures(sanitize_label, (raw,), r),
    ensures
        ({
            let kept = raw@.filter(|c: char| stays(c));
            &&& kept.len() == 0 ==> r@ == "none"@
            &&& 0 < kept.len() <= 64 ==> r@ == kept
            &&& kept.len() > 64 ==> r@ == kept.take(64)
        }),
{
    safe_chars_are_those_that_stay(raw@);
}

/// A label that was given before is given again; a new one is given and kept while
/// fewer than `cap` are, and after that new ones are all `other`, which is not
/// kept. Nothing that is kept is ever dropped.
pub proof fn labels_are_given_while_there_is_room(
    seen: &mut LabelSet,
    s: String,
    cap: usize,
    r: String,
    other: Seq<char>,
)
    requires
        call_ensures(bounded_label, (seen, s, cap), r),
    ensures
        old(seen)@.contains(s@) || old(seen)@.len() < cap ==> r@ == s@,
        !old(seen)@.contains(s@) && old(seen)@.len() >= cap ==> r@ == "other"@,
        final(seen)@.contains(s@) <==> old(seen)@.contains(s@) || old(seen)@.len() < cap,
        other != s@ ==> (final(seen)@.contains(other) <==> old(seen)@.contains(other)),
{
}

/// A model is labelled by its name made safe, while fewer than 256 models are.
pub proof fn a_model_is_labelled_by_its_name(
    seen: &mut LabelSet,
    raw: &str,
    r: String,
    safe: String,
)
    requires
        call_ensures(label_model, (seen, raw), r),
        call_ensures(sanitize_label, (raw,), safe),
    ensures
        old(seen)@.contains(safe@) || old(seen)@.len() < 256 ==> r@ == safe@
            && final(seen)@ == old(seen)@.insert(safe@),
        !old(seen)@.contains(safe@) && old(seen)@.len() >= 256 ==> r@ == "other"@
            && final(seen)@ == old(seen)@,
{
    if old(seen)@.contains(safe@) {
        assert(old(seen)@.insert(safe@) =~= old(seen)@);
    }
}

/// The five endpoints are labelled by their paths, and every other path alike; so
/// with the five ways of finishing.
pub proof fn only_known_names_are_labels(
    path: &str,
    path_name: String,
    raw: &str,
    finish: String,
)
    requires
        call_ensures(label_path, (path,), path_name),
        call_ensures(finish_label, (raw,), finish),
    ensures
        path@ == "/v1/chat/completions"@ || path@ == "/v1/completions"@ || path@
            == "/v1/embeddings"@ || path@ == "/v1/models"@ || path@ == "/v1/rankings"@ ==> path_name@
            == path@,
        path_name@ != path@ ==> path_name@ == "other"@,
        path@ != "/v1/chat/completions"@ && path@ != "/v1/completions"@ && path@
            != "/v1/embeddings"@ && path@ != "/v1/models"@ && path@ != "/v1/rankings"@
            ==> path_name@ == "other"@,
        raw@ == "stop"@ || raw@ == "length"@ || raw@ == "tool_calls"@ || raw@ == "content_filter"@
            || raw@ == "function_call"@ ==> finish@ == raw@,
        raw@ != "stop"@ && raw@ != "length"@ && raw@ != "tool_calls"@ && raw@ != "content_filter"@
            && raw@ != "function_call"@ ==> finish@ == "other"@,
{
}

/// A set of labels starts empty, holds what was added to it and nothing else, and
/// counts each label once.
pub proof fn a_label_set_holds_what_was_added(
    fresh: LabelSet,
    set: &mut LabelSet,
    label: String,
    before: usize,
    after: usize,
    probe: &str,
    found_before: bool,
    found_after: bool,
    found_fresh: bool,
)
    requires
        call_ensures(LabelSet::new, (), fresh),
        call_ensures(LabelSet::insert, (set, label), ()),
        call_ensures(LabelSet::len, (&*old(set),), before),
        call_ensures(LabelSet::len, (&*final(set),), after),
        call_ensures(LabelSet::contains, (&*old(set), probe), found_before),
        call_ensures(LabelSet::contains, (&*final(set), probe), found_after),
        call_ensures(LabelSet::contains, (&fresh, probe), found_fresh),
        old(set).wf(),
    ensures
        !found_fresh,
        probe@ == label@ ==> found_after,
        probe@ != label@ ==> found_after == found_before,
        probe@ == label@ && found_before ==> after == before,
        probe@ == label@ && !found_before ==> after == before + 1,
{
    if probe@ == label@ && found_before {
        assert(old(set)@.insert(label@) =~= old(set)@);
    }
}

} // verus!
